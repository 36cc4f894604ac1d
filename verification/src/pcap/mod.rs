//! The libpcap capture file format.
pub mod reader;
