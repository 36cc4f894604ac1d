//! Parsers for the protocol layers above the link layer.
pub mod ipv4;
pub mod udp;
