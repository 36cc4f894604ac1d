# packet_engine

Verified zero-copy parsers for captured network traffic: the libpcap global
header and packet records, Ethernet II frames, IPv4 headers and UDP headers.

- `src/lib.rs`: `MacAddress`, `EtherType` and its conversions, `EthernetHeader`.
- `src/bytes.rs`: big- and little-endian integers read from byte strings.
- `src/layers/ipv4.rs`, `src/layers/udp.rs`: the network and transport layers.
- `src/pcap/reader.rs`: the capture file's global header and record reader.
- `app/main.rs`: a command-line dump of a capture file, layer by layer.

Each parser's contract states when it succeeds, the exact error otherwise, every
decoded field and the payload slice it returns; the laws (uniqueness of decoding,
independence from trailing bytes, conversion round trips) are proof functions
beside the parsers.
