//! A packet-processing core: a message buffer with offset-based reads,
//! writes and in-place resizing, and layered protocol views (Ethernet,
//! IPv4, IPv6, ICMP echo) that walk the same bytes as successively more
//! specific headers.

pub mod checksum;
pub mod endian;
pub mod ethernet;
pub mod icmp_v4;
pub mod icmp_v6;
pub mod ipv4;
pub mod ipv6;
pub mod mbuf;
pub mod postmark;
