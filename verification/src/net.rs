//! Interfaces with their addresses; the address encodings are those of
//! `network`.
use vstd::prelude::*;

pub use crate::network::{bytes_to_ip, ip_to_bytes};

verus! {

/// An interface with its addresses.
pub struct Interface {
    pub index: u32,
    pub ipv4_addr: Vec<[u8; 4]>,
    pub ipv6_addr: Vec<[u8; 16]>,
    pub mac_addr: Option<[u8; 6]>,
}

} // verus!
