//! Capture and bookkeeping logic of a LAN traffic capture tool: decoding of
//! Ethernet frames into IP and ARP captures, address encodings, the write
//! buffer policy of the capture database, and the settings model.

pub mod application_state;
pub mod cap_db;
pub mod clock;
pub mod database;
pub mod ip;
pub mod net;
pub mod packet_cap;
pub mod pkt_cap;
pub mod network;
pub mod settings;
pub mod text;
pub mod wire;
