//! Framed binary protocol between clients and the server.
//!
//! Wire format: `[packet_id: u8][payload_len: u16 BE][payload...]`.
pub mod error;
pub mod events;
pub mod io;
pub mod packet;
pub mod packet_id;
pub mod requests;
pub mod responses;
