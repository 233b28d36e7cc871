//! Wire formats and client-side logic of a voice chat application.
//!
//! `protocol` is the framed binary protocol (`[packet_id][payload_len][payload]`),
//! `common` the versioned TCP/UDP packets and payload helpers, `client` the
//! voice client's packet handling (the jitter buffer that reorders incoming
//! voice, the routing of voice datagrams to users, the numbering of outgoing
//! voice frames), `frontend`/`desktop` the state machines behind the
//! application's pages and handlers, and `music_bot` the rules by which the
//! music bot accepts and frames a WAV file.
use vstd::prelude::*;

pub mod client;
pub mod common;
pub mod desktop;
pub mod frontend;
pub mod music_bot;
pub mod protocol;
pub mod wire;

verus! {

} // verus!
