//! A two-party state-channel peer: the handshake that opens a channel, the
//! exclusive "potato" that orders every state change, the queues of local
//! intents that wait for it, and the BSON envelope that carries it all.
use vstd::prelude::*;

pub mod channel;
pub mod codec;
pub mod collaborators;
pub mod envelope;
pub mod game_id;
pub mod handler;
pub mod hashing;
pub mod keys;
pub mod pair;
pub mod protocol;
pub mod types;
pub mod wire;

verus! {

} // verus!
