//! Integration layer for a BFT finality gadget: it maps authorities to dense
//! consensus indices, signs and authenticates protocol messages, frames them
//! for a single named network channel, and replays the ordering engine's
//! output into chain finalization calls. The ordering engine itself, the
//! network transport and the chain backend are outside collaborators; this
//! crate holds the orchestration logic around them.
use vstd::prelude::*;

pub mod communication;
pub mod crypto;
pub mod environment;
pub mod error;
pub mod party;
pub mod registry;

verus! {

/// Identifier of the signing scheme slot under which the epoch's
/// authority keys are stored, the four tag bytes packed little-endian.
pub const KEY_TYPE: u32 = 0x30706c61;

} // verus!
