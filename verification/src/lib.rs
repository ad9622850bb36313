//! Off-chain companion library for a minimal on-chain account contract
//! ("the deck") that exposes four administrative operations through a
//! hand-packed calldata format.
//!
//! The library encodes operation values into calldata bytes, decodes
//! calldata bytes back into operation values, and derives the storage slot
//! identifiers under which the contract keeps its state. All byte layouts
//! are stated as specification functions over byte sequences, and the
//! executable encoders and decoders are proved against them.

pub mod decoder;
pub mod encoder;
pub mod error;
pub mod storage;
pub mod structures;
pub mod util;
