//! A seed-parameterised, exactly invertible obfuscation of byte buffers.
//!
//! The transform is a pipeline of circular bit rotations, bit reversals and
//! whole-buffer reversal and rotation. Each stage has an executable form and a
//! mathematical model over `Seq<u8>`, and the decrypting pipeline is proved to
//! undo the encrypting one for every buffer and every seed.
use vstd::prelude::*;

pub mod bits;
pub mod buffer;
pub mod engine;

verus! {

} // verus!
