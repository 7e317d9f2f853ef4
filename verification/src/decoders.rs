//! The decoders, one module per codec, and what they share.

use vstd::prelude::*;

pub mod vp8;

verus! {

/// Whether a decoder waits for the hardware.
#[derive(Clone, Copy, Debug, PartialEq, Eq, Structural)]
pub enum BlockingMode {
    /// Every operation returns when the hardware is done with it.
    Blocking,
    /// Operations return at once, and frames become ready later.
    NonBlocking,
}

} // verus!
