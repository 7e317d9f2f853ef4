//! Interfaces shared by every decoder.

use vstd::prelude::*;

pub mod stateless;

verus! {

/// What a decoder reports to its client between two calls of `decode`.
///
/// `Hint` describes the stream whose format can be negotiated, and `Handle` is the handle to
/// a decoded frame.
pub enum DecoderEvent<Hint, Handle> {
    /// A new sequence has started. The client may change the format that frames are
    /// handed out in, with a format negotiator made for the stream that `Hint` describes.
    FormatChanged(Hint),
    /// A frame is ready to be shown.
    FrameReady(Handle),
}

} // verus!
