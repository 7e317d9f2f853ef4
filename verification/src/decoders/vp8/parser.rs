//! What the decoder needs of a VP8 parser.
//!
//! Parsing itself is not part of this crate. The embedding program provides the parser
//! through the trait [`Parser`], and the decoder reads of a frame header what [`Header`]
//! holds.

use vstd::prelude::*;

verus! {

/// The part of a VP8 frame header that the decoder acts on.
#[derive(Clone, Copy, Debug, PartialEq, Eq, Structural, Default)]
pub struct Header {
    /// The frame starts a sequence and refers to no other frame.
    pub key_frame: bool,
    /// The frame is to be shown, not only kept as a reference.
    pub show_frame: bool,
    /// The width of the frame in pixels.
    pub width: u16,
    /// The height of the frame in pixels.
    pub height: u16,
    /// The frame becomes the last reference.
    pub refresh_last: bool,
    /// The frame becomes the golden reference.
    pub refresh_golden_frame: bool,
    /// The frame becomes the alternate reference.
    pub refresh_alternate_frame: bool,
    /// Which reference is copied to the golden reference, if the frame does not become it:
    /// 0 for none, 1 for the last, 2 for the alternate reference.
    pub copy_buffer_to_golden: u8,
    /// Which reference is copied to the alternate reference, if the frame does not become
    /// it: 0 for none, 1 for the last, 2 for the golden reference.
    pub copy_buffer_to_alternate: u8,
}

impl Header {
    /// Whether the frame starts a sequence.
    pub fn key_frame(&self) -> (key_frame: bool)
        ensures
            key_frame == self.key_frame,
    {
        self.key_frame
    }

    /// Whether the frame is to be shown.
    pub fn show_frame(&self) -> (show_frame: bool)
        ensures
            show_frame == self.show_frame,
    {
        self.show_frame
    }

    /// The width of the frame in pixels.
    pub fn width(&self) -> (width: u16)
        ensures
            width == self.width,
    {
        self.width
    }

    /// The height of the frame in pixels.
    pub fn height(&self) -> (height: u16)
        ensures
            height == self.height,
    {
        self.height
    }

    /// Whether the frame becomes the last reference.
    pub fn refresh_last(&self) -> (refresh: bool)
        ensures
            refresh == self.refresh_last,
    {
        self.refresh_last
    }

    /// Whether the frame becomes the golden reference.
    pub fn refresh_golden_frame(&self) -> (refresh: bool)
        ensures
            refresh == self.refresh_golden_frame,
    {
        self.refresh_golden_frame
    }

    /// Whether the frame becomes the alternate reference.
    pub fn refresh_alternate_frame(&self) -> (refresh: bool)
        ensures
            refresh == self.refresh_alternate_frame,
    {
        self.refresh_alternate_frame
    }

    /// Which reference is copied to the golden reference.
    pub fn copy_buffer_to_golden(&self) -> (source: u8)
        ensures
            source == self.copy_buffer_to_golden,
    {
        self.copy_buffer_to_golden
    }

    /// Which reference is copied to the alternate reference.
    pub fn copy_buffer_to_alternate(&self) -> (source: u8)
        ensures
            source == self.copy_buffer_to_alternate,
    {
        self.copy_buffer_to_alternate
    }
}

/// A parsed frame: its header, and the bytes that it was parsed from.
#[derive(Clone, Copy, Debug)]
pub struct Frame<'a> {
    /// The bytes of the frame.
    pub bitstream: &'a [u8],
    /// The header of the frame.
    pub header: Header,
}

/// A VP8 parser. It keeps the state that lasts from one frame to the next, so the frames
/// of a stream are parsed in their order.
///
/// Nothing is assumed of what a parser returns.
pub trait Parser {
    /// Parses the frame that `bitstream` holds.
    fn parse_frame<'a>(&mut self, bitstream: &'a [u8]) -> Result<Frame<'a>, String>;
}

} // verus!
