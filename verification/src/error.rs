//! The errors a parse can end in.
use vstd::prelude::*;

verus! {

/// Why a read, a seek or a box parse failed.
#[derive(Clone, Copy, Debug, PartialEq, Eq)]
pub enum ParseError {
    /// A box declared fewer than eight bytes, or carried a tag its parser does not accept.
    /// `tag` is the tag of the offending box.
    InvalidData { tag: [u8; 4] },
    /// A read would have ended past the active limit.
    OutOfBounds,
    /// A child that may occur once occurred a second time.
    AlreadyPresent,
    /// A required child was missing when its parent was completed.
    NotFound { field: &'static str },
    /// A read would have ended past the last byte of the stream.
    UnexpectedEof,
    /// A seek would have left the range of stream offsets.
    InvalidSeek,
}

} // verus!
