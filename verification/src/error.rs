//! What can go wrong while bytes are taken apart.

use vstd::prelude::*;

verus! {

/// A failure to read a header, a body or a field out of the bytes at hand.
#[derive(Clone, Copy, Debug, PartialEq, Eq, Structural)]
pub enum WireError {
    /// No byte of a header was there: the peer has closed the stream between
    /// two messages.
    ShortRead,
    /// Some bytes of a header were there, but fewer than eight.
    TruncatedStream,
    /// The header declares a size below the eight bytes of the header itself.
    InvalidSize,
    /// Fewer body bytes were there than the header declares.
    TruncatedBody,
    /// A four-byte field does not lie inside the buffer.
    OutOfBounds,
}

} // verus!
