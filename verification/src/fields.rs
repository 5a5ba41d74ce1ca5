//! Fields of a message body: words, terminated strings, and the four-byte
//! boundaries between them.

use crate::byte_order::{u32_value, ByteOrder};
use crate::error::WireError;
use crate::text::{decode_utf8_lossy, utf8_lossy_text};
use vstd::prelude::*;
use vstd::slice::slice_subrange;

verus! {

/// The least multiple of four that is not below `offset`.
pub open spec fn align4_spec(offset: nat) -> nat {
    (((offset + 3) / 4) * 4) as nat
}

/// Rounding up lands on a multiple of four, at most three above the offset,
/// and stays where it is when applied again.
pub proof fn lemma_align4(offset: nat)
    ensures
        align4_spec(offset) >= offset,
        align4_spec(offset) - offset < 4,
        align4_spec(offset) % 4 == 0,
        align4_spec(align4_spec(offset)) == align4_spec(offset),
{
}

/// Rounds `offset` up to the next multiple of four, the boundary on which
/// every field of a message starts.
pub fn align4(offset: usize) -> (aligned: usize)
    requires
        align4_spec(offset as nat) <= usize::MAX,
    ensures
        aligned == align4_spec(offset as nat),
        aligned >= offset,
        aligned % 4 == 0,
{
    let rest: usize = offset % 4;
    if rest == 0 {
        offset
    } else {
        offset + (4 - rest)
    }
}

/// The word at `offset` in `buf`, when its four bytes lie inside the buffer.
pub open spec fn u32_at(order: ByteOrder, buf: Seq<u8>, offset: int) -> Result<u32, WireError> {
    if 0 <= offset && offset + 4 <= buf.len() {
        Ok(u32_value(order, buf.subrange(offset, offset + 4)))
    } else {
        Err(WireError::OutOfBounds)
    }
}

/// Unpacks four bytes into a word.
pub fn decode_u32(bytes: [u8; 4], order: ByteOrder) -> (value: u32)
    ensures
        value == u32_value(order, bytes@),
{
    let (b0, b1, b2, b3) = match order {
        ByteOrder::Little => (bytes[0], bytes[1], bytes[2], bytes[3]),
        ByteOrder::Big => (bytes[3], bytes[2], bytes[1], bytes[0]),
    };
    b0 as u32 + 256 * (b1 as u32) + 65536 * (b2 as u32) + 16777216 * (b3 as u32)
}

/// Reads the word at `offset`; `OutOfBounds` when fewer than four bytes
/// follow the offset.
pub fn read_u32(buf: &[u8], offset: usize, order: ByteOrder) -> (word: Result<u32, WireError>)
    ensures
        word == u32_at(order, buf@, offset as int),
{
    let len: usize = buf.len();
    if offset > len || len - offset < 4 {
        return Err(WireError::OutOfBounds);
    }
    let bytes: [u8; 4] = [buf[offset], buf[offset + 1], buf[offset + 2], buf[offset + 3]];
    assert(bytes@ =~= buf@.subrange(offset as int, offset + 4));
    Ok(decode_u32(bytes, order))
}

/// Where a scan for a zero byte that starts at `offset` stops: at the first
/// zero byte from there on, or at the end of the buffer when there is none.
/// A scan that starts beyond the buffer stops where it starts.
pub open spec fn terminator_index(buf: Seq<u8>, offset: int) -> int
    decreases buf.len() - offset,
{
    if offset < 0 || offset >= buf.len() || buf[offset] == 0 {
        offset
    } else {
        terminator_index(buf, offset + 1)
    }
}

/// The scan passes over non-zero bytes only, and stops inside the buffer
/// only at a zero byte.
pub proof fn lemma_terminator_index(buf: Seq<u8>, offset: int)
    requires
        0 <= offset,
    ensures
        offset <= terminator_index(buf, offset),
        offset <= buf.len() ==> terminator_index(buf, offset) <= buf.len(),
        offset >= buf.len() ==> terminator_index(buf, offset) == offset,
        forall|i: int| offset <= i < terminator_index(buf, offset) ==> buf[i] != 0,
        terminator_index(buf, offset) < buf.len() ==> buf[terminator_index(buf, offset)] == 0,
    decreases buf.len() - offset,
{
    if offset < buf.len() && buf[offset] != 0 {
        lemma_terminator_index(buf, offset + 1);
    }
}

/// Scans forward from `offset` for the zero byte that ends a string.
pub fn find_terminator(buf: &[u8], offset: usize) -> (end: usize)
    ensures
        end == terminator_index(buf@, offset as int),
        offset <= end,
        offset <= buf@.len() ==> end <= buf@.len(),
        forall|i: int| offset <= i < end ==> buf@[i] != 0,
        end < buf@.len() ==> buf@[end as int] == 0,
{
    let mut end: usize = offset;
    while end < buf.len() && buf[end] != 0
        invariant
            offset <= end,
            offset <= buf@.len() ==> end <= buf@.len(),
            terminator_index(buf@, offset as int) == terminator_index(buf@, end as int),
        decreases buf@.len() - end,
    {
        end += 1;
    }
    proof {
        lemma_terminator_index(buf@, offset as int);
    }
    end
}

/// The bytes of the string that starts at `offset`: those before its
/// terminator, none when the offset lies at or beyond the end of the buffer.
pub open spec fn string_bytes(buf: Seq<u8>, offset: int) -> Seq<u8> {
    if 0 <= offset < buf.len() {
        buf.subrange(offset, terminator_index(buf, offset))
    } else {
        Seq::empty()
    }
}

/// The text of the string that starts at `offset`, with ill-formed UTF-8
/// replaced.
pub open spec fn string_at(buf: Seq<u8>, offset: int) -> Seq<char> {
    if 0 <= offset < buf.len() {
        utf8_lossy_text(string_bytes(buf, offset))
    } else {
        Seq::empty()
    }
}

/// Reads the string that starts at `offset` and runs up to a zero byte or,
/// failing that, the end of the buffer. Returns the text and the index at
/// which the scan stopped. A start at or beyond the end of the buffer gives
/// the empty text.
pub fn read_nul_terminated_string(buf: &[u8], offset: usize) -> (found: (String, usize))
    ensures
        found.0@ == string_at(buf@, offset as int),
        found.1 == terminator_index(buf@, offset as int),
{
    let end: usize = find_terminator(buf, offset);
    if offset >= buf.len() {
        (String::new(), end)
    } else {
        (decode_utf8_lossy(slice_subrange(buf, offset, end)), end)
    }
}

} // verus!
