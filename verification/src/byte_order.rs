//! Packing of 32-bit words into bytes, in either byte order.

use vstd::prelude::*;

verus! {

/// The order in which the four bytes of a word travel.
#[derive(Clone, Copy, Debug, PartialEq, Eq, Structural)]
pub enum ByteOrder {
    /// Least significant byte first.
    Little,
    /// Most significant byte first.
    Big,
}

/// The four bytes that carry `x` in the given order.
pub open spec fn u32_bytes(order: ByteOrder, x: u32) -> Seq<u8> {
    let b0 = (x % 256) as u8;
    let b1 = (x / 256 % 256) as u8;
    let b2 = (x / 65536 % 256) as u8;
    let b3 = (x / 16777216) as u8;
    match order {
        ByteOrder::Little => seq![b0, b1, b2, b3],
        ByteOrder::Big => seq![b3, b2, b1, b0],
    }
}

/// The word that the first four bytes of `bytes` carry in the given order.
pub open spec fn u32_value(order: ByteOrder, bytes: Seq<u8>) -> u32
    recommends
        bytes.len() >= 4,
{
    match order {
        ByteOrder::Little => (bytes[0] + 256 * bytes[1] + 65536 * bytes[2] + 16777216
            * bytes[3]) as u32,
        ByteOrder::Big => (bytes[3] + 256 * bytes[2] + 65536 * bytes[1] + 16777216
            * bytes[0]) as u32,
    }
}

/// Unpacking what was packed gives the word back.
pub proof fn lemma_u32_value_of_bytes(order: ByteOrder, x: u32)
    ensures
        u32_bytes(order, x).len() == 4,
        u32_value(order, u32_bytes(order, x)) == x,
{
}

/// Packing what was unpacked gives the four bytes back.
pub proof fn lemma_u32_bytes_of_value(order: ByteOrder, bytes: Seq<u8>)
    requires
        bytes.len() == 4,
    ensures
        u32_bytes(order, u32_value(order, bytes)) == bytes,
{
    let x = u32_value(order, bytes);
    let (b0, b1, b2, b3) = match order {
        ByteOrder::Little => (bytes[0], bytes[1], bytes[2], bytes[3]),
        ByteOrder::Big => (bytes[3], bytes[2], bytes[1], bytes[0]),
    };
    lemma_digits(b0, b1, b2, b3);
    assert(u32_bytes(order, x) =~= bytes);
}

/// The base-256 digits of a word built from four digits are those digits.
proof fn lemma_digits(b0: u8, b1: u8, b2: u8, b3: u8)
    ensures
        ({
            let x = b0 + 256 * b1 + 65536 * b2 + 16777216 * b3;
            &&& 0 <= x <= u32::MAX
            &&& x % 256 == b0
            &&& x / 256 % 256 == b1
            &&& x / 65536 % 256 == b2
            &&& x / 16777216 == b3
        }),
{
    let x = b0 + 256 * b1 + 65536 * b2 + 16777216 * b3;
    let q1 = b1 + 256 * b2 + 65536 * b3;
    let q2 = b2 + 256 * b3;
    assert(x == 256 * q1 + b0);
    assert(x / 256 == q1);
    assert(x == 65536 * q2 + (b0 + 256 * b1));
    assert(x / 65536 == q2);
    assert(x == 16777216 * b3 + (b0 + 256 * b1 + 65536 * b2));
    assert(x / 16777216 == b3);
}

/// Calls `u32::to_ne_bytes`, which lays the word out as the machine keeps it
/// in memory. Trusted: the result is the little-endian or the big-endian
/// layout of `x`; which of the two depends on the machine.
#[verifier::external_body]
fn memory_layout(x: u32) -> (bytes: [u8; 4])
    ensures
        bytes@ == u32_bytes(ByteOrder::Little, x) || bytes@ == u32_bytes(ByteOrder::Big, x),
{
    x.to_ne_bytes()
}

impl ByteOrder {
    /// Tells the byte order from the layout of the number one: the byte that
    /// holds the one is the least significant.
    pub fn of_layout_of_one(layout: [u8; 4]) -> (order: Option<ByteOrder>)
        ensures
            order == if layout@ == u32_bytes(ByteOrder::Little, 1) {
                Some(ByteOrder::Little)
            } else if layout@ == u32_bytes(ByteOrder::Big, 1) {
                Some(ByteOrder::Big)
            } else {
                None::<ByteOrder>
            },
    {
        if layout[0] == 1 && layout[1] == 0 && layout[2] == 0 && layout[3] == 0 {
            assert(layout@ =~= u32_bytes(ByteOrder::Little, 1));
            Some(ByteOrder::Little)
        } else if layout[0] == 0 && layout[1] == 0 && layout[2] == 0 && layout[3] == 1 {
            assert(layout@ =~= u32_bytes(ByteOrder::Big, 1));
            Some(ByteOrder::Big)
        } else {
            None
        }
    }

    /// The byte order of the machine that runs this code, which is the order
    /// of every word on the wire.
    pub fn native() -> (order: ByteOrder) {
        match ByteOrder::of_layout_of_one(memory_layout(1)) {
            Some(order) => order,
            None => ByteOrder::Little,
        }
    }
}

/// Packs `x` into four bytes.
pub fn encode_u32(x: u32, order: ByteOrder) -> (bytes: [u8; 4])
    ensures
        bytes@ == u32_bytes(order, x),
{
    let b0: u8 = (x % 256) as u8;
    let b1: u8 = (x / 256 % 256) as u8;
    let b2: u8 = (x / 65536 % 256) as u8;
    let b3: u8 = (x / 16777216) as u8;
    let bytes: [u8; 4] = match order {
        ByteOrder::Little => [b0, b1, b2, b3],
        ByteOrder::Big => [b3, b2, b1, b0],
    };
    assert(bytes@ =~= u32_bytes(order, x));
    bytes
}

} // verus!
