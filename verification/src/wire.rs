//! Framing: the eight-byte header of every message, the requests this client
//! sends, and the split of received bytes into header and body.
//!
//! A message is a header of two words followed by its body. The first word
//! is the id of the object that the message is addressed to. The second
//! holds the size of the whole message, header included, in its high half
//! and the opcode in its low half.

use crate::byte_order::{encode_u32, lemma_u32_value_of_bytes, u32_bytes, u32_value, ByteOrder};
use crate::error::WireError;
use crate::fields::{read_u32, u32_at};
use vstd::prelude::*;
use vstd::slice::slice_subrange;

verus! {

/// Bytes in a header.
pub const HEADER_LEN: usize = 8;

/// The id of the display, the one object that exists before any traffic.
pub const DISPLAY_ID: u32 = 1;

/// Opcode of the display's `sync` request.
pub const WL_DISPLAY_SYNC: u16 = 0;

/// Opcode of the display's `get_registry` request.
pub const WL_DISPLAY_GET_REGISTRY: u16 = 1;

/// The header of a message.
#[derive(Clone, Copy, Debug, PartialEq, Eq, Structural)]
pub struct MessageHeader {
    /// The object that the message is addressed to.
    pub object_id: u32,
    /// Bytes in the whole message, the header's eight included.
    pub size: u16,
    /// Which request or event of the object's interface this is.
    pub opcode: u16,
}

impl MessageHeader {
    /// A header counts at least its own eight bytes.
    pub open spec fn wf(self) -> bool {
        self.size >= 8
    }

    /// The second word of the header: size above, opcode below.
    pub open spec fn packed(self) -> u32 {
        (self.size * 65536 + self.opcode) as u32
    }

    /// The header that has `object_id` as its first and `word` as its second
    /// word.
    pub open spec fn unpacked(object_id: u32, word: u32) -> MessageHeader {
        MessageHeader { object_id, size: (word / 65536) as u16, opcode: (word % 65536) as u16 }
    }

    /// The eight bytes of the header.
    pub open spec fn wire_bytes(self, order: ByteOrder) -> Seq<u8> {
        u32_bytes(order, self.object_id) + u32_bytes(order, self.packed())
    }

    /// What the bytes that arrived for a header amount to. Only the first
    /// eight are looked at.
    pub open spec fn from_wire(order: ByteOrder, bytes: Seq<u8>) -> Result<
        MessageHeader,
        WireError,
    > {
        if bytes.len() == 0 {
            Err(WireError::ShortRead)
        } else if bytes.len() < 8 {
            Err(WireError::TruncatedStream)
        } else {
            let header = Self::unpacked(
                u32_value(order, bytes.subrange(0, 4)),
                u32_value(order, bytes.subrange(4, 8)),
            );
            if header.wf() {
                Ok(header)
            } else {
                Err(WireError::InvalidSize)
            }
        }
    }

    /// Bytes in the body of the message.
    pub open spec fn body_len_spec(self) -> nat {
        (self.size - 8) as nat
    }

    /// The header of a message to `object_id` with a body of `body_len`
    /// bytes; `None` when the size of the message does not fit the header.
    pub fn new(object_id: u32, opcode: u16, body_len: u16) -> (header: Option<MessageHeader>)
        ensures
            header == if body_len + 8 <= u16::MAX {
                Some(MessageHeader { object_id, size: (body_len + 8) as u16, opcode })
            } else {
                None::<MessageHeader>
            },
            header is Some ==> header->0.wf(),
    {
        if body_len <= u16::MAX - 8 {
            Some(MessageHeader { object_id, size: body_len + 8, opcode })
        } else {
            None
        }
    }

    /// Bytes in the body of the message.
    pub fn body_len(&self) -> (len: usize)
        requires
            self.wf(),
        ensures
            len == self.body_len_spec(),
    {
        (self.size - 8) as usize
    }

    /// Lays the header out in eight bytes.
    pub fn encode(&self, order: ByteOrder) -> (bytes: [u8; 8])
        ensures
            bytes@ == self.wire_bytes(order),
    {
        let size: u32 = self.size as u32;
        let opcode: u32 = self.opcode as u32;
        let word: u32 = (size << 16) | opcode;
        assert(word == size * 65536 + opcode) by (bit_vector)
            requires
                word == (size << 16) | opcode,
                size < 65536,
                opcode < 65536,
        ;
        let first: [u8; 4] = encode_u32(self.object_id, order);
        let second: [u8; 4] = encode_u32(word, order);
        let bytes: [u8; 8] = [
            first[0],
            first[1],
            first[2],
            first[3],
            second[0],
            second[1],
            second[2],
            second[3],
        ];
        assert(bytes@ =~= self.wire_bytes(order));
        bytes
    }

    /// Reads a header out of the bytes that arrived for it: `ShortRead` when
    /// none arrived, `TruncatedStream` when fewer than eight did,
    /// `InvalidSize` when the declared size is below eight.
    pub fn decode(bytes: &[u8], order: ByteOrder) -> (header: Result<MessageHeader, WireError>)
        ensures
            header == Self::from_wire(order, bytes@),
            header is Ok ==> header->Ok_0.wf(),
    {
        if bytes.len() == 0 {
            return Err(WireError::ShortRead);
        }
        if bytes.len() < HEADER_LEN {
            return Err(WireError::TruncatedStream);
        }
        let object_id: u32 = match read_u32(bytes, 0, order) {
            Ok(word) => word,
            Err(e) => {
                return Err(e);
            },
        };
        let word: u32 = match read_u32(bytes, 4, order) {
            Ok(word) => word,
            Err(e) => {
                return Err(e);
            },
        };
        let size: u16 = (word >> 16) as u16;
        let opcode: u16 = (word & 0xFFFF) as u16;
        assert(word >> 16 == word / 65536 && word & 0xFFFF == word % 65536) by (bit_vector);
        if size < 8 {
            return Err(WireError::InvalidSize);
        }
        Ok(MessageHeader { object_id, size, opcode })
    }
}

/// A header read back from its own eight bytes is the header that was laid
/// out.
pub proof fn lemma_header_round_trip(order: ByteOrder, header: MessageHeader)
    requires
        header.wf(),
    ensures
        header.wire_bytes(order).len() == 8,
        MessageHeader::from_wire(order, header.wire_bytes(order)) == Ok::<
            MessageHeader,
            WireError,
        >(header),
{
    let bytes = header.wire_bytes(order);
    lemma_u32_value_of_bytes(order, header.object_id);
    lemma_u32_value_of_bytes(order, header.packed());
    assert(bytes.subrange(0, 4) =~= u32_bytes(order, header.object_id));
    assert(bytes.subrange(4, 8) =~= u32_bytes(order, header.packed()));
    let word = header.packed();
    assert(word == header.size * 65536 + header.opcode);
    assert(word / 65536 == header.size);
    assert(word % 65536 == header.opcode);
}

/// The bytes of a message to `object_id` whose body is the one word
/// `argument`, or empty.
pub open spec fn message_bytes(
    order: ByteOrder,
    object_id: u32,
    opcode: u16,
    argument: Option<u32>,
) -> Seq<u8> {
    match argument {
        Some(word) => MessageHeader { object_id, size: 12, opcode }.wire_bytes(order) + u32_bytes(
            order,
            word,
        ),
        None => MessageHeader { object_id, size: 8, opcode }.wire_bytes(order),
    }
}

/// Builds a message to `object_id` whose body is the one word `argument`,
/// or empty.
pub fn encode_message(object_id: u32, opcode: u16, argument: Option<u32>, order: ByteOrder) -> (bytes:
    Vec<u8>)
    ensures
        bytes@ == message_bytes(order, object_id, opcode, argument),
{
    let size: u16 = match argument {
        Some(_) => 12,
        None => 8,
    };
    let header = MessageHeader { object_id, size, opcode };
    let head: [u8; 8] = header.encode(order);
    let mut bytes: Vec<u8> = Vec::with_capacity(12);
    let mut i: usize = 0;
    while i < 8
        invariant
            i <= 8,
            bytes@ == head@.subrange(0, i as int),
        decreases 8 - i,
    {
        bytes.push(head[i]);
        i += 1;
        assert(bytes@ =~= head@.subrange(0, i as int));
    }
    assert(bytes@ =~= header.wire_bytes(order));
    match argument {
        Some(word) => {
            let tail: [u8; 4] = encode_u32(word, order);
            bytes.push(tail[0]);
            bytes.push(tail[1]);
            bytes.push(tail[2]);
            bytes.push(tail[3]);
            assert(bytes@ =~= header.wire_bytes(order) + u32_bytes(order, word));
        },
        None => {},
    }
    bytes
}

/// Builds the `sync` request, which asks the display to answer on the new
/// callback object `callback_id`.
pub fn encode_sync(callback_id: u32, order: ByteOrder) -> (bytes: Vec<u8>)
    ensures
        bytes@ == message_bytes(order, DISPLAY_ID, WL_DISPLAY_SYNC, Some(callback_id)),
{
    encode_message(DISPLAY_ID, WL_DISPLAY_SYNC, Some(callback_id), order)
}

/// Builds the `get_registry` request, which asks the display to bind the
/// registry to the new object `registry_id`.
pub fn encode_get_registry(registry_id: u32, order: ByteOrder) -> (bytes: Vec<u8>)
    ensures
        bytes@ == message_bytes(order, DISPLAY_ID, WL_DISPLAY_GET_REGISTRY, Some(registry_id)),
{
    encode_message(DISPLAY_ID, WL_DISPLAY_GET_REGISTRY, Some(registry_id), order)
}

/// The body that `header` declares, out of the bytes that arrived after the
/// header. Bytes beyond the declared size belong to the next message.
pub open spec fn body_of(header: MessageHeader, rest: Seq<u8>) -> Result<Seq<u8>, WireError> {
    if rest.len() < header.body_len_spec() {
        Err(WireError::TruncatedBody)
    } else {
        Ok(rest.subrange(0, header.body_len_spec() as int))
    }
}

/// Takes the body that `header` declares from the bytes that arrived after
/// the header; `TruncatedBody` when fewer arrived than declared.
pub fn take_body<'a>(header: &MessageHeader, rest: &'a [u8]) -> (body: Result<&'a [u8], WireError>)
    requires
        header.wf(),
    ensures
        match body {
            Ok(bytes) => body_of(*header, rest@) == Ok::<Seq<u8>, WireError>(bytes@),
            Err(e) => body_of(*header, rest@) == Err::<Seq<u8>, WireError>(e),
        },
{
    let len: usize = header.body_len();
    if rest.len() < len {
        Err(WireError::TruncatedBody)
    } else {
        Ok(slice_subrange(rest, 0, len))
    }
}

/// Header and body of the message at the start of `bytes`.
pub open spec fn parsed_message(order: ByteOrder, bytes: Seq<u8>) -> Result<
    (MessageHeader, Seq<u8>),
    WireError,
> {
    match MessageHeader::from_wire(order, bytes) {
        Err(e) => Err(e),
        Ok(header) => match body_of(header, bytes.subrange(8, bytes.len() as int)) {
            Err(e) => Err(e),
            Ok(body) => Ok((header, body)),
        },
    }
}

/// Splits the message at the start of `bytes` into its header and its body.
/// Fails as `MessageHeader::decode` does on the header, and with
/// `TruncatedBody` when the bytes end before the declared size.
pub fn decode_message<'a>(bytes: &'a [u8], order: ByteOrder) -> (message: Result<
    (MessageHeader, &'a [u8]),
    WireError,
>)
    ensures
        match message {
            Ok((header, body)) => header.wf() && parsed_message(order, bytes@) == Ok::<
                (MessageHeader, Seq<u8>),
                WireError,
            >((header, body@)),
            Err(e) => parsed_message(order, bytes@) == Err::<(MessageHeader, Seq<u8>), WireError>(
                e,
            ),
        },
{
    let header: MessageHeader = match MessageHeader::decode(bytes, order) {
        Ok(header) => header,
        Err(e) => {
            return Err(e);
        },
    };
    let rest: &[u8] = slice_subrange(bytes, HEADER_LEN, bytes.len());
    match take_body(&header, rest) {
        Ok(body) => Ok((header, body)),
        Err(e) => Err(e),
    }
}

/// A request with one argument, taken apart again, gives back the object it
/// was addressed to, its opcode, a size of twelve and the argument.
pub proof fn lemma_request_round_trip(order: ByteOrder, object_id: u32, opcode: u16, argument: u32)
    ensures
        ({
            let bytes = message_bytes(order, object_id, opcode, Some(argument));
            let header = MessageHeader { object_id, size: 12, opcode };
            &&& bytes.len() == 12
            &&& parsed_message(order, bytes) == Ok::<(MessageHeader, Seq<u8>), WireError>(
                (header, u32_bytes(order, argument)),
            )
            &&& u32_at(order, u32_bytes(order, argument), 0) == Ok::<u32, WireError>(argument)
        }),
{
    let header = MessageHeader { object_id, size: 12, opcode };
    let head = header.wire_bytes(order);
    let tail = u32_bytes(order, argument);
    let bytes = message_bytes(order, object_id, opcode, Some(argument));
    lemma_header_round_trip(order, header);
    lemma_u32_value_of_bytes(order, argument);
    assert(bytes.subrange(0, 4) =~= head.subrange(0, 4));
    assert(bytes.subrange(4, 8) =~= head.subrange(4, 8));
    assert(bytes.subrange(8, 12).subrange(0, 4) =~= tail);
    assert(tail.subrange(0, 4) =~= tail);
}

/// The `sync` request, taken apart again, is addressed to the display, has
/// opcode 0 and size 12, and carries the id of the callback.
pub proof fn lemma_sync_round_trip(order: ByteOrder, callback_id: u32)
    ensures
        ({
            let bytes = message_bytes(order, DISPLAY_ID, WL_DISPLAY_SYNC, Some(callback_id));
            let header = MessageHeader { object_id: 1, size: 12, opcode: 0 };
            &&& parsed_message(order, bytes) == Ok::<(MessageHeader, Seq<u8>), WireError>(
                (header, u32_bytes(order, callback_id)),
            )
            &&& u32_at(order, u32_bytes(order, callback_id), 0) == Ok::<u32, WireError>(
                callback_id,
            )
        }),
{
    lemma_request_round_trip(order, DISPLAY_ID, WL_DISPLAY_SYNC, callback_id);
}

} // verus!
