//! What an incoming message means: the events this client understands, read
//! out of a message body and filed in the catalog.
//!
//! The body of the registry's `global` event is a word with the name of the
//! global, a word with the length of the string that follows, the name of
//! the interface as a zero-terminated string padded to a multiple of four
//! bytes, and a word with the version.

use crate::byte_order::{lemma_u32_value_of_bytes, u32_bytes, ByteOrder};
use crate::catalog::{
    lemma_last_announcement_wins,
    EntryModel,
    InterfaceCatalog,
    RegistryEntry,
};
use crate::fields::{
    align4,
    align4_spec,
    lemma_align4,
    read_nul_terminated_string,
    read_u32,
    string_at,
    string_bytes,
    terminator_index,
    u32_at,
};
use crate::objects::{InterfaceTag, ObjectTable, TableModel};
use crate::text::utf8_lossy_text;
use crate::wire::MessageHeader;
use vstd::prelude::*;

verus! {

/// Opcode of the registry's `global` event.
pub const WL_REGISTRY_GLOBAL: u16 = 0;

/// Opcode of a callback's `done` event.
pub const WL_CALLBACK_DONE: u16 = 0;

/// Where the interface string of a `global` event starts: behind the name
/// and the length of the string.
pub const GLOBAL_STRING_OFFSET: usize = 8;

/// The kind of an incoming message, told from the interface of the object
/// it is addressed to and from its opcode.
#[derive(Clone, Copy, Debug, PartialEq, Eq, Structural)]
pub enum MessageKind {
    /// The registry announces a global.
    Global,
    /// A callback has fired.
    Done,
    /// Anything else.
    Unhandled,
}

/// What became of an incoming message.
#[derive(Clone, Copy, Debug, PartialEq, Eq, Structural)]
pub enum Handled {
    /// A global was filed in the catalog under this name.
    Global(u32),
    /// A callback has fired: the peer has worked through everything sent
    /// before the `sync` request.
    Done,
    /// A `global` event whose body is too short to hold the name of the
    /// global. Nothing was filed.
    MalformedField,
    /// A message to an object that is not live, or with an opcode that this
    /// client does not know for the object's interface.
    UnhandledMessage,
}

/// The kind of a message with `opcode` to an object with `tag`.
pub open spec fn kind_of(tag: InterfaceTag, opcode: u16) -> MessageKind {
    if tag == InterfaceTag::Registry && opcode == WL_REGISTRY_GLOBAL {
        MessageKind::Global
    } else if tag == InterfaceTag::Callback && opcode == WL_CALLBACK_DONE {
        MessageKind::Done
    } else {
        MessageKind::Unhandled
    }
}

/// Tells the kind of a message with `opcode` to an object with `tag`.
pub fn classify(tag: InterfaceTag, opcode: u16) -> (kind: MessageKind)
    ensures
        kind == kind_of(tag, opcode),
{
    match tag {
        InterfaceTag::Registry => if opcode == WL_REGISTRY_GLOBAL {
            MessageKind::Global
        } else {
            MessageKind::Unhandled
        },
        InterfaceTag::Callback => if opcode == WL_CALLBACK_DONE {
            MessageKind::Done
        } else {
            MessageKind::Unhandled
        },
        _ => MessageKind::Unhandled,
    }
}

/// Where the version of a `global` event starts: on the first four-byte
/// boundary behind the terminator of the interface string.
pub open spec fn global_version_offset(body: Seq<u8>) -> int {
    align4_spec((terminator_index(body, 8) + 1) as nat) as int
}

/// The version of a `global` event; 0 when the body ends before it.
pub open spec fn global_version(order: ByteOrder, body: Seq<u8>) -> u32 {
    match u32_at(order, body, global_version_offset(body)) {
        Ok(version) => version,
        Err(_) => 0,
    }
}

/// The entry that a `global` event announces; `None` when the body is too
/// short to hold the name of the global. An interface string that the body
/// does not reach is empty, and one without a terminator runs to the end of
/// the body.
pub open spec fn global_entry(order: ByteOrder, body: Seq<u8>) -> Option<EntryModel> {
    match u32_at(order, body, 0) {
        Ok(name) => Some(
            EntryModel {
                name,
                interface: string_at(body, 8),
                version: global_version(order, body),
            },
        ),
        Err(_) => None,
    }
}

/// Reads the version of a `global` event whose interface string stops at
/// `end`.
fn read_global_version(body: &[u8], end: usize, order: ByteOrder) -> (version: u32)
    requires
        end == terminator_index(body@, 8),
    ensures
        version == global_version(order, body@),
{
    let len: usize = body.len();
    proof {
        lemma_align4((end + 1) as nat);
    }
    if end >= len || len - end < 5 {
        return 0;
    }
    match read_u32(body, align4(end + 1), order) {
        Ok(version) => version,
        Err(_) => 0,
    }
}

/// Reads the body of a `global` event; `None` when it is too short to hold
/// the name of the global.
pub fn parse_global(body: &[u8], order: ByteOrder) -> (entry: Option<RegistryEntry>)
    ensures
        match entry {
            Some(found) => global_entry(order, body@) == Some(found@),
            None => global_entry(order, body@) is None,
        },
{
    let name: u32 = match read_u32(body, 0, order) {
        Ok(name) => name,
        Err(_) => {
            return None;
        },
    };
    let (interface, end) = read_nul_terminated_string(body, GLOBAL_STRING_OFFSET);
    let version: u32 = read_global_version(body, end, order);
    Some(RegistryEntry { name, interface, version })
}

/// A body that stops short of the version still announces its global, with
/// version 0.
pub proof fn lemma_missing_version_is_zero(order: ByteOrder, body: Seq<u8>)
    requires
        body.len() >= 4,
        global_version_offset(body) + 4 > body.len(),
    ensures
        global_entry(order, body) is Some,
        global_entry(order, body)->0.version == 0,
{
}

/// The body of a `global` event that announces `name` with the interface
/// spelled by `text` and with `version`.
pub open spec fn global_body(order: ByteOrder, name: u32, text: Seq<u8>, version: u32) -> Seq<u8> {
    let padded = align4_spec(text.len() + 1);
    u32_bytes(order, name) + u32_bytes(order, (text.len() + 1) as u32) + text + Seq::new(
        (padded - text.len()) as nat,
        |i: int| 0u8,
    ) + u32_bytes(order, version)
}

/// Reading a well-formed `global` body gives back the name, the text of the
/// interface and the version that it was built from.
pub proof fn lemma_global_round_trip(order: ByteOrder, name: u32, text: Seq<u8>, version: u32)
    requires
        forall|i: int| 0 <= i < text.len() ==> text[i] != 0,
    ensures
        global_entry(order, global_body(order, name, text, version)) == Some(
            EntryModel { name, interface: utf8_lossy_text(text), version },
        ),
{
    let body = global_body(order, name, text, version);
    let n = text.len() as int;
    let padded = align4_spec(text.len() + 1) as int;
    lemma_u32_value_of_bytes(order, name);
    lemma_u32_value_of_bytes(order, (text.len() + 1) as u32);
    lemma_u32_value_of_bytes(order, version);
    assert(body.len() == 8 + padded + 4);
    assert(body.subrange(0, 4) =~= u32_bytes(order, name));
    assert forall|i: int| 8 <= i < 8 + n implies body[i] != 0 by {
        assert(body[i] == text[i - 8]);
    }
    assert(body[8 + n] == 0);
    lemma_scan_stops(body, 8, 8 + n);
    assert(string_bytes(body, 8) =~= text);
    assert(global_version_offset(body) == 8 + padded);
    assert(body.subrange(8 + padded, 8 + padded + 4) =~= u32_bytes(order, version));
}

/// A scan over non-zero bytes stops at the first zero byte.
proof fn lemma_scan_stops(buf: Seq<u8>, offset: int, end: int)
    requires
        0 <= offset <= end < buf.len(),
        forall|i: int| offset <= i < end ==> buf[i] != 0,
        buf[end] == 0,
    ensures
        terminator_index(buf, offset) == end,
    decreases end - offset,
{
    if offset < end {
        lemma_scan_stops(buf, offset + 1, end);
    }
}

/// What a message does to the catalog, and what is reported of it.
pub open spec fn dispatched(
    objects: TableModel,
    catalog: Map<u32, EntryModel>,
    header: MessageHeader,
    body: Seq<u8>,
    order: ByteOrder,
) -> (Map<u32, EntryModel>, Handled) {
    match kind_of(objects.lookup(header.object_id), header.opcode) {
        MessageKind::Global => match global_entry(order, body) {
            Some(entry) => (catalog.insert(entry.name, entry), Handled::Global(entry.name)),
            None => (catalog, Handled::MalformedField),
        },
        MessageKind::Done => (catalog, Handled::Done),
        MessageKind::Unhandled => (catalog, Handled::UnhandledMessage),
    }
}

/// Handles one incoming message. A `global` event of the registry files its
/// global in the catalog; nothing else touches the catalog.
pub fn dispatch(
    objects: &ObjectTable,
    catalog: &mut InterfaceCatalog,
    header: &MessageHeader,
    body: &[u8],
    order: ByteOrder,
) -> (handled: Handled)
    requires
        objects.wf(),
        old(catalog).wf(),
    ensures
        final(catalog).wf(),
        (final(catalog)@, handled) == dispatched(objects@, old(catalog)@, *header, body@, order),
{
    match classify(objects.lookup(header.object_id), header.opcode) {
        MessageKind::Global => match parse_global(body, order) {
            Some(entry) => {
                let name: u32 = entry.name;
                catalog.upsert(name, entry.interface, entry.version);
                Handled::Global(name)
            },
            None => Handled::MalformedField,
        },
        MessageKind::Done => Handled::Done,
        MessageKind::Unhandled => Handled::UnhandledMessage,
    }
}

/// A message to an id that is not live is left unhandled and leaves the
/// catalog as it is, whatever its opcode and body.
pub proof fn lemma_unknown_object_is_unhandled(
    objects: TableModel,
    catalog: Map<u32, EntryModel>,
    header: MessageHeader,
    body: Seq<u8>,
    order: ByteOrder,
)
    requires
        !objects.tags.contains_key(header.object_id),
    ensures
        dispatched(objects, catalog, header, body, order) == (catalog, Handled::UnhandledMessage),
{
}

/// When the registry announces a name a second time, the catalog holds what
/// the second announcement said and no entry more than after the first.
pub proof fn lemma_second_global_overwrites(
    objects: TableModel,
    catalog: Map<u32, EntryModel>,
    first: MessageHeader,
    first_body: Seq<u8>,
    second: MessageHeader,
    second_body: Seq<u8>,
    order: ByteOrder,
)
    requires
        catalog.dom().finite(),
        kind_of(objects.lookup(first.object_id), first.opcode) == MessageKind::Global,
        kind_of(objects.lookup(second.object_id), second.opcode) == MessageKind::Global,
        global_entry(order, first_body) is Some,
        global_entry(order, second_body) is Some,
        global_entry(order, first_body)->0.name == global_entry(order, second_body)->0.name,
    ensures
        ({
            let entry = global_entry(order, second_body)->0;
            let once = dispatched(objects, catalog, first, first_body, order).0;
            let twice = dispatched(objects, once, second, second_body, order).0;
            &&& twice == catalog.insert(entry.name, entry)
            &&& twice[entry.name] == entry
            &&& twice.len() == once.len()
        }),
{
    lemma_last_announcement_wins(
        catalog,
        global_entry(order, first_body)->0,
        global_entry(order, second_body)->0,
    );
}

} // verus!
