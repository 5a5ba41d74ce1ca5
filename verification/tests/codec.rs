use wayland_probe::byte_order::{encode_u32, ByteOrder};
use wayland_probe::error::WireError;
use wayland_probe::fields::{
    align4, decode_u32, find_terminator, read_nul_terminated_string, read_u32,
};
use wayland_probe::wire::{
    decode_message, encode_get_registry, encode_message, encode_sync, take_body, MessageHeader,
    DISPLAY_ID, HEADER_LEN, WL_DISPLAY_GET_REGISTRY, WL_DISPLAY_SYNC,
};

#[test]
fn u32_little_endian_bytes() {
    assert_eq!(encode_u32(0x0102_0304, ByteOrder::Little), [4, 3, 2, 1]);
    assert_eq!(encode_u32(0, ByteOrder::Little), [0, 0, 0, 0]);
    assert_eq!(encode_u32(u32::MAX, ByteOrder::Little), [255, 255, 255, 255]);
}

#[test]
fn u32_big_endian_bytes() {
    assert_eq!(encode_u32(0x0102_0304, ByteOrder::Big), [1, 2, 3, 4]);
    assert_eq!(encode_u32(12, ByteOrder::Big), [0, 0, 0, 12]);
}

#[test]
fn u32_unpacks_what_was_packed() {
    for x in [0u32, 1, 255, 256, 65_535, 65_536, 0x00FF_FFFF, 0x0100_0000, 0xDEAD_BEEF, u32::MAX] {
        for order in [ByteOrder::Little, ByteOrder::Big] {
            assert_eq!(decode_u32(encode_u32(x, order), order), x);
        }
    }
}

#[test]
fn u32_packs_what_was_unpacked() {
    let bytes = [0x12u8, 0x00, 0xFF, 0x80];
    for order in [ByteOrder::Little, ByteOrder::Big] {
        assert_eq!(encode_u32(decode_u32(bytes, order), order), bytes);
    }
    assert_eq!(decode_u32(bytes, ByteOrder::Little), 0x80FF_0012);
    assert_eq!(decode_u32(bytes, ByteOrder::Big), 0x1200_FF80);
}

#[test]
fn native_order_is_the_machines() {
    let order = ByteOrder::native();
    assert_eq!(encode_u32(0x0102_0304, order), 0x0102_0304u32.to_ne_bytes());
    assert_eq!(decode_u32([1, 2, 3, 4], order), u32::from_ne_bytes([1, 2, 3, 4]));
}

#[test]
fn byte_order_from_layout_of_one() {
    assert_eq!(ByteOrder::of_layout_of_one([1, 0, 0, 0]), Some(ByteOrder::Little));
    assert_eq!(ByteOrder::of_layout_of_one([0, 0, 0, 1]), Some(ByteOrder::Big));
    assert_eq!(ByteOrder::of_layout_of_one([0, 1, 0, 0]), None);
    assert_eq!(ByteOrder::of_layout_of_one([1, 0, 0, 1]), None);
    assert_eq!(ByteOrder::of_layout_of_one([0, 0, 0, 0]), None);
}

#[test]
fn align4_exact_values() {
    assert_eq!(align4(0), 0);
    assert_eq!(align4(1), 4);
    assert_eq!(align4(2), 4);
    assert_eq!(align4(3), 4);
    assert_eq!(align4(4), 4);
    assert_eq!(align4(5), 8);
    assert_eq!(align4(15), 16);
    assert_eq!(align4(16), 16);
    assert_eq!(align4(usize::MAX - 3), usize::MAX - 3);
}

#[test]
fn align4_is_idempotent_and_rounds_up() {
    for x in 0usize..200 {
        let a = align4(x);
        assert!(a >= x);
        assert!(a - x < 4);
        assert_eq!(a % 4, 0);
        assert_eq!(align4(a), a);
    }
}

#[test]
fn read_u32_inside_the_buffer() {
    let buf = [9u8, 9, 0x78, 0x56, 0x34, 0x12, 9];
    assert_eq!(read_u32(&buf, 2, ByteOrder::Little), Ok(0x1234_5678));
    assert_eq!(read_u32(&buf, 2, ByteOrder::Big), Ok(0x7856_3412));
    assert_eq!(read_u32(&buf, 3, ByteOrder::Little), Ok(0x0912_3456));
}

#[test]
fn read_u32_out_of_bounds() {
    let buf = [1u8, 2, 3, 4, 5];
    assert_eq!(read_u32(&buf, 2, ByteOrder::Little), Err(WireError::OutOfBounds));
    assert_eq!(read_u32(&buf, 5, ByteOrder::Little), Err(WireError::OutOfBounds));
    assert_eq!(read_u32(&buf, 6, ByteOrder::Big), Err(WireError::OutOfBounds));
    assert_eq!(read_u32(&buf, usize::MAX, ByteOrder::Big), Err(WireError::OutOfBounds));
    assert_eq!(read_u32(&[], 0, ByteOrder::Little), Err(WireError::OutOfBounds));
    assert_eq!(read_u32(&buf, 1, ByteOrder::Little), Ok(0x0504_0302));
}

#[test]
fn terminator_is_found() {
    let buf = [b'a', b'b', 0, b'c', 0];
    assert_eq!(find_terminator(&buf, 0), 2);
    assert_eq!(find_terminator(&buf, 2), 2);
    assert_eq!(find_terminator(&buf, 3), 4);
}

#[test]
fn terminator_missing_gives_the_length() {
    let buf = [b'a', b'b', b'c'];
    assert_eq!(find_terminator(&buf, 0), 3);
    assert_eq!(find_terminator(&buf, 3), 3);
}

#[test]
fn terminator_scan_beyond_the_buffer_stays_put() {
    let buf = [b'a', 0];
    assert_eq!(find_terminator(&buf, 7), 7);
    assert_eq!(find_terminator(&[], 0), 0);
}

#[test]
fn string_is_read_up_to_its_terminator() {
    let buf = [1u8, 2, 3, 4, b'w', b'l', b'_', b's', b'h', b'm', 0, 0];
    let (text, end) = read_nul_terminated_string(&buf, 4);
    assert_eq!(text, "wl_shm");
    assert_eq!(end, 10);
}

#[test]
fn string_without_terminator_runs_to_the_end() {
    let buf = [b'x', b'y', b'z'];
    let (text, end) = read_nul_terminated_string(&buf, 1);
    assert_eq!(text, "yz");
    assert_eq!(end, 3);
}

#[test]
fn string_beyond_the_buffer_is_empty() {
    let buf = [b'x', b'y', b'z'];
    let (text, end) = read_nul_terminated_string(&buf, 3);
    assert_eq!(text, "");
    assert_eq!(end, 3);
    let (text, end) = read_nul_terminated_string(&buf, 9);
    assert_eq!(text, "");
    assert_eq!(end, 9);
}

#[test]
fn string_with_ill_formed_bytes_is_patched() {
    let buf = [b'a', 0xFF, b'b', 0];
    let (text, end) = read_nul_terminated_string(&buf, 0);
    assert_eq!(text, "a\u{FFFD}b");
    assert_eq!(end, 3);
    let two = [0xC3u8, 0xA9, 0];
    let (text, _) = read_nul_terminated_string(&two, 0);
    assert_eq!(text, "\u{e9}");
}

#[test]
fn header_bytes_little_endian() {
    let header = MessageHeader { object_id: 1, size: 12, opcode: 0 };
    assert_eq!(header.encode(ByteOrder::Little), [1, 0, 0, 0, 0, 0, 12, 0]);
    let header = MessageHeader { object_id: 0x0A0B_0C0D, size: 0x0102, opcode: 0x0304 };
    assert_eq!(header.encode(ByteOrder::Little), [0x0D, 0x0C, 0x0B, 0x0A, 0x04, 0x03, 0x02, 0x01]);
}

#[test]
fn header_bytes_big_endian() {
    let header = MessageHeader { object_id: 1, size: 12, opcode: 1 };
    assert_eq!(header.encode(ByteOrder::Big), [0, 0, 0, 1, 0, 12, 0, 1]);
}

#[test]
fn header_new_counts_its_own_bytes() {
    assert_eq!(
        MessageHeader::new(3, 0, 20),
        Some(MessageHeader { object_id: 3, size: 28, opcode: 0 })
    );
    assert_eq!(
        MessageHeader::new(3, 7, 65_527),
        Some(MessageHeader { object_id: 3, size: 65_535, opcode: 7 })
    );
    assert_eq!(MessageHeader::new(3, 0, 65_528), None);
    assert_eq!(MessageHeader::new(1, 1, 0).map(|h| h.body_len()), Some(0));
    assert_eq!(MessageHeader::new(1, 1, 4).map(|h| h.body_len()), Some(4));
}

#[test]
fn header_decodes() {
    let bytes = [3u8, 0, 0, 0, 2, 0, 28, 0];
    assert_eq!(
        MessageHeader::decode(&bytes, ByteOrder::Little),
        Ok(MessageHeader { object_id: 3, size: 28, opcode: 2 })
    );
    let bytes = [0u8, 0, 0, 3, 0, 28, 0, 2];
    assert_eq!(
        MessageHeader::decode(&bytes, ByteOrder::Big),
        Ok(MessageHeader { object_id: 3, size: 28, opcode: 2 })
    );
}

#[test]
fn header_decode_looks_at_eight_bytes_only() {
    let bytes = [3u8, 0, 0, 0, 2, 0, 8, 0, 77, 77];
    assert_eq!(
        MessageHeader::decode(&bytes, ByteOrder::Little),
        Ok(MessageHeader { object_id: 3, size: 8, opcode: 2 })
    );
}

#[test]
fn header_of_no_bytes_is_a_short_read() {
    assert_eq!(MessageHeader::decode(&[], ByteOrder::Little), Err(WireError::ShortRead));
}

#[test]
fn header_of_some_bytes_is_truncated() {
    for n in 1usize..8 {
        let bytes = vec![1u8; n];
        assert_eq!(
            MessageHeader::decode(&bytes, ByteOrder::Little),
            Err(WireError::TruncatedStream)
        );
    }
}

#[test]
fn header_with_size_below_eight_is_invalid() {
    let bytes = [1u8, 0, 0, 0, 0, 0, 7, 0];
    assert_eq!(MessageHeader::decode(&bytes, ByteOrder::Little), Err(WireError::InvalidSize));
    let bytes = [1u8, 0, 0, 0, 12, 0, 0, 0];
    assert_eq!(MessageHeader::decode(&bytes, ByteOrder::Little), Err(WireError::InvalidSize));
}

#[test]
fn header_round_trip() {
    for order in [ByteOrder::Little, ByteOrder::Big] {
        for (object_id, size, opcode) in [(1u32, 8u16, 0u16), (2, 12, 1), (u32::MAX, u16::MAX, u16::MAX), (7, 300, 9)] {
            let header = MessageHeader { object_id, size, opcode };
            assert_eq!(MessageHeader::decode(&header.encode(order), order), Ok(header));
        }
    }
}

#[test]
fn sync_request_bytes() {
    assert_eq!(encode_sync(2, ByteOrder::Little), vec![1, 0, 0, 0, 0, 0, 12, 0, 2, 0, 0, 0]);
    assert_eq!(encode_sync(2, ByteOrder::Big), vec![0, 0, 0, 1, 0, 12, 0, 0, 0, 0, 0, 2]);
}

#[test]
fn get_registry_request_bytes() {
    assert_eq!(
        encode_get_registry(3, ByteOrder::Little),
        vec![1, 0, 0, 0, 1, 0, 12, 0, 3, 0, 0, 0]
    );
    assert_eq!(
        encode_get_registry(3, ByteOrder::Big),
        vec![0, 0, 0, 1, 0, 12, 0, 1, 0, 0, 0, 3]
    );
}

#[test]
fn message_without_argument_is_a_bare_header() {
    assert_eq!(encode_message(5, 4, None, ByteOrder::Little), vec![5, 0, 0, 0, 4, 0, 8, 0]);
    assert_eq!(
        encode_message(5, 4, Some(0x0102_0304), ByteOrder::Little),
        vec![5, 0, 0, 0, 4, 0, 12, 0, 4, 3, 2, 1]
    );
}

#[test]
fn request_opcodes_and_display_id() {
    assert_eq!(DISPLAY_ID, 1);
    assert_eq!(WL_DISPLAY_SYNC, 0);
    assert_eq!(WL_DISPLAY_GET_REGISTRY, 1);
    assert_eq!(HEADER_LEN, 8);
}

#[test]
fn sync_round_trip() {
    for order in [ByteOrder::Little, ByteOrder::Big, ByteOrder::native()] {
        for callback_id in [2u32, 3, 0x0102_0304, u32::MAX] {
            let bytes = encode_sync(callback_id, order);
            let (header, body) = decode_message(&bytes, order).unwrap();
            assert_eq!(header.object_id, DISPLAY_ID);
            assert_eq!(header.opcode, 0);
            assert_eq!(header.size, 12);
            assert_eq!(body.len(), 4);
            assert_eq!(read_u32(body, 0, order), Ok(callback_id));
        }
    }
}

#[test]
fn get_registry_round_trip() {
    let bytes = encode_get_registry(3, ByteOrder::Little);
    let (header, body) = decode_message(&bytes, ByteOrder::Little).unwrap();
    assert_eq!(header, MessageHeader { object_id: 1, size: 12, opcode: 1 });
    assert_eq!(read_u32(body, 0, ByteOrder::Little), Ok(3));
}

#[test]
fn message_with_short_body_is_truncated() {
    let bytes = [1u8, 0, 0, 0, 0, 0, 12, 0, 2, 0, 0];
    assert_eq!(decode_message(&bytes, ByteOrder::Little), Err(WireError::TruncatedBody));
    let bytes = [1u8, 0, 0, 0, 0, 0, 12, 0];
    assert_eq!(decode_message(&bytes, ByteOrder::Little), Err(WireError::TruncatedBody));
}

#[test]
fn message_errors_of_the_header_come_through() {
    assert_eq!(decode_message(&[], ByteOrder::Little), Err(WireError::ShortRead));
    assert_eq!(decode_message(&[1, 2, 3], ByteOrder::Little), Err(WireError::TruncatedStream));
    assert_eq!(
        decode_message(&[1, 0, 0, 0, 0, 0, 3, 0, 9, 9], ByteOrder::Little),
        Err(WireError::InvalidSize)
    );
}

#[test]
fn message_leaves_the_next_message_alone() {
    let bytes = [4u8, 0, 0, 0, 0, 0, 10, 0, 0xAA, 0xBB, 1, 0, 0, 0];
    let (header, body) = decode_message(&bytes, ByteOrder::Little).unwrap();
    assert_eq!(header, MessageHeader { object_id: 4, size: 10, opcode: 0 });
    assert_eq!(body, &[0xAA, 0xBB]);
}

#[test]
fn body_is_taken_as_declared() {
    let header = MessageHeader { object_id: 4, size: 11, opcode: 0 };
    assert_eq!(take_body(&header, &[1, 2, 3, 4, 5]), Ok(&[1u8, 2, 3][..]));
    assert_eq!(take_body(&header, &[1, 2, 3]), Ok(&[1u8, 2, 3][..]));
    assert_eq!(take_body(&header, &[1, 2]), Err(WireError::TruncatedBody));
    let bare = MessageHeader { object_id: 4, size: 8, opcode: 0 };
    assert_eq!(take_body(&bare, &[]), Ok(&[][..]));
}
