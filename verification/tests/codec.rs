use udp_chat::chat_server::{
    decode, deconstruct_msg, deconstruct_msg_str, is_msg_valid, verify, Frame,
};
use udp_chat::client_handler::{u8_to_str, Addr, Host};
use udp_chat::msg_types::{DecodeError, EncodeError, Type};
use udp_chat::server_utils::{
    create_checksum, create_checksum_str, encode, encode_with, CRC_SEED, HEADER_LEN,
    MAX_DATAGRAM, MAX_PAYLOAD,
};

const ALL_TYPES: [Type; 11] = [
    Type::Connect,
    Type::SendSuccess,
    Type::SendFailed,
    Type::Broadcast,
    Type::SendTo,
    Type::ConnectSuccess,
    Type::Disconnect,
    Type::DisconnectSuccess,
    Type::SendToSuccess,
    Type::SendToFailed,
    Type::EncryptedMessage,
];

const EMPTY_SUM: [u8; 8] = [249, 240, 197, 40, 72, 114, 68, 26];
const HI_SUM: [u8; 8] = [62, 213, 134, 110, 132, 53, 116, 247];

#[test]
fn type_codes_are_the_wire_bytes() {
    for (n, t) in ALL_TYPES.iter().enumerate() {
        assert_eq!(t.to_u8(), n as u8);
        assert_eq!(Type::from_u8(n as u8), Ok(*t));
    }
}

#[test]
fn bytes_above_ten_name_no_type() {
    for n in 11..=255u8 {
        assert_eq!(Type::from_u8(n), Err(DecodeError::UnknownType));
    }
}

#[test]
fn checksum_of_nothing_is_the_seed() {
    assert_eq!(CRC_SEED, 1892763397649723641);
    assert_eq!(create_checksum(b""), 1892763397649723641);
    assert_eq!(create_checksum_str(""), 1892763397649723641);
}

#[test]
fn checksum_has_the_known_values() {
    assert_eq!(create_checksum(b"hi"), 17830935667572921662);
    assert_eq!(create_checksum_str("hi"), 17830935667572921662);
    assert_eq!(
        create_checksum(b"hello world, this is longer than eight bytes"),
        8598370988902826208
    );
    assert_eq!(create_checksum(b"hi"), crc64::crc64(CRC_SEED, b"hi"));
}

#[test]
fn checksum_is_the_same_each_time() {
    let payload = b"the same bytes";
    let first = create_checksum(payload);
    let second = create_checksum(payload);
    assert_eq!(first, second);
    assert_eq!(first, create_checksum_str("the same bytes"));
}

#[test]
fn checksum_changes_with_one_bit() {
    assert_eq!(create_checksum(b"hj"), 8654973849753374389);
    assert_ne!(create_checksum(b"hi"), create_checksum(b"hj"));
    let base = b"flip one bit of me".to_vec();
    let sum = create_checksum(&base);
    for i in 0..base.len() {
        for bit in 0..8 {
            let mut changed = base.clone();
            changed[i] ^= 1 << bit;
            assert_ne!(create_checksum(&changed), sum);
        }
    }
}

#[test]
fn encode_lays_out_type_checksum_payload() {
    let bytes = encode(Type::Broadcast, b"hi").unwrap();
    let mut expected = vec![3u8];
    expected.extend_from_slice(&HI_SUM);
    expected.extend_from_slice(b"hi");
    assert_eq!(bytes, expected);
}

#[test]
fn encode_of_empty_payload_is_nine_bytes() {
    let bytes = encode(Type::ConnectSuccess, b"").unwrap();
    let mut expected = vec![5u8];
    expected.extend_from_slice(&EMPTY_SUM);
    assert_eq!(bytes, expected);
    assert_eq!(bytes.len(), HEADER_LEN);
}

#[test]
fn encode_with_writes_the_checksum_low_byte_first() {
    let bytes = encode_with(Type::SendTo, 0x0102030405060708, b"x").unwrap();
    assert_eq!(bytes, vec![4, 8, 7, 6, 5, 4, 3, 2, 1, b'x']);
}

#[test]
fn encode_refuses_what_does_not_fit() {
    assert_eq!(MAX_PAYLOAD + HEADER_LEN, MAX_DATAGRAM);
    let fits = vec![7u8; MAX_PAYLOAD];
    let bytes = encode(Type::Broadcast, &fits).unwrap();
    assert_eq!(bytes.len(), MAX_DATAGRAM);
    let too_long = vec![7u8; MAX_PAYLOAD + 1];
    assert_eq!(encode(Type::Broadcast, &too_long), Err(EncodeError::EncodeOverflow));
    assert_eq!(encode_with(Type::Broadcast, 1, &too_long), Err(EncodeError::EncodeOverflow));
    let addr = Addr { host: Host::V4(0x7f000001), port: 9191 };
    assert!(udp_chat::server_utils::write(&too_long, Type::Broadcast, addr).is_err());
}

#[test]
fn write_addresses_the_encoded_frame() {
    let addr = Addr { host: Host::V4(0x7f000001), port: 4000 };
    let packet = udp_chat::server_utils::write(b"hi", Type::Broadcast, addr).unwrap();
    assert_eq!(packet.addr, addr);
    assert_eq!(packet.bytes, encode(Type::Broadcast, b"hi").unwrap());
}

#[test]
fn round_trip_for_every_type() {
    let payloads: [&[u8]; 4] = [b"", b"hi", b"exactly8", &[0, 255, 10, 13, 128, 9, 9, 9, 9, 9]];
    for t in ALL_TYPES.iter() {
        for p in payloads.iter() {
            let bytes = encode(*t, p).unwrap();
            let frame = decode(&bytes).unwrap();
            assert_eq!(frame.message_type, *t);
            assert_eq!(frame.payload, p.to_vec());
            assert_eq!(frame.checksum, create_checksum(p));
            assert!(verify(&frame));
            assert!(is_msg_valid(&bytes));
        }
    }
}

#[test]
fn decode_refuses_short_datagrams() {
    for len in 0..9usize {
        let bytes = vec![0u8; len];
        assert_eq!(decode(&bytes).err(), Some(DecodeError::TooShort));
        assert_eq!(deconstruct_msg(&bytes).err(), Some(DecodeError::TooShort));
        assert!(!is_msg_valid(&bytes));
    }
    let short_and_unknown = vec![200u8; 8];
    assert_eq!(decode(&short_and_unknown).err(), Some(DecodeError::TooShort));
}

#[test]
fn decode_refuses_unknown_types() {
    let mut bytes = encode(Type::Connect, b"hi").unwrap();
    bytes[0] = 11;
    assert_eq!(decode(&bytes).err(), Some(DecodeError::UnknownType));
    bytes[0] = 255;
    assert_eq!(decode(&bytes).err(), Some(DecodeError::UnknownType));
    assert_eq!(deconstruct_msg(&bytes).err(), Some(DecodeError::UnknownType));
    assert_eq!(deconstruct_msg_str(&bytes).err(), Some(DecodeError::UnknownType));
}

#[test]
fn decode_reads_the_checksum_without_checking_it() {
    let bytes = vec![4u8, 8, 7, 6, 5, 4, 3, 2, 1, b'a', b'b'];
    let frame = decode(&bytes).unwrap();
    assert_eq!(frame.message_type, Type::SendTo);
    assert_eq!(frame.checksum, 0x0102030405060708);
    assert_eq!(frame.payload, b"ab".to_vec());
    assert!(!verify(&frame));
    assert!(!is_msg_valid(&bytes));
    assert!(frame.has_checksum(0x0102030405060708));
    assert!(!frame.has_checksum(0));
}

#[test]
fn verify_is_exact() {
    let good = Frame { message_type: Type::SendTo, checksum: 17830935667572921662, payload: b"hi".to_vec() };
    assert!(verify(&good));
    let off_by_one = Frame { message_type: Type::SendTo, checksum: 17830935667572921663, payload: b"hi".to_vec() };
    assert!(!verify(&off_by_one));
    let other_payload = Frame { message_type: Type::SendTo, checksum: 17830935667572921662, payload: b"hj".to_vec() };
    assert!(!verify(&other_payload));
}

#[test]
fn deconstruct_msg_gives_type_and_payload() {
    let bytes = encode(Type::Broadcast, b"hello").unwrap();
    let (t, payload) = deconstruct_msg(&bytes).unwrap();
    assert_eq!(t, Type::Broadcast);
    assert_eq!(payload, b"hello");
    let (t, text) = deconstruct_msg_str(&bytes).unwrap();
    assert_eq!(t, Type::Broadcast);
    assert_eq!(text, "hello");
}

#[test]
fn deconstruct_msg_str_refuses_bad_text() {
    let bytes = encode(Type::SendTo, &[0xff, 0xfe]).unwrap();
    assert_eq!(deconstruct_msg_str(&bytes).err(), Some(DecodeError::InvalidText));
    let (t, payload) = deconstruct_msg(&bytes).unwrap();
    assert_eq!(t, Type::SendTo);
    assert_eq!(payload, &[0xff, 0xfe]);
}

#[test]
fn u8_to_str_reads_utf8_only() {
    assert_eq!(u8_to_str(b"hi"), Some("hi"));
    assert_eq!(u8_to_str(b""), Some(""));
    assert_eq!(u8_to_str("gr\u{fc}\u{df}e".as_bytes()), Some("gr\u{fc}\u{df}e"));
    assert_eq!(u8_to_str(&[0xc3]), None);
    assert_eq!(u8_to_str(&[0xff]), None);
}
