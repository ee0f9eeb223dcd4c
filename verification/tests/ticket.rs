use haul_core::crypto::generate_room_key;
use haul_core::ticket::{RoomTicket, TicketError};

fn fake_ticket() -> RoomTicket {
    // A minimal RoomTicket whose doc_ticket holds arbitrary bytes, not a real document ticket.
    RoomTicket {
        room_key: generate_room_key(),
        room_name: "test-room".to_string(),
        doc_ticket: vec![1, 2, 3, 4], // arbitrary bytes
    }
}

#[test]
fn encode_decode_roundtrip() {
    let original = fake_ticket();
    let encoded = original.encode().expect("encode succeeds");
    let decoded = RoomTicket::decode(&encoded).expect("decode succeeds");
    assert_eq!(decoded.room_key, original.room_key);
    assert_eq!(decoded.room_name, original.room_name);
    assert_eq!(decoded.doc_ticket, original.doc_ticket);
}

#[test]
fn encoded_ticket_is_base58_printable() {
    let ticket = fake_ticket();
    let encoded = ticket.encode().expect("encode succeeds");
    // base58 chars are all ASCII alphanumeric, no 0/O/I/l ambiguous chars
    assert!(encoded.chars().all(|c| c.is_ascii_alphanumeric()));
    assert!(!encoded.contains('0'));
    assert!(!encoded.contains('O'));
    assert!(!encoded.contains('I'));
    assert!(!encoded.contains('l'));
}

#[test]
fn decode_garbage_fails() {
    assert!(RoomTicket::decode("not-valid-base58-!!!").is_err());
}

#[test]
fn decode_wrong_bytes_fails() {
    // valid base58 but not a valid postcard-encoded RoomTicket
    let junk = bs58::encode(vec![0xde, 0xad, 0xbe, 0xef]).into_string();
    assert!(RoomTicket::decode(&junk).is_err());
}

#[test]
fn different_rooms_produce_different_tickets() {
    let mut t1 = fake_ticket();
    let mut t2 = fake_ticket();
    t1.room_name = "room-a".to_string();
    t2.room_name = "room-b".to_string();
    assert_ne!(t1.encode().expect("encode succeeds"), t2.encode().expect("encode succeeds"));
}

#[test]
fn ticket_wire_bytes_exact() {
    let t = RoomTicket { room_key: [7u8; 32], room_name: "ab".to_string(), doc_ticket: vec![1, 2, 3] };
    let mut expected = vec![7u8; 32];
    expected.extend_from_slice(&[2, b'a', b'b', 3, 1, 2, 3]);
    assert_eq!(t.to_bytes(), expected);
    let back = RoomTicket::from_bytes(&expected).expect("decodes");
    assert_eq!(back.room_key, [7u8; 32]);
    assert_eq!(back.room_name, "ab");
    assert_eq!(back.doc_ticket, vec![1, 2, 3]);
}

#[test]
fn ticket_wire_bytes_long_name_uses_two_byte_length() {
    let name = "x".repeat(200);
    let t = RoomTicket { room_key: [0u8; 32], room_name: name.clone(), doc_ticket: vec![] };
    let bytes = t.to_bytes();
    assert_eq!(bytes.len(), 32 + 2 + 200 + 1);
    assert_eq!(&bytes[32..34], &[0xc8, 0x01]);
    assert_eq!(bytes[234], 0);
    assert_eq!(RoomTicket::from_bytes(&bytes).expect("decodes").room_name, name);
}

#[test]
fn ticket_text_is_base58_of_wire_bytes() {
    let t = RoomTicket { room_key: [7u8; 32], room_name: "ab".to_string(), doc_ticket: vec![1, 2, 3] };
    let text = t.encode().expect("encode succeeds");
    assert_eq!(text, bs58::encode(t.to_bytes()).into_string());
}

#[test]
fn decode_ignores_surrounding_whitespace() {
    let t = fake_ticket();
    let text = t.encode().expect("encode succeeds");
    let padded = format!(" \t\n{text}\r\n ");
    let back = RoomTicket::decode(&padded).expect("decode succeeds");
    assert_eq!(back.room_key, t.room_key);
    assert_eq!(back.room_name, t.room_name);
    assert_eq!(back.doc_ticket, t.doc_ticket);
}

#[test]
fn decode_error_kinds() {
    assert!(matches!(RoomTicket::decode("abc0"), Err(TicketError::Base58)));
    assert!(matches!(RoomTicket::decode("not-valid-base58-!!!"), Err(TicketError::Base58)));
    assert!(matches!(RoomTicket::decode(""), Err(TicketError::Format)));
    let junk = bs58::encode(vec![0xde, 0xad, 0xbe, 0xef]).into_string();
    assert!(matches!(RoomTicket::decode(&junk), Err(TicketError::Format)));
    assert!(matches!(RoomTicket::from_bytes(&[0u8; 33]), Err(TicketError::Format)));
}
