use cstack_sqlite::layout::{EMAIL_OFFSET, ID_OFFSET, ROW_SIZE, USERNAME_OFFSET};
use cstack_sqlite::row::{Row, RowSerializationError};

fn encode(row: &Row) -> Vec<u8> {
    let mut buf = vec![0u8; ROW_SIZE];
    row.serialize(&mut buf, 0).ok().unwrap();
    buf
}

#[test]
fn round_trip_recovers_row() {
    let row = Row::new(42, b"alice".to_vec(), b"alice@example.com".to_vec());
    let decoded = Row::deserialize(&encode(&row));
    assert_eq!(decoded, row);
}

#[test]
fn round_trip_with_embedded_zero_byte() {
    // A zero byte in the middle survives; only trailing zeros are trimmed.
    let row = Row::new(5, b"a\0b".to_vec(), b"x\0y".to_vec());
    let decoded = Row::deserialize(&encode(&row));
    assert_eq!(decoded, row);

    // A trailing zero byte is lost to the padding trim: the known exclusion.
    let lossy = Row::new(5, b"ab\0".to_vec(), b"xy".to_vec());
    let decoded = Row::deserialize(&encode(&lossy));
    assert_eq!(decoded.username, b"ab".to_vec());
}

#[test]
fn wire_format_is_big_endian_and_padded() {
    let row = Row::new(0x01020304, b"ab".to_vec(), b"cd".to_vec());
    let buf = encode(&row);
    assert_eq!(buf.len(), ROW_SIZE);
    assert_eq!(&buf[ID_OFFSET..ID_OFFSET + 4], &[1, 2, 3, 4]);
    assert_eq!(&buf[USERNAME_OFFSET..USERNAME_OFFSET + 2], b"ab");
    assert!(buf[USERNAME_OFFSET + 2..EMAIL_OFFSET].iter().all(|b| *b == 0));
    assert_eq!(&buf[EMAIL_OFFSET..EMAIL_OFFSET + 2], b"cd");
    assert!(buf[EMAIL_OFFSET + 2..ROW_SIZE].iter().all(|b| *b == 0));
}

#[test]
fn max_length_fields_serialize() {
    let row = Row::new(1, vec![b'u'; 32], vec![b'e'; 255]);
    let mut buf = vec![0u8; ROW_SIZE];
    assert!(row.serialize(&mut buf, 0).is_ok());
    let decoded = Row::deserialize(&buf);
    assert_eq!(decoded, row);
}

#[test]
fn oversized_username_fails_naming_the_field() {
    let row = Row::new(1, vec![b'u'; 33], vec![b'e'; 255]);
    let mut buf = vec![0u8; ROW_SIZE];
    match row.serialize(&mut buf, 0) {
        Err(RowSerializationError::StringTooLong { field }) => assert_eq!(field, "username"),
        Ok(()) => panic!("33-byte username serialized"),
    }
    // Validation happens before any write: the buffer is untouched.
    assert!(buf.iter().all(|b| *b == 0));
}

#[test]
fn oversized_email_fails_naming_the_field() {
    let row = Row::new(1, vec![b'u'; 32], vec![b'e'; 256]);
    let mut buf = vec![0u8; ROW_SIZE];
    match row.serialize(&mut buf, 0) {
        Err(RowSerializationError::StringTooLong { field }) => assert_eq!(field, "email"),
        Ok(()) => panic!("256-byte email serialized"),
    }
    assert!(buf.iter().all(|b| *b == 0));
}

#[test]
fn serialize_writes_at_the_given_offset() {
    let row = Row::new(7, b"bob".to_vec(), b"bob@example.com".to_vec());
    let mut buf = vec![0xffu8; ROW_SIZE + 10];
    row.serialize(&mut buf, 10).ok().unwrap();
    assert!(buf[..10].iter().all(|b| *b == 0xff));
    assert_eq!(Row::deserialize(&buf[10..]), row);
}

#[test]
fn deserialize_trims_trailing_zeros() {
    let mut buf = vec![0u8; ROW_SIZE];
    buf[ID_OFFSET + 3] = 9;
    buf[USERNAME_OFFSET] = b'z';
    let decoded = Row::deserialize(&buf);
    assert_eq!(decoded.id, 9);
    assert_eq!(decoded.username, b"z".to_vec());
    assert_eq!(decoded.email, Vec::<u8>::new());
}
