use rally::data::{ByteCursor, Data, DataError, HEADER_LEN};

fn sample() -> Data {
    Data { field1: 42, field2: 1337, field3: String::from("Hello from Rally!") }
}

fn expected_bytes(field1: u32, field2: u16, text: &str) -> Vec<u8> {
    let mut v = Vec::new();
    v.extend_from_slice(&field1.to_ne_bytes());
    v.extend_from_slice(&field2.to_ne_bytes());
    v.extend_from_slice(&(text.len() as u32).to_ne_bytes());
    v.extend_from_slice(text.as_bytes());
    v
}

#[test]
fn serialize_lays_out_fields_in_native_order() {
    let bytes = sample().serialize().unwrap();
    assert_eq!(bytes, expected_bytes(42, 1337, "Hello from Rally!"));
    assert_eq!(bytes.len(), HEADER_LEN + 17);
}

#[test]
fn serialize_counts_utf8_bytes_not_chars() {
    let d = Data { field1: 1, field2: 2, field3: String::from("héllo") };
    let bytes = d.serialize().unwrap();
    assert_eq!(bytes.len(), HEADER_LEN + 6);
    assert_eq!(&bytes[6..10], &6u32.to_ne_bytes());
}

#[test]
fn serialize_then_deserialize_gives_the_message_back() {
    let bytes = sample().serialize().unwrap();
    let mut cursor = ByteCursor::new(bytes);
    let d = Data::deserialize(&mut cursor).unwrap();
    assert_eq!(d.field1, 42);
    assert_eq!(d.field2, 1337);
    assert_eq!(d.field3, "Hello from Rally!");
    assert_eq!(cursor.position(), HEADER_LEN + 17);
}

#[test]
fn empty_text_round_trips() {
    let d = Data { field1: u32::MAX, field2: u16::MAX, field3: String::new() };
    let bytes = d.serialize().unwrap();
    assert_eq!(bytes.len(), HEADER_LEN);
    let back = Data::deserialize(&mut ByteCursor::new(bytes)).unwrap();
    assert_eq!(back.field1, u32::MAX);
    assert_eq!(back.field2, u16::MAX);
    assert_eq!(back.field3, "");
}

#[test]
fn two_messages_read_one_after_the_other() {
    let mut bytes = sample().serialize().unwrap();
    bytes.extend(Data { field1: 7, field2: 8, field3: String::from("second") }.serialize().unwrap());
    let mut cursor = ByteCursor::new(bytes);
    let first = Data::deserialize(&mut cursor).unwrap();
    let second = Data::deserialize(&mut cursor).unwrap();
    assert_eq!(first.field3, "Hello from Rally!");
    assert_eq!(second.field1, 7);
    assert_eq!(second.field2, 8);
    assert_eq!(second.field3, "second");
    assert_eq!(cursor.position(), cursor.get_ref().len());
}

#[test]
fn short_header_is_unexpected_eof_and_moves_to_end() {
    let mut cursor = ByteCursor::new(vec![1, 2, 3, 4, 5]);
    assert_eq!(Data::deserialize(&mut cursor).unwrap_err(), DataError::UnexpectedEof);
    assert_eq!(cursor.position(), 5);
}

#[test]
fn short_text_is_unexpected_eof() {
    let mut bytes = sample().serialize().unwrap();
    bytes.truncate(bytes.len() - 1);
    let len = bytes.len();
    let mut cursor = ByteCursor::new(bytes);
    assert_eq!(Data::deserialize(&mut cursor).unwrap_err(), DataError::UnexpectedEof);
    assert_eq!(cursor.position(), len);
}

#[test]
fn invalid_utf8_is_reported_and_skipped() {
    let mut bytes = expected_bytes(1, 2, "ab");
    bytes[HEADER_LEN] = 0xff;
    bytes.extend_from_slice(&[9, 9]);
    let mut cursor = ByteCursor::new(bytes);
    assert_eq!(Data::deserialize(&mut cursor).unwrap_err(), DataError::InvalidUtf8);
    assert_eq!(cursor.position(), HEADER_LEN + 2);
}

#[test]
fn read_exact_takes_bytes_in_order() {
    let mut cursor = ByteCursor::new(vec![1, 2, 3]);
    assert_eq!(cursor.read_exact(2).unwrap(), vec![1, 2]);
    assert_eq!(cursor.read_exact(2).unwrap_err(), DataError::UnexpectedEof);
    assert_eq!(cursor.position(), 3);
}
