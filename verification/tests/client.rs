use rally::client::{
    client_message, decode_response, ResponseError, MESSAGE_FIELD1, MESSAGE_FIELD2, MESSAGE_TEXT,
};
use rally::data::{ByteCursor, Data};

#[test]
fn client_sends_the_documented_message() {
    let d = client_message();
    assert_eq!(d.field1, 42);
    assert_eq!(d.field2, 1337);
    assert_eq!(d.field3, "Hello from Rally!");
    assert_eq!((MESSAGE_FIELD1, MESSAGE_FIELD2, MESSAGE_TEXT), (42, 1337, "Hello from Rally!"));
}

#[test]
fn client_message_survives_the_wire() {
    let bytes = client_message().serialize().unwrap();
    assert_eq!(bytes.len(), 10 + 17);
    let d = Data::deserialize(&mut ByteCursor::new(bytes)).unwrap();
    assert_eq!(d.field1, 42);
    assert_eq!(d.field2, 1337);
    assert_eq!(d.field3, "Hello from Rally!");
    assert_eq!(
        format!("{:?}", d),
        "Data { field1: 42, field2: 1337, field3: \"Hello from Rally!\" }"
    );
}

#[test]
fn response_is_read_as_text() {
    assert_eq!(decode_response(b"Hello, client!".to_vec()).unwrap(), "Hello, client!");
    assert_eq!(decode_response(vec![0xc3, 0x28]).unwrap_err(), ResponseError::InvalidUtf8);
    assert_eq!(decode_response(Vec::new()).unwrap(), "");
}
