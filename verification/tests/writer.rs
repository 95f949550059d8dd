use baseline::message::body_buffer;
use baseline::{Message, Writer, JSON_MSG_SIZE};
use bytes::BytesMut;

#[test]
fn write_appends_and_reports_the_length() {
    let mut body = BytesMut::new();
    {
        let mut writer = Writer(&mut body);
        assert_eq!(writer.write(b"{\"message\":").unwrap(), 11);
        assert_eq!(writer.write(b"").unwrap(), 0);
        assert_eq!(writer.write(b"\"Hello, World!\"}").unwrap(), 16);
        assert!(writer.flush().is_ok());
    }
    assert_eq!(&body[..], b"{\"message\":\"Hello, World!\"}");
    assert_eq!(body.len(), JSON_MSG_SIZE);
}

#[test]
fn write_keeps_what_the_buffer_held() {
    let mut body = BytesMut::from(&b"abc"[..]);
    let mut writer = Writer(&mut body);
    assert_eq!(writer.write(b"def").unwrap(), 3);
    assert_eq!(&body[..], b"abcdef");
}

#[test]
fn flush_changes_nothing() {
    let mut body = BytesMut::from(&b"xyz"[..]);
    let mut writer = Writer(&mut body);
    assert!(writer.flush().is_ok());
    assert!(writer.flush().is_ok());
    assert_eq!(&body[..], b"xyz");
}

#[test]
fn a_body_buffer_is_empty_and_grows_past_its_capacity() {
    let mut body = body_buffer();
    assert_eq!(body.len(), 0);
    assert!(body.capacity() >= JSON_MSG_SIZE);
    let long = [b'x'; 100];
    assert_eq!(Writer(&mut body).write(&long).unwrap(), 100);
    assert_eq!(&body[..], &long[..]);
}

#[test]
fn the_greeting_fits_the_message_size() {
    let message = Message { message: "Hello, World!" };
    assert_eq!(JSON_MSG_SIZE, 27);
    assert_eq!("{\"message\":\"\"}".len() + message.message.len(), JSON_MSG_SIZE);
}

#[test]
fn try_write_appends_what_fits() {
    let mut body = BytesMut::from(&b"ab"[..]);
    let mut writer = Writer(&mut body);
    assert_eq!(writer.try_write(b"cd"), Some(2));
    assert_eq!(writer.try_write(b""), Some(0));
    assert_eq!(writer.try_write(b"efg"), Some(3));
    assert_eq!(&body[..], b"abcdefg");
}
