use resp_client::command::Command;
use resp_client::commands::{GetCommand, SetCommand};

#[test]
fn set_command_wire_format() {
    let cmd = SetCommand::new("test_key".to_string(), "test_value".to_string());
    assert_eq!(
        cmd.format_resp_command(),
        "*3\r\n$3\r\nSET\r\n$8\r\nTEST_KEY\r\n$10\r\nTEST_VALUE\r\n"
    );
}

#[test]
fn get_command_wire_format() {
    let cmd = GetCommand::new("test_key".to_string());
    assert_eq!(cmd.format_resp_command(), "*2\r\n$3\r\nGET\r\n$8\r\nTEST_KEY\r\n");
}

#[test]
fn length_prefix_counts_raw_bytes_not_uppercased_ones() {
    // U+FB01 is three bytes raw but uppercases to the two-character FI, so
    // the length prefix and the written payload must disagree in length.
    let cmd = SetCommand::new("k".to_string(), "\u{fb01}".to_string());
    assert_eq!(cmd.format_resp_command(), "*3\r\n$3\r\nSET\r\n$1\r\nK\r\n$3\r\nFI\r\n");
}

#[test]
fn empty_key_is_encoded_as_is() {
    let cmd = GetCommand::new(String::new());
    assert_eq!(cmd.format_resp_command(), "*2\r\n$3\r\nGET\r\n$0\r\n\r\n");
}

#[test]
fn multi_digit_length_prefix() {
    let value: String = std::iter::repeat('x').take(120).collect();
    let upper: String = std::iter::repeat('X').take(120).collect();
    let cmd = SetCommand::new("key".to_string(), value);
    let expected = format!("*3\r\n$3\r\nSET\r\n$3\r\nKEY\r\n$120\r\n{}\r\n", upper);
    assert_eq!(cmd.format_resp_command(), expected);
}
