use resp_client::errors::ClientError;
use resp_client::frame::{frame_status, FrameStatus, ResponseBuffer};

#[test]
fn simple_string_frame_is_complete() {
    assert_eq!(frame_status(b"+OK\r\n"), FrameStatus::Complete(5));
}

#[test]
fn error_frame_is_complete() {
    assert_eq!(frame_status(b"-ERR unknown command\r\n"), FrameStatus::Complete(22));
}

#[test]
fn bulk_frame_is_complete() {
    assert_eq!(frame_status(b"$10\r\nTEST_VALUE\r\n"), FrameStatus::Complete(17));
}

#[test]
fn null_bulk_frame_is_complete() {
    assert_eq!(frame_status(b"$-1\r\n"), FrameStatus::Complete(5));
}

#[test]
fn partial_frames_are_incomplete() {
    assert_eq!(frame_status(b""), FrameStatus::Incomplete);
    assert_eq!(frame_status(b"+OK"), FrameStatus::Incomplete);
    assert_eq!(frame_status(b"$10"), FrameStatus::Incomplete);
    assert_eq!(frame_status(b"$10\r\nTEST"), FrameStatus::Incomplete);
    assert_eq!(frame_status(b"$10\r\nTEST_VALUE"), FrameStatus::Incomplete);
}

#[test]
fn unknown_prefix_is_invalid() {
    assert_eq!(frame_status(b"?hi\r\n"), FrameStatus::Invalid);
}

#[test]
fn array_reply_is_not_supported() {
    assert_eq!(frame_status(b"*1\r\n$2\r\nhi\r\n"), FrameStatus::Invalid);
}

#[test]
fn non_numeric_length_field_is_invalid() {
    assert_eq!(frame_status(b"$1x\r\nab\r\n"), FrameStatus::Invalid);
}

#[test]
fn empty_length_field_is_invalid() {
    assert_eq!(frame_status(b"$\r\n"), FrameStatus::Invalid);
}

#[test]
fn missing_body_terminator_is_invalid() {
    assert_eq!(frame_status(b"$2\r\nabXY"), FrameStatus::Invalid);
}

#[test]
fn huge_declared_length_stays_incomplete() {
    assert_eq!(frame_status(b"$18446744073709551616\r\n"), FrameStatus::Incomplete);
}

#[test]
fn oversized_response_is_detected_as_truncated() {
    // A frame longer than one 512-byte read: after the first read it must be
    // reported incomplete, and complete once the rest has arrived.
    let body: String = std::iter::repeat('v').take(600).collect();
    let frame = format!("$600\r\n{}\r\n", body);
    let bytes = frame.as_bytes();
    assert_eq!(bytes.len(), 608);
    let mut buf = ResponseBuffer::new();
    buf.feed(&bytes[..512]);
    assert_eq!(buf.status(), FrameStatus::Incomplete);
    assert_eq!(buf.frame_text(), Err(ClientError::Truncated));
    buf.feed(&bytes[512..]);
    assert_eq!(buf.status(), FrameStatus::Complete(608));
    assert_eq!(buf.frame_text(), Ok(frame.clone()));
}

#[test]
fn frame_text_takes_only_the_first_frame() {
    let mut buf = ResponseBuffer::new();
    buf.feed(b"+OK\r\n$2\r\nhi\r\n");
    assert_eq!(buf.status(), FrameStatus::Complete(5));
    assert_eq!(buf.frame_text(), Ok("+OK\r\n".to_string()));
}

#[test]
fn invalid_text_reports_decode_error() {
    let mut buf = ResponseBuffer::new();
    buf.feed(&[43, 255, 13, 10]);
    assert_eq!(buf.frame_text(), Err(ClientError::Decode));
}

#[test]
fn malformed_framing_is_reported() {
    let mut buf = ResponseBuffer::new();
    buf.feed(b"?x\r\n");
    assert_eq!(buf.frame_text(), Err(ClientError::Malformed));
}
