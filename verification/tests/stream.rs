use socket_programming::stream::{accept_step, received_text, AcceptStep, GREETING};

#[test]
fn interrupted_accept_is_retried() {
    assert_eq!(accept_step(Err(4)), AcceptStep::Retry);
}

#[test]
fn other_accept_errors_fail() {
    assert_eq!(accept_step(Err(11)), AcceptStep::Fail);
    assert_eq!(accept_step(Err(0)), AcceptStep::Fail);
}

#[test]
fn accepted_socket_is_served() {
    assert_eq!(accept_step(Ok(7)), AcceptStep::Serve(7));
}

#[test]
fn received_prefix_is_decoded() {
    let mut buf = [0u8; 100];
    buf[..13].copy_from_slice(GREETING.as_bytes());
    assert_eq!(received_text(&buf, 13), Some(String::from("Hello, World!")));
    assert_eq!(received_text(&buf, 5), Some(String::from("Hello")));
    assert_eq!(received_text(&buf, 0), Some(String::new()));
}

#[test]
fn multibyte_text_is_decoded() {
    let bytes = "héllo".as_bytes();
    assert_eq!(received_text(bytes, bytes.len()), Some(String::from("héllo")));
}

#[test]
fn invalid_utf8_is_refused() {
    assert_eq!(received_text(&[0x68, 0xff, 0x69], 3), None);
    // A cut through a two-byte character.
    let bytes = "é".as_bytes();
    assert_eq!(received_text(bytes, 1), None);
}

#[test]
fn greeting_text() {
    assert_eq!(GREETING, "Hello, World!");
}
