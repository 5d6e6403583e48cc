use socket_programming::stdin_wait::{
    classify_stdin_poll, key_pressed, stdin_read_set, StdinPoll, STDIN_FD,
};

#[test]
fn no_event_is_a_timeout() {
    assert_eq!(classify_stdin_poll(0, Some(0)), StdinPoll::TimedOut);
    assert_eq!(classify_stdin_poll(0, None), StdinPoll::TimedOut);
}

#[test]
fn pollin_is_ready() {
    assert_eq!(classify_stdin_poll(1, Some(1)), StdinPoll::Ready);
    assert_eq!(classify_stdin_poll(1, Some(1 | 0x10)), StdinPoll::Ready);
}

#[test]
fn other_event_is_unexpected() {
    assert_eq!(classify_stdin_poll(1, Some(0x10)), StdinPoll::Unexpected);
    assert_eq!(classify_stdin_poll(1, Some(0)), StdinPoll::Unexpected);
}

#[test]
fn unknown_bits_are_invalid() {
    assert_eq!(classify_stdin_poll(1, None), StdinPoll::Invalid);
}

#[test]
fn read_set_holds_stdin_alone() {
    let s = stdin_read_set();
    assert_eq!(s.fds(None).collect::<Vec<i32>>(), vec![STDIN_FD]);
    assert!(key_pressed(&s));
}

#[test]
fn cleared_set_means_no_key() {
    let s = nix::sys::select::FdSet::new();
    assert!(!key_pressed(&s));
}

#[test]
fn pollin_bit_is_nix_pollin() {
    assert_eq!(
        socket_programming::poll_flags::POLLIN_BIT,
        nix::poll::PollFlags::POLLIN.bits()
    );
}
