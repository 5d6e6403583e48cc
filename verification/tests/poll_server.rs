use socket_programming::chat::Failure;
use socket_programming::poll_server::{
    add_to_pfds, del_from_pfds, PollAction, PollEntry, PollEvent, PollPhase, PollServer,
};

fn polled(bits: &[i16]) -> PollEvent {
    PollEvent::Polled(bits.iter().map(|b| Some(*b)).collect())
}

fn fds(s: &PollServer) -> Vec<i32> {
    s.entries().iter().map(|e| e.fd).collect()
}

/// A server on listener 3 with clients 4 and 5 connected, waiting to poll.
fn server_with_two_clients() -> PollServer {
    let mut s = PollServer::new(3);
    assert_eq!(s.step(polled(&[1])), PollAction::Accept { listener: 3 });
    assert_eq!(s.step(PollEvent::Accepted(4)), PollAction::Announce { fd: 4 });
    assert_eq!(s.step(PollEvent::Done), PollAction::Poll);
    assert_eq!(s.step(polled(&[1, 0])), PollAction::Accept { listener: 3 });
    assert_eq!(s.step(PollEvent::Accepted(5)), PollAction::Announce { fd: 5 });
    assert_eq!(s.step(PollEvent::Done), PollAction::Poll);
    s
}

#[test]
fn add_to_pfds_appends_and_counts() {
    let mut pfds = vec![PollEntry { fd: 3, revents: Some(1) }];
    let mut len = 1usize;
    add_to_pfds(&mut pfds, 7, &mut len);
    assert_eq!(pfds, vec![PollEntry { fd: 3, revents: Some(1) }, PollEntry { fd: 7, revents: Some(0) }]);
    assert_eq!(len, 2);
}

#[test]
fn del_from_pfds_shifts_and_uncounts() {
    let mut pfds = vec![
        PollEntry { fd: 3, revents: Some(0) },
        PollEntry { fd: 4, revents: Some(1) },
        PollEntry { fd: 5, revents: Some(1) },
    ];
    let mut len = 3usize;
    del_from_pfds(&mut pfds, 1, &mut len);
    assert_eq!(pfds, vec![PollEntry { fd: 3, revents: Some(0) }, PollEntry { fd: 5, revents: Some(1) }]);
    assert_eq!(len, 2);
}

#[test]
fn new_server_polls_the_listener() {
    let s = PollServer::new(3);
    assert_eq!(s.listener(), 3);
    assert_eq!(s.entries(), &vec![PollEntry { fd: 3, revents: Some(0) }]);
    assert_eq!(s.phase(), PollPhase::Waiting);
}

#[test]
fn accept_appends_an_entry() {
    let s = server_with_two_clients();
    assert_eq!(fds(&s), vec![3, 4, 5]);
}

#[test]
fn poll_message_goes_to_every_other_client() {
    let mut s = server_with_two_clients();
    assert_eq!(s.step(polled(&[0, 1, 0])), PollAction::Recv { fd: 4 });
    assert_eq!(
        s.step(PollEvent::Received(12)),
        PollAction::Broadcast { from: 4, dests: vec![5] }
    );
    assert_eq!(s.step(PollEvent::Done), PollAction::Poll);
}

#[test]
fn message_with_a_single_client_goes_nowhere() {
    let mut s = PollServer::new(3);
    s.step(polled(&[1]));
    s.step(PollEvent::Accepted(4));
    s.step(PollEvent::Done);
    assert_eq!(s.step(polled(&[0, 1])), PollAction::Recv { fd: 4 });
    assert_eq!(s.step(PollEvent::Received(1)), PollAction::Broadcast { from: 4, dests: vec![] });
}

#[test]
fn hang_up_removes_the_client() {
    let mut s = server_with_two_clients();
    assert_eq!(s.step(polled(&[0, 0, 1])), PollAction::Recv { fd: 5 });
    assert_eq!(s.step(PollEvent::Received(0)), PollAction::HangUp { fd: 5 });
    assert_eq!(fds(&s), vec![3, 4]);
    assert_eq!(s.step(PollEvent::Done), PollAction::Poll);
}

#[test]
fn removal_during_a_pass_reads_past_the_end() {
    let mut s = server_with_two_clients();
    assert_eq!(s.step(polled(&[0, 1, 1])), PollAction::Recv { fd: 4 });
    assert_eq!(s.step(PollEvent::Received(0)), PollAction::HangUp { fd: 4 });
    assert_eq!(fds(&s), vec![3, 5]);
    assert_eq!(
        s.step(PollEvent::Done),
        PollAction::Abort { close: None, failure: Failure::IndexOutOfBounds }
    );
    assert_eq!(s.phase(), PollPhase::Stopped);
}

#[test]
fn entry_after_a_removed_one_is_skipped() {
    // Client 4 hangs up; client 5 shifts into its slot and is not visited in
    // this pass, which then ends at the end of the shorter list.
    let mut s = server_with_two_clients();
    s.step(polled(&[1, 0, 0]));
    s.step(PollEvent::Accepted(6));
    s.step(PollEvent::Done);
    assert_eq!(fds(&s), vec![3, 4, 5, 6]);
    assert_eq!(s.step(polled(&[0, 0, 1, 0])), PollAction::Recv { fd: 5 });
    assert_eq!(s.step(PollEvent::Received(0)), PollAction::HangUp { fd: 5 });
    assert_eq!(
        s.step(PollEvent::Done),
        PollAction::Abort { close: None, failure: Failure::IndexOutOfBounds }
    );
}

#[test]
fn events_without_pollin_are_skipped() {
    let mut s = server_with_two_clients();
    // POLLHUP (0x10) on client 4, POLLIN on client 5.
    assert_eq!(s.step(polled(&[0, 0x10, 1])), PollAction::Recv { fd: 5 });
}

#[test]
fn unknown_event_bits_stop_the_server() {
    let mut s = server_with_two_clients();
    assert_eq!(
        s.step(PollEvent::Polled(vec![Some(0), None, Some(0)])),
        PollAction::Abort { close: None, failure: Failure::ReventsUnknown }
    );
}

#[test]
fn poll_recv_failure_closes_and_stops() {
    let mut s = server_with_two_clients();
    s.step(polled(&[0, 1, 0]));
    assert_eq!(
        s.step(PollEvent::RecvFailed),
        PollAction::Abort { close: Some(4), failure: Failure::RecvFailed }
    );
    assert_eq!(fds(&s), vec![3, 5]);
    assert_eq!(s.phase(), PollPhase::Stopped);
}

#[test]
fn poll_accept_failure_stops() {
    let mut s = PollServer::new(3);
    s.step(polled(&[1]));
    assert_eq!(
        s.step(PollEvent::AcceptFailed),
        PollAction::Abort { close: None, failure: Failure::AcceptFailed }
    );
}

#[test]
fn poll_wrong_event_stops_and_stopped_stays() {
    let mut s = PollServer::new(3);
    assert_eq!(
        s.step(PollEvent::Done),
        PollAction::Abort { close: None, failure: Failure::UnexpectedEvent }
    );
    assert_eq!(
        s.step(polled(&[1])),
        PollAction::Abort { close: None, failure: Failure::UnexpectedEvent }
    );
    assert_eq!(fds(&s), vec![3]);
}

#[test]
fn poll_answer_of_wrong_length_stops() {
    let mut s = PollServer::new(3);
    assert_eq!(
        s.step(polled(&[1, 1])),
        PollAction::Abort { close: None, failure: Failure::UnexpectedEvent }
    );
}

#[test]
fn quiet_poll_polls_again() {
    let mut s = server_with_two_clients();
    assert_eq!(s.step(polled(&[0, 0, 0])), PollAction::Poll);
}

#[test]
fn del_undoes_add() {
    let original = vec![PollEntry { fd: 3, revents: Some(0) }, PollEntry { fd: 4, revents: Some(1) }];
    let mut pfds = original.clone();
    let mut len = 2usize;
    add_to_pfds(&mut pfds, 9, &mut len);
    del_from_pfds(&mut pfds, 2, &mut len);
    assert_eq!(pfds, original);
    assert_eq!(len, 2);
}
