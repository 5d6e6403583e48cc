use nix::sys::select::FdSet;
use socket_programming::chat::Failure;
use socket_programming::select_server::{SelectAction, SelectEvent, SelectPhase, SelectServer};

fn set_of(fds: &[i32]) -> FdSet {
    let mut s = FdSet::new();
    for fd in fds {
        s.insert(*fd);
    }
    s
}

fn members(s: &FdSet) -> Vec<i32> {
    s.fds(None).collect()
}

/// A server on listener 3 with clients 4 and 6 connected, waiting to select.
fn server_with_two_clients() -> SelectServer {
    let mut s = SelectServer::new(3).unwrap();
    assert_eq!(s.step(SelectEvent::Selected(set_of(&[3]))), SelectAction::Accept { listener: 3 });
    assert_eq!(s.step(SelectEvent::Accepted(4)), SelectAction::Announce { fd: 4 });
    assert_eq!(
        s.step(SelectEvent::Done),
        SelectAction::Select { readfds: set_of(&[3, 4]), nfds: 5 }
    );
    assert_eq!(s.step(SelectEvent::Selected(set_of(&[3]))), SelectAction::Accept { listener: 3 });
    assert_eq!(s.step(SelectEvent::Accepted(6)), SelectAction::Announce { fd: 6 });
    assert_eq!(
        s.step(SelectEvent::Done),
        SelectAction::Select { readfds: set_of(&[3, 4, 6]), nfds: 7 }
    );
    s
}

#[test]
fn new_server_holds_the_listener() {
    let s = SelectServer::new(3).unwrap();
    assert_eq!(members(&s.master()), vec![3]);
    assert_eq!(s.fdmax(), 3);
    assert_eq!(s.listener(), 3);
    assert_eq!(s.phase(), SelectPhase::Waiting);
    assert_eq!(s.select_request(), SelectAction::Select { readfds: set_of(&[3]), nfds: 4 });
}

#[test]
fn listener_out_of_range_is_refused() {
    assert!(SelectServer::new(1024).is_none());
    assert!(SelectServer::new(-1).is_none());
    assert!(SelectServer::new(1023).is_some());
}

#[test]
fn accept_joins_and_raises_fdmax() {
    let s = server_with_two_clients();
    assert_eq!(members(&s.master()), vec![3, 4, 6]);
    assert_eq!(s.fdmax(), 6);
}

#[test]
fn accept_below_fdmax_keeps_fdmax() {
    let mut s = server_with_two_clients();
    s.step(SelectEvent::Selected(set_of(&[3])));
    s.step(SelectEvent::Accepted(5));
    assert_eq!(s.fdmax(), 6);
    assert_eq!(members(&s.master()), vec![3, 4, 5, 6]);
}

#[test]
fn select_message_goes_to_every_other_client() {
    let mut s = server_with_two_clients();
    assert_eq!(s.step(SelectEvent::Selected(set_of(&[6]))), SelectAction::Recv { fd: 6 });
    assert_eq!(
        s.step(SelectEvent::Received(3)),
        SelectAction::Broadcast { from: 6, dests: vec![4] }
    );
    assert_eq!(
        s.step(SelectEvent::Done),
        SelectAction::Select { readfds: set_of(&[3, 4, 6]), nfds: 7 }
    );
}

#[test]
fn ready_descriptors_are_served_in_increasing_order() {
    let mut s = server_with_two_clients();
    assert_eq!(s.step(SelectEvent::Selected(set_of(&[3, 4, 6]))), SelectAction::Accept { listener: 3 });
    assert_eq!(s.step(SelectEvent::Accepted(7)), SelectAction::Announce { fd: 7 });
    assert_eq!(s.step(SelectEvent::Done), SelectAction::Recv { fd: 4 });
    assert_eq!(
        s.step(SelectEvent::Received(9)),
        SelectAction::Broadcast { from: 4, dests: vec![6, 7] }
    );
    assert_eq!(s.step(SelectEvent::Done), SelectAction::Recv { fd: 6 });
}

#[test]
fn hang_up_leaves_the_master_set() {
    let mut s = server_with_two_clients();
    s.step(SelectEvent::Selected(set_of(&[4])));
    assert_eq!(s.step(SelectEvent::Received(0)), SelectAction::HangUp { fd: 4 });
    assert_eq!(members(&s.master()), vec![3, 6]);
    assert_eq!(s.fdmax(), 6);
    assert_eq!(
        s.step(SelectEvent::Done),
        SelectAction::Select { readfds: set_of(&[3, 6]), nfds: 7 }
    );
}

#[test]
fn select_recv_failure_closes_and_stops() {
    let mut s = server_with_two_clients();
    s.step(SelectEvent::Selected(set_of(&[6])));
    assert_eq!(
        s.step(SelectEvent::RecvFailed),
        SelectAction::Abort { close: Some(6), failure: Failure::RecvFailed }
    );
    assert_eq!(members(&s.master()), vec![3, 4]);
    assert_eq!(s.phase(), SelectPhase::Stopped);
}

#[test]
fn accepted_descriptor_out_of_range_stops() {
    let mut s = SelectServer::new(3).unwrap();
    s.step(SelectEvent::Selected(set_of(&[3])));
    assert_eq!(
        s.step(SelectEvent::Accepted(1024)),
        SelectAction::Abort { close: None, failure: Failure::DescriptorOutOfRange }
    );
}

#[test]
fn select_accept_failure_stops() {
    let mut s = SelectServer::new(3).unwrap();
    s.step(SelectEvent::Selected(set_of(&[3])));
    assert_eq!(
        s.step(SelectEvent::AcceptFailed),
        SelectAction::Abort { close: None, failure: Failure::AcceptFailed }
    );
}

#[test]
fn select_wrong_event_stops_and_stopped_stays() {
    let mut s = SelectServer::new(3).unwrap();
    assert_eq!(
        s.step(SelectEvent::Received(4)),
        SelectAction::Abort { close: None, failure: Failure::UnexpectedEvent }
    );
    assert_eq!(
        s.step(SelectEvent::Selected(set_of(&[3]))),
        SelectAction::Abort { close: None, failure: Failure::UnexpectedEvent }
    );
}

#[test]
fn descriptors_beyond_fdmax_are_not_read() {
    let mut s = server_with_two_clients();
    assert_eq!(
        s.step(SelectEvent::Selected(set_of(&[9]))),
        SelectAction::Select { readfds: set_of(&[3, 4, 6]), nfds: 7 }
    );
}
