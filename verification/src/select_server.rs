//! The multi-client chat server driven by `select`.
//!
//! The server keeps a master set of descriptors (the listener and every
//! connected client) and the highest descriptor it has seen. Each round it
//! hands a copy of the master set to `select`, then makes one pass over the
//! descriptors `0..=fdmax` as they stood when the pass began: a ready listener
//! accepts a client, a ready client is read; a client that sent nothing has
//! hung up and leaves the master set, and a client that sent something has it
//! relayed to every other client in the master set.
//!
//! `SelectServer::step` is the whole decision procedure; the program around
//! it performs the actions.
use crate::chat::Failure;
use crate::fd_set::{
    fd_in_range, fd_set_contains, fd_set_contents, fd_set_insert, fd_set_new, fd_set_remove,
    FD_SET_SIZE,
};
use nix::sys::select::FdSet;
use vstd::prelude::*;

verus! {

/// Where the server stands between two actions.
#[derive(Clone, Copy, Debug, PartialEq, Eq, Structural)]
pub enum SelectPhase {
    /// A `select` on a copy of the master set was asked for.
    Waiting,
    /// The listener `at`, in a pass that ends after `last`, was ready; an
    /// `accept` was asked for.
    Accepting { at: i32, last: i32 },
    /// The client `at` was ready; a `recv` was asked for.
    Receiving { at: i32, last: i32 },
    /// A report (announcement, hang-up, relay) was asked for; the pass goes on
    /// at descriptor `next` once it is done.
    Reporting { next: i32, last: i32 },
    /// The server has stopped.
    Stopped,
}

/// What the program is asked to do next.
#[derive(Debug, PartialEq, Eq)]
pub enum SelectAction {
    /// `select` for reading on `readfds` (a copy of the master set) with
    /// `nfds` and no timeout, then hand back the set as `select` left it.
    Select { readfds: FdSet, nfds: i32 },
    /// `accept` a connection on the listener.
    Accept { listener: i32 },
    /// Report the new connection on `fd`.
    Announce { fd: i32 },
    /// `recv` from the client `fd` into the receive buffer.
    Recv { fd: i32 },
    /// Report that `fd` hung up, and close it.
    HangUp { fd: i32 },
    /// Send the receive buffer, which came from `from`, to each of `dests` in order.
    Broadcast { from: i32, dests: Vec<i32> },
    /// Close `close`, if any, and stop with `failure`.
    Abort { close: Option<i32>, failure: Failure },
}

/// What the operating system answered to the last action.
#[derive(Debug, PartialEq, Eq)]
pub enum SelectEvent {
    /// `select` returned, leaving this read set.
    Selected(FdSet),
    /// `accept` gave a new socket.
    Accepted(i32),
    /// `accept` failed.
    AcceptFailed,
    /// `recv` returned this many bytes.
    Received(usize),
    /// `recv` failed.
    RecvFailed,
    /// A report or relay was carried out.
    Done,
}

/// The mathematical form of a `SelectAction`.
pub enum SelectActionV {
    Select { readfds: Set<i32>, nfds: i32 },
    Accept { listener: i32 },
    Announce { fd: i32 },
    Recv { fd: i32 },
    HangUp { fd: i32 },
    Broadcast { from: i32, dests: Seq<i32> },
    Abort { close: Option<i32>, failure: Failure },
}

/// The mathematical form of a `SelectEvent`.
pub enum SelectEventV {
    Selected(Set<i32>),
    Accepted(i32),
    AcceptFailed,
    Received(usize),
    RecvFailed,
    Done,
}

impl View for SelectAction {
    type V = SelectActionV;

    open spec fn view(&self) -> SelectActionV {
        match self {
            SelectAction::Select { readfds, nfds } => SelectActionV::Select {
                readfds: fd_set_contents(*readfds),
                nfds: *nfds,
            },
            SelectAction::Accept { listener } => SelectActionV::Accept { listener: *listener },
            SelectAction::Announce { fd } => SelectActionV::Announce { fd: *fd },
            SelectAction::Recv { fd } => SelectActionV::Recv { fd: *fd },
            SelectAction::HangUp { fd } => SelectActionV::HangUp { fd: *fd },
            SelectAction::Broadcast { from, dests } => SelectActionV::Broadcast {
                from: *from,
                dests: dests@,
            },
            SelectAction::Abort { close, failure } => SelectActionV::Abort {
                close: *close,
                failure: *failure,
            },
        }
    }
}

impl View for SelectEvent {
    type V = SelectEventV;

    open spec fn view(&self) -> SelectEventV {
        match self {
            SelectEvent::Selected(readfds) => SelectEventV::Selected(fd_set_contents(*readfds)),
            SelectEvent::Accepted(s) => SelectEventV::Accepted(*s),
            SelectEvent::AcceptFailed => SelectEventV::AcceptFailed,
            SelectEvent::Received(n) => SelectEventV::Received(*n),
            SelectEvent::RecvFailed => SelectEventV::RecvFailed,
            SelectEvent::Done => SelectEventV::Done,
        }
    }
}

/// The server's state as mathematics: the listener, the master set, the
/// highest descriptor seen, the read set of the last `select`, and the phase.
pub struct SelectServerView {
    pub listener: i32,
    pub master: Set<i32>,
    pub fdmax: i32,
    pub readfds: Set<i32>,
    pub phase: SelectPhase,
}

impl SelectServerView {
    /// The server's invariant: the listener is in the master set, every
    /// member lies in `0..=fdmax`, `fdmax` fits in a set, and a phase that
    /// points at a descriptor points at one of the pass (the listener when
    /// accepting, a client when receiving).
    pub open spec fn wf(self) -> bool {
        &&& 0 <= self.listener <= self.fdmax < FD_SET_SIZE
        &&& self.master.contains(self.listener)
        &&& forall|fd: i32| #[trigger] self.master.contains(fd) ==> 0 <= fd <= self.fdmax
        &&& match self.phase {
            SelectPhase::Accepting { at, last } => at == self.listener && at <= last
                < FD_SET_SIZE,
            SelectPhase::Receiving { at, last } => 0 <= at <= last < FD_SET_SIZE && at
                != self.listener,
            SelectPhase::Reporting { next, last } => 0 <= next <= last + 1 && last < FD_SET_SIZE,
            _ => true,
        }
    }

    /// The same state in another phase.
    pub open spec fn with_phase(self, phase: SelectPhase) -> SelectServerView {
        SelectServerView { phase, ..self }
    }

    /// Stopping: the state is kept, the phase becomes `Stopped`.
    pub open spec fn stop(self, close: Option<i32>, failure: Failure) -> (
        SelectServerView,
        SelectActionV,
    ) {
        (self.with_phase(SelectPhase::Stopped), SelectActionV::Abort { close, failure })
    }

    /// The `select` request: the master set, and one more than the highest
    /// descriptor.
    pub open spec fn select_request(self) -> SelectActionV {
        SelectActionV::Select { readfds: self.master, nfds: (self.fdmax + 1) as i32 }
    }
}

/// The members of `master` below `n` other than the listener and `from`, in
/// increasing order: the receivers of a message from `from`.
pub open spec fn select_targets(master: Set<i32>, listener: i32, from: i32, n: int) -> Seq<i32>
    decreases n,
{
    if n <= 0 {
        seq![]
    } else {
        let prev = select_targets(master, listener, from, n - 1);
        let j: i32 = (n - 1) as i32;
        if master.contains(j) && j != listener && j != from {
            prev.push(j)
        } else {
            prev
        }
    }
}

/// The pass over descriptors `i..=last`: the first one in the read set
/// decides the next action; a pass that runs past `last` selects again.
pub open spec fn select_scan(v: SelectServerView, i: int, last: int) -> (
    SelectServerView,
    SelectActionV,
)
    decreases last + 1 - i,
{
    if i > last {
        (v.with_phase(SelectPhase::Waiting), v.select_request())
    } else if v.readfds.contains(i as i32) {
        if i == v.listener {
            (
                v.with_phase(SelectPhase::Accepting { at: i as i32, last: last as i32 }),
                SelectActionV::Accept { listener: v.listener },
            )
        } else {
            (
                v.with_phase(SelectPhase::Receiving { at: i as i32, last: last as i32 }),
                SelectActionV::Recv { fd: i as i32 },
            )
        }
    } else {
        select_scan(v, i + 1, last)
    }
}

/// One transition of the chat server: the state after `e` answers the
/// action that `v`'s phase awaits, and the next action.
pub open spec fn select_next(v: SelectServerView, e: SelectEventV) -> (
    SelectServerView,
    SelectActionV,
) {
    match (v.phase, e) {
        (SelectPhase::Waiting, SelectEventV::Selected(readfds)) => select_scan(
            SelectServerView { readfds, ..v },
            0,
            v.fdmax as int,
        ),
        (SelectPhase::Accepting { at, last }, SelectEventV::Accepted(s)) => {
            if !fd_in_range(s as int) {
                v.stop(None, Failure::DescriptorOutOfRange)
            } else {
                (
                    SelectServerView {
                        master: v.master.insert(s),
                        fdmax: if s > v.fdmax {
                            s
                        } else {
                            v.fdmax
                        },
                        phase: SelectPhase::Reporting { next: (at + 1) as i32, last },
                        ..v
                    },
                    SelectActionV::Announce { fd: s },
                )
            }
        },
        (SelectPhase::Accepting { .. }, SelectEventV::AcceptFailed) => v.stop(
            None,
            Failure::AcceptFailed,
        ),
        (SelectPhase::Receiving { at, last }, SelectEventV::Received(n)) => {
            let reporting = SelectPhase::Reporting { next: (at + 1) as i32, last };
            if n == 0 {
                (
                    SelectServerView { master: v.master.remove(at), phase: reporting, ..v },
                    SelectActionV::HangUp { fd: at },
                )
            } else {
                (
                    v.with_phase(reporting),
                    SelectActionV::Broadcast {
                        from: at,
                        dests: select_targets(v.master, v.listener, at, v.fdmax + 1),
                    },
                )
            }
        },
        (SelectPhase::Receiving { at, .. }, SelectEventV::RecvFailed) => (
            SelectServerView { master: v.master.remove(at), phase: SelectPhase::Stopped, ..v },
            SelectActionV::Abort { close: Some(at), failure: Failure::RecvFailed },
        ),
        (SelectPhase::Reporting { next, last }, SelectEventV::Done) => select_scan(
            v,
            next as int,
            last as int,
        ),
        _ => v.stop(None, Failure::UnexpectedEvent),
    }
}

/// A pass keeps the state apart from the phase and the read set it was
/// given, and keeps the invariant.
proof fn lemma_select_scan_wf(v: SelectServerView, i: int, last: int)
    requires
        v.wf(),
        0 <= i,
        last < FD_SET_SIZE,
    ensures
        select_scan(v, i, last).0.wf(),
        select_scan(v, i, last).0 == v.with_phase(select_scan(v, i, last).0.phase),
    decreases last + 1 - i,
{
    if i <= last && !v.readfds.contains(i as i32) {
        lemma_select_scan_wf(v, i + 1, last);
    }
}

/// Every step keeps the server's invariant: the listener stays in the master
/// set, every member lies in `0..=fdmax`, and `fdmax` never decreases.
pub proof fn lemma_select_step_keeps_wf(v: SelectServerView, e: SelectEventV)
    requires
        v.wf(),
    ensures
        select_next(v, e).0.wf(),
        select_next(v, e).0.listener == v.listener,
        select_next(v, e).0.master.contains(v.listener),
        select_next(v, e).0.fdmax >= v.fdmax,
{
    match (v.phase, e) {
        (SelectPhase::Waiting, SelectEventV::Selected(readfds)) => {
            lemma_select_scan_wf(SelectServerView { readfds, ..v }, 0, v.fdmax as int);
        },
        (SelectPhase::Reporting { next, last }, SelectEventV::Done) => {
            lemma_select_scan_wf(v, next as int, last as int);
        },
        _ => {},
    }
}

/// The receivers of a relay: the members of the master set below `n` other
/// than the listener and the sender, each once, in increasing order.
pub proof fn lemma_select_targets_members(
    master: Set<i32>,
    listener: i32,
    from: i32,
    n: int,
    d: i32,
)
    requires
        0 <= n <= FD_SET_SIZE,
    ensures
        select_targets(master, listener, from, n).contains(d) <==> (master.contains(d) && d
            != listener && d != from && 0 <= d < n),
        forall|a: int, b: int|
            0 <= a < b < select_targets(master, listener, from, n).len() ==> #[trigger] select_targets(
                master,
                listener,
                from,
                n,
            )[a] < #[trigger] select_targets(master, listener, from, n)[b],
        forall|a: int|
            0 <= a < select_targets(master, listener, from, n).len() ==> 0 <= #[trigger] select_targets(
                master,
                listener,
                from,
                n,
            )[a] < n,
    decreases n,
{
    if n > 0 {
        lemma_select_targets_members(master, listener, from, n - 1, d);
        let prev = select_targets(master, listener, from, n - 1);
        let j: i32 = (n - 1) as i32;
        if master.contains(j) && j != listener && j != from {
            let cur = prev.push(j);
            assert(cur.contains(d) <==> (prev.contains(d) || j == d)) by {
                if cur.contains(d) {
                    let k = choose|k: int| 0 <= k < cur.len() && cur[k] == d;
                    if k < prev.len() {
                        assert(prev[k] == d);
                    }
                }
                if prev.contains(d) {
                    let k = choose|k: int| 0 <= k < prev.len() && prev[k] == d;
                    assert(cur[k] == d);
                }
                if j == d {
                    assert(cur[prev.len() as int] == d);
                }
            }
            assert forall|a: int, b: int| 0 <= a < b < cur.len() implies #[trigger] cur[a]
                < #[trigger] cur[b] by {
                if b < prev.len() {
                    assert(prev[a] < prev[b]);
                } else {
                    assert(prev[a] < n - 1);
                }
            }
            assert forall|a: int| 0 <= a < cur.len() implies 0 <= #[trigger] cur[a] < n by {
                if a < prev.len() {
                    assert(0 <= prev[a] < n - 1);
                }
            }
        }
    }
}

/// A message is relayed to every other client and to no one else: the
/// receivers are exactly the members of the master set other than the
/// listener and the sender, each once, in increasing order.
pub proof fn lemma_select_relay_reaches_exactly_the_others(
    v: SelectServerView,
    n: usize,
    d: i32,
)
    requires
        v.wf(),
        v.phase is Receiving,
        n > 0,
    ensures
        ({
            let at: i32 = v.phase->Receiving_at;
            &&& select_next(v, SelectEventV::Received(n)).1 matches SelectActionV::Broadcast {
                from,
                dests,
            } && from == at && (dests.contains(d) <==> (v.master.contains(d) && d != v.listener
                && d != at)) && (forall|a: int, b: int|
                0 <= a < b < dests.len() ==> #[trigger] dests[a] < #[trigger] dests[b])
        }),
{
    let at: i32 = v.phase->Receiving_at;
    lemma_select_targets_members(v.master, v.listener, at, v.fdmax + 1, d);
    if v.master.contains(d) {
        assert(0 <= d <= v.fdmax);
    }
}

/// No descriptor of `i..=last` is in `readfds`.
pub open spec fn none_ready(readfds: Set<i32>, i: int, last: int) -> bool {
    forall|k: i32| i <= k <= last ==> !#[trigger] readfds.contains(k)
}

/// What a pass over descriptors `i..=last` does: it changes nothing but the
/// phase; it selects again only when none of them is in the read set; and it
/// accepts or receives only at the first of them in the read set: accepting
/// when that is the listener, receiving from it otherwise.
pub proof fn lemma_pass_acts_on_first_ready_descriptor(v: SelectServerView, i: int, last: int)
    requires
        v.wf(),
        0 <= i,
        last < FD_SET_SIZE,
    ensures
        ({
            let (w, a) = select_scan(v, i, last);
            &&& w.listener == v.listener
            &&& w.master == v.master
            &&& w.fdmax == v.fdmax
            &&& w.readfds == v.readfds
            &&& a is Select ==> none_ready(v.readfds, i, last) && w.phase == SelectPhase::Waiting
                && a == v.select_request()
            &&& a is Accept ==> (w.phase matches SelectPhase::Accepting { at, last: l2 } && l2
                == last && i <= at <= last && at == v.listener && v.readfds.contains(at)
                && none_ready(v.readfds, i, at - 1))
            &&& a is Recv ==> (w.phase matches SelectPhase::Receiving { at, last: l2 } && l2
                == last && i <= at <= last && at != v.listener && v.readfds.contains(at)
                && none_ready(v.readfds, i, at - 1) && a == SelectActionV::Recv { fd: at })
            &&& (a is Select || a is Accept || a is Recv)
        }),
    decreases last + 1 - i,
{
    if i <= last && !v.readfds.contains(i as i32) {
        lemma_pass_acts_on_first_ready_descriptor(v, i + 1, last);
        let (w, a) = select_scan(v, i + 1, last);
    }
}

/// The read set the passes test is exactly the one the last `select`
/// returned: an answer to `select` replaces it, and every other step (an
/// accept, a hang-up, a relay, a report done, a failure) leaves it as it was.
/// So every descriptor the server reads from is one `select` reported ready.
pub proof fn lemma_read_set_is_what_select_returned(v: SelectServerView, e: SelectEventV)
    requires
        v.wf(),
    ensures
        ({
            let (w, a) = select_next(v, e);
            &&& w.readfds == (if v.phase is Waiting && e is Selected {
                e->Selected_0
            } else {
                v.readfds
            })
            &&& a matches SelectActionV::Recv { fd } ==> w.readfds.contains(fd)
            &&& a is Accept ==> w.readfds.contains(v.listener)
        }),
{
    match (v.phase, e) {
        (SelectPhase::Waiting, SelectEventV::Selected(readfds)) => {
            lemma_pass_acts_on_first_ready_descriptor(
                SelectServerView { readfds, ..v },
                0,
                v.fdmax as int,
            );
        },
        (SelectPhase::Reporting { next, last }, SelectEventV::Done) => {
            lemma_pass_acts_on_first_ready_descriptor(v, next as int, last as int);
        },
        _ => {},
    }
}

/// Relaying a message changes nothing but the phase: the master set, the
/// read set and `fdmax` stay, and the pass goes on after the sender.
pub proof fn lemma_select_relay_keeps_state(v: SelectServerView, n: usize)
    requires
        v.wf(),
        v.phase is Receiving,
        n > 0,
    ensures
        ({
            let at = v.phase->Receiving_at;
            let (w, a) = select_next(v, SelectEventV::Received(n));
            &&& w.listener == v.listener
            &&& w.master == v.master
            &&& w.readfds == v.readfds
            &&& w.fdmax == v.fdmax
            &&& w.phase == SelectPhase::Reporting {
                next: (at + 1) as i32,
                last: v.phase->Receiving_last,
            }
            &&& a is Broadcast
        }),
{
}

/// A client that hangs up leaves the master set, so no later relay goes to it
/// until an `accept` hands the same descriptor out again; nothing else
/// changes: the other members, the read set and `fdmax` stay, and the pass
/// goes on after it.
pub proof fn lemma_select_hangup_forgets_client(v: SelectServerView)
    requires
        v.wf(),
        v.phase is Receiving,
    ensures
        ({
            let at = v.phase->Receiving_at;
            let (w, a) = select_next(v, SelectEventV::Received(0));
            &&& a == SelectActionV::HangUp { fd: at }
            &&& w.master == v.master.remove(at)
            &&& !w.master.contains(at)
            &&& w.master.contains(v.listener)
            &&& w.listener == v.listener
            &&& w.readfds == v.readfds
            &&& w.fdmax == v.fdmax
            &&& w.phase == SelectPhase::Reporting {
                next: (at + 1) as i32,
                last: v.phase->Receiving_last,
            }
        }),
{
}

/// A newly accepted client joins the master set and `fdmax` covers it, while
/// the read set of the pass stays as `select` returned it and the pass goes
/// on after the listener; a descriptor that does not fit in a set stops the
/// server.
pub proof fn lemma_select_accept_joins(v: SelectServerView, s: i32)
    requires
        v.wf(),
        v.phase is Accepting,
    ensures
        ({
            let (w, a) = select_next(v, SelectEventV::Accepted(s));
            &&& fd_in_range(s as int) ==> w.master == v.master.insert(s) && s <= w.fdmax
                && w.fdmax >= v.fdmax && (w.fdmax == v.fdmax || w.fdmax == s) && w.readfds
                == v.readfds && w.listener == v.listener && w.phase == SelectPhase::Reporting {
                next: (v.phase->Accepting_at + 1) as i32,
                last: v.phase->Accepting_last,
            } && a == SelectActionV::Announce { fd: s }
            &&& !fd_in_range(s as int) ==> w.phase == SelectPhase::Stopped && w.master == v.master
                && a == SelectActionV::Abort { close: None, failure: Failure::DescriptorOutOfRange }
        }),
{
}

/// After `select`, the pass runs over `0..=fdmax` against the returned set:
/// it selects again only when none of those descriptors was returned ready,
/// and otherwise acts on the lowest one that was (accepting on the listener,
/// receiving from a client); the master set and `fdmax` stay.
pub proof fn lemma_pass_after_select(v: SelectServerView, r: Set<i32>)
    requires
        v.wf(),
        v.phase == SelectPhase::Waiting,
    ensures
        ({
            let (w, a) = select_next(v, SelectEventV::Selected(r));
            &&& w.master == v.master
            &&& w.fdmax == v.fdmax
            &&& w.readfds == r
            &&& a is Select ==> none_ready(r, 0, v.fdmax as int) && a == v.select_request()
            &&& a is Recv ==> (w.phase matches SelectPhase::Receiving { at, .. } && 0 <= at
                <= v.fdmax && r.contains(at) && none_ready(r, 0, at - 1) && a
                == SelectActionV::Recv { fd: at })
            &&& a is Accept ==> (r.contains(v.listener) && none_ready(r, 0, v.listener - 1))
        }),
{
    lemma_pass_acts_on_first_ready_descriptor(
        SelectServerView { readfds: r, ..v },
        0,
        v.fdmax as int,
    );
}

/// When a report is done, the pass resumes after the descriptor it stopped
/// at, against the same read set: it selects again only when no remaining
/// descriptor of the pass is ready, and otherwise acts on the lowest ready one.
pub proof fn lemma_select_done_resumes_the_pass(v: SelectServerView)
    requires
        v.wf(),
        v.phase is Reporting,
    ensures
        ({
            let next = v.phase->Reporting_next as int;
            let last = v.phase->Reporting_last as int;
            let (w, a) = select_next(v, SelectEventV::Done);
            &&& w.master == v.master
            &&& w.readfds == v.readfds
            &&& w.fdmax == v.fdmax
            &&& a is Select ==> none_ready(v.readfds, next, last)
            &&& a is Recv ==> (w.phase matches SelectPhase::Receiving { at, .. } && next <= at
                <= last && v.readfds.contains(at) && none_ready(v.readfds, next, at - 1) && a
                == SelectActionV::Recv { fd: at })
        }),
{
    lemma_pass_acts_on_first_ready_descriptor(
        v,
        v.phase->Reporting_next as int,
        v.phase->Reporting_last as int,
    );
}

/// A failed receive closes that client, removes it from the master set, and
/// stops the server.
pub proof fn lemma_select_failed_recv_closes_and_stops(v: SelectServerView)
    requires
        v.wf(),
        v.phase is Receiving,
    ensures
        ({
            let at = v.phase->Receiving_at;
            let (w, a) = select_next(v, SelectEventV::RecvFailed);
            &&& a == SelectActionV::Abort { close: Some(at), failure: Failure::RecvFailed }
            &&& w.master == v.master.remove(at)
            &&& w.readfds == v.readfds
            &&& w.phase == SelectPhase::Stopped
        }),
{
}

/// Once stopped, the server stays stopped whatever it is told.
pub proof fn lemma_select_stopped_stays_stopped(v: SelectServerView, e: SelectEventV)
    requires
        v.phase == SelectPhase::Stopped,
    ensures
        select_next(v, e).0 == v,
        select_next(v, e).1 == (SelectActionV::Abort {
            close: None,
            failure: Failure::UnexpectedEvent,
        }),
{
    assert(v.with_phase(SelectPhase::Stopped) == v);
}

/// The chat server driven by `select`.
pub struct SelectServer {
    listener: i32,
    master: FdSet,
    fdmax: i32,
    readfds: FdSet,
    phase: SelectPhase,
}

impl View for SelectServer {
    type V = SelectServerView;

    closed spec fn view(&self) -> SelectServerView {
        SelectServerView {
            listener: self.listener,
            master: fd_set_contents(self.master),
            fdmax: self.fdmax,
            readfds: fd_set_contents(self.readfds),
            phase: self.phase,
        }
    }
}

impl SelectServer {
    /// A server on the listening socket `listener`: the master set holds the
    /// listener alone and `fdmax` is the listener. `None` when the listener
    /// does not fit in a `select` set (inserting it would panic).
    pub fn new(listener: i32) -> (r: Option<SelectServer>)
        ensures
            r is None <==> !fd_in_range(listener as int),
            r matches Some(s) ==> {
                &&& s@.wf()
                &&& s@.listener == listener
                &&& s@.master == Set::<i32>::empty().insert(listener)
                &&& s@.fdmax == listener
                &&& s@.phase == SelectPhase::Waiting
            },
    {
        if listener < 0 || listener >= FD_SET_SIZE {
            return None;
        }
        let mut master = fd_set_new();
        fd_set_insert(&mut master, listener);
        let readfds = fd_set_new();
        Some(SelectServer { listener, master, fdmax: listener, readfds, phase: SelectPhase::Waiting })
    }

    /// The listening socket.
    pub fn listener(&self) -> (r: i32)
        ensures
            r == self@.listener,
    {
        self.listener
    }

    /// The highest descriptor seen.
    pub fn fdmax(&self) -> (r: i32)
        ensures
            r == self@.fdmax,
    {
        self.fdmax
    }

    /// A copy of the master set.
    pub fn master(&self) -> (r: FdSet)
        ensures
            fd_set_contents(r) == self@.master,
    {
        self.master
    }

    /// The current phase.
    pub fn phase(&self) -> (r: SelectPhase)
        ensures
            r == self@.phase,
    {
        self.phase
    }

    /// The `select` request that starts each round: a copy of the master set,
    /// and one more than the highest descriptor.
    pub fn select_request(&self) -> (a: SelectAction)
        requires
            self@.wf(),
        ensures
            a@ == self@.select_request(),
    {
        SelectAction::Select { readfds: self.master, nfds: self.fdmax + 1 }
    }

    /// Stops with `failure`, closing `close` if any.
    fn stop(&mut self, close: Option<i32>, failure: Failure) -> (a: SelectAction)
        ensures
            (final(self)@, a@) == old(self)@.stop(close, failure),
    {
        self.phase = SelectPhase::Stopped;
        SelectAction::Abort { close, failure }
    }

    /// Carries out the pass over descriptors `from..=last`.
    fn scan(&mut self, from: i32, last: i32) -> (a: SelectAction)
        requires
            old(self)@.wf(),
            0 <= from <= last + 1,
            last < FD_SET_SIZE,
        ensures
            (final(self)@, a@) == select_scan(old(self)@, from as int, last as int),
            final(self)@.wf(),
    {
        let ghost v0 = self@;
        let mut i: i32 = from;
        while i <= last
            invariant
                self@ == v0,
                v0 == old(self)@,
                v0.wf(),
                0 <= from <= i <= last + 1,
                last < FD_SET_SIZE,
                select_scan(v0, i as int, last as int) == select_scan(
                    v0,
                    from as int,
                    last as int,
                ),
            decreases last + 1 - i,
        {
            if fd_set_contains(&self.readfds, i) {
                if i == self.listener {
                    self.phase = SelectPhase::Accepting { at: i, last };
                    return SelectAction::Accept { listener: self.listener };
                } else {
                    self.phase = SelectPhase::Receiving { at: i, last };
                    return SelectAction::Recv { fd: i };
                }
            }
            i = i + 1;
        }
        self.phase = SelectPhase::Waiting;
        self.select_request()
    }

    /// The receivers of a message from `from`: the members of the master set
    /// in `0..=fdmax` other than the listener and `from`, in increasing order.
    fn targets(&self, from: i32) -> (dests: Vec<i32>)
        requires
            self@.wf(),
        ensures
            dests@ == select_targets(self@.master, self@.listener, from, self@.fdmax + 1),
    {
        let mut dests: Vec<i32> = Vec::new();
        let mut j: i32 = 0;
        while j <= self.fdmax
            invariant
                self@.wf(),
                0 <= j <= self@.fdmax + 1,
                dests@ == select_targets(self@.master, self@.listener, from, j as int),
            decreases self@.fdmax + 1 - j,
        {
            if fd_set_contains(&self.master, j) && j != self.listener && j != from {
                dests.push(j);
            }
            j = j + 1;
        }
        dests
    }

    /// Takes the answer to the last action and gives the next action.
    pub fn step(&mut self, event: SelectEvent) -> (action: SelectAction)
        requires
            old(self)@.wf(),
        ensures
            final(self)@.wf(),
            (final(self)@, action@) == select_next(old(self)@, event@),
    {
        match (self.phase, event) {
            (SelectPhase::Waiting, SelectEvent::Selected(readfds)) => {
                self.readfds = readfds;
                let last: i32 = self.fdmax;
                self.scan(0, last)
            },
            (SelectPhase::Accepting { at, last }, SelectEvent::Accepted(s)) => {
                if s < 0 || s >= FD_SET_SIZE {
                    return self.stop(None, Failure::DescriptorOutOfRange);
                }
                fd_set_insert(&mut self.master, s);
                if s > self.fdmax {
                    self.fdmax = s;
                }
                self.phase = SelectPhase::Reporting { next: at + 1, last };
                SelectAction::Announce { fd: s }
            },
            (SelectPhase::Accepting { .. }, SelectEvent::AcceptFailed) => {
                self.stop(None, Failure::AcceptFailed)
            },
            (SelectPhase::Receiving { at, last }, SelectEvent::Received(n)) => {
                if n == 0 {
                    fd_set_remove(&mut self.master, at);
                    self.phase = SelectPhase::Reporting { next: at + 1, last };
                    SelectAction::HangUp { fd: at }
                } else {
                    let dests = self.targets(at);
                    self.phase = SelectPhase::Reporting { next: at + 1, last };
                    SelectAction::Broadcast { from: at, dests }
                }
            },
            (SelectPhase::Receiving { at, .. }, SelectEvent::RecvFailed) => {
                fd_set_remove(&mut self.master, at);
                self.phase = SelectPhase::Stopped;
                SelectAction::Abort { close: Some(at), failure: Failure::RecvFailed }
            },
            (SelectPhase::Reporting { next, last }, SelectEvent::Done) => self.scan(next, last),
            _ => self.stop(None, Failure::UnexpectedEvent),
        }
    }
}

} // verus!
