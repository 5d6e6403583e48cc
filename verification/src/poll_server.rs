//! The multi-client chat server driven by `poll`.
//!
//! The server keeps one poll entry per socket, the listening socket first.
//! After each `poll` it makes one pass over the entries that existed when the
//! pass began: a readable listener accepts a client, a readable client is
//! read; a client that sent nothing has hung up and its entry is removed, and
//! a client that sent something has it relayed to every other client.
//!
//! `PollServer::step` is the whole decision procedure: it takes what the
//! operating system answered to the previous action and says what to do
//! next. The program around it performs the actions.
use crate::chat::Failure;
use crate::poll_flags::{has_pollin, pollin_set};
use vstd::prelude::*;

verus! {

/// One poll entry: a descriptor polled for `POLLIN`, and the flags the last
/// `poll` returned for it, as `PollFd::revents` gives their bits: `None` when
/// they include a flag `nix` does not know, `Some(0)` for an entry added since.
#[derive(Clone, Copy, Debug, PartialEq, Eq, Structural)]
pub struct PollEntry {
    pub fd: i32,
    pub revents: Option<i16>,
}

/// Appends an entry for `sock`, with no events yet, and counts it.
pub fn add_to_pfds(pfds: &mut Vec<PollEntry>, sock: i32, pfds_len: &mut usize)
    requires
        *old(pfds_len) < usize::MAX,
    ensures
        final(pfds)@ == old(pfds)@.push(PollEntry { fd: sock, revents: Some(0) }),
        *final(pfds_len) == *old(pfds_len) + 1,
{
    let pfd = PollEntry { fd: sock, revents: Some(0) };
    pfds.push(pfd);
    *pfds_len = *pfds_len + 1;
}

/// Removes the entry at `i`, shifting the later entries down, and uncounts it.
pub fn del_from_pfds(pfds: &mut Vec<PollEntry>, i: usize, pfds_len: &mut usize)
    requires
        i < old(pfds).len(),
        *old(pfds_len) >= 1,
    ensures
        final(pfds)@ == old(pfds)@.remove(i as int),
        *final(pfds_len) == *old(pfds_len) - 1,
{
    pfds.remove(i);
    *pfds_len = *pfds_len - 1;
}

/// Where the server stands between two actions.
#[derive(Clone, Copy, Debug, PartialEq, Eq, Structural)]
pub enum PollPhase {
    /// A `poll` over all entries was asked for.
    Waiting,
    /// The listener, at entry `at` of a pass that ends before `end`, was found
    /// readable; an `accept` was asked for.
    Accepting { at: usize, end: usize },
    /// The client at entry `at` was found readable; a `recv` was asked for.
    Receiving { at: usize, end: usize },
    /// A report (announcement, hang-up, relay) was asked for; the pass goes on
    /// at entry `next` once it is done.
    Reporting { next: usize, end: usize },
    /// The server has stopped.
    Stopped,
}

/// What the program is asked to do next.
#[derive(Debug, PartialEq, Eq)]
pub enum PollAction {
    /// `poll` every entry (each for `POLLIN`) with no timeout, then hand back
    /// each entry's returned flags.
    Poll,
    /// `accept` a connection on the listener.
    Accept { listener: i32 },
    /// Report the new connection on `fd`.
    Announce { fd: i32 },
    /// `recv` from the client `fd` into the receive buffer.
    Recv { fd: i32 },
    /// Report that `fd` hung up, and close it.
    HangUp { fd: i32 },
    /// Send the receive buffer, which came from `from`, to each of `dests` in order.
    Broadcast { from: i32, dests: Vec<i32> },
    /// Close `close`, if any, and stop with `failure`.
    Abort { close: Option<i32>, failure: Failure },
}

/// What the operating system answered to the last action.
#[derive(Debug, PartialEq, Eq)]
pub enum PollEvent {
    /// `poll` returned; each entry's `revents()` as bits, in entry order.
    Polled(Vec<Option<i16>>),
    /// `accept` gave a new socket.
    Accepted(i32),
    /// `accept` failed.
    AcceptFailed,
    /// `recv` returned this many bytes.
    Received(usize),
    /// `recv` failed.
    RecvFailed,
    /// A report or relay was carried out.
    Done,
}

/// The mathematical form of a `PollAction`.
pub enum PollActionV {
    Poll,
    Accept { listener: i32 },
    Announce { fd: i32 },
    Recv { fd: i32 },
    HangUp { fd: i32 },
    Broadcast { from: i32, dests: Seq<i32> },
    Abort { close: Option<i32>, failure: Failure },
}

/// The mathematical form of a `PollEvent`.
pub enum PollEventV {
    Polled(Seq<Option<i16>>),
    Accepted(i32),
    AcceptFailed,
    Received(usize),
    RecvFailed,
    Done,
}

impl View for PollAction {
    type V = PollActionV;

    open spec fn view(&self) -> PollActionV {
        match self {
            PollAction::Poll => PollActionV::Poll,
            PollAction::Accept { listener } => PollActionV::Accept { listener: *listener },
            PollAction::Announce { fd } => PollActionV::Announce { fd: *fd },
            PollAction::Recv { fd } => PollActionV::Recv { fd: *fd },
            PollAction::HangUp { fd } => PollActionV::HangUp { fd: *fd },
            PollAction::Broadcast { from, dests } => PollActionV::Broadcast {
                from: *from,
                dests: dests@,
            },
            PollAction::Abort { close, failure } => PollActionV::Abort {
                close: *close,
                failure: *failure,
            },
        }
    }
}

impl View for PollEvent {
    type V = PollEventV;

    open spec fn view(&self) -> PollEventV {
        match self {
            PollEvent::Polled(revents) => PollEventV::Polled(revents@),
            PollEvent::Accepted(s) => PollEventV::Accepted(*s),
            PollEvent::AcceptFailed => PollEventV::AcceptFailed,
            PollEvent::Received(n) => PollEventV::Received(*n),
            PollEvent::RecvFailed => PollEventV::RecvFailed,
            PollEvent::Done => PollEventV::Done,
        }
    }
}

/// The chat server's state as mathematics: the listener, the poll entries,
/// the count kept beside them, and the phase.
pub struct PollServerView {
    pub listener: i32,
    pub pfds: Seq<PollEntry>,
    pub pfds_len: nat,
    pub phase: PollPhase,
}

impl PollServerView {
    /// The server's invariant: the count matches the entries, the listener's
    /// entry is the first, and a phase that points at an entry points at one
    /// that exists (the listener's when accepting, a client's when receiving).
    pub open spec fn wf(self) -> bool {
        &&& self.pfds_len == self.pfds.len()
        &&& self.pfds_len <= usize::MAX
        &&& self.pfds.len() >= 1
        &&& self.pfds[0].fd == self.listener
        &&& match self.phase {
            PollPhase::Accepting { at, end } => at < self.pfds.len() && at < end
                && self.pfds[at as int].fd == self.listener,
            PollPhase::Receiving { at, end } => at < self.pfds.len() && at < end
                && self.pfds[at as int].fd != self.listener,
            PollPhase::Reporting { next, end } => next <= end,
            _ => true,
        }
    }

    /// The same state in another phase.
    pub open spec fn with_phase(self, phase: PollPhase) -> PollServerView {
        PollServerView { phase, ..self }
    }

    /// Stopping: the state is kept, the phase becomes `Stopped`.
    pub open spec fn stop(self, close: Option<i32>, failure: Failure) -> (
        PollServerView,
        PollActionV,
    ) {
        (self.with_phase(PollPhase::Stopped), PollActionV::Abort { close, failure })
    }
}

/// The entries with their flags replaced by those `poll` returned.
pub open spec fn with_revents(pfds: Seq<PollEntry>, revents: Seq<Option<i16>>) -> Seq<PollEntry> {
    Seq::new(pfds.len(), |k: int| PollEntry { fd: pfds[k].fd, revents: revents[k] })
}

/// The descriptors of the first `n` entries that are neither the listener nor
/// `from`, in entry order: the receivers of a message from `from`.
pub open spec fn poll_targets(pfds: Seq<PollEntry>, listener: i32, from: i32, n: int) -> Seq<i32>
    decreases n,
{
    if n <= 0 {
        seq![]
    } else {
        let prev = poll_targets(pfds, listener, from, n - 1);
        let fd: i32 = pfds[n - 1].fd;
        if fd != listener && fd != from {
            prev.push(fd)
        } else {
            prev
        }
    }
}

/// The pass over entries `i..end`: the first entry at which something must
/// be done decides the next action; a pass that reaches `end` polls again.
/// An index past the current entries, or flags `nix` does not know, stop the
/// server.
pub open spec fn poll_scan(v: PollServerView, i: int, end: int) -> (PollServerView, PollActionV)
    decreases end - i,
{
    if i >= end {
        (v.with_phase(PollPhase::Waiting), PollActionV::Poll)
    } else if i >= v.pfds.len() {
        v.stop(None, Failure::IndexOutOfBounds)
    } else {
        let e = v.pfds[i];
        if e.revents is None {
            v.stop(None, Failure::ReventsUnknown)
        } else if !has_pollin(e.revents->0) {
            poll_scan(v, i + 1, end)
        } else if e.fd == v.listener {
            (
                v.with_phase(PollPhase::Accepting { at: i as usize, end: end as usize }),
                PollActionV::Accept { listener: v.listener },
            )
        } else {
            (
                v.with_phase(PollPhase::Receiving { at: i as usize, end: end as usize }),
                PollActionV::Recv { fd: e.fd },
            )
        }
    }
}

/// One transition of the chat server: the state after `e` answers the
/// action that `v`'s phase awaits, and the next action.
pub open spec fn poll_next(v: PollServerView, e: PollEventV) -> (PollServerView, PollActionV) {
    match (v.phase, e) {
        (PollPhase::Waiting, PollEventV::Polled(revents)) => {
            if revents.len() == v.pfds.len() {
                poll_scan(
                    PollServerView { pfds: with_revents(v.pfds, revents), ..v },
                    0,
                    v.pfds_len as int,
                )
            } else {
                v.stop(None, Failure::UnexpectedEvent)
            }
        },
        (PollPhase::Accepting { at, end }, PollEventV::Accepted(s)) => {
            if v.pfds_len >= usize::MAX {
                v.stop(None, Failure::CountOverflow)
            } else {
                (
                    PollServerView {
                        pfds: v.pfds.push(PollEntry { fd: s, revents: Some(0) }),
                        pfds_len: v.pfds_len + 1,
                        phase: PollPhase::Reporting { next: (at + 1) as usize, end },
                        ..v
                    },
                    PollActionV::Announce { fd: s },
                )
            }
        },
        (PollPhase::Accepting { .. }, PollEventV::AcceptFailed) => v.stop(
            None,
            Failure::AcceptFailed,
        ),
        (PollPhase::Receiving { at, end }, PollEventV::Received(n)) => {
            let fd: i32 = v.pfds[at as int].fd;
            let reporting = PollPhase::Reporting { next: (at + 1) as usize, end };
            if n == 0 {
                (
                    PollServerView {
                        pfds: v.pfds.remove(at as int),
                        pfds_len: (v.pfds_len - 1) as nat,
                        phase: reporting,
                        ..v
                    },
                    PollActionV::HangUp { fd },
                )
            } else {
                (
                    v.with_phase(reporting),
                    PollActionV::Broadcast {
                        from: fd,
                        dests: poll_targets(v.pfds, v.listener, fd, v.pfds.len() as int),
                    },
                )
            }
        },
        (PollPhase::Receiving { at, .. }, PollEventV::RecvFailed) => {
            let fd: i32 = v.pfds[at as int].fd;
            (
                PollServerView {
                    pfds: v.pfds.remove(at as int),
                    pfds_len: (v.pfds_len - 1) as nat,
                    phase: PollPhase::Stopped,
                    ..v
                },
                PollActionV::Abort { close: Some(fd), failure: Failure::RecvFailed },
            )
        },
        (PollPhase::Reporting { next, end }, PollEventV::Done) => poll_scan(
            v,
            next as int,
            end as int,
        ),
        _ => v.stop(None, Failure::UnexpectedEvent),
    }
}

/// The descriptors of the entries.
pub open spec fn entry_fds(pfds: Seq<PollEntry>) -> Seq<i32> {
    pfds.map_values(|e: PollEntry| e.fd)
}

/// No descriptor has two entries.
pub open spec fn fds_distinct(pfds: Seq<PollEntry>) -> bool {
    forall|a: int, b: int| 0 <= a < b < pfds.len() ==> pfds[a].fd != pfds[b].fd
}

/// A pass keeps the state apart from the phase, and keeps the invariant.
proof fn lemma_poll_scan_wf(v: PollServerView, i: int, end: int)
    requires
        v.wf(),
        0 <= i,
        end <= usize::MAX,
    ensures
        poll_scan(v, i, end).0.wf(),
        poll_scan(v, i, end).0.listener == v.listener,
        poll_scan(v, i, end).0.pfds == v.pfds,
    decreases end - i,
{
    if i < end && i < v.pfds.len() {
        let e = v.pfds[i];
        if e.revents is Some && !has_pollin(e.revents->0) {
            lemma_poll_scan_wf(v, i + 1, end);
        }
    }
}

/// Every step keeps the server's invariant: the entry count matches the
/// entries, and the listener keeps the first entry and is never dropped.
pub proof fn lemma_poll_step_keeps_wf(v: PollServerView, e: PollEventV)
    requires
        v.wf(),
    ensures
        poll_next(v, e).0.wf(),
        poll_next(v, e).0.listener == v.listener,
        poll_next(v, e).0.pfds[0].fd == v.listener,
{
    match (v.phase, e) {
        (PollPhase::Waiting, PollEventV::Polled(revents)) => {
            if revents.len() == v.pfds.len() {
                let w = PollServerView { pfds: with_revents(v.pfds, revents), ..v };
                assert(w.wf());
                lemma_poll_scan_wf(w, 0, v.pfds_len as int);
            }
        },
        (PollPhase::Reporting { next, end }, PollEventV::Done) => {
            lemma_poll_scan_wf(v, next as int, end as int);
        },
        _ => {},
    }
}

/// The receivers of a relay, described by membership: exactly the
/// descriptors of the first `n` entries other than the listener and the sender.
pub proof fn lemma_poll_targets_members(
    pfds: Seq<PollEntry>,
    listener: i32,
    from: i32,
    n: int,
    d: i32,
)
    requires
        0 <= n <= pfds.len(),
    ensures
        poll_targets(pfds, listener, from, n).contains(d) <==> (d != listener && d != from
            && exists|k: int| 0 <= k < n && #[trigger] pfds[k].fd == d),
    decreases n,
{
    if n > 0 {
        lemma_poll_targets_members(pfds, listener, from, n - 1, d);
        let prev = poll_targets(pfds, listener, from, n - 1);
        let fd: i32 = pfds[n - 1].fd;
        if fd != listener && fd != from {
            assert(prev.push(fd).contains(d) <==> (prev.contains(d) || fd == d)) by {
                if prev.push(fd).contains(d) {
                    let j = choose|j: int| 0 <= j < prev.push(fd).len() && prev.push(fd)[j] == d;
                    if j < prev.len() {
                        assert(prev[j] == d);
                    }
                }
                if prev.contains(d) {
                    let j = choose|j: int| 0 <= j < prev.len() && prev[j] == d;
                    assert(prev.push(fd)[j] == d);
                }
                if fd == d {
                    assert(prev.push(fd)[prev.len() as int] == d);
                }
            }
        }
        if exists|k: int| 0 <= k < n && #[trigger] pfds[k].fd == d {
            let k = choose|k: int| 0 <= k < n && #[trigger] pfds[k].fd == d;
            if k < n - 1 {
                assert(exists|k2: int| 0 <= k2 < n - 1 && #[trigger] pfds[k2].fd == d);
            }
        }
    }
}

/// A message is relayed to every client other than its sender and to no one
/// else: never back to the sender, never to the listener, and to each other
/// entry's descriptor.
pub proof fn lemma_relay_reaches_exactly_the_others(v: PollServerView, n: usize, d: i32)
    requires
        v.wf(),
        v.phase is Receiving,
        n > 0,
    ensures
        ({
            let at: usize = v.phase->Receiving_at;
            let from: i32 = v.pfds[at as int].fd;
            &&& poll_next(v, PollEventV::Received(n)).1 matches PollActionV::Broadcast {
                from: f,
                dests,
            } && f == from && (dests.contains(d) <==> (d != v.listener && d != from && exists|
                k: int,
            | 0 <= k < v.pfds.len() && #[trigger] v.pfds[k].fd == d))
        }),
{
    let at: usize = v.phase->Receiving_at;
    let from: i32 = v.pfds[at as int].fd;
    lemma_poll_targets_members(v.pfds, v.listener, from, v.pfds.len() as int, d);
}

/// A client that hangs up loses its entry: when descriptors are distinct, its
/// descriptor is no longer polled, so no later relay goes to it until an
/// `accept` hands the same descriptor out again. Every other entry stays, in
/// order.
pub proof fn lemma_hangup_forgets_client(v: PollServerView)
    requires
        v.wf(),
        v.phase is Receiving,
        fds_distinct(v.pfds),
    ensures
        ({
            let at: int = v.phase->Receiving_at as int;
            let (w, a) = poll_next(v, PollEventV::Received(0));
            &&& a == PollActionV::HangUp { fd: v.pfds[at].fd }
            &&& w.pfds == v.pfds.remove(at)
            &&& w.pfds_len == v.pfds_len - 1
            &&& !entry_fds(w.pfds).contains(v.pfds[at].fd)
            &&& fds_distinct(w.pfds)
            &&& w.listener == v.listener
            &&& w.phase == PollPhase::Reporting {
                next: (at + 1) as usize,
                end: v.phase->Receiving_end,
            }
        }),
{
    let at: int = v.phase->Receiving_at as int;
    let w = poll_next(v, PollEventV::Received(0)).0;
    let fd: i32 = v.pfds[at].fd;
    if entry_fds(w.pfds).contains(fd) {
        let j = choose|j: int| 0 <= j < entry_fds(w.pfds).len() && entry_fds(w.pfds)[j] == fd;
        if j < at {
            assert(v.pfds[j].fd == fd);
        } else {
            assert(v.pfds[j + 1].fd == fd);
        }
    }
    assert forall|a: int, b: int| 0 <= a < b < w.pfds.len() implies w.pfds[a].fd
        != w.pfds[b].fd by {
        let a2: int = if a < at { a } else { a + 1 };
        let b2: int = if b < at { b } else { b + 1 };
        assert(w.pfds[a] == v.pfds[a2]);
        assert(w.pfds[b] == v.pfds[b2]);
    }
}

/// Removing the entry that was just added restores the entries:
/// `del_from_pfds` at the last index undoes `add_to_pfds` (and the count,
/// raised by one and lowered by one, is restored with them).
pub proof fn lemma_del_undoes_add(pfds: Seq<PollEntry>, sock: i32)
    ensures
        pfds.push(PollEntry { fd: sock, revents: Some(0) }).remove(pfds.len() as int) == pfds,
{
    assert(pfds.push(PollEntry { fd: sock, revents: Some(0) }).remove(pfds.len() as int) =~= pfds);
}

/// A newly accepted client is appended as the last entry, with no events
/// yet, and is announced; the entries before it stay as they were.
pub proof fn lemma_accept_appends_client(v: PollServerView, s: i32)
    requires
        v.wf(),
        v.phase is Accepting,
        v.pfds_len < usize::MAX,
    ensures
        ({
            let (w, a) = poll_next(v, PollEventV::Accepted(s));
            &&& a == PollActionV::Announce { fd: s }
            &&& w.pfds == v.pfds.push(PollEntry { fd: s, revents: Some(0) })
            &&& w.pfds_len == v.pfds_len + 1
            &&& entry_fds(w.pfds).contains(s)
            &&& w.listener == v.listener
            &&& w.phase == PollPhase::Reporting {
                next: (v.phase->Accepting_at + 1) as usize,
                end: v.phase->Accepting_end,
            }
        }),
{
    let w = poll_next(v, PollEventV::Accepted(s)).0;
    assert(entry_fds(w.pfds)[v.pfds.len() as int] == s);
}

/// Entries `i..j` are all present, carry known flags, and lack `POLLIN`:
/// a pass walks over them without acting.
pub open spec fn quiet_entries(pfds: Seq<PollEntry>, i: int, j: int) -> bool {
    forall|k: int|
        i <= k < j ==> k < pfds.len() && (#[trigger] pfds[k]).revents is Some && !has_pollin(
            pfds[k].revents->0,
        )
}

/// What a pass over entries `i..end` does: it leaves the listener, the
/// entries and their count as they are; it polls again only when every entry
/// of the range is quiet; and when it accepts or receives, it does so at the
/// first entry of the range whose flags hold `POLLIN` (every entry before it
/// quiet): on the listener it accepts, on a client it receives from that
/// client.
pub proof fn lemma_pass_acts_on_first_ready_entry(v: PollServerView, i: int, end: int)
    requires
        v.wf(),
        0 <= i,
        end <= usize::MAX,
    ensures
        ({
            let (w, a) = poll_scan(v, i, end);
            &&& w.listener == v.listener
            &&& w.pfds == v.pfds
            &&& w.pfds_len == v.pfds_len
            &&& a is Poll ==> quiet_entries(v.pfds, i, end)
            &&& a is Accept ==> (w.phase matches PollPhase::Accepting { at, end: e2 } && e2 == end
                && i <= at < end && at < v.pfds.len() && quiet_entries(v.pfds, i, at as int)
                && v.pfds[at as int].revents is Some && has_pollin(v.pfds[at as int].revents->0)
                && v.pfds[at as int].fd == v.listener && a == PollActionV::Accept {
                listener: v.listener,
            })
            &&& a is Recv ==> (w.phase matches PollPhase::Receiving { at, end: e2 } && e2 == end
                && i <= at < end && at < v.pfds.len() && quiet_entries(v.pfds, i, at as int)
                && v.pfds[at as int].revents is Some && has_pollin(v.pfds[at as int].revents->0)
                && v.pfds[at as int].fd != v.listener && a == PollActionV::Recv {
                fd: v.pfds[at as int].fd,
            })
            &&& (a is Accept || a is Recv || a is Poll || a is Abort)
        }),
    decreases end - i,
{
    if i < end && i < v.pfds.len() {
        let e = v.pfds[i];
        if e.revents is Some && !has_pollin(e.revents->0) {
            lemma_pass_acts_on_first_ready_entry(v, i + 1, end);
            let (w, a) = poll_scan(v, i + 1, end);
            if a is Poll {
                assert(quiet_entries(v.pfds, i, end));
            }
            if a is Accept {
                let at = w.phase->Accepting_at;
                assert(quiet_entries(v.pfds, i, at as int));
            }
            if a is Recv {
                let at = w.phase->Receiving_at;
                assert(quiet_entries(v.pfds, i, at as int));
            }
        }
    }
}

/// After `poll`, the pass sees exactly the flags `poll` returned: entry `k`
/// keeps its descriptor and takes the `k`-th returned flags, the count is
/// kept, and the pass over the whole list then acts on the first entry whose
/// returned flags hold `POLLIN`, or polls again when none does.
pub proof fn lemma_pass_sees_the_returned_flags(v: PollServerView, r: Seq<Option<i16>>)
    requires
        v.wf(),
        v.phase == PollPhase::Waiting,
        r.len() == v.pfds.len(),
    ensures
        ({
            let (w, a) = poll_next(v, PollEventV::Polled(r));
            &&& w.listener == v.listener
            &&& w.pfds_len == v.pfds_len
            &&& w.pfds.len() == v.pfds.len()
            &&& forall|k: int|
                0 <= k < v.pfds.len() ==> (#[trigger] w.pfds[k]).fd == v.pfds[k].fd
                    && w.pfds[k].revents == r[k]
            &&& a is Poll ==> forall|k: int|
                0 <= k < r.len() ==> (#[trigger] r[k]) is Some && !has_pollin(r[k]->0)
            &&& a is Recv ==> (w.phase matches PollPhase::Receiving { at, .. } && at < r.len()
                && r[at as int] is Some && has_pollin(r[at as int]->0) && a == PollActionV::Recv {
                fd: v.pfds[at as int].fd,
            } && forall|k: int|
                0 <= k < at ==> (#[trigger] r[k]) is Some && !has_pollin(r[k]->0))
            &&& a is Accept ==> (w.phase matches PollPhase::Accepting { at, .. } && at < r.len()
                && r[at as int] is Some && has_pollin(r[at as int]->0) && v.pfds[at as int].fd
                == v.listener && forall|k: int|
                0 <= k < at ==> (#[trigger] r[k]) is Some && !has_pollin(r[k]->0))
        }),
{
    let u = PollServerView { pfds: with_revents(v.pfds, r), ..v };
    assert(u.wf());
    lemma_pass_acts_on_first_ready_entry(u, 0, v.pfds_len as int);
    let (w, a) = poll_next(v, PollEventV::Polled(r));
    assert forall|k: int| 0 <= k < v.pfds.len() implies (#[trigger] w.pfds[k]).fd
        == v.pfds[k].fd && w.pfds[k].revents == r[k] by {
        assert(w.pfds[k] == u.pfds[k]);
    }
    if a is Poll {
        assert forall|k: int| 0 <= k < r.len() implies (#[trigger] r[k]) is Some && !has_pollin(
            r[k]->0,
        ) by {
            assert(u.pfds[k].revents == r[k]);
        }
    }
    if a is Recv {
        let at = w.phase->Receiving_at;
        assert forall|k: int| 0 <= k < at implies (#[trigger] r[k]) is Some && !has_pollin(
            r[k]->0,
        ) by {
            assert(u.pfds[k].revents == r[k]);
        }
    }
    if a is Accept {
        let at = w.phase->Accepting_at;
        assert forall|k: int| 0 <= k < at implies (#[trigger] r[k]) is Some && !has_pollin(
            r[k]->0,
        ) by {
            assert(u.pfds[k].revents == r[k]);
        }
    }
}

/// Relaying a message changes no entry: the sender and every other client
/// stay in the poll list with their flags, the count is kept, and the pass
/// goes on with the entry after the sender.
pub proof fn lemma_relay_keeps_entries(v: PollServerView, n: usize)
    requires
        v.wf(),
        v.phase is Receiving,
        n > 0,
    ensures
        ({
            let (w, a) = poll_next(v, PollEventV::Received(n));
            &&& w.pfds == v.pfds
            &&& w.pfds_len == v.pfds_len
            &&& w.listener == v.listener
            &&& w.phase == PollPhase::Reporting {
                next: (v.phase->Receiving_at + 1) as usize,
                end: v.phase->Receiving_end,
            }
            &&& a is Broadcast
        }),
{
}

/// The entries change only by an accept (one appended), a hang-up or a
/// failed receive (the receiving entry removed), or a poll (flags replaced);
/// every other answer (a relay or report done, a failure, an unexpected
/// event) leaves the entries and their count as they were.
pub proof fn lemma_entries_change_only_by_membership_or_poll(v: PollServerView, e: PollEventV)
    requires
        v.wf(),
        !(e is Polled),
        !(e is Accepted),
        !(e matches PollEventV::Received(n) && n == 0),
        !(e is RecvFailed),
    ensures
        poll_next(v, e).0.pfds == v.pfds,
        poll_next(v, e).0.pfds_len == v.pfds_len,
        poll_next(v, e).0.listener == v.listener,
{
    if let (PollPhase::Reporting { next, end }, PollEventV::Done) = (v.phase, e) {
        lemma_pass_acts_on_first_ready_entry(v, next as int, end as int);
    }
}

/// When a report is done, the pass resumes where it stopped: the entries
/// stay, it polls again only when every remaining entry of the pass is
/// quiet, and otherwise acts on the first remaining entry whose flags hold
/// `POLLIN`.
pub proof fn lemma_done_resumes_the_pass(v: PollServerView)
    requires
        v.wf(),
        v.phase is Reporting,
    ensures
        ({
            let next = v.phase->Reporting_next as int;
            let end = v.phase->Reporting_end as int;
            let (w, a) = poll_next(v, PollEventV::Done);
            &&& w.pfds == v.pfds
            &&& w.pfds_len == v.pfds_len
            &&& a is Poll ==> quiet_entries(v.pfds, next, end)
            &&& a is Recv ==> (w.phase matches PollPhase::Receiving { at, .. } && next <= at < end
                && quiet_entries(v.pfds, next, at as int) && v.pfds[at as int].revents is Some
                && has_pollin(v.pfds[at as int].revents->0) && a == PollActionV::Recv {
                fd: v.pfds[at as int].fd,
            })
            &&& a is Accept ==> (w.phase matches PollPhase::Accepting { at, .. } && next <= at
                < end && quiet_entries(v.pfds, next, at as int) && v.pfds[at as int].fd
                == v.listener)
        }),
{
    lemma_pass_acts_on_first_ready_entry(
        v,
        v.phase->Reporting_next as int,
        v.phase->Reporting_end as int,
    );
}

/// A failed receive closes that client, removes its entry, and stops the
/// server.
pub proof fn lemma_failed_recv_closes_and_stops(v: PollServerView)
    requires
        v.wf(),
        v.phase is Receiving,
    ensures
        ({
            let at = v.phase->Receiving_at as int;
            let (w, a) = poll_next(v, PollEventV::RecvFailed);
            &&& a == PollActionV::Abort { close: Some(v.pfds[at].fd), failure: Failure::RecvFailed }
            &&& w.pfds == v.pfds.remove(at)
            &&& w.pfds_len == v.pfds_len - 1
            &&& w.phase == PollPhase::Stopped
        }),
{
}

/// Once stopped, the server stays stopped whatever it is told.
pub proof fn lemma_stopped_stays_stopped(v: PollServerView, e: PollEventV)
    requires
        v.phase == PollPhase::Stopped,
    ensures
        poll_next(v, e).0 == v,
        poll_next(v, e).1 == (PollActionV::Abort { close: None, failure: Failure::UnexpectedEvent }),
{
    assert(v.with_phase(PollPhase::Stopped) == v);
}

/// The chat server driven by `poll`.
pub struct PollServer {
    listener: i32,
    pfds: Vec<PollEntry>,
    pfds_len: usize,
    phase: PollPhase,
}

impl View for PollServer {
    type V = PollServerView;

    closed spec fn view(&self) -> PollServerView {
        PollServerView {
            listener: self.listener,
            pfds: self.pfds@,
            pfds_len: self.pfds_len as nat,
            phase: self.phase,
        }
    }
}

impl PollServer {
    /// A server on the listening socket `listener`, whose one entry is the
    /// listener's; its first action is a `poll`.
    pub fn new(listener: i32) -> (s: PollServer)
        ensures
            s@.wf(),
            s@.listener == listener,
            s@.pfds == seq![PollEntry { fd: listener, revents: Some(0) }],
            s@.phase == PollPhase::Waiting,
    {
        let mut pfds: Vec<PollEntry> = Vec::new();
        pfds.push(PollEntry { fd: listener, revents: Some(0) });
        let s = PollServer { listener, pfds, pfds_len: 1, phase: PollPhase::Waiting };
        assert(s@.pfds =~= seq![PollEntry { fd: listener, revents: Some(0) }]);
        s
    }

    /// The listening socket.
    pub fn listener(&self) -> (r: i32)
        ensures
            r == self@.listener,
    {
        self.listener
    }

    /// The poll entries, in the order `poll` must see them.
    pub fn entries(&self) -> (r: &Vec<PollEntry>)
        ensures
            r@ == self@.pfds,
    {
        &self.pfds
    }

    /// The current phase.
    pub fn phase(&self) -> (r: PollPhase)
        ensures
            r == self@.phase,
    {
        self.phase
    }

    /// Stops with `failure`, closing `close` if any.
    fn stop(&mut self, close: Option<i32>, failure: Failure) -> (a: PollAction)
        ensures
            (final(self)@, a@) == old(self)@.stop(close, failure),
    {
        self.phase = PollPhase::Stopped;
        PollAction::Abort { close, failure }
    }

    /// Carries out the pass over entries `from..end`.
    fn scan(&mut self, from: usize, end: usize) -> (a: PollAction)
        requires
            old(self)@.wf(),
            from <= end,
        ensures
            (final(self)@, a@) == poll_scan(old(self)@, from as int, end as int),
            final(self)@.wf(),
    {
        let ghost v0 = self@;
        let mut i: usize = from;
        while i < end
            invariant
                self@ == v0,
                v0 == old(self)@,
                v0.wf(),
                from <= i <= end,
                poll_scan(v0, i as int, end as int) == poll_scan(v0, from as int, end as int),
            decreases end - i,
        {
            if i >= self.pfds.len() {
                return self.stop(None, Failure::IndexOutOfBounds);
            }
            let e = self.pfds[i];
            match e.revents {
                None => {
                    return self.stop(None, Failure::ReventsUnknown);
                },
                Some(bits) => {
                    if !pollin_set(bits) {
                        i = i + 1;
                    } else if e.fd == self.listener {
                        self.phase = PollPhase::Accepting { at: i, end };
                        return PollAction::Accept { listener: self.listener };
                    } else {
                        self.phase = PollPhase::Receiving { at: i, end };
                        return PollAction::Recv { fd: e.fd };
                    }
                },
            }
        }
        self.phase = PollPhase::Waiting;
        PollAction::Poll
    }

    /// The receivers of a message from `from`: every entry's descriptor other
    /// than the listener's and `from`'s, in entry order.
    fn targets(&self, from: i32) -> (dests: Vec<i32>)
        requires
            self@.wf(),
        ensures
            dests@ == poll_targets(self@.pfds, self@.listener, from, self@.pfds.len() as int),
    {
        let mut dests: Vec<i32> = Vec::new();
        let mut j: usize = 0;
        while j < self.pfds_len
            invariant
                self@.wf(),
                j <= self.pfds_len,
                dests@ == poll_targets(self@.pfds, self@.listener, from, j as int),
            decreases self.pfds_len - j,
        {
            let dest_fd: i32 = self.pfds[j].fd;
            if dest_fd != self.listener && dest_fd != from {
                dests.push(dest_fd);
            }
            j = j + 1;
        }
        dests
    }

    /// Takes the answer to the last action and gives the next action.
    pub fn step(&mut self, event: PollEvent) -> (action: PollAction)
        requires
            old(self)@.wf(),
        ensures
            final(self)@.wf(),
            (final(self)@, action@) == poll_next(old(self)@, event@),
    {
        let ghost v0 = self@;
        match (self.phase, event) {
            (PollPhase::Waiting, PollEvent::Polled(revents)) => {
                if revents.len() != self.pfds.len() {
                    return self.stop(None, Failure::UnexpectedEvent);
                }
                let mut fresh: Vec<PollEntry> = Vec::new();
                let mut k: usize = 0;
                while k < self.pfds.len()
                    invariant
                        self@ == v0,
                        revents@.len() == self.pfds@.len(),
                        k <= self.pfds@.len(),
                        fresh@ =~= with_revents(self.pfds@, revents@).take(k as int),
                    decreases self.pfds@.len() - k,
                {
                    fresh.push(PollEntry { fd: self.pfds[k].fd, revents: revents[k] });
                    k = k + 1;
                }
                assert(fresh@ =~= with_revents(v0.pfds, revents@));
                self.pfds = fresh;
                let end: usize = self.pfds_len;
                self.scan(0, end)
            },
            (PollPhase::Accepting { at, end }, PollEvent::Accepted(s)) => {
                if self.pfds_len == usize::MAX {
                    return self.stop(None, Failure::CountOverflow);
                }
                add_to_pfds(&mut self.pfds, s, &mut self.pfds_len);
                self.phase = PollPhase::Reporting { next: at + 1, end };
                PollAction::Announce { fd: s }
            },
            (PollPhase::Accepting { .. }, PollEvent::AcceptFailed) => {
                self.stop(None, Failure::AcceptFailed)
            },
            (PollPhase::Receiving { at, end }, PollEvent::Received(n)) => {
                let fd: i32 = self.pfds[at].fd;
                if n == 0 {
                    del_from_pfds(&mut self.pfds, at, &mut self.pfds_len);
                    self.phase = PollPhase::Reporting { next: at + 1, end };
                    PollAction::HangUp { fd }
                } else {
                    let dests = self.targets(fd);
                    self.phase = PollPhase::Reporting { next: at + 1, end };
                    PollAction::Broadcast { from: fd, dests }
                }
            },
            (PollPhase::Receiving { at, .. }, PollEvent::RecvFailed) => {
                let fd: i32 = self.pfds[at].fd;
                del_from_pfds(&mut self.pfds, at, &mut self.pfds_len);
                self.phase = PollPhase::Stopped;
                PollAction::Abort { close: Some(fd), failure: Failure::RecvFailed }
            },
            (PollPhase::Reporting { next, end }, PollEvent::Done) => self.scan(next, end),
            _ => self.stop(None, Failure::UnexpectedEvent),
        }
    }
}

} // verus!
