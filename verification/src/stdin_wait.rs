//! Waiting for standard input with a timeout, by `poll` or by `select`: what
//! the outcome of the wait means.
use crate::fd_set::{fd_set_contains, fd_set_contents, fd_set_insert, fd_set_new};
use crate::poll_flags::{has_pollin, pollin_set};
use nix::sys::select::FdSet;
use vstd::prelude::*;

verus! {

/// The descriptor of standard input.
pub const STDIN_FD: i32 = 0;

/// How long the demos wait for input, in milliseconds.
pub const WAIT_MILLIS: i32 = 2500;

/// What a `poll` on standard input came to.
#[derive(Clone, Copy, Debug, PartialEq, Eq, Structural)]
pub enum StdinPoll {
    /// No descriptor became ready before the timeout.
    TimedOut,
    /// Standard input is ready to read.
    Ready,
    /// An event other than `POLLIN` was reported.
    Unexpected,
    /// The kernel reported flags that `nix` does not know (`revents()` is `None`).
    Invalid,
}

/// Classifies the answer of `poll` on a single `POLLIN` entry for standard
/// input: `num_events` is what `poll` returned, and `revents` the entry's
/// returned flags as `PollFd::revents` gives their bits (`None` when they
/// include a flag `nix` does not know).
pub fn classify_stdin_poll(num_events: i32, revents: Option<i16>) -> (r: StdinPoll)
    ensures
        r == (if num_events == 0 {
            StdinPoll::TimedOut
        } else {
            match revents {
                None => StdinPoll::Invalid,
                Some(bits) => if has_pollin(bits) {
                    StdinPoll::Ready
                } else {
                    StdinPoll::Unexpected
                },
            }
        }),
{
    if num_events == 0 {
        StdinPoll::TimedOut
    } else {
        match revents {
            None => StdinPoll::Invalid,
            Some(bits) => {
                if pollin_set(bits) {
                    StdinPoll::Ready
                } else {
                    StdinPoll::Unexpected
                }
            },
        }
    }
}

/// The read set handed to `select`: standard input alone.
pub fn stdin_read_set() -> (s: FdSet)
    ensures
        fd_set_contents(s) == Set::<i32>::empty().insert(STDIN_FD),
{
    let mut s = fd_set_new();
    fd_set_insert(&mut s, STDIN_FD);
    s
}

/// After `select` returned, whether a key was pressed: standard input is
/// still in the read set.
pub fn key_pressed(readfds: &FdSet) -> (r: bool)
    ensures
        r == fd_set_contents(*readfds).contains(STDIN_FD),
{
    fd_set_contains(readfds, STDIN_FD)
}

} // verus!
