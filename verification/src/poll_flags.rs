//! Reading the event flags that `poll` returns for an entry.
use vstd::prelude::*;

verus! {

/// The bit of `POLLIN` (`libc::POLLIN`, `0x1` on Linux).
pub const POLLIN_BIT: i16 = 1;

/// Whether the `POLLIN` bit is set in the flag word `revents`.
pub open spec fn has_pollin(revents: i16) -> bool {
    revents & POLLIN_BIT == POLLIN_BIT
}

/// `PollFlags::contains(PollFlags::POLLIN)` on the flags whose bits are
/// `revents`: all of `POLLIN`'s bits are set.
pub fn pollin_set(revents: i16) -> (r: bool)
    ensures
        r == has_pollin(revents),
{
    revents & POLLIN_BIT == POLLIN_BIT
}

} // verus!
