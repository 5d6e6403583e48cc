//! The `select` descriptor set of `nix`, held behind trusted wrappers whose
//! contracts speak of the set of descriptors it contains.
use nix::sys::select::FdSet;
use vstd::prelude::*;

verus! {

/// Number of descriptors an `FdSet` can hold on Linux (`libc::FD_SETSIZE`).
pub const FD_SET_SIZE: i32 = 1024;

/// `nix::sys::select::FdSet`, carried opaquely.
#[verifier::external_type_specification]
#[verifier::external_body]
pub struct ExFdSet(FdSet);

/// The descriptors that an `FdSet` holds.
pub uninterp spec fn fd_set_contents(s: FdSet) -> Set<i32>;

/// Whether `fd` lies in the range that `FdSet`'s methods accept (`nix`
/// asserts `0 <= fd < FD_SETSIZE` and panics otherwise).
pub open spec fn fd_in_range(fd: int) -> bool {
    0 <= fd < FD_SET_SIZE
}

/// `FdSet::new`: an empty set (`FD_ZERO`).
#[verifier::external_body]
pub(crate) fn fd_set_new() -> (s: FdSet)
    ensures
        fd_set_contents(s) == Set::<i32>::empty(),
{
    FdSet::new()
}

/// `FdSet::insert`: adds `fd` (`FD_SET`); `nix` panics on an `fd` out of range.
#[verifier::external_body]
pub(crate) fn fd_set_insert(s: &mut FdSet, fd: i32)
    requires
        fd_in_range(fd as int),
    ensures
        fd_set_contents(*final(s)) == fd_set_contents(*old(s)).insert(fd),
{
    s.insert(fd)
}

/// `FdSet::remove`: removes `fd` (`FD_CLR`); `nix` panics on an `fd` out of range.
#[verifier::external_body]
pub(crate) fn fd_set_remove(s: &mut FdSet, fd: i32)
    requires
        fd_in_range(fd as int),
    ensures
        fd_set_contents(*final(s)) == fd_set_contents(*old(s)).remove(fd),
{
    s.remove(fd)
}

/// `FdSet::contains`: whether `fd` is in the set (`FD_ISSET`); `nix` panics
/// on an `fd` out of range.
#[verifier::external_body]
pub(crate) fn fd_set_contains(s: &FdSet, fd: i32) -> (r: bool)
    requires
        fd_in_range(fd as int),
    ensures
        r == fd_set_contents(*s).contains(fd),
{
    s.contains(fd)
}

} // verus!
