//! What the two chat servers share: their port, their receive buffer, and the
//! ways a server run can end.
use vstd::prelude::*;

verus! {

/// The port both chat servers listen on.
pub const CHAT_PORT: u16 = 9034;

/// The length of the servers' receive buffer; a received message is relayed
/// by sending this whole buffer.
pub const BUF_SIZE: usize = 256;

/// The `listen` backlog of the chat servers.
pub const CHAT_BACKLOG: usize = 10;

/// Why a chat server stops. Each of these is a point at which the server
/// program panics.
#[derive(Clone, Copy, Debug, PartialEq, Eq, Structural)]
pub enum Failure {
    /// `accept` on the listening socket failed.
    AcceptFailed,
    /// `recv` on a client failed (the client is closed first).
    RecvFailed,
    /// `poll` reported event flags that `nix` does not know.
    ReventsUnknown,
    /// The pass over the poll entries read past the end of the list: entries
    /// were removed during the pass, whose range was fixed when it began.
    IndexOutOfBounds,
    /// A descriptor does not fit in a `select` set (`0..FD_SETSIZE`).
    DescriptorOutOfRange,
    /// The count of poll entries would overflow.
    CountOverflow,
    /// The event handed in is not the answer to the action that was asked for.
    UnexpectedEvent,
}

} // verus!
