//! The stream server's accept loop, its greeting, and how the clients turn
//! what they received into text.
use vstd::prelude::*;
use vstd::utf8::{decode_utf8, valid_utf8};

verus! {

/// The `listen` backlog of the stream server.
pub const STREAM_BACKLOG: usize = 10;

/// The size of the stream client's receive buffer.
pub const MAX_DATA_SIZE: usize = 100;

/// The size of the datagram listener's receive buffer.
pub const MAX_BUF_LEN: usize = 100;

/// What the stream server sends to each client before closing it.
pub const GREETING: &'static str = "Hello, World!";

/// The value of `EINTR` on Linux.
pub const EINTR_CODE: i32 = 4;

/// Whether an error number is `EINTR`, by comparison with `libc::EINTR`
/// (which is 4 on Linux).
#[verifier::external_body]
fn is_interrupted(code: i32) -> (r: bool)
    ensures
        r == (code == EINTR_CODE),
{
    code == libc::EINTR
}

/// What the stream server does after one `accept`.
#[derive(Clone, Copy, Debug, PartialEq, Eq, Structural)]
pub enum AcceptStep {
    /// The call was interrupted by a signal: accept again.
    Retry,
    /// A client connected on this socket: serve it.
    Serve(i32),
    /// Any other failure: stop.
    Fail,
}

/// Classifies the answer of `accept`: a socket, or the error number.
pub fn accept_step(result: Result<i32, i32>) -> (r: AcceptStep)
    ensures
        r == (match result {
            Ok(s) => AcceptStep::Serve(s),
            Err(code) => if code == EINTR_CODE {
                AcceptStep::Retry
            } else {
                AcceptStep::Fail
            },
        }),
{
    match result {
        Ok(s) => AcceptStep::Serve(s),
        Err(code) => {
            if is_interrupted(code) {
                AcceptStep::Retry
            } else {
                AcceptStep::Fail
            }
        },
    }
}

/// `String::from_utf8`: the text the bytes encode, or `None` when they are
/// not valid UTF-8.
#[verifier::external_body]
fn utf8_string(bytes: Vec<u8>) -> (r: Option<String>)
    ensures
        r is Some <==> valid_utf8(bytes@),
        r matches Some(s) ==> s@ == decode_utf8(bytes@),
{
    match String::from_utf8(bytes) {
        Ok(s) => Some(s),
        Err(_) => None,
    }
}

/// The text of the first `numbytes` bytes of `buf`, the part that a receive
/// filled; `None` when they are not valid UTF-8.
pub fn received_text(buf: &[u8], numbytes: usize) -> (r: Option<String>)
    requires
        numbytes <= buf@.len(),
    ensures
        r is Some <==> valid_utf8(buf@.take(numbytes as int)),
        r matches Some(s) ==> s@ == decode_utf8(buf@.take(numbytes as int)),
{
    let mut bytes: Vec<u8> = Vec::new();
    let mut k: usize = 0;
    while k < numbytes
        invariant
            k <= numbytes <= buf@.len(),
            bytes@ =~= buf@.take(k as int),
        decreases numbytes - k,
    {
        bytes.push(buf[k]);
        k = k + 1;
    }
    utf8_string(bytes)
}

} // verus!
