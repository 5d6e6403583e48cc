//! The `host:port` text every program hands to the address parser, and the
//! name of an address's family.
use vstd::prelude::*;

verus! {

/// The port the stream server listens on and the stream client connects to.
pub const STREAM_PORT: u16 = 3490;

/// The port the datagram listener binds and the talker sends to.
pub const DATAGRAM_PORT: u16 = 4950;

/// The port under which host names are resolved for display.
pub const LOOKUP_PORT: u16 = 80;

/// The character of the decimal digit `d` (`d < 10`).
pub open spec fn digit_char(d: nat) -> char {
    ('0' as u32 + d) as char
}

/// The decimal digits of `n`, most significant first, with no leading zero.
pub open spec fn decimal(n: nat) -> Seq<char>
    decreases n,
{
    if n < 10 {
        seq![digit_char(n)]
    } else {
        decimal(n / 10).push(digit_char(n % 10))
    }
}

/// `String::push`: appends one character.
#[verifier::external_body]
fn push_char(s: &mut String, c: char)
    ensures
        final(s)@ == old(s)@.push(c),
{
    s.push(c)
}

/// The character of the digit `d`.
fn digit(d: u16) -> (c: char)
    requires
        d < 10,
    ensures
        c == digit_char(d as nat),
{
    match d {
        0 => '0',
        1 => '1',
        2 => '2',
        3 => '3',
        4 => '4',
        5 => '5',
        6 => '6',
        7 => '7',
        8 => '8',
        _ => '9',
    }
}

/// Appends the decimal digits of `n`.
fn push_decimal(s: &mut String, n: u16)
    ensures
        final(s)@ == old(s)@ + decimal(n as nat),
    decreases n,
{
    if n >= 10 {
        push_decimal(s, n / 10);
    }
    push_char(s, digit(n % 10));
    proof {
        if n >= 10 {
            assert(old(s)@ + decimal(n as nat) =~= old(s)@ + decimal((n / 10) as nat) + seq![
                digit_char((n % 10) as nat),
            ]);
        }
    }
}

/// The text `host:port`, the port written in decimal.
pub fn host_port(host: &str, port: u16) -> (r: String)
    ensures
        r@ == host@ + seq![':'] + decimal(port as nat),
{
    let mut r = String::from_str(host);
    push_char(&mut r, ':');
    push_decimal(&mut r, port);
    assert(r@ =~= host@ + seq![':'] + decimal(port as nat));
    r
}

/// The family of an IP address.
#[derive(Clone, Copy, Debug, PartialEq, Eq, Structural)]
pub enum IpFamily {
    V4,
    V6,
}

/// The name under which an address of family `f` is listed.
pub fn ip_version_label(f: IpFamily) -> (r: &'static str)
    ensures
        r@ == (match f {
            IpFamily::V4 => "IPv4"@,
            IpFamily::V6 => "IPv6"@,
        }),
{
    match f {
        IpFamily::V4 => "IPv4",
        IpFamily::V6 => "IPv6",
    }
}

} // verus!
