//! The start-up arguments: where the server listens.

use vstd::prelude::*;
use vstd::string::StrSliceExecFns;

verus! {

/// The port the server listens on when none is given.
pub const DEFAULT_PORT: u16 = 9001;

/// The host the server listens on when none is given: every address of
/// the machine.
pub const UNSPECIFIED_HOST: [u8; 4] = [0, 0, 0, 0];

/// Where the server listens: a TCP port and the four octets of an IPv4
/// address.
#[derive(Clone, Copy, Debug, PartialEq, Eq)]
pub struct ServerArgs {
    pub port: u16,
    pub host: [u8; 4],
}

/// An argument that cannot be used.
#[derive(Clone, Copy, Debug, PartialEq, Eq, Structural)]
pub enum ArgsError {
    /// The port is not a decimal number from 0 to 65535.
    InvalidPort,
}

/// Whether the character is a decimal digit.
pub open spec fn is_digit(c: char) -> bool {
    '0' <= c <= '9'
}

/// The number that a sequence of decimal digits writes.
pub open spec fn decimal_value(digits: Seq<char>) -> nat
    decreases digits.len(),
{
    if digits.len() == 0 {
        0
    } else {
        (10 * decimal_value(digits.drop_last()) + (digits.last() as u32 - '0' as u32)) as nat
    }
}

/// The text without a leading plus sign.
pub open spec fn unsigned_part(text: Seq<char>) -> Seq<char> {
    if text.len() > 0 && text[0] == '+' {
        text.skip(1)
    } else {
        text
    }
}

/// The port that a text writes: decimal digits, at least one, with an
/// optional plus sign in front and nothing else around them, for a number
/// that is at most 65535.
pub open spec fn port_of(text: Seq<char>) -> Option<u16> {
    let digits = unsigned_part(text);
    if digits.len() > 0 && (forall|i: int| 0 <= i < digits.len() ==> is_digit(#[trigger] digits[i]))
        && decimal_value(digits) <= u16::MAX {
        Some(decimal_value(digits) as u16)
    } else {
        None
    }
}

/// A number does not shrink when digits are written after it.
proof fn lemma_decimal_value_grows(digits: Seq<char>, n: int)
    requires
        0 <= n <= digits.len(),
        forall|i: int| 0 <= i < digits.len() ==> is_digit(#[trigger] digits[i]),
    ensures
        decimal_value(digits.take(n)) <= decimal_value(digits),
    decreases digits.len() - n,
{
    if n == digits.len() {
        assert(digits.take(n) =~= digits);
    } else {
        let front = digits.drop_last();
        assert(front.take(n) =~= digits.take(n));
        assert(is_digit(digits.last()));
        if n < front.len() {
            lemma_decimal_value_grows(front, n);
        } else {
            assert(front.take(n) =~= front);
        }
    }
}

/// Reads a port as `port_of` says.
pub fn parse_port(text: &str) -> (port: Option<u16>)
    ensures
        port == port_of(text@),
{
    let len = text.unicode_len();
    let start: usize = if len > 0 && text.get_char(0) == '+' {
        1
    } else {
        0
    };
    let ghost digits = unsigned_part(text@);
    if start == len {
        return None;
    }
    let mut value: u32 = 0;
    let mut i: usize = start;
    while i < len
        invariant
            start <= i <= len,
            len == text@.len(),
            digits == unsigned_part(text@),
            digits =~= text@.skip(start as int),
            forall|j: int| 0 <= j < i - start ==> is_digit(#[trigger] digits[j]),
            value == decimal_value(digits.take(i - start)),
            value <= u16::MAX,
        decreases len - i,
    {
        let c = text.get_char(i);
        assert(c == digits[i - start]);
        if c < '0' || c > '9' {
            assert(!is_digit(digits[i - start]));
            return None;
        }
        let digit: u32 = c as u32 - '0' as u32;
        let next: u32 = value * 10 + digit;
        proof {
            let read = digits.take(i - start + 1);
            assert(read.drop_last() =~= digits.take(i - start));
            assert(read.last() == c);
            assert(decimal_value(read) == next);
        }
        if next > 65535 {
            proof {
                if forall|j: int| 0 <= j < digits.len() ==> is_digit(#[trigger] digits[j]) {
                    lemma_decimal_value_grows(digits, i - start + 1);
                }
            }
            return None;
        }
        value = next;
        i += 1;
    }
    proof {
        assert(digits.take(i - start) =~= digits);
    }
    Some(value as u16)
}

impl ServerArgs {
    /// The arguments for a host and a port.
    pub fn new(host: [u8; 4], port: u16) -> (args: ServerArgs)
        ensures
            args.host == host,
            args.port == port,
    {
        ServerArgs { port, host }
    }

    /// The port for what the command line gave after the port option:
    /// `DEFAULT_PORT` if the option was not given, else the port that the
    /// text writes.
    ///
    /// Fails exactly if a text was given that `port_of` does not read.
    pub fn port_or_default(given: Option<&str>) -> (port: Result<u16, ArgsError>)
        ensures
            port == match given {
                None => Ok::<u16, ArgsError>(DEFAULT_PORT),
                Some(text) => match port_of(text@) {
                    Some(port) => Ok(port),
                    None => Err(ArgsError::InvalidPort),
                },
            },
    {
        match given {
            None => Ok(DEFAULT_PORT),
            Some(text) => match parse_port(text) {
                Some(port) => Ok(port),
                None => Err(ArgsError::InvalidPort),
            },
        }
    }

    /// The host for the address that the command line gave after the host
    /// option: `UNSPECIFIED_HOST` if the option was not given.
    pub fn host_or_default(given: Option<[u8; 4]>) -> (host: [u8; 4])
        ensures
            host == match given {
                None => UNSPECIFIED_HOST,
                Some(octets) => octets,
            },
    {
        match given {
            None => UNSPECIFIED_HOST,
            Some(octets) => octets,
        }
    }
}

} // verus!
