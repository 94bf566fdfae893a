//! The `host:port` form in which upstream addresses are configured.
//!
//! An address is split at its last colon. What stands before it is the host,
//! which must not be empty; what follows is the port, written in decimal
//! digits and no larger than 65535.

use vstd::prelude::*;
use vstd::std_specs::iter::IteratorSpec;

verus! {

broadcast use vstd::string::group_string_axioms;

/// Whether `c` is an ASCII decimal digit.
pub open spec fn is_digit(c: char) -> bool {
    '0' <= c && c <= '9'
}

/// The number that the digit `c` stands for.
pub open spec fn digit_value(c: char) -> nat {
    (c as u32 - '0' as u32) as nat
}

/// Whether every character of `s` is a decimal digit.
pub open spec fn all_digits(s: Seq<char>) -> bool {
    forall|i: int| 0 <= i < s.len() ==> is_digit(#[trigger] s[i])
}

/// The number written by `digits`, most significant digit first.
pub open spec fn decimal_value(digits: Seq<char>) -> nat
    decreases digits.len(),
{
    if digits.len() == 0 {
        0
    } else {
        10 * decimal_value(digits.drop_last()) + digit_value(digits.last())
    }
}

/// The port that `digits` denotes: present when `digits` is a non-empty run
/// of decimal digits whose value fits a port number.
pub open spec fn port_of(digits: Seq<char>) -> Option<u16> {
    if digits.len() > 0 && all_digits(digits) && decimal_value(digits) <= u16::MAX {
        Some(decimal_value(digits) as u16)
    } else {
        None
    }
}

/// The position of the last colon in `s`, or -1 when `s` holds none.
pub open spec fn last_colon(s: Seq<char>) -> int
    decreases s.len(),
{
    if s.len() == 0 {
        -1
    } else if s.last() == ':' {
        s.len() - 1
    } else {
        last_colon(s.drop_last())
    }
}

/// The port of the address `s`, or `None` when `s` is not of the form
/// `host:port`.
pub open spec fn address_port(s: Seq<char>) -> Option<u16> {
    let colon = last_colon(s);
    if colon <= 0 {
        None
    } else {
        port_of(s.subrange(colon + 1, s.len() as int))
    }
}

/// Whether `s` is an address of the form `host:port`.
pub open spec fn is_address(s: Seq<char>) -> bool {
    address_port(s) is Some
}

/// Parses `address` and returns its port.
///
/// The result is `None` exactly when `address` is not of the form
/// `host:port`.
pub fn parse_port(address: &str) -> (port: Option<u16>)
    ensures
        port == address_port(address@),
{
    let ghost mut seen: Seq<char> = Seq::empty();
    let mut colon_seen = false;
    let mut host_empty = false;
    let mut at_start = true;
    let mut tail_empty = true;
    let mut tail_ok = true;
    let mut value: u32 = 0;
    for c in chars: address.chars()
        invariant
            chars.seq() == address@,
            seen == chars.history(),
            at_start == (seen.len() == 0),
            -1 <= last_colon(seen) < seen.len(),
            colon_seen == (last_colon(seen) >= 0),
            colon_seen ==> host_empty == (last_colon(seen) == 0),
            colon_seen ==> tail_empty == (last_colon(seen) + 1 == seen.len()),
            colon_seen ==> tail_ok == (all_digits(
                seen.subrange(last_colon(seen) + 1, seen.len() as int),
            ) && decimal_value(seen.subrange(last_colon(seen) + 1, seen.len() as int))
                <= u16::MAX),
            colon_seen && tail_ok ==> value == decimal_value(
                seen.subrange(last_colon(seen) + 1, seen.len() as int),
            ),
    {
        let ghost grown = seen.push(c);
        proof {
            assert(grown.drop_last() == seen);
            if c != ':' && last_colon(seen) >= 0 {
                let from = last_colon(seen) + 1;
                let tail = seen.subrange(from, seen.len() as int);
                assert(grown.subrange(from, grown.len() as int) == tail.push(c));
                assert(tail.push(c).drop_last() == tail);
                if !all_digits(tail) {
                    let i = choose|i: int| 0 <= i < tail.len() && !is_digit(tail[i]);
                    assert(tail.push(c)[i] == tail[i]);
                }
            }
        }
        if c == ':' {
            colon_seen = true;
            host_empty = at_start;
            tail_empty = true;
            tail_ok = true;
            value = 0;
        } else if colon_seen {
            tail_empty = false;
            if tail_ok && '0' <= c && c <= '9' {
                value = value * 10 + (c as u32 - '0' as u32);
                if value > 65535 {
                    tail_ok = false;
                }
            } else {
                tail_ok = false;
            }
        }
        at_start = false;
        proof {
            seen = grown;
        }
    }
    assert(seen == address@);
    if colon_seen && !host_empty && !tail_empty && tail_ok {
        Some(value as u16)
    } else {
        None
    }
}

/// The last colon of `s` lies inside `s`, and nothing after it is a colon.
pub proof fn lemma_last_colon(s: Seq<char>)
    ensures
        -1 <= last_colon(s) < s.len(),
        last_colon(s) >= 0 ==> s[last_colon(s)] == ':',
        forall|i: int| last_colon(s) < i < s.len() ==> s[i] != ':',
    decreases s.len(),
{
    if s.len() > 0 && s.last() != ':' {
        let front = s.drop_last();
        lemma_last_colon(front);
        assert forall|i: int| last_colon(s) < i < s.len() implies s[i] != ':' by {
            if i < front.len() {
                assert(front[i] == s[i]);
            }
        }
    }
}

/// Whether `s` is a non-empty host of `host_len` characters, a colon, and
/// the digits of `port`.
pub open spec fn splits_into(s: Seq<char>, host_len: int, port: u16) -> bool {
    &&& 0 < host_len < s.len()
    &&& s[host_len] == ':'
    &&& port_of(s.subrange(host_len + 1, s.len() as int)) == Some(port)
}

/// An address has one reading: `s` has the port `port` exactly when it
/// splits into a host and the digits of `port` at one of its colons, and
/// that colon is then its last.
pub proof fn lemma_address_reading(s: Seq<char>, port: u16)
    ensures
        address_port(s) == Some(port) <==> exists|host_len: int| splits_into(s, host_len, port),
        forall|host_len: int| splits_into(s, host_len, port) ==> host_len == last_colon(s),
{
    lemma_last_colon(s);
    assert forall|host_len: int| splits_into(s, host_len, port) implies host_len == last_colon(
        s,
    ) by {
        let last = last_colon(s);
        if host_len < last {
            let digits = s.subrange(host_len + 1, s.len() as int);
            assert(is_digit(digits[last - host_len - 1]));
        }
    }
    if address_port(s) == Some(port) {
        assert(splits_into(s, last_colon(s), port));
    }
}

} // verus!
