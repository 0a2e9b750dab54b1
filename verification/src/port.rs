//! Parsing of the optional port argument.
//!
//! The server takes at most one argument, a decimal TCP port number.  An
//! absent argument means the default port; an argument that is not a decimal
//! number in range is rejected, and the caller reports it and exits.

use vstd::prelude::*;
use vstd::string::StrSliceExecFns;
use vstd::string::StringExecFns;

verus! {

/// The port the server listens on when no argument is given.
pub const DEFAULT_PORT: u16 = 8000;

/// Whether `c` is a decimal digit.
pub open spec fn is_digit(c: char) -> bool {
    48 <= c as u32 && c as u32 <= 57
}

/// The numeric value of the digit `c`.
pub open spec fn digit_val(c: char) -> int {
    c as u32 - 48
}

/// Whether every character of `s` is a decimal digit.
pub open spec fn all_digits(s: Seq<char>) -> bool {
    forall|i: int| 0 <= i < s.len() ==> is_digit(#[trigger] s[i])
}

/// The value of `s` read as a decimal numeral (0 for the empty sequence).
pub open spec fn dec_val(s: Seq<char>) -> int
    decreases s.len(),
{
    if s.len() == 0 {
        0
    } else {
        dec_val(s.drop_last()) * 10 + digit_val(s.last())
    }
}

/// Whether `s` is a well-formed port argument: a non-empty string of decimal
/// digits whose value fits in 16 bits.
pub open spec fn valid_port_str(s: Seq<char>) -> bool {
    &&& s.len() > 0
    &&& all_digits(s)
    &&& dec_val(s) <= 65535
}

/// The value of an all-digit numeral is non-negative.
proof fn lemma_dec_val_nonneg(s: Seq<char>)
    requires
        all_digits(s),
    ensures
        dec_val(s) >= 0,
    decreases s.len(),
{
    if s.len() > 0 {
        assert(all_digits(s.drop_last()));
        lemma_dec_val_nonneg(s.drop_last());
    }
}

/// Reading more digits never decreases the value of a numeral: every prefix
/// of an all-digit sequence is worth at most the whole.
proof fn lemma_dec_val_prefix(s: Seq<char>, i: int)
    requires
        all_digits(s),
        0 <= i <= s.len(),
    ensures
        dec_val(s.take(i)) <= dec_val(s),
    decreases s.len() - i,
{
    if i < s.len() {
        lemma_dec_val_prefix(s, i + 1);
        assert(s.take(i + 1).drop_last() =~= s.take(i));
        assert(s.take(i + 1).last() == s[i]);
        assert(all_digits(s.take(i)));
        lemma_dec_val_nonneg(s.take(i));
        assert(dec_val(s.take(i)) <= dec_val(s.take(i + 1)));
    } else {
        assert(s.take(i) =~= s);
    }
}

/// Parses a decimal port number.  Returns `Some(p)` exactly when `s` is a
/// non-empty string of digits whose value `p` is at most 65535, and `None`
/// otherwise.
pub fn parse_port(s: &str) -> (r: Option<u16>)
    ensures
        match r {
            Some(p) => valid_port_str(s@) && p == dec_val(s@),
            None => !valid_port_str(s@),
        },
{
    let n = s.unicode_len();
    if n == 0 {
        return None;
    }
    let mut acc: u32 = 0;
    let mut i: usize = 0;
    while i < n
        invariant
            0 <= i <= n,
            n == s@.len(),
            all_digits(s@.take(i as int)),
            acc == dec_val(s@.take(i as int)),
            acc <= 65535,
        decreases n - i,
    {
        let c = s.get_char(i);
        let cv = c as u32;
        if cv < 48 || cv > 57 {
            assert(!is_digit(s@[i as int]));
            return None;
        }
        let d = cv - 48;
        let next: u32 = acc * 10 + d;
        proof {
            assert(s@.take(i + 1).drop_last() =~= s@.take(i as int));
            assert(s@.take(i + 1).last() == s@[i as int]);
            assert(all_digits(s@.take(i + 1)));
            assert(next == dec_val(s@.take(i + 1)));
        }
        if next > 65535 {
            proof {
                if all_digits(s@) {
                    lemma_dec_val_prefix(s@, i + 1);
                }
            }
            return None;
        }
        acc = next;
        i = i + 1;
    }
    proof {
        assert(s@.take(n as int) =~= s@);
    }
    Some(acc as u16)
}

/// The message printed when the port argument cannot be used: it names the
/// offending value.
pub fn invalid_port_message(arg: &str) -> (m: String)
    ensures
        m@ == "Invalid port: "@ + arg@,
{
    let mut m = String::from_str("Invalid port: ");
    m.append(arg);
    m
}

/// Chooses the port from the optional first argument: the default port when
/// no argument was given, the parsed value when the argument is a valid
/// port numeral, and nothing otherwise.
pub fn port_from_args(arg: Option<&str>) -> (r: Option<u16>)
    ensures
        match arg {
            None => r == Some(DEFAULT_PORT),
            Some(s) => match r {
                Some(p) => valid_port_str(s@) && p == dec_val(s@),
                None => !valid_port_str(s@),
            },
        },
{
    match arg {
        None => Some(DEFAULT_PORT),
        Some(s) => parse_port(s),
    }
}

} // verus!
