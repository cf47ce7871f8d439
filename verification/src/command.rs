//! The command vocabulary and the parser that turns inbound text into a
//! command.
//!
//! The transport adapter hands the raw `countdown` field of a request to
//! [`parse_command`]; everything from there on is verified. The mapping is:
//! `"-1"` cancels, `"reset"` clears a fired countdown, a decimal numeral
//! (optionally with a leading `+`, as Rust's integer parsing accepts) that
//! fits in 64 bits arms a countdown with that many seconds, and anything
//! else is invalid and must be rejected before it reaches the computer.

use vstd::prelude::*;
use vstd::string::StrSliceExecFns;

verus! {

/// A command for the mission computer.
#[derive(Clone, Copy, Debug, PartialEq, Eq, Structural)]
pub enum CountdownCommand {
    /// Stop the countdown currently in flight, if any.
    Cancel,
    /// Arm a countdown that fires after the given number of seconds.
    Start(u64),
    /// Clear a fired countdown so a new one may be armed.
    Reset,
    /// Unintelligible input; rejected at the boundary, never delivered.
    Invalid,
}

/// One decimal digit.
pub open spec fn is_dec_digit(c: char) -> bool {
    ('0' as int) <= c as int && c as int <= ('9' as int)
}

/// Numeric value of one decimal digit.
pub open spec fn digit_value(c: char) -> int {
    c as int - ('0' as int)
}

/// Every character of the sequence is a decimal digit.
pub open spec fn all_dec_digits(s: Seq<char>) -> bool {
    forall|i: int| 0 <= i < s.len() ==> is_dec_digit(s[i])
}

/// Value of a digit sequence read as a base-10 numeral.
pub open spec fn dec_value(s: Seq<char>) -> int
    decreases s.len(),
{
    if s.len() == 0 {
        0
    } else {
        dec_value(s.drop_last()) * 10 + digit_value(s.last())
    }
}

/// The digit part of a numeral: what follows an optional leading `+`.
pub open spec fn digits_of(s: Seq<char>) -> Seq<char> {
    if s.len() > 0 && s[0] == '+' {
        s.skip(1)
    } else {
        s
    }
}

/// Text that denotes a countdown delay: an optional `+`, then at least
/// one decimal digit, denoting a value that fits in 64 bits.
pub open spec fn is_delay_numeral(s: Seq<char>) -> bool {
    &&& digits_of(s).len() > 0
    &&& all_dec_digits(digits_of(s))
    &&& dec_value(digits_of(s)) <= u64::MAX
}

/// The command each possible inbound text denotes.
pub open spec fn command_of(s: Seq<char>) -> CountdownCommand {
    if s == "-1"@ {
        CountdownCommand::Cancel
    } else if s == "reset"@ {
        CountdownCommand::Reset
    } else if is_delay_numeral(s) {
        CountdownCommand::Start(dec_value(digits_of(s)) as u64)
    } else {
        CountdownCommand::Invalid
    }
}

/// A digit sequence denotes a non-negative value.
proof fn lemma_dec_value_nonneg(s: Seq<char>)
    requires
        all_dec_digits(s),
    ensures
        dec_value(s) >= 0,
    decreases s.len(),
{
    if s.len() > 0 {
        assert(all_dec_digits(s.drop_last()));
        lemma_dec_value_nonneg(s.drop_last());
    }
}

/// Reading more digits never shrinks the value: every prefix of a digit
/// sequence denotes at most the value of the whole.
proof fn lemma_dec_value_take_le(s: Seq<char>, k: int)
    requires
        all_dec_digits(s),
        0 <= k <= s.len(),
    ensures
        dec_value(s.take(k)) <= dec_value(s),
    decreases s.len(),
{
    if k == s.len() {
        assert(s.take(k) =~= s);
    } else {
        assert(all_dec_digits(s.drop_last()));
        assert(s.drop_last().take(k) =~= s.take(k));
        lemma_dec_value_take_le(s.drop_last(), k);
        lemma_dec_value_nonneg(s.drop_last());
        assert(is_dec_digit(s.last()));
    }
}

/// Compares a string with the cancel token `"-1"`.
fn is_cancel_token(s: &str) -> (r: bool)
    ensures
        r == (s@ == "-1"@),
{
    proof {
        reveal_strlit("-1");
    }
    if s.unicode_len() != 2 {
        return false;
    }
    let r = s.get_char(0) == '-' && s.get_char(1) == '1';
    proof {
        if r {
            assert(s@ =~= "-1"@);
        }
    }
    r
}

/// Compares a string with the reset token `"reset"`.
fn is_reset_token(s: &str) -> (r: bool)
    ensures
        r == (s@ == "reset"@),
{
    proof {
        reveal_strlit("reset");
    }
    if s.unicode_len() != 5 {
        return false;
    }
    let r = s.get_char(0) == 'r' && s.get_char(1) == 'e' && s.get_char(2) == 's' && s.get_char(3)
        == 'e' && s.get_char(4) == 't';
    proof {
        if r {
            assert(s@ =~= "reset"@);
        }
    }
    r
}

/// Turns the raw `countdown` text of a request into a command.
///
/// Every input maps to exactly the command [`command_of`] assigns to it;
/// in particular a numeral too large for 64 bits is `Invalid`, never a
/// truncated delay.
pub fn parse_command(s: &str) -> (c: CountdownCommand)
    ensures
        c == command_of(s@),
{
    if is_cancel_token(s) {
        return CountdownCommand::Cancel;
    }
    if is_reset_token(s) {
        return CountdownCommand::Reset;
    }
    let n: usize = s.unicode_len();
    let has_sign = n > 0 && s.get_char(0) == '+';
    let start: usize = if has_sign {
        1
    } else {
        0
    };
    let ghost digits = digits_of(s@);
    if start >= n {
        assert(digits.len() == 0);
        return CountdownCommand::Invalid;
    }
    let mut acc: u64 = 0;
    let mut i: usize = start;
    while i < n
        invariant
            start <= i <= n,
            n == s@.len(),
            start <= 1,
            start == 1 <==> (s@.len() > 0 && s@[0] == '+'),
            start < n,
            digits == digits_of(s@),
            digits.len() == n - start,
            forall|j: int| 0 <= j < digits.len() ==> digits[j] == s@[j + start],
            all_dec_digits(digits.take(i - start)),
            acc == dec_value(digits.take(i - start)),
            s@ != "-1"@,
            s@ != "reset"@,
        decreases n - i,
    {
        let ch = s.get_char(i);
        let code: u32 = ch as u32;
        if code < 48 || code > 57 {
            proof {
                assert(digits[i - start] == s@[i as int]);
                assert(!is_dec_digit(digits[i - start]));
            }
            return CountdownCommand::Invalid;
        }
        let d: u64 = (code - 48) as u64;
        proof {
            assert(digits.take(i - start + 1).drop_last() =~= digits.take(i - start));
            assert(digits.take(i - start + 1).last() == s@[i as int]);
            assert(is_dec_digit(s@[i as int]));
            assert(digit_value(s@[i as int]) == d as int);
        }
        let widened = match acc.checked_mul(10) {
            Some(x) => x.checked_add(d),
            None => None,
        };
        match widened {
            Some(v) => {
                acc = v;
                i = i + 1;
            },
            None => {
                proof {
                    assert(dec_value(digits.take(i - start + 1)) > u64::MAX);
                    if all_dec_digits(digits) {
                        lemma_dec_value_take_le(digits, i - start + 1);
                    }
                    assert(!is_delay_numeral(s@));
                }
                return CountdownCommand::Invalid;
            },
        }
    }
    proof {
        assert(digits.take(n - start) =~= digits);
        assert(is_delay_numeral(s@));
        assert(dec_value(digits) == acc as int);
    }
    CountdownCommand::Start(acc)
}

} // verus!
