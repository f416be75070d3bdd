//! Rendering values onto the output stream.
//!
//! The observable output of a program is modelled as a sequence of
//! characters; the host decides where the characters go.  `Print` renders
//! integers as decimal text, strings as their raw text, booleans as
//! `true`/`false`, and the remaining shapes as fixed placeholders — always
//! without a trailing newline.

use crate::value::{RuntimeValue, ValueV};
use vstd::prelude::*;
use vstd::string::StrSliceExecFns;

verus! {

/// The decimal digit character for `d`.
pub open spec fn digit_char(d: nat) -> char {
    ((48 + d) as u8) as char
}

/// The decimal digits of a nonnegative number, most significant first.
pub open spec fn dec_digits(n: nat) -> Seq<char>
    decreases n,
{
    if n < 10 {
        seq![digit_char(n)]
    } else {
        dec_digits(n / 10).push(digit_char(n % 10))
    }
}

/// The decimal text of an integer: a minus sign for negative numbers,
/// then the digits.
pub open spec fn decimal(n: int) -> Seq<char> {
    if n < 0 {
        seq!['-'] + dec_digits((-n) as nat)
    } else {
        dec_digits(n as nat)
    }
}

/// The textual form `Print` writes for a value.
pub open spec fn render(v: ValueV) -> Seq<char> {
    match v {
        ValueV::Int(n) => decimal(n as int),
        ValueV::Str(s) => s,
        ValueV::Bool(b) => if b {
            seq!['t', 'r', 'u', 'e']
        } else {
            seq!['f', 'a', 'l', 's', 'e']
        },
        ValueV::Tuple(_, _) => seq!['[', 't', 'u', 'p', 'l', 'e', ']'],
        ValueV::Function(_) => seq!['[', 'f', 'u', 'n', 'c', 't', 'i', 'o', 'n', ']'],
        ValueV::Void => seq!['[', 'v', 'o', 'i', 'd', ']'],
    }
}

/// Appends the decimal digits of `n`, most significant first.
fn push_digits(n: u64, out: &mut Vec<char>)
    ensures
        final(out)@ == old(out)@ + dec_digits(n as nat),
    decreases n,
{
    if n >= 10 {
        push_digits(n / 10, out);
    }
    let d: u8 = 48 + (n % 10) as u8;
    out.push(d as char);
    proof {
        if n < 10 {
            assert(old(out)@ + dec_digits(n as nat) =~= old(out)@.push(digit_char(n as nat)));
        } else {
            assert(old(out)@ + dec_digits(n as nat) =~= (old(out)@ + dec_digits(
                (n / 10) as nat,
            )).push(digit_char((n % 10) as nat)));
        }
    }
}

/// Appends the decimal text of `n`.
pub fn push_decimal(n: i64, out: &mut Vec<char>)
    ensures
        final(out)@ == old(out)@ + decimal(n as int),
{
    if n < 0 {
        out.push('-');
        let magnitude: u64 = if n == i64::MIN {
            9223372036854775808u64
        } else {
            (-n) as u64
        };
        assert(magnitude as nat == (-(n as int)) as nat);
        push_digits(magnitude, out);
        proof {
            assert(old(out)@ + decimal(n as int) =~= (old(out)@.push('-')) + dec_digits(
                (-(n as int)) as nat,
            ));
        }
    } else {
        push_digits(n as u64, out);
    }
}

/// Appends the characters of `s`.
fn push_str_chars(s: &str, out: &mut Vec<char>)
    ensures
        final(out)@ == old(out)@ + s@,
{
    let n = s.unicode_len();
    let mut i: usize = 0;
    while i < n
        invariant
            i <= n,
            n == s@.len(),
            out@ == old(out)@ + s@.subrange(0, i as int),
        decreases n - i,
    {
        let c = s.get_char(i);
        out.push(c);
        proof {
            assert(old(out)@ + s@.subrange(0, i + 1) =~= (old(out)@ + s@.subrange(
                0,
                i as int,
            )).push(s@[i as int]));
        }
        i = i + 1;
    }
    proof {
        assert(s@.subrange(0, n as int) =~= s@);
    }
}

/// Appends the textual form of `value`: the compute half of `Print`.
pub fn print_value(value: &RuntimeValue, out: &mut Vec<char>)
    ensures
        final(out)@ == old(out)@ + render(value@),
{
    match value {
        RuntimeValue::Int(n) => push_decimal(*n, out),
        RuntimeValue::Str(s) => push_str_chars(s.as_str(), out),
        RuntimeValue::Bool(b) => {
            if *b {
                push_str_chars("true", out);
                proof {
                    reveal_strlit("true");
                    assert(old(out)@ + "true"@ =~= old(out)@ + render(value@));
                }
            } else {
                push_str_chars("false", out);
                proof {
                    reveal_strlit("false");
                    assert(old(out)@ + "false"@ =~= old(out)@ + render(value@));
                }
            }
        },
        RuntimeValue::Tuple(_, _) => {
            push_str_chars("[tuple]", out);
            proof {
                reveal_strlit("[tuple]");
                assert(old(out)@ + "[tuple]"@ =~= old(out)@ + render(value@));
            }
        },
        RuntimeValue::Function(_) => {
            push_str_chars("[function]", out);
            proof {
                reveal_strlit("[function]");
                assert(old(out)@ + "[function]"@ =~= old(out)@ + render(value@));
            }
        },
        RuntimeValue::Void => {
            push_str_chars("[void]", out);
            proof {
                reveal_strlit("[void]");
                assert(old(out)@ + "[void]"@ =~= old(out)@ + render(value@));
            }
        },
    }
}

} // verus!
