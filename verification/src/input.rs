//! Turning a line of console input into an integer value: the line is
//! trimmed of ASCII whitespace at both ends, an optional sign may follow,
//! and one or more decimal digits must make up the rest.  Anything else —
//! and a number outside the signed 64-bit range — is `InvalidInputFormat`.

use vstd::prelude::*;
use vstd::string::StrSliceExecFns;

use crate::value::ErrorView;
use crate::value::RuntimeError;
use crate::value::Value;
use crate::value::ValueView;

verus! {

/// ASCII whitespace, the characters trimmed from a number's ends.
pub open spec fn is_ws(c: char) -> bool {
    c == ' ' || c == '\t' || c == '\n' || c == '\r'
}

/// The sequence with its leading whitespace removed.
pub open spec fn trim_front(s: Seq<char>) -> Seq<char>
    decreases s.len(),
{
    if s.len() > 0 && is_ws(s[0]) {
        trim_front(s.drop_first())
    } else {
        s
    }
}

/// The sequence with its trailing whitespace removed.
pub open spec fn trim_back(s: Seq<char>) -> Seq<char>
    decreases s.len(),
{
    if s.len() > 0 && is_ws(s.last()) {
        trim_back(s.drop_last())
    } else {
        s
    }
}

/// The sequence with whitespace removed at both ends.
pub open spec fn trimmed(s: Seq<char>) -> Seq<char> {
    trim_back(trim_front(s))
}

/// A decimal digit.
pub open spec fn is_digit(c: char) -> bool {
    48 <= c as u32 && c as u32 <= 57
}

/// The numeric value of a decimal digit character.
pub open spec fn digit_val(c: char) -> int {
    c as u32 - 48
}

/// Every character of the sequence is a decimal digit.
pub open spec fn all_digits(s: Seq<char>) -> bool {
    forall|i: int| 0 <= i < s.len() ==> is_digit(s[i])
}

/// The number a digit sequence denotes, most significant digit first.
pub open spec fn digits_val(s: Seq<char>) -> int
    decreases s.len(),
{
    if s.len() == 0 {
        0
    } else {
        digits_val(s.drop_last()) * 10 + digit_val(s.last())
    }
}

/// Whether a trimmed token starts with an explicit sign.
pub open spec fn has_sign(t: Seq<char>) -> bool {
    t.len() > 0 && (t[0] == '+' || t[0] == '-')
}

/// Whether a trimmed token denotes a negative number.
pub open spec fn is_negative(t: Seq<char>) -> bool {
    t.len() > 0 && t[0] == '-'
}

/// The digit part of a trimmed token: everything after the sign, if any.
pub open spec fn digits_of(t: Seq<char>) -> Seq<char> {
    if has_sign(t) {
        t.drop_first()
    } else {
        t
    }
}

/// A line is well-formed integer input when, after trimming, an optional
/// sign is followed by one or more decimal digits and nothing else.
pub open spec fn valid_int_text(s: Seq<char>) -> bool {
    digits_of(trimmed(s)).len() > 0 && all_digits(digits_of(trimmed(s)))
}

/// The number a well-formed line denotes.
pub open spec fn int_text_value(s: Seq<char>) -> int {
    if is_negative(trimmed(s)) {
        -digits_val(digits_of(trimmed(s)))
    } else {
        digits_val(digits_of(trimmed(s)))
    }
}

/// A digit sequence denotes a number that is not negative.
proof fn lemma_digits_val_nonneg(s: Seq<char>)
    requires
        all_digits(s),
    ensures
        digits_val(s) >= 0,
    decreases s.len(),
{
    if s.len() > 0 {
        assert(all_digits(s.drop_last()));
        lemma_digits_val_nonneg(s.drop_last());
        assert(is_digit(s.last()));
    }
}

/// Scanning further digits can only grow the denoted number.
proof fn lemma_digits_val_prefix(s: Seq<char>, k: int)
    requires
        all_digits(s),
        0 <= k <= s.len(),
    ensures
        digits_val(s) >= digits_val(s.subrange(0, k)),
    decreases s.len() - k,
{
    if k == s.len() {
        assert(s.subrange(0, k) =~= s);
    } else {
        lemma_digits_val_prefix(s, k + 1);
        let longer = s.subrange(0, k + 1);
        assert(longer.drop_last() =~= s.subrange(0, k));
        assert(all_digits(s.subrange(0, k))) by {
            assert(forall|i: int|
                0 <= i < k ==> s.subrange(0, k)[i] == s[i] && is_digit(s[i]));
        }
        lemma_digits_val_nonneg(s.subrange(0, k));
        assert(is_digit(longer.last()));
        assert(digits_val(longer) >= digits_val(s.subrange(0, k)));
    }
}

/// ASCII whitespace, decided in executable code.
fn is_ws_exec(c: char) -> (r: bool)
    ensures
        r == is_ws(c),
{
    c == ' ' || c == '\t' || c == '\n' || c == '\r'
}

/// A decimal digit, decided in executable code.
fn is_digit_exec(c: char) -> (r: bool)
    ensures
        r == is_digit(c),
{
    let u: u32 = c as u32;
    48 <= u && u <= 57
}

/// Parse a line of console input as an integer value, per the grammar
/// above; the answer is `InvalidInputFormat` exactly on lines that are not
/// well formed or denote a number outside the signed 64-bit range.
pub fn parse_input_number(s: &str) -> (r: Result<Value, RuntimeError>)
    ensures
        match r {
            Ok(v) => valid_int_text(s@) && i64::MIN <= int_text_value(s@) <= i64::MAX && v@
                == ValueView::Integer(int_text_value(s@) as i64),
            Err(e) => e@ == ErrorView::InvalidInputFormat && !(valid_int_text(s@) && i64::MIN
                <= int_text_value(s@) <= i64::MAX),
        },
{
    let n = s.unicode_len();
    proof {
        assert(s@.subrange(0, n as int) =~= s@);
    }
    let mut start: usize = 0;
    while start < n && is_ws_exec(s.get_char(start))
        invariant
            n == s@.len(),
            start <= n,
            trim_front(s@) == trim_front(s@.subrange(start as int, n as int)),
        decreases n - start,
    {
        proof {
            let sub = s@.subrange(start as int, n as int);
            assert(sub[0] == s@[start as int]);
            assert(sub.drop_first() =~= s@.subrange(start as int + 1, n as int));
        }
        start = start + 1;
    }
    proof {
        assert(trim_front(s@) == s@.subrange(start as int, n as int));
    }
    let mut end: usize = n;
    while end > start && is_ws_exec(s.get_char(end - 1))
        invariant
            n == s@.len(),
            start <= end <= n,
            trim_front(s@) == s@.subrange(start as int, n as int),
            trim_back(s@.subrange(start as int, n as int)) == trim_back(
                s@.subrange(start as int, end as int),
            ),
        decreases end,
    {
        proof {
            let sub = s@.subrange(start as int, end as int);
            assert(sub.last() == s@[end - 1]);
            assert(sub.drop_last() =~= s@.subrange(start as int, end as int - 1));
        }
        end = end - 1;
    }
    let ghost t = trimmed(s@);
    proof {
        assert(t == s@.subrange(start as int, end as int));
    }
    if start == end {
        return Err(RuntimeError::InvalidInputFormat);
    }
    let first = s.get_char(start);
    let mut neg: bool = false;
    let mut di: usize = start;
    if first == '-' {
        neg = true;
        di = start + 1;
    } else if first == '+' {
        di = start + 1;
    }
    proof {
        assert(t[0] == s@[start as int]);
        if di > start {
            assert(t.drop_first() =~= s@.subrange(di as int, end as int));
        }
        assert(digits_of(t) == s@.subrange(di as int, end as int));
        assert(neg == is_negative(t));
    }
    if di == end {
        return Err(RuntimeError::InvalidInputFormat);
    }
    let bound: u64 = if neg {
        9223372036854775808
    } else {
        9223372036854775807
    };
    let ghost digits = s@.subrange(di as int, end as int);
    let mut acc: u64 = 0;
    let mut i: usize = di;
    while i < end
        invariant
            n == s@.len(),
            start <= di <= i <= end <= n,
            di < end,
            t == trimmed(s@),
            t == s@.subrange(start as int, end as int),
            digits == s@.subrange(di as int, end as int),
            digits == digits_of(t),
            neg == is_negative(t),
            bound == (if neg {
                9223372036854775808u64
            } else {
                9223372036854775807u64
            }),
            all_digits(s@.subrange(di as int, i as int)),
            acc as int == digits_val(s@.subrange(di as int, i as int)),
            acc <= bound,
        decreases end - i,
    {
        let c = s.get_char(i);
        if !is_digit_exec(c) {
            proof {
                assert(digits[i - di] == c);
                assert(!all_digits(digits));
            }
            return Err(RuntimeError::InvalidInputFormat);
        }
        let d: u64 = ((c as u32) - 48) as u64;
        let wide: u128 = (acc as u128) * 10 + (d as u128);
        proof {
            let pre = s@.subrange(di as int, i as int + 1);
            assert(pre.drop_last() =~= s@.subrange(di as int, i as int));
            assert(pre.last() == c);
            assert(digits_val(pre) == (acc as int) * 10 + digit_val(c));
            assert(all_digits(pre)) by {
                assert(forall|j: int|
                    0 <= j < i - di ==> pre[j] == s@.subrange(di as int, i as int)[j]);
            }
        }
        if wide > bound as u128 {
            proof {
                let pre = s@.subrange(di as int, i as int + 1);
                if all_digits(digits) {
                    lemma_digits_val_prefix(digits, i + 1 - di);
                    assert(digits.subrange(0, i + 1 - di) =~= pre);
                    assert(digits_val(digits) >= digits_val(pre));
                    assert(digits_val(pre) > bound);
                    if neg {
                        assert(int_text_value(s@) < i64::MIN);
                    } else {
                        assert(int_text_value(s@) > i64::MAX);
                    }
                }
            }
            return Err(RuntimeError::InvalidInputFormat);
        }
        acc = wide as u64;
        proof {
            let pre = s@.subrange(di as int, i as int + 1);
            assert(acc as int == digits_val(pre));
        }
        i = i + 1;
        proof {
            assert(s@.subrange(di as int, i as int) =~= s@.subrange(di as int, i as int));
        }
    }
    proof {
        assert(s@.subrange(di as int, i as int) =~= digits);
        assert(valid_int_text(s@));
        lemma_digits_val_nonneg(digits);
        if neg {
            assert(int_text_value(s@) == -(acc as int));
        } else {
            assert(int_text_value(s@) == acc as int);
        }
    }
    let v: i64 = if neg {
        if acc == 9223372036854775808 {
            i64::MIN
        } else {
            -(acc as i64)
        }
    } else {
        acc as i64
    };
    Ok(Value::Integer(v))
}

} // verus!
