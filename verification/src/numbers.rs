//! Reading whole numbers typed by the user, as `str::parse` reads them for
//! `u64` and `i32`: an optional sign, then one or more ASCII digits, the
//! value within the type's range.
use vstd::prelude::*;
use crate::text::chars_of;

verus! {

/// Whether `c` is an ASCII decimal digit.
pub open spec fn is_digit(c: char) -> bool {
    '0' <= c <= '9'
}

/// The value of an ASCII decimal digit.
pub open spec fn digit_value(c: char) -> nat {
    ((c as u32) - ('0' as u32)) as nat
}

/// Whether every character of `s` is a digit.
pub open spec fn all_digits(s: Seq<char>) -> bool {
    forall|i: int| 0 <= i < s.len() ==> is_digit(s[i])
}

/// The number that a sequence of digits writes in decimal.
pub open spec fn digits_value(s: Seq<char>) -> nat
    decreases s.len(),
{
    if s.len() == 0 {
        0
    } else {
        digits_value(s.drop_last()) * 10 + digit_value(s.last())
    }
}

/// The magnitude that `s` writes after an optional sign character
/// (`'+'` always; `'-'` too when `signed`), if it is one or more digits.
pub open spec fn unsigned_part(s: Seq<char>, signed: bool) -> Option<nat> {
    let body = if s.len() > 0 && (s[0] == '+' || (signed && s[0] == '-')) {
        s.drop_first()
    } else {
        s
    };
    if body.len() > 0 && all_digits(body) {
        Some(digits_value(body))
    } else {
        None
    }
}

/// What `s.parse::<u64>()` gives, as an option.
pub open spec fn parse_u64_spec(s: Seq<char>) -> Option<u64> {
    match unsigned_part(s, false) {
        Some(v) => if v <= u64::MAX {
            Some(v as u64)
        } else {
            None
        },
        None => None,
    }
}

/// What `s.parse::<i32>()` gives, as an option.
pub open spec fn parse_i32_spec(s: Seq<char>) -> Option<i32> {
    match unsigned_part(s, true) {
        Some(v) => {
            let x: int = if s[0] == '-' {
                -v
            } else {
                v as int
            };
            if i32::MIN <= x <= i32::MAX {
                Some(x as i32)
            } else {
                None
            }
        },
        None => None,
    }
}

proof fn lemma_digits_value_grows(s: Seq<char>, k: int)
    requires
        0 <= k <= s.len(),
    ensures
        digits_value(s.take(k)) <= digits_value(s),
    decreases s.len() - k,
{
    if k < s.len() {
        lemma_digits_value_grows(s.drop_last(), k);
        assert(s.drop_last().take(k) =~= s.take(k));
    } else {
        assert(s.take(k) =~= s);
    }
}

/// The value of the digits in `cs[lo..]` if it is at most `limit`.
fn digits_up_to(cs: &Vec<char>, lo: usize, limit: u64) -> (res: Option<u64>)
    requires
        lo <= cs.len(),
    ensures
        ({
            let body = cs@.skip(lo as int);
            match res {
                Some(v) => body.len() > 0 && all_digits(body) && v == digits_value(body) && v
                    <= limit,
                None => !(body.len() > 0 && all_digits(body) && digits_value(body) <= limit),
            }
        }),
{
    let ghost body = cs@.skip(lo as int);
    if lo == cs.len() {
        return None;
    }
    let mut acc: u64 = 0;
    let mut i: usize = lo;
    while i < cs.len()
        invariant
            lo <= i <= cs.len(),
            body == cs@.skip(lo as int),
            all_digits(body.take(i - lo)),
            acc == digits_value(body.take(i - lo)),
            acc <= limit,
        decreases cs.len() - i,
    {
        let c = cs[i];
        proof {
            assert(body.take(i + 1 - lo).drop_last() =~= body.take(i - lo));
            assert(body[i - lo] == c);
        }
        if !('0' <= c && c <= '9') {
            proof {
                assert(!is_digit(body[i - lo]));
            }
            return None;
        }
        let d: u64 = (c as u32 - '0' as u32) as u64;
        if d > limit {
            proof {
                lemma_digits_value_grows(body, i + 1 - lo);
            }
            return None;
        }
        if acc > (limit - d) / 10 {
            proof {
                assert(acc * 10 + d > limit) by (nonlinear_arith)
                    requires
                        acc > (limit - d) / 10,
                        d <= limit,
                ;
                lemma_digits_value_grows(body, i + 1 - lo);
            }
            return None;
        }
        proof {
            assert(acc * 10 + d <= limit) by (nonlinear_arith)
                requires
                    acc <= (limit - d) / 10,
                    d <= limit,
            ;
        }
        acc = acc * 10 + d;
        i += 1;
    }
    proof {
        assert(body.take(i - lo) =~= body);
    }
    Some(acc)
}

/// Reads a `u64` as `str::parse` does: an optional `'+'`, then one or more
/// ASCII digits, the value at most `u64::MAX`; anything else gives `None`.
pub fn parse_u64(s: &str) -> (res: Option<u64>)
    ensures
        res == parse_u64_spec(s@),
{
    let cs = chars_of(s);
    let lo: usize = if cs.len() > 0 && cs[0] == '+' {
        1
    } else {
        0
    };
    proof {
        assert(cs@.skip(lo as int) =~= if lo == 1 {
            s@.drop_first()
        } else {
            s@
        });
    }
    digits_up_to(&cs, lo, u64::MAX)
}

/// Reads an `i32` as `str::parse` does: an optional `'+'` or `'-'`, then
/// one or more ASCII digits, the value within the range of `i32`; anything
/// else gives `None`.
pub fn parse_i32(s: &str) -> (res: Option<i32>)
    ensures
        res == parse_i32_spec(s@),
{
    let cs = chars_of(s);
    let negative = cs.len() > 0 && cs[0] == '-';
    let lo: usize = if cs.len() > 0 && (cs[0] == '+' || cs[0] == '-') {
        1
    } else {
        0
    };
    proof {
        assert(cs@.skip(lo as int) =~= if lo == 1 {
            s@.drop_first()
        } else {
            s@
        });
    }
    let limit: u64 = if negative {
        0x8000_0000
    } else {
        0x7FFF_FFFF
    };
    match digits_up_to(&cs, lo, limit) {
        Some(v) => if negative {
            Some((0 - v as i64) as i32)
        } else {
            Some(v as i32)
        },
        None => None,
    }
}

} // verus!
