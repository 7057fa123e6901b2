//! Decimal numerals: recognising a signed 16-bit operand the way Rust parses
//! one, and rendering the non-negative counters that appear in generated
//! label names.

use vstd::prelude::*;
use vstd::string::*;

verus! {

pub open spec fn is_digit(c: char) -> bool {
    48 <= c as u32 <= 57
}

pub open spec fn digit_val(c: char) -> int {
    c as u32 - 48
}

pub open spec fn all_digits(s: Seq<char>) -> bool {
    forall|k: int| 0 <= k < s.len() ==> is_digit(#[trigger] s[k])
}

/// Value of an unsigned decimal numeral.
pub open spec fn digits_val(s: Seq<char>) -> int
    decreases s.len(),
{
    if s.len() == 0 {
        0
    } else {
        digits_val(s.drop_last()) * 10 + digit_val(s.last())
    }
}

/// The digits of `s`, past an optional leading sign.
pub open spec fn sign_digits(s: Seq<char>) -> Seq<char> {
    if s.len() > 0 && (s[0] == '+' || s[0] == '-') {
        s.drop_first()
    } else {
        s
    }
}

/// `s` is text that parses as an `i16`: an optional sign, then one or more
/// decimal digits, with the value in range.
pub open spec fn is_i16_str(s: Seq<char>) -> bool {
    let ds = sign_digits(s);
    s.len() > 0 && ds.len() > 0 && all_digits(ds) && (if s[0] == '-' {
        digits_val(ds) <= 32768
    } else {
        digits_val(ds) <= 32767
    })
}

/// The value such text denotes.
pub open spec fn i16_str_val(s: Seq<char>) -> int {
    if s.len() > 0 && s[0] == '-' {
        -digits_val(sign_digits(s))
    } else {
        digits_val(sign_digits(s))
    }
}

pub proof fn lemma_digits_val_nonneg(s: Seq<char>)
    requires
        all_digits(s),
    ensures
        digits_val(s) >= 0,
    decreases s.len(),
{
    if s.len() > 0 {
        lemma_digits_val_nonneg(s.drop_last());
    }
}

/// Appending digits never shrinks the value of a numeral.
pub proof fn lemma_digits_val_grows(s: Seq<char>)
    requires
        s.len() > 0,
        all_digits(s),
    ensures
        digits_val(s) >= digits_val(s.drop_last()),
{
    lemma_digits_val_nonneg(s.drop_last());
}

pub fn parse_i16(s: &str) -> (r: Option<i16>)
    ensures
        match r {
            Some(v) => is_i16_str(s@) && v as int == i16_str_val(s@),
            None => !is_i16_str(s@),
        },
{
    let n = s.unicode_len();
    if n == 0 {
        return None;
    }
    let c0 = s.get_char(0);
    let negative = c0 == '-';
    let start: usize = if c0 == '-' || c0 == '+' {
        1
    } else {
        0
    };
    let ghost ds = sign_digits(s@);
    proof {
        assert(ds =~= s@.subrange(start as int, n as int));
    }
    if n == start {
        return None;
    }
    let mut i: usize = start;
    let mut acc: u32 = 0;
    let mut too_big: bool = false;
    while i < n
        invariant
            n == s@.len(),
            n > 0,
            start <= i <= n,
            start < n,
            negative == (s@[0] == '-'),
            ds == sign_digits(s@),
            ds == s@.subrange(start as int, n as int),
            forall|k: int| 0 <= k < i - start ==> is_digit(#[trigger] ds[k]),
            !too_big ==> acc <= 32768 && acc as int == digits_val(ds.subrange(0, i - start)),
            too_big ==> digits_val(ds.subrange(0, i - start)) > 32768 && all_digits(
                ds.subrange(0, i - start),
            ),
        decreases n - i,
    {
        let c = s.get_char(i);
        let v = c as u32;
        if v < 48 || v > 57 {
            proof {
                assert(ds[i - start] == s@[i as int]);
                assert(!is_digit(ds[i - start]));
                assert(0 <= i - start < ds.len());
                assert(!all_digits(ds));
                assert(!is_i16_str(s@));
            }
            return None;
        }
        let ghost pre = ds.subrange(0, i - start);
        let ghost post = ds.subrange(0, i + 1 - start);
        proof {
            assert(ds[i - start] == s@[i as int]);
            assert(post.drop_last() =~= pre);
            assert(post.last() == ds[i - start]);
        }
        if too_big {
            proof {
                lemma_digits_val_grows(post);
            }
        } else {
            let next = acc * 10 + (v - 48);
            if next > 32768 {
                too_big = true;
            } else {
                acc = next;
            }
        }
        i += 1;
    }
    proof {
        assert(ds.subrange(0, n - start) =~= ds);
    }
    if too_big {
        return None;
    }
    if negative {
        if acc > 32768 {
            return None;
        }
        if acc == 32768 {
            Some(i16::MIN)
        } else {
            Some(-(acc as i16))
        }
    } else {
        if acc > 32767 {
            return None;
        }
        Some(acc as i16)
    }
}

pub open spec fn spec_digit_char(d: int) -> char {
    if d == 0 {
        '0'
    } else if d == 1 {
        '1'
    } else if d == 2 {
        '2'
    } else if d == 3 {
        '3'
    } else if d == 4 {
        '4'
    } else if d == 5 {
        '5'
    } else if d == 6 {
        '6'
    } else if d == 7 {
        '7'
    } else if d == 8 {
        '8'
    } else {
        '9'
    }
}

/// Decimal numeral of a non-negative number.
pub open spec fn dec_str(n: int) -> Seq<char>
    decreases n,
{
    if n < 10 {
        seq![spec_digit_char(n)]
    } else {
        dec_str(n / 10).push(spec_digit_char(n % 10))
    }
}

fn digit_str(d: usize) -> (r: &'static str)
    requires
        d < 10,
    ensures
        r@ == seq![spec_digit_char(d as int)],
{
    proof {
        reveal_strlit("0");
        reveal_strlit("1");
        reveal_strlit("2");
        reveal_strlit("3");
        reveal_strlit("4");
        reveal_strlit("5");
        reveal_strlit("6");
        reveal_strlit("7");
        reveal_strlit("8");
        reveal_strlit("9");
    }
    let r = if d == 0 {
        "0"
    } else if d == 1 {
        "1"
    } else if d == 2 {
        "2"
    } else if d == 3 {
        "3"
    } else if d == 4 {
        "4"
    } else if d == 5 {
        "5"
    } else if d == 6 {
        "6"
    } else if d == 7 {
        "7"
    } else if d == 8 {
        "8"
    } else {
        "9"
    };
    proof {
        assert(r@ =~= seq![spec_digit_char(d as int)]);
    }
    r
}

pub fn usize_to_string(n: usize) -> (r: String)
    ensures
        r@ == dec_str(n as int),
    decreases n,
{
    if n < 10 {
        String::from_str(digit_str(n))
    } else {
        let q = usize_to_string(n / 10);
        let r = q.concat(digit_str(n % 10));
        proof {
            assert(r@ =~= dec_str((n / 10) as int).push(spec_digit_char((n % 10) as int)));
        }
        r
    }
}

pub proof fn lemma_dec_str_digits(n: int)
    requires
        n >= 0,
    ensures
        dec_str(n).len() >= 1,
        all_digits(dec_str(n)),
        n >= 10 ==> dec_str(n).len() >= 2,
    decreases n,
{
    if n < 10 {
        assert(is_digit(spec_digit_char(n)));
        assert forall|k: int| 0 <= k < dec_str(n).len() implies is_digit(#[trigger] dec_str(n)[k])
        by {
            assert(dec_str(n)[k] == spec_digit_char(n));
        }
    } else {
        lemma_dec_str_digits(n / 10);
        assert(is_digit(spec_digit_char(n % 10)));
        assert forall|k: int| 0 <= k < dec_str(n).len() implies is_digit(#[trigger] dec_str(n)[k])
        by {
            if k < dec_str(n / 10).len() {
                assert(dec_str(n)[k] == dec_str(n / 10)[k]);
            } else {
                assert(dec_str(n)[k] == spec_digit_char(n % 10));
            }
        }
    }
}

/// Distinct numbers render as distinct numerals.
pub proof fn lemma_dec_str_injective(a: int, b: int)
    requires
        0 <= a,
        0 <= b,
        a != b,
    ensures
        dec_str(a) != dec_str(b),
    decreases a + b,
{
    if a < 10 && b < 10 {
        assert(dec_str(a)[0] == spec_digit_char(a));
        assert(dec_str(b)[0] == spec_digit_char(b));
        assert(spec_digit_char(a) != spec_digit_char(b));
    } else if a < 10 {
        lemma_dec_str_digits(b);
        assert(dec_str(a).len() == 1);
    } else if b < 10 {
        lemma_dec_str_digits(a);
        assert(dec_str(b).len() == 1);
    } else {
        if dec_str(a) == dec_str(b) {
            assert(dec_str(a).last() == dec_str(b).last());
            if a % 10 != b % 10 {
                assert(spec_digit_char(a % 10) != spec_digit_char(b % 10));
                assert(false);
            } else {
                assert(a / 10 != b / 10) by {
                    vstd::arithmetic::div_mod::lemma_fundamental_div_mod(a, 10);
                    vstd::arithmetic::div_mod::lemma_fundamental_div_mod(b, 10);
                };
                lemma_dec_str_injective(a / 10, b / 10);
                assert(dec_str(a).drop_last() =~= dec_str(a / 10));
                assert(dec_str(b).drop_last() =~= dec_str(b / 10));
                assert(false);
            }
        }
    }
}

} // verus!
