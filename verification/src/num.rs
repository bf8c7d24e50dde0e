use vstd::prelude::*;
use crate::lexer::{char_is_whitespace, digit_value, digits_value, is_dec_digit,
    is_whitespace_char, lemma_digits_value_prefix, skip_ws_end};

verus! {

// ---------------------------------------------------------------------------
// Rendering integers as decimal text
// ---------------------------------------------------------------------------

/// The character for one decimal digit.
pub open spec fn digit_char(d: nat) -> char {
    ((48 + d) as u8) as char
}

/// The decimal digits of a natural number, most significant first.
pub open spec fn dec_digits_of(n: nat) -> Seq<char>
    decreases n,
{
    if n < 10 {
        seq![digit_char(n)]
    } else {
        dec_digits_of(n / 10).push(digit_char(n % 10))
    }
}

/// The decimal rendering of an integer: a minus sign for negatives, then the
/// digits of its magnitude.
pub open spec fn int_chars(n: int) -> Seq<char> {
    if n < 0 {
        seq!['-'] + dec_digits_of((-n) as nat)
    } else {
        dec_digits_of(n as nat)
    }
}

/// The decimal digits of a 64-bit natural number.
pub fn u64_digits(m: u64) -> (v: Vec<char>)
    ensures
        v@ == dec_digits_of(m as nat),
    decreases m,
{
    if m < 10 {
        let c = ((48 + (m as u32)) as u8) as char;
        let mut v: Vec<char> = Vec::new();
        v.push(c);
        proof {
            assert(v@ =~= seq![digit_char(m as nat)]);
        }
        v
    } else {
        let mut v = u64_digits(m / 10);
        let d = m % 10;
        let c = ((48 + (d as u32)) as u8) as char;
        v.push(c);
        v
    }
}

/// Render a 32-bit integer in decimal.
pub fn i32_to_chars(n: i32) -> (v: Vec<char>)
    ensures
        v@ == int_chars(n as int),
{
    let m: i64 = n as i64;
    if m < 0 {
        let mag: u64 = (-m) as u64;
        let digits = u64_digits(mag);
        let mut v: Vec<char> = Vec::new();
        v.push('-');
        let mut i: usize = 0;
        while i < digits.len()
            invariant
                i <= digits@.len(),
                v@ == seq!['-'] + digits@.take(i as int),
            decreases digits@.len() - i,
        {
            v.push(digits[i]);
            i = i + 1;
            proof {
                assert(v@ =~= seq!['-'] + digits@.take(i as int));
            }
        }
        proof {
            assert(digits@.take(digits@.len() as int) =~= digits@);
        }
        v
    } else {
        u64_digits(m as u64)
    }
}

// ---------------------------------------------------------------------------
// Reading integers from decimal text
// ---------------------------------------------------------------------------

/// The index of the last non-whitespace character, plus one.
pub open spec fn skip_ws_back(s: Seq<char>, pos: int) -> int
    decreases pos,
{
    if 0 < pos <= s.len() && char_is_whitespace(s[pos - 1]) {
        skip_ws_back(s, pos - 1)
    } else {
        pos
    }
}

/// The text with surrounding whitespace removed.
pub open spec fn spec_trim(s: Seq<char>) -> Seq<char> {
    let a = skip_ws_end(s, 0);
    let b = skip_ws_back(s, s.len() as int);
    if 0 <= a <= b <= s.len() {
        s.subrange(a, b)
    } else {
        Seq::empty()
    }
}

/// Every character of `s` is a decimal digit.
pub open spec fn all_dec_digits(s: Seq<char>) -> bool {
    forall|i: int| 0 <= i < s.len() ==> is_dec_digit(s[i])
}

/// What `str::parse::<i32>` accepts on the trimmed text: an optional sign,
/// then decimal digits whose value fits 32 signed bits.
pub open spec fn spec_parse_i32(s: Seq<char>) -> Option<i32> {
    let t = spec_trim(s);
    if t.len() == 0 {
        None
    } else {
        let negative = t[0] == '-';
        let ds = if t[0] == '-' || t[0] == '+' {
            t.skip(1)
        } else {
            t
        };
        if ds.len() == 0 || !all_dec_digits(ds) {
            None
        } else {
            let val = digits_value(ds, 10);
            if negative {
                if val > 0x8000_0000 {
                    None
                } else {
                    Some((-(val as int)) as i32)
                }
            } else {
                if val > 0x7fff_ffff {
                    None
                } else {
                    Some(val as i32)
                }
            }
        }
    }
}

proof fn lemma_skip_ws_back_bounds(s: Seq<char>, pos: int)
    requires
        0 <= pos <= s.len(),
    ensures
        0 <= skip_ws_back(s, pos) <= pos,
    decreases pos,
{
    if 0 < pos && char_is_whitespace(s[pos - 1]) {
        lemma_skip_ws_back_bounds(s, pos - 1);
    }
}

/// Parse a 32-bit integer from text, tolerating surrounding whitespace, as
/// `str::parse::<i32>` does after a trim.
pub fn parse_i32_chars(s: &Vec<char>) -> (r: Option<i32>)
    ensures
        r == spec_parse_i32(s@),
{
    let sv = s;
    let n = s.len();
    // trim front
    let mut a: usize = 0;
    loop
        invariant
            a <= n == s@.len(),
            skip_ws_end(s@, a as int) == skip_ws_end(s@, 0),
        ensures
            a <= n,
            a as int == skip_ws_end(s@, 0),
        decreases n - a,
    {
        if a < n && is_whitespace_char(s[a]) {
            a = a + 1;
        } else {
            break;
        }
    }
    // trim back
    let mut b: usize = n;
    loop
        invariant
            b <= n == s@.len(),
            skip_ws_back(s@, b as int) == skip_ws_back(s@, n as int),
        ensures
            b <= n,
            b as int == skip_ws_back(s@, n as int),
        decreases b,
    {
        if b > 0 && is_whitespace_char(s[b - 1]) {
            b = b - 1;
        } else {
            break;
        }
    }
    if a >= b {
        proof {
            if a as int <= b as int {
                assert(s@.subrange(a as int, b as int).len() == 0);
            }
        }
        return None;
    }
    let ghost t = spec_trim(s@);
    proof {
        assert(t == s@.subrange(a as int, b as int));
    }
    let negative = s[a] == '-';
    let dstart: usize = if s[a] == '-' || s[a] == '+' {
        a + 1
    } else {
        a
    };
    proof {
        if dstart > a {
            assert(s@.subrange(dstart as int, b as int) =~= t.skip(1));
        } else {
            assert(s@.subrange(dstart as int, b as int) =~= t);
        }
    }
    let ghost ds = s@.subrange(dstart as int, b as int);
    if dstart >= b {
        return None;
    }
    let mut val: u64 = 0;
    let mut i: usize = dstart;
    while i < b
        invariant
            a <= dstart <= i <= b <= n == s@.len(),
            a < b,
            a as int == skip_ws_end(s@, 0),
            b as int == skip_ws_back(s@, n as int),
            t == spec_trim(s@),
            t == s@.subrange(a as int, b as int),
            t.len() > 0,
            negative == (t[0] == '-'),
            dstart as int == (if t[0] == '-' || t[0] == '+' {
                a + 1int
            } else {
                a as int
            }),
            ds == (if t[0] == '-' || t[0] == '+' {
                t.skip(1)
            } else {
                t
            }),
            ds == s@.subrange(dstart as int, b as int),
            ds.len() == b - dstart,
            all_dec_digits(ds.take(i - dstart)),
            val == digits_value(ds.take(i - dstart), 10),
            val <= 0x8000_0000,
        decreases b - i,
    {
        let c = s[i];
        let u = c as u32;
        proof {
            assert(ds[i - dstart] == s@[i as int]);
        }
        if !(48 <= u && u <= 57) {
            proof {
                assert(!is_dec_digit(ds[i - dstart]));
                assert(!all_dec_digits(ds));
            }
            return None;
        }
        let d = u - 48;
        let next: u64 = val * 10 + (d as u64);
        proof {
            assert(ds.take(i - dstart + 1).drop_last() =~= ds.take(i - dstart));
            assert(ds.take(i - dstart + 1).last() == c);
        }
        if next > 0x8000_0000 {
            proof {
                lemma_digits_value_prefix(ds, i - dstart + 1, 10);
                assert(ds.take(ds.len() as int) =~= ds);
            }
            return None;
        }
        val = next;
        i = i + 1;
    }
    proof {
        assert(ds.take(ds.len() as int) =~= ds);
    }
    if negative {
        Some((-(val as i64)) as i32)
    } else {
        if val > 0x7fff_ffff {
            return None;
        }
        Some(val as i32)
    }
}

// ---------------------------------------------------------------------------
// Truncating 32-bit division
// ---------------------------------------------------------------------------

/// Division truncating toward zero, wrapping on the one overflowing case.
pub open spec fn div_trunc_i32(a: i32, b: i32) -> i32 {
    let ua: int = if a < 0 {
        -(a as int)
    } else {
        a as int
    };
    let ub: int = if b < 0 {
        -(b as int)
    } else {
        b as int
    };
    let uq = ua / ub;
    let q: int = if (a < 0) != (b < 0) {
        -uq
    } else {
        uq
    };
    if q == 0x8000_0000 {
        i32::MIN
    } else {
        q as i32
    }
}

/// 32-bit division truncating toward zero; the single overflowing case wraps.
pub fn div_trunc(a: i32, b: i32) -> (r: i32)
    requires
        b != 0,
    ensures
        r == div_trunc_i32(a, b),
{
    let wa: i64 = a as i64;
    let wb: i64 = b as i64;
    let ua: u64 = if wa < 0 {
        (-wa) as u64
    } else {
        wa as u64
    };
    let ub: u64 = if wb < 0 {
        (-wb) as u64
    } else {
        wb as u64
    };
    let uq: u64 = ua / ub;
    let q: i64 = if (a < 0) != (b < 0) {
        -(uq as i64)
    } else {
        uq as i64
    };
    proof {
        assert(ua / ub <= ua) by (nonlinear_arith)
            requires ub >= 1, ua >= 0;
    }
    if q == 0x8000_0000i64 {
        i32::MIN
    } else {
        #[verifier::truncate] (q as i32)
    }
}

} // verus!
