//! Decimal text: the canonical decimal form of integers, and parsing of
//! decimal text into `u64` and `i64` with the exact acceptance rules of
//! std's `str::parse`.
use vstd::prelude::*;

use crate::text::push_char;

verus! {

/// The character for the decimal digit `d`.
pub open spec fn digit_char(d: int) -> char
    recommends
        0 <= d < 10,
{
    ((48 + d) as u8) as char
}

/// True when `c` is a decimal digit.
pub open spec fn is_dec_digit(c: char) -> bool {
    '0' <= c && c <= '9'
}

/// True when every character of `s` is a decimal digit.
pub open spec fn all_dec_digits(s: Seq<char>) -> bool {
    forall|i: int| 0 <= i < s.len() ==> is_dec_digit(#[trigger] s[i])
}

/// The canonical decimal representation of a non-negative integer:
/// no sign, no leading zero except for the number zero itself.
pub open spec fn dec_repr(n: nat) -> Seq<char>
    decreases n,
{
    if n < 10 {
        seq![digit_char(n as int)]
    } else {
        dec_repr(n / 10).push(digit_char((n % 10) as int))
    }
}

/// The canonical decimal representation of an integer, with a leading
/// `-` for negative values.
pub open spec fn dec_repr_int(n: int) -> Seq<char> {
    if n < 0 {
        seq!['-'] + dec_repr((-n) as nat)
    } else {
        dec_repr(n as nat)
    }
}

/// The numeric value of a sequence of decimal digit characters.
pub open spec fn dec_val(s: Seq<char>) -> int
    decreases s.len(),
{
    if s.len() == 0 {
        0
    } else {
        dec_val(s.drop_last()) * 10 + (s.last() as int - 48)
    }
}

pub proof fn lemma_dec_repr_digits(n: nat)
    ensures
        dec_repr(n).len() >= 1,
        all_dec_digits(dec_repr(n)),
        dec_val(dec_repr(n)) == n,
        n >= 10 ==> dec_repr(n).len() >= 2,
    decreases n,
{
    if n < 10 {
        let s = dec_repr(n);
        assert(s =~= seq![digit_char(n as int)]);
        assert(s.drop_last() =~= Seq::<char>::empty());
        assert(digit_char(n as int) as int == 48 + n);
        assert(dec_val(s) == dec_val(s.drop_last()) * 10 + (s.last() as int - 48));
        assert(dec_val(Seq::<char>::empty()) == 0);
    } else {
        lemma_dec_repr_digits(n / 10);
        let s = dec_repr(n);
        let p = dec_repr(n / 10);
        assert(s =~= p.push(digit_char((n % 10) as int)));
        assert(s.drop_last() =~= p);
        assert(digit_char((n % 10) as int) as int == 48 + (n % 10));
        assert(dec_val(s) == dec_val(s.drop_last()) * 10 + (s.last() as int - 48));
        assert(dec_val(s) == dec_val(p) * 10 + (n % 10));
        assert(dec_val(p) * 10 + n % 10 == (n / 10) * 10 + n % 10);
        assert((n / 10) * 10 + n % 10 == n) by (nonlinear_arith);
    }
}

pub proof fn lemma_dec_val_nonneg(s: Seq<char>)
    requires
        all_dec_digits(s),
    ensures
        dec_val(s) >= 0,
    decreases s.len(),
{
    if s.len() > 0 {
        assert(all_dec_digits(s.drop_last())) by {
            assert(forall|i: int|
                0 <= i < s.len() - 1 ==> #[trigger] s.drop_last()[i] == s[i]);
        }
        lemma_dec_val_nonneg(s.drop_last());
        assert(s.last() as int - 48 >= 0);
    }
}

/// Appending digits never lowers the value of decimal text.
pub proof fn lemma_dec_val_prefix(s: Seq<char>, i: int)
    requires
        all_dec_digits(s),
        0 <= i <= s.len(),
    ensures
        dec_val(s.take(i)) <= dec_val(s),
    decreases s.len() - i,
{
    if i < s.len() {
        lemma_dec_val_prefix(s, i + 1);
        let t = s.take(i + 1);
        assert(t.drop_last() =~= s.take(i));
        assert(all_dec_digits(s.take(i))) by {
            assert(forall|j: int| 0 <= j < i ==> #[trigger] s.take(i)[j] == s[j]);
        }
        lemma_dec_val_nonneg(s.take(i));
        assert(t.last() == s[i]);
        assert(dec_val(t) == dec_val(s.take(i)) * 10 + (s[i] as int - 48));
    } else {
        assert(s.take(i) =~= s);
    }
}

/// The result of parsing decimal text as a `u64`, exactly as std's
/// `str::parse::<u64>` accepts it: an optional leading `+`, then one or
/// more digits, and a value no greater than `u64::MAX`.
pub open spec fn parse_u64_spec(s: Seq<char>) -> Option<u64> {
    let digits = if s.len() > 0 && s[0] == '+' {
        s.drop_first()
    } else {
        s
    };
    if digits.len() == 0 || !all_dec_digits(digits) {
        None
    } else if dec_val(digits) > u64::MAX {
        None
    } else {
        Some(dec_val(digits) as u64)
    }
}

/// The result of parsing decimal text as an `i64`, exactly as std's
/// `str::parse::<i64>` accepts it: an optional sign, then one or more
/// digits, and a value within `i64`'s range.
pub open spec fn parse_i64_spec(s: Seq<char>) -> Option<i64> {
    let negative = s.len() > 0 && s[0] == '-';
    let digits = if s.len() > 0 && (s[0] == '-' || s[0] == '+') {
        s.drop_first()
    } else {
        s
    };
    if digits.len() == 0 || !all_dec_digits(digits) {
        None
    } else if negative {
        if dec_val(digits) > 0x8000_0000_0000_0000 {
            None
        } else {
            Some((-dec_val(digits)) as i64)
        }
    } else {
        if dec_val(digits) > i64::MAX {
            None
        } else {
            Some(dec_val(digits) as i64)
        }
    }
}

/// Parses the digit characters of `s` from `start` on, accepting values
/// up to `limit`; mirrors the digit loop of std's integer parsing.
fn parse_digits(s: &str, start: usize, limit: u64) -> (r: Option<u64>)
    requires
        start <= s@.len(),
    ensures
        ({
            let digits = s@.skip(start as int);
            match r {
                Some(v) => digits.len() > 0 && all_dec_digits(digits) && dec_val(digits) == v
                    && v <= limit,
                None => digits.len() == 0 || !all_dec_digits(digits) || dec_val(digits) > limit,
            }
        }),
{
    let ghost digits = s@.skip(start as int);
    let n = s.unicode_len();
    if start == n {
        return None;
    }
    let mut acc: u64 = 0;
    let mut i: usize = start;
    while i < n
        invariant
            start <= i <= n,
            n == s@.len(),
            digits == s@.skip(start as int),
            all_dec_digits(digits.take(i - start)),
            acc == dec_val(digits.take(i - start)),
            acc <= limit,
        decreases n - i,
    {
        let c = s.get_char(i);
        if c < '0' || c > '9' {
            proof {
                assert(digits[i - start] == c);
                assert(!is_dec_digit(digits[i - start]));
            }
            return None;
        }
        let d: u64 = (c as u32 as u64) - 48;
        proof {
            assert(digits.take(i - start + 1).drop_last() =~= digits.take(i - start));
            assert(digits.take(i - start + 1).last() == digits[i - start]);
            assert(digits[i - start] == c);
            assert(d == c as int - 48);
            assert(all_dec_digits(digits.take(i - start + 1))) by {
                assert(forall|j: int|
                    0 <= j < i - start + 1 ==> #[trigger] digits.take(i - start + 1)[j]
                        == digits.take(i - start).push(c)[j]);
            }
        }
        if acc > limit / 10 || (acc == limit / 10 && d > limit % 10) {
            proof {
                let t = digits.take(i - start + 1);
                assert(dec_val(t) == acc * 10 + d);
                assert(acc * 10 + d > limit) by (nonlinear_arith)
                    requires
                        acc > limit / 10 && d >= 0 || acc == limit / 10 && d > limit % 10,
                        acc >= 0,
                        limit >= 0,
                        d >= 0,
                        limit == (limit / 10) * 10 + limit % 10,
                        0 <= limit % 10 < 10,
                ;
                if all_dec_digits(digits) {
                    lemma_dec_val_prefix(digits, i - start + 1);
                }
            }
            return None;
        }
        proof {
            assert(acc * 10 + d <= limit) by (nonlinear_arith)
                requires
                    acc <= limit / 10,
                    !(acc == limit / 10 && d > limit % 10),
                    acc >= 0,
                    d >= 0,
                    d < 10,
                    limit >= 0,
                    limit == (limit / 10) * 10 + limit % 10,
                    0 <= limit % 10 < 10,
            ;
        }
        acc = acc * 10 + d;
        i = i + 1;
    }
    proof {
        assert(digits.take(n - start) =~= digits);
    }
    Some(acc)
}

/// Parses decimal text as a `u64`, accepting exactly what std's
/// `str::parse::<u64>` accepts.
pub fn parse_u64(s: &str) -> (r: Option<u64>)
    ensures
        r == parse_u64_spec(s@),
{
    let n = s.unicode_len();
    let start: usize = if n > 0 && s.get_char(0) == '+' {
        1
    } else {
        0
    };
    proof {
        if start == 1 {
            assert(s@.skip(1) =~= s@.drop_first());
        } else {
            assert(s@.skip(0) =~= s@);
        }
    }
    parse_digits(s, start, u64::MAX)
}

/// Parses decimal text as an `i64`, accepting exactly what std's
/// `str::parse::<i64>` accepts.
pub fn parse_i64(s: &str) -> (r: Option<i64>)
    ensures
        r == parse_i64_spec(s@),
{
    let n = s.unicode_len();
    let negative = n > 0 && s.get_char(0) == '-';
    let start: usize = if n > 0 && (s.get_char(0) == '-' || s.get_char(0) == '+') {
        1
    } else {
        0
    };
    proof {
        if start == 1 {
            assert(s@.skip(1) =~= s@.drop_first());
        } else {
            assert(s@.skip(0) =~= s@);
        }
    }
    if negative {
        match parse_digits(s, start, 0x8000_0000_0000_0000) {
            Some(v) => {
                if v == 0x8000_0000_0000_0000 {
                    Some(i64::MIN)
                } else {
                    Some(-((v) as i64))
                }
            },
            None => None,
        }
    } else {
        match parse_digits(s, start, i64::MAX as u64) {
            Some(v) => Some(v as i64),
            None => None,
        }
    }
}

/// Writes the canonical decimal digits of `n` into `out` as ASCII bytes.
pub fn push_dec_bytes(out: &mut Vec<u8>, n: u64)
    ensures
        final(out)@ == old(out)@ + crate::text::chars_to_bytes(dec_repr(n as nat)),
    decreases n,
{
    proof {
        lemma_dec_repr_digits(n as nat);
    }
    if n < 10 {
        out.push(48 + n as u8);
        proof {
            assert(crate::text::chars_to_bytes(dec_repr(n as nat)) =~= seq![(48 + n) as u8]);
            assert(out@ =~= old(out)@ + seq![(48 + n) as u8]);
        }
    } else {
        push_dec_bytes(out, n / 10);
        out.push(48 + (n % 10) as u8);
        proof {
            let p = crate::text::chars_to_bytes(dec_repr((n / 10) as nat));
            let w = crate::text::chars_to_bytes(dec_repr(n as nat));
            assert(w =~= p.push((48 + n % 10) as u8));
            assert(out@ =~= old(out)@ + w);
        }
    }
}

/// The canonical decimal text of a `u64`.
pub fn u64_to_dec_string(n: u64) -> (r: String)
    ensures
        r@ == dec_repr(n as nat),
    decreases n,
{
    let mut r: String;
    if n < 10 {
        r = String::new();
        push_char(&mut r, (48 + n as u8) as char);
        proof {
            assert(dec_repr(n as nat) =~= seq![digit_char(n as int)]);
            assert(r@ =~= Seq::<char>::empty().push(digit_char(n as int)));
        }
    } else {
        r = u64_to_dec_string(n / 10);
        push_char(&mut r, (48 + (n % 10) as u8) as char);
    }
    r
}

/// The canonical decimal bytes of an `i64`, with a leading `-` when
/// negative.
pub fn i64_to_dec_bytes(n: i64) -> (r: Vec<u8>)
    ensures
        r@ == crate::text::chars_to_bytes(dec_repr_int(n as int)),
{
    let mut out: Vec<u8> = Vec::new();
    if n >= 0 {
        push_dec_bytes(&mut out, n as u64);
        proof {
            assert(out@ =~= Seq::<u8>::empty() + crate::text::chars_to_bytes(
                dec_repr(n as nat),
            ));
            assert(out@ =~= crate::text::chars_to_bytes(dec_repr_int(n as int)));
        }
    } else {
        out.push(45);
        let flipped: i64 = -(n + 1);
        let magnitude: u64 = (flipped as u64) + 1;
        push_dec_bytes(&mut out, magnitude);
        proof {
            assert(magnitude == -(n as int));
            let m = crate::text::chars_to_bytes(dec_repr(magnitude as nat));
            assert(out@ =~= seq![45u8] + m);
            assert(crate::text::chars_to_bytes(dec_repr_int(n as int)) =~= seq![45u8] + m);
        }
    }
    out
}

} // verus!
