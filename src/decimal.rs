//! Decimal text to fixed point: `[+-]digits[.digits]`, with at least one
//! digit. Digits past the sixth after the point are dropped.

use vstd::prelude::*;

use vstd::utf8::encode_utf8;

use crate::fixed::{to_i64, SCALE};

verus! {

/// An ASCII decimal digit.
pub open spec fn is_digit(c: u8) -> bool {
    48 <= c <= 57
}

/// Every byte is a decimal digit.
pub open spec fn all_digits(s: Seq<u8>) -> bool {
    forall|i: int| 0 <= i < s.len() ==> is_digit(#[trigger] s[i])
}

/// The number a run of decimal digits spells.
pub open spec fn digits_value(s: Seq<u8>) -> int
    decreases s.len(),
{
    if s.len() == 0 {
        0
    } else {
        digits_value(s.drop_last()) * 10 + (s.last() - 48)
    }
}

/// Ten to the power `n`.
pub open spec fn pow10(n: nat) -> int
    decreases n,
{
    if n == 0 {
        1
    } else {
        10 * pow10((n - 1) as nat)
    }
}

/// Digits after the point, in millionths; digits past the sixth are dropped.
pub open spec fn fraction_value(f: Seq<u8>) -> int {
    if f.len() >= 6 {
        digits_value(f.take(6))
    } else {
        digits_value(f) * pow10((6 - f.len()) as nat)
    }
}

/// Index of the first `.` in `b`, or its length when there is none.
pub open spec fn point_index(b: Seq<u8>) -> int
    decreases b.len(),
{
    if b.len() == 0 {
        0
    } else if b[0] == 46 {
        0
    } else {
        1 + point_index(b.drop_first())
    }
}

/// Fixed-point value of `digits[.digits]`.
pub open spec fn unsigned_value(b: Seq<u8>) -> Option<int> {
    let p = point_index(b);
    let whole = b.take(p);
    let frac = if p < b.len() {
        b.skip(p + 1)
    } else {
        Seq::empty()
    };
    if all_digits(whole) && all_digits(frac) && whole.len() + frac.len() > 0 {
        Some(digits_value(whole) * SCALE + fraction_value(frac))
    } else {
        None
    }
}

/// Fixed-point value of decimal text, with an optional sign.
pub open spec fn decimal_value(b: Seq<u8>) -> Option<int> {
    if b.len() > 0 && b[0] == 45 {
        match unsigned_value(b.drop_first()) {
            Some(v) => Some(-v),
            None => None,
        }
    } else if b.len() > 0 && b[0] == 43 {
        unsigned_value(b.drop_first())
    } else {
        unsigned_value(b)
    }
}

proof fn lemma_point_index(b: Seq<u8>)
    ensures
        0 <= point_index(b) <= b.len(),
        point_index(b) < b.len() ==> b[point_index(b)] == 46,
        forall|i: int| 0 <= i < point_index(b) ==> b[i] != 46,
    decreases b.len(),
{
    if b.len() > 0 && b[0] != 46 {
        lemma_point_index(b.drop_first());
        assert forall|i: int| 0 <= i < point_index(b) implies b[i] != 46 by {
            if i > 0 {
                assert(b[i] == b.drop_first()[i - 1]);
            }
        }
    }
}

proof fn lemma_digits_step(b: Seq<u8>, a: int, i: int)
    requires
        0 <= a <= i < b.len(),
    ensures
        digits_value(b.subrange(a, i + 1)) == digits_value(b.subrange(a, i)) * 10 + (b[i] - 48),
{
    assert(b.subrange(a, i + 1).drop_last() =~= b.subrange(a, i));
}

proof fn lemma_digits_nonneg(s: Seq<u8>)
    requires
        all_digits(s),
    ensures
        digits_value(s) >= 0,
    decreases s.len(),
{
    if s.len() > 0 {
        lemma_digits_nonneg(s.drop_last());
    }
}

/// A longer run of digits is worth at least as much as its prefix.
proof fn lemma_digits_grow(b: Seq<u8>, a: int, i: int, j: int)
    requires
        0 <= a <= i <= j <= b.len(),
        all_digits(b.subrange(a, j)),
    ensures
        digits_value(b.subrange(a, i)) <= digits_value(b.subrange(a, j)),
    decreases j - i,
{
    if i < j {
        lemma_digits_grow(b, a, i, j - 1);
        lemma_digits_step(b, a, j - 1);
        assert(b.subrange(a, j - 1) =~= b.subrange(a, j).drop_last());
        assert(is_digit(b.subrange(a, j)[j - 1 - a]));
        assert forall|k: int| 0 <= k < b.subrange(a, j - 1).len() implies is_digit(
            #[trigger] b.subrange(a, j - 1)[k],
        ) by {
            assert(b.subrange(a, j - 1)[k] == b.subrange(a, j)[k]);
        }
        lemma_digits_nonneg(b.subrange(a, j - 1));
    }
}

proof fn lemma_pow10_small()
    ensures
        pow10(0) == 1,
        pow10(1) == 10,
        pow10(2) == 100,
        pow10(3) == 1000,
        pow10(4) == 10000,
        pow10(5) == 100000,
        pow10(6) == 1000000,
{
    reveal_with_fuel(pow10, 7);
}

proof fn lemma_digits_nonneg_when(s: Seq<u8>)
    ensures
        all_digits(s) ==> digits_value(s) >= 0,
{
    if all_digits(s) {
        lemma_digits_nonneg(s);
    }
}

proof fn lemma_fraction_nonneg(f: Seq<u8>)
    requires
        all_digits(f),
    ensures
        fraction_value(f) >= 0,
{
    lemma_digits_nonneg(f);
    if f.len() >= 6 {
        assert forall|i: int| 0 <= i < f.take(6).len() implies is_digit(#[trigger] f.take(6)[i]) by {
            assert(f.take(6)[i] == f[i]);
        }
        lemma_digits_nonneg(f.take(6));
    } else {
        lemma_pow10_pos((6 - f.len()) as nat);
        assert(digits_value(f) * pow10((6 - f.len()) as nat) >= 0) by (nonlinear_arith)
            requires
                digits_value(f) >= 0,
                pow10((6 - f.len()) as nat) > 0,
        ;
    }
}

proof fn lemma_pow10_mono(m: nat, n: nat)
    requires
        m <= n,
    ensures
        pow10(m) <= pow10(n),
    decreases n - m,
{
    if m < n {
        lemma_pow10_mono(m, (n - 1) as nat);
        lemma_pow10_pos((n - 1) as nat);
    }
}

/// A run of `n` digits is worth less than `10^n`.
proof fn lemma_digits_bound(s: Seq<u8>)
    requires
        all_digits(s),
    ensures
        0 <= digits_value(s) < pow10(s.len()),
    decreases s.len(),
{
    if s.len() > 0 {
        let t = s.drop_last();
        assert forall|i: int| 0 <= i < t.len() implies is_digit(#[trigger] t[i]) by {
            assert(t[i] == s[i]);
        }
        lemma_digits_bound(t);
        assert(is_digit(s[s.len() - 1]));
        assert(pow10(s.len()) == 10 * pow10(t.len()));
    }
}

proof fn lemma_pow10_pos(n: nat)
    ensures
        pow10(n) > 0,
    decreases n,
{
    if n > 0 {
        lemma_pow10_pos((n - 1) as nat);
    }
}

/// `b[a..e]` is all digits exactly when `b[a..m]` and `b[m..e]` are.
proof fn lemma_split_digits(b: Seq<u8>, a: int, m: int, e: int)
    requires
        0 <= a <= m <= e <= b.len(),
    ensures
        all_digits(b.subrange(a, e)) == (all_digits(b.subrange(a, m)) && all_digits(
            b.subrange(m, e),
        )),
{
    if all_digits(b.subrange(a, m)) && all_digits(b.subrange(m, e)) {
        assert forall|i: int| 0 <= i < b.subrange(a, e).len() implies is_digit(
            #[trigger] b.subrange(a, e)[i],
        ) by {
            if i < m - a {
                assert(b.subrange(a, e)[i] == b.subrange(a, m)[i]);
            } else {
                assert(b.subrange(a, e)[i] == b.subrange(m, e)[i - (m - a)]);
            }
        }
    }
    if all_digits(b.subrange(a, e)) {
        assert forall|i: int| 0 <= i < b.subrange(a, m).len() implies is_digit(
            #[trigger] b.subrange(a, m)[i],
        ) by {
            assert(b.subrange(a, m)[i] == b.subrange(a, e)[i]);
        }
        assert forall|i: int| 0 <= i < b.subrange(m, e).len() implies is_digit(
            #[trigger] b.subrange(m, e)[i],
        ) by {
            assert(b.subrange(m, e)[i] == b.subrange(a, e)[i + (m - a)]);
        }
    }
}

/// Whether `b[a..e]` is all digits.
fn all_digits_in(b: &[u8], a: usize, e: usize) -> (r: bool)
    requires
        a <= e <= b@.len(),
    ensures
        r == all_digits(b@.subrange(a as int, e as int)),
{
    let mut i: usize = a;
    while i < e
        invariant
            a <= i <= e <= b@.len(),
            forall|k: int| a <= k < i ==> is_digit(#[trigger] b@[k]),
        decreases e - i,
    {
        if b[i] < 48 || b[i] > 57 {
            assert(b@.subrange(a as int, e as int)[i - a] == b@[i as int]);
            return false;
        }
        i = i + 1;
    }
    assert forall|k: int| 0 <= k < b@.subrange(a as int, e as int).len() implies is_digit(
        #[trigger] b@.subrange(a as int, e as int)[k],
    ) by {
        assert(b@.subrange(a as int, e as int)[k] == b@[a + k]);
    }
    true
}

/// Value of the digits `b[a..e]`, or `None` when they are not all digits
/// or the value exceeds `limit`.
fn digits_in(b: &[u8], a: usize, e: usize, limit: i128) -> (r: Option<i128>)
    requires
        a <= e <= b@.len(),
        0 <= limit <= 1_000_000_000_000_000_000,
    ensures
        match r {
            Some(v) => all_digits(b@.subrange(a as int, e as int)) && v == digits_value(
                b@.subrange(a as int, e as int),
            ) && 0 <= v <= limit,
            None => !all_digits(b@.subrange(a as int, e as int)) || digits_value(
                b@.subrange(a as int, e as int),
            ) > limit,
        },
{
    let mut acc: i128 = 0;
    let mut i: usize = a;
    assert(b@.subrange(a as int, a as int).len() == 0);
    while i < e
        invariant
            a <= i <= e <= b@.len(),
            0 <= limit <= 1_000_000_000_000_000_000,
            all_digits(b@.subrange(a as int, i as int)),
            acc == digits_value(b@.subrange(a as int, i as int)),
            0 <= acc <= limit,
        decreases e - i,
    {
        let c = b[i];
        if c < 48 || c > 57 {
            assert(b@.subrange(a as int, e as int)[i - a] == c);
            return None;
        }
        proof {
            lemma_digits_step(b@, a as int, i as int);
            assert forall|k: int| 0 <= k < b@.subrange(a as int, i + 1).len() implies is_digit(
                #[trigger] b@.subrange(a as int, i + 1)[k],
            ) by {
                if k < i - a {
                    assert(b@.subrange(a as int, i + 1)[k] == b@.subrange(a as int, i as int)[k]);
                }
            }
        }
        acc = acc * 10 + (c as i128 - 48);
        i = i + 1;
        if acc > limit {
            proof {
                let whole = b@.subrange(a as int, e as int);
                if all_digits(whole) {
                    lemma_digits_grow(b@, a as int, i as int, e as int);
                }
            }
            return None;
        }
    }
    Some(acc)
}

/// Fixed-point value of the text `t`, when it is a decimal that fits in `i64`.
pub open spec fn decimal_of(t: Seq<char>) -> Option<i64> {
    match decimal_value(encode_utf8(t)) {
        Some(v) => to_i64(v),
        None => None,
    }
}

/// Fixed-point value of decimal text, or `None` when the text is not a
/// decimal or the value does not fit in `i64`.
#[verifier::rlimit(50)]
pub fn parse_fixed(s: &str) -> (r: Option<i64>)
    ensures
        r == decimal_of(s@),
{
    let b = s.as_bytes();
    assert(b@ == encode_utf8(s@));
    let n = b.len();
    let negative = n > 0 && b[0] == 45;
    let start: usize = if n > 0 && (b[0] == 45 || b[0] == 43) {
        1
    } else {
        0
    };
    let ghost body = b@.subrange(start as int, n as int);
    proof {
        if start == 1 {
            assert(body =~= b@.drop_first());
        } else {
            assert(body =~= b@);
        }
        lemma_point_index(body);
    }
    let mut p: usize = start;
    while p < n && b[p] != 46
        invariant
            start <= p <= n,
            n == b@.len(),
            body == b@.subrange(start as int, n as int),
            forall|k: int| start <= k < p ==> b@[k] != 46,
            0 <= point_index(body) <= body.len(),
            point_index(body) < body.len() ==> body[point_index(body)] == 46,
            p - start <= point_index(body),
        decreases n - p,
    {
        assert(body[p - start] == b@[p as int]);
        p = p + 1;
    }
    proof {
        if p < n {
            assert(body[p - start] == 46);
        }
        assert(p - start == point_index(body));
        assert(body.take(p - start) =~= b@.subrange(start as int, p as int));
    }
    let frac_start: usize = if p < n {
        p + 1
    } else {
        n
    };
    proof {
        if p < n {
            assert(body.skip(p - start + 1) =~= b@.subrange(frac_start as int, n as int));
        } else {
            assert(b@.subrange(frac_start as int, n as int).len() == 0);
        }
    }
    let whole = digits_in(b, start, p, 10_000_000_000_000);
    let frac_end: usize = if n - frac_start >= 6 {
        frac_start + 6
    } else {
        n
    };
    let kept = digits_in(b, frac_start, frac_end, 1_000_000);
    let rest_ok = all_digits_in(b, frac_end, n);
    let ghost frac = b@.subrange(frac_start as int, n as int);
    proof {
        lemma_split_digits(b@, frac_start as int, frac_end as int, n as int);
        if frac.len() >= 6 {
            assert(frac.take(6) =~= b@.subrange(frac_start as int, frac_end as int));
        } else {
            assert(frac =~= b@.subrange(frac_start as int, frac_end as int));
        }
        lemma_digits_nonneg_when(b@.subrange(start as int, p as int));
    }
    if p - start + (n - frac_start) == 0 {
        return None;
    }
    let (w, k) = match (whole, kept) {
        (Some(w), Some(k)) => (w, k),
        (None, _) => {
            proof {
                if all_digits(b@.subrange(start as int, p as int)) && all_digits(frac) {
                    lemma_fraction_nonneg(frac);
                }
            }
            return None;
        },
        _ => {
            proof {
                let kr = b@.subrange(frac_start as int, frac_end as int);
                if all_digits(kr) {
                    lemma_digits_bound(kr);
                    lemma_pow10_small();
                    lemma_pow10_mono(kr.len(), 6);
                }
            }
            return None;
        },
    };
    if !rest_ok {
        return None;
    }
    let klen = frac_end - frac_start;
    let pad: i128 = if klen == 0 {
        1_000_000
    } else if klen == 1 {
        100_000
    } else if klen == 2 {
        10_000
    } else if klen == 3 {
        1000
    } else if klen == 4 {
        100
    } else if klen == 5 {
        10
    } else {
        1
    };
    proof {
        lemma_pow10_small();
        assert(w * 1_000_000 + k * pad <= 10_000_000_000_000 * 1_000_000 + 1_000_000 * 1_000_000)
            by (nonlinear_arith)
            requires
                0 <= w <= 10_000_000_000_000,
                0 <= k <= 1_000_000,
                1 <= pad <= 1_000_000,
        ;
        assert(0 <= w * 1_000_000 + k * pad) by (nonlinear_arith)
            requires
                0 <= w,
                0 <= k,
                1 <= pad,
        ;
    }
    let magnitude: i128 = w * 1_000_000 + k * pad;
    let value: i128 = if negative {
        -magnitude
    } else {
        magnitude
    };
    if value < i64::MIN as i128 || value > i64::MAX as i128 {
        None
    } else {
        Some(value as i64)
    }
}

} // verus!
