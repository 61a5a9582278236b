//! A non-negative fixed-point decimal with 18 fractional digits, the number
//! form in which the chain quotes prices. Arithmetic that needs 256-bit
//! intermediates is delegated to the chain's own decimal type behind
//! trusted wrappers; everything else is verified here.

use vstd::prelude::*;

use vstd::arithmetic::mul::lemma_mul_nonnegative;
use vstd::string::StrSliceExecFns;

use crate::math::{FRAC, p10, isqrt, lemma_p10_adds, lemma_p10_pos, lemma_isqrt_bounds,
    lemma_isqrt_monotone};

verus! {

/// A non-negative fixed-point number with 18 fractional digits, stored as
/// its count of 10^-18 atomics.
#[derive(Clone, Copy, Debug, PartialEq, Eq, Structural)]
pub struct Dec {
    pub atomics: u128,
}

/// floor(n * 10^18 / d): the atomics of the ratio n/d.
pub open spec fn ratio_atomics(n: int, d: int) -> int {
    (n * (FRAC as int)) / d
}

/// floor(a * p / 10^18): `a` units, each worth `p` atomics, in whole base units.
pub open spec fn amount_times_dec_spec(a: int, p: int) -> int {
    (a * (p as int)) / (FRAC as int)
}

/// The precision the decimal square root works at: the largest q <= p with
/// a * 100^q still within the 128-bit range.
pub open spec fn sqrt_precision(a: nat, p: nat) -> nat
    decreases p,
{
    if p == 0 {
        0
    } else if a * p10(2 * p) <= u128::MAX {
        p
    } else {
        sqrt_precision(a, (p - 1) as nat)
    }
}

/// Atomics of the square root of a decimal of `a` atomics: the flooring
/// square root of a * 100^p, widened back to 18 fractional digits.
pub open spec fn dec_sqrt_spec(a: nat) -> nat {
    let p = sqrt_precision(a, 9);
    isqrt(a * p10(2 * p)) * p10((9 - p) as nat)
}

impl View for Dec {
    type V = Dec;

    open spec fn view(&self) -> Dec {
        *self
    }
}

impl DeepView for Dec {
    type V = Dec;

    open spec fn deep_view(&self) -> Dec {
        *self
    }
}

impl Dec {
    pub fn lt(&self, other: &Dec) -> (r: bool)
        ensures
            r == (self.atomics < other.atomics),
    {
        self.atomics < other.atomics
    }
}

/// Relies on cosmwasm_std::Decimal::checked_from_ratio: the ratio n/d as a
/// decimal, floor(n * 10^18 / d) atomics computed at 256-bit width; None
/// when d is zero or the result does not fit in 128 bits.
#[verifier::external_body]
pub fn dec_from_ratio(n: u128, d: u128) -> (r: Option<Dec>)
    ensures
        d != 0 && ratio_atomics(n as int, d as int) <= u128::MAX ==> r == Some(
            (Dec { atomics: ratio_atomics(n as int, d as int) as u128 }),
        ),
        !(d != 0 && ratio_atomics(n as int, d as int) <= u128::MAX) ==> r == None::<Dec>,
{
    match cosmwasm_std::Decimal::checked_from_ratio(n, d) {
        Ok(x) => Some(Dec { atomics: x.atomics().u128() }),
        Err(_) => None,
    }
}

/// Relies on cosmwasm_std::Uint128::checked_multiply_ratio: a * p / 10^18
/// computed at 256-bit width, the whole base units that `a` units priced
/// at `p` are worth; None when the result does not fit in 128 bits.
#[verifier::external_body]
pub fn amount_times_dec(a: u128, p: &Dec) -> (r: Option<u128>)
    ensures
        amount_times_dec_spec(a as int, p.atomics as int) <= u128::MAX ==> r == Some(
            amount_times_dec_spec(a as int, p.atomics as int) as u128,
        ),
        amount_times_dec_spec(a as int, p.atomics as int) > u128::MAX ==> r == None::<u128>,
{
    match cosmwasm_std::Uint128::new(a).checked_multiply_ratio(p.atomics, FRAC) {
        Ok(x) => Some(x.u128()),
        Err(_) => None,
    }
}

/// Relies on cosmwasm_std::Decimal::sqrt: the square root of a decimal,
/// the flooring square root of atomics * 100^p scaled back by 10^(9-p),
/// at the largest precision p <= 9 that avoids 128-bit overflow.
#[verifier::external_body]
pub fn dec_sqrt(d: &Dec) -> (r: Dec)
    ensures
        r.atomics as nat == dec_sqrt_spec(d.atomics as nat),
{
    let raw = cosmwasm_std::Decimal::new(cosmwasm_std::Uint128::new(d.atomics)).sqrt();
    Dec { atomics: raw.atomics().u128() }
}

pub open spec fn is_digit(c: char) -> bool {
    48 <= (c as u32) && (c as u32) <= 57
}

pub open spec fn digit_val(c: char) -> int {
    (c as u32) - 48
}

pub open spec fn all_digits(s: Seq<char>) -> bool {
    forall|i: int| 0 <= i < s.len() ==> is_digit(#[trigger] s[i])
}

/// The number a digit string denotes.
pub open spec fn digits_val(s: Seq<char>) -> int
    decreases s.len(),
{
    if s.len() == 0 {
        0
    } else {
        digits_val(s.drop_last()) * 10 + digit_val(s.last())
    }
}

/// The position of the first dot at or after i, or -1.
pub open spec fn first_dot(s: Seq<char>, i: int) -> int
    decreases s.len() - i,
{
    if i < 0 || i >= s.len() {
        -1
    } else if s[i] == '.' {
        i
    } else {
        first_dot(s, i + 1)
    }
}

/// A decimal string: a non-empty run of digits, optionally followed by a
/// dot and one to eighteen fractional digits.
pub open spec fn dec_str_valid(s: Seq<char>) -> bool {
    let k = first_dot(s, 0);
    if k < 0 {
        s.len() >= 1 && all_digits(s)
    } else {
        let whole = s.subrange(0, k);
        let frac = s.subrange(k + 1, s.len() as int);
        whole.len() >= 1 && all_digits(whole) && 1 <= frac.len() <= 18 && all_digits(frac)
    }
}

/// The atomics a valid decimal string denotes: the whole part at full
/// scale plus the fractional digits widened to 18 places.
pub open spec fn dec_str_atomics(s: Seq<char>) -> int {
    let k = first_dot(s, 0);
    if k < 0 {
        digits_val(s) * FRAC
    } else {
        let frac = s.subrange(k + 1, s.len() as int);
        digits_val(s.subrange(0, k)) * FRAC + digits_val(frac) * p10((18 - frac.len()) as nat)
    }
}

proof fn lemma_first_dot_is(s: Seq<char>, i: int, k: int)
    requires
        0 <= i <= k < s.len(),
        s[k] == '.',
        forall|j: int| i <= j < k ==> s[j] != '.',
    ensures
        first_dot(s, i) == k,
    decreases k - i,
{
    if i < k {
        lemma_first_dot_is(s, i + 1, k);
    }
}

proof fn lemma_first_dot_missing(s: Seq<char>, i: int)
    requires
        0 <= i,
        forall|j: int| i <= j < s.len() ==> s[j] != '.',
    ensures
        first_dot(s, i) == -1,
    decreases s.len() - i,
{
    if i < s.len() {
        lemma_first_dot_missing(s, i + 1);
    }
}

proof fn lemma_digits_val_snoc(s: Seq<char>, i: int)
    requires
        0 <= i < s.len(),
    ensures
        digits_val(s.subrange(0, i + 1)) == digits_val(s.subrange(0, i)) * 10 + digit_val(s[i]),
{
    assert(s.subrange(0, i + 1).drop_last() =~= s.subrange(0, i));
    assert(s.subrange(0, i + 1).last() == s[i]);
}

proof fn lemma_digits_val_nonneg(s: Seq<char>)
    requires
        all_digits(s),
    ensures
        digits_val(s) >= 0,
    decreases s.len(),
{
    if s.len() > 0 {
        assert(all_digits(s.drop_last()));
        lemma_digits_val_nonneg(s.drop_last());
        assert(digits_val(s.drop_last()) * 10 >= 0) by (nonlinear_arith)
            requires digits_val(s.drop_last()) >= 0;
        assert(is_digit(s.last()));
    }
}

proof fn lemma_digits_val_bound(s: Seq<char>)
    requires
        all_digits(s),
    ensures
        0 <= digits_val(s) < p10(s.len()),
    decreases s.len(),
{
    lemma_digits_val_nonneg(s);
    if s.len() == 0 {
    } else {
        assert(all_digits(s.drop_last()));
        lemma_digits_val_bound(s.drop_last());
        assert(is_digit(s.last()));
        assert(digit_val(s.last()) <= 9);
        assert(digits_val(s.drop_last()) * 10 + 9 < p10(s.len())) by (nonlinear_arith)
            requires
                digits_val(s.drop_last()) < p10((s.len() - 1) as nat),
                p10(s.len()) == 10 * p10((s.len() - 1) as nat);
    }
}

/// A digit string's value only grows as digits are appended.
proof fn lemma_digits_val_prefix_le(s: Seq<char>, i: int)
    requires
        all_digits(s),
        0 <= i <= s.len(),
    ensures
        digits_val(s.subrange(0, i)) <= digits_val(s),
    decreases s.len() - i,
{
    if i == s.len() {
        assert(s.subrange(0, i) =~= s);
    } else {
        lemma_digits_val_prefix_le(s, i + 1);
        lemma_digits_val_snoc(s, i);
        assert(all_digits(s.subrange(0, i)));
        lemma_digits_val_nonneg(s.subrange(0, i));
        assert(digits_val(s.subrange(0, i)) <= digits_val(s.subrange(0, i)) * 10 + digit_val(
            s[i],
        )) by (nonlinear_arith)
            requires digits_val(s.subrange(0, i)) >= 0 && 0 <= digit_val(s[i]);
    }
}

/// A valid decimal string denotes a non-negative count of atomics.
pub proof fn lemma_dec_str_atomics_nonneg(s: Seq<char>)
    requires
        dec_str_valid(s),
    ensures
        dec_str_atomics(s) >= 0,
{
    let k = first_dot(s, 0);
    if k < 0 {
        lemma_digits_val_nonneg(s);
        lemma_mul_nonnegative(digits_val(s), FRAC as int);
    } else {
        let whole = s.subrange(0, k);
        let frac = s.subrange(k + 1, s.len() as int);
        lemma_digits_val_nonneg(whole);
        lemma_digits_val_nonneg(frac);
        lemma_mul_nonnegative(digits_val(whole), FRAC as int);
        lemma_p10_pos((18 - frac.len()) as nat);
        lemma_mul_nonnegative(digits_val(frac), p10((18 - frac.len()) as nat) as int);
    }
}

/// Read a decimal string: Some exactly when the string is well-formed and
/// its value fits in 128-bit atomics.
pub fn dec_from_str(s: &str) -> (r: Option<Dec>)
    ensures
        dec_str_valid(s@) && dec_str_atomics(s@) <= u128::MAX ==> r == Some(
            (Dec { atomics: dec_str_atomics(s@) as u128 }),
        ),
        !(dec_str_valid(s@) && dec_str_atomics(s@) <= u128::MAX) ==> r == None::<Dec>,
{
    let n = s.unicode_len();
    if n == 0 {
        proof {
            lemma_first_dot_missing(s@, 0);
        }
        return None;
    }

    // Find the dot, if any.
    let mut t: usize = 0;
    while t < n && s.get_char(t) != '.'
        invariant
            n == s@.len(),
            t <= n,
            forall|j: int| 0 <= j < t ==> s@[j] != '.',
        decreases n - t,
    {
        t = t + 1;
    }
    proof {
        if t < n {
            lemma_first_dot_is(s@, 0, t as int);
        } else {
            lemma_first_dot_missing(s@, 0);
        }
    }
    let ghost k = first_dot(s@, 0);
    let ghost whole_seq: Seq<char> = if k < 0 { s@ } else { s@.subrange(0, k) };
    proof {
        if t < n {
            assert(whole_seq =~= s@.subrange(0, t as int));
        } else {
            assert(whole_seq =~= s@.subrange(0, t as int));
        }
        if dec_str_valid(s@) && k >= 0 {
            lemma_digits_val_nonneg(s@.subrange(k + 1, s@.len() as int));
            lemma_mul_nonnegative(
                digits_val(s@.subrange(k + 1, s@.len() as int)),
                p10((18 - s@.subrange(k + 1, s@.len() as int).len()) as nat) as int,
            );
        }
        lemma_p10_pos(18);
    }

    if t == 0 && t < n {
        // the string starts with the dot: an empty whole part
        return None;
    }

    // Whole part.
    let mut whole: u128 = 0;
    let mut i: usize = 0;
    while i < t
        invariant
            n == s@.len(),
            t <= n,
            i <= t,
            k == first_dot(s@, 0),
            t < n ==> k == t as int,
            t == n ==> k == -1,
            whole_seq == (if k < 0 { s@ } else { s@.subrange(0, k) }),
            whole_seq =~= s@.subrange(0, t as int),
            dec_str_valid(s@) && k >= 0 ==> digits_val(s@.subrange(k + 1, s@.len() as int)) * p10(
                (18 - s@.subrange(k + 1, s@.len() as int).len()) as nat,
            ) >= 0,
            all_digits(s@.subrange(0, i as int)),
            whole as int == digits_val(s@.subrange(0, i as int)),
        decreases t - i,
    {
        let c = s.get_char(i);
        if !('0' <= c && c <= '9') {
            proof {
                assert(whole_seq[i as int] == s@[i as int]);
                assert(!is_digit(s@[i as int]));
                assert(!all_digits(whole_seq));
            }
            return None;
        }
        let d = (c as u32) as u128 - 48;
        let next = match whole.checked_mul(10) {
            Some(v) => v.checked_add(d),
            None => None,
        };
        whole = match next {
            Some(v) => v,
            None => {
                proof {
                    lemma_digits_val_snoc(s@, i as int);
                    if dec_str_valid(s@) {
                        assert(all_digits(whole_seq));
                        assert(s@.subrange(0, i as int + 1) =~= whole_seq.subrange(
                            0,
                            i as int + 1,
                        ));
                        lemma_digits_val_prefix_le(whole_seq, i as int + 1);
                        assert(digits_val(whole_seq) > u128::MAX);
                        assert(digits_val(whole_seq) * FRAC > u128::MAX) by (nonlinear_arith)
                            requires digits_val(whole_seq) > u128::MAX && FRAC >= 1;
                    }
                }
                return None;
            },
        };
        proof {
            lemma_digits_val_snoc(s@, i as int);
        }
        i = i + 1;
    }
    proof {
        assert(s@.subrange(0, t as int) =~= whole_seq);
        assert(whole as int == digits_val(whole_seq));
    }

    let whole_scaled = match whole.checked_mul(FRAC) {
        Some(v) => v,
        None => {
            proof {
                if dec_str_valid(s@) {
                    assert(dec_str_atomics(s@) > u128::MAX);
                }
            }
            return None;
        },
    };

    if t == n {
        // no dot: the whole part is the value
        proof {
            assert(dec_str_valid(s@) == (s@.len() >= 1 && all_digits(s@)));
            assert(s@.subrange(0, n as int) =~= s@);
        }
        return Some(Dec { atomics: whole_scaled });
    }

    // Fractional part.
    let frac_len = n - t - 1;
    if frac_len == 0 || frac_len > 18 {
        return None;
    }
    let ghost fseq = s@.subrange(k + 1, s@.len() as int);
    let mut frac: u128 = 0;
    let mut j: usize = t + 1;
    while j < n
        invariant
            n == s@.len(),
            k == t as int,
            t < n,
            t < j <= n,
            k == first_dot(s@, 0),
            fseq == s@.subrange(k + 1, s@.len() as int),
            n - t - 1 <= 18,
            all_digits(s@.subrange(t as int + 1, j as int)),
            frac as int == digits_val(s@.subrange(t as int + 1, j as int)),
            frac < p10((j - t - 1) as nat),
        decreases n - j,
    {
        let c = s.get_char(j);
        if !('0' <= c && c <= '9') {
            proof {
                assert(fseq[j - t - 1] == s@[j as int]);
                assert(!is_digit(fseq[j - t - 1]));
                assert(!all_digits(fseq));
            }
            return None;
        }
        let d = (c as u32) as u128 - 48;
        proof {
            lemma_p10_pos((j - t - 1) as nat);
            assert(p10((j - t) as nat) == 10 * p10((j - t - 1) as nat));
            assert(frac * 10 + d < p10((j - t) as nat)) by (nonlinear_arith)
                requires
                    frac < p10((j - t - 1) as nat),
                    d <= 9,
                    p10((j - t) as nat) == 10 * p10((j - t - 1) as nat);
            assert(p10((j - t) as nat) <= p10(18)) by {
                lemma_p10_adds((j - t) as nat, (18 - (j - t)) as nat);
                lemma_p10_pos((18 - (j - t)) as nat);
                assert(p10((j - t) as nat) * 1 <= p10((j - t) as nat) * p10(
                    (18 - (j - t)) as nat,
                )) by (nonlinear_arith)
                    requires
                        p10((18 - (j - t)) as nat) >= 1,
                        p10((j - t) as nat) >= 0;
            }
            lemma_frac_fits();
        }
        frac = frac * 10 + d;
        proof {
            let prev = s@.subrange(t as int + 1, j as int);
            let now = s@.subrange(t as int + 1, j as int + 1);
            assert(now.drop_last() =~= prev);
            assert(now.last() == s@[j as int]);
            lemma_digits_val_snoc_general(s@, t as int + 1, j as int);
        }
        j = j + 1;
    }
    proof {
        assert(s@.subrange(t as int + 1, n as int) =~= fseq);
    }

    // Widen the fractional digits to 18 places.
    let mut scale: u128 = 1;
    let mut e: usize = 0;
    let width = 18 - frac_len;
    while e < width
        invariant
            width <= 18,
            e <= width,
            scale as int == p10(e as nat),
        decreases width - e,
    {
        proof {
            assert(p10((e + 1) as nat) == 10 * p10(e as nat));
            assert(p10((e + 1) as nat) <= p10(18)) by {
                lemma_p10_adds((e + 1) as nat, (18 - e - 1) as nat);
                lemma_p10_pos((18 - e - 1) as nat);
                assert(p10((e + 1) as nat) * 1 <= p10((e + 1) as nat) * p10(
                    (18 - e - 1) as nat,
                )) by (nonlinear_arith)
                    requires
                        p10((18 - e - 1) as nat) >= 1,
                        p10((e + 1) as nat) >= 0;
            }
            lemma_p10_pos(e as nat);
            lemma_frac_fits();
            assert(scale * 10 == 10 * scale) by (nonlinear_arith);
        }
        scale = scale * 10;
        e = e + 1;
    }
    let ghost flen = fseq.len();
    proof {
        assert(flen == n - t - 1);
        assert(scale as int == p10((18 - flen) as nat));
        lemma_digits_val_bound(fseq);
        lemma_p10_adds(flen as nat, (18 - flen) as nat);
        lemma_p10_pos((18 - flen) as nat);
        assert(digits_val(fseq) * p10((18 - flen) as nat) < p10(18)) by (nonlinear_arith)
            requires
                0 <= digits_val(fseq) < p10(flen as nat),
                p10(18) == p10(flen as nat) * p10((18 - flen) as nat),
                p10((18 - flen) as nat) >= 1;
        lemma_frac_fits();
    }
    let widened = frac * scale;
    match whole_scaled.checked_add(widened) {
        Some(at) => Some(Dec { atomics: at }),
        None => None,
    }
}

/// 10^18 fits comfortably in 128 bits.
proof fn lemma_frac_fits()
    ensures
        p10(18) == FRAC,
        FRAC < u128::MAX,
{
    reveal_with_fuel(p10, 19);
}

/// Extending a digit run on the right multiplies its value by ten and adds
/// the new digit.
proof fn lemma_digits_val_snoc_general(s: Seq<char>, lo: int, i: int)
    requires
        0 <= lo <= i < s.len(),
    ensures
        digits_val(s.subrange(lo, i + 1)) == digits_val(s.subrange(lo, i)) * 10 + digit_val(s[i]),
{
    assert(s.subrange(lo, i + 1).drop_last() =~= s.subrange(lo, i));
    assert(s.subrange(lo, i + 1).last() == s[i]);
}

/// The square of a decimal square root never exceeds the radicand:
/// dec_sqrt_spec(a)^2 <= a * 10^18 (both sides in squared-atomics scale).
pub proof fn lemma_dec_sqrt_square_le(a: nat)
    ensures
        dec_sqrt_spec(a) * dec_sqrt_spec(a) <= a * p10(18),
{
    let p = sqrt_precision(a, 9);
    lemma_sqrt_precision_le(a, 9);
    let inner = a * p10(2 * p);
    let s = isqrt(inner);
    let outer = p10((9 - p) as nat);
    lemma_isqrt_bounds(inner);
    assert(s * s <= inner);
    lemma_p10_adds((9 - p) as nat, (9 - p) as nat);
    assert(((9 - p) as nat) + ((9 - p) as nat) == (18 - 2 * p) as nat);
    assert(outer * outer == p10((18 - 2 * p) as nat));
    assert((s * outer) * (s * outer) == (s * s) * (outer * outer)) by (nonlinear_arith);
    assert((s * s) * (outer * outer) <= inner * (outer * outer)) by (nonlinear_arith)
        requires s * s <= inner;
    lemma_p10_adds(2 * p, (18 - 2 * p) as nat);
    assert(p10(2 * p) * p10((18 - 2 * p) as nat) == p10(18));
    assert(inner * p10((18 - 2 * p) as nat) == a * p10(18)) by (nonlinear_arith)
        requires
            inner == a * p10(2 * p),
            p10(2 * p) * p10((18 - 2 * p) as nat) == p10(18);
    assert(dec_sqrt_spec(a) == s * outer);
}

pub proof fn lemma_sqrt_precision_le(a: nat, p: nat)
    ensures
        sqrt_precision(a, p) <= p,
    decreases p,
{
    if p > 0 && !(a * p10(2 * p) <= u128::MAX) {
        lemma_sqrt_precision_le(a, (p - 1) as nat);
    }
}

/// At full precision (no overflow in a * 10^18) the decimal square root is
/// monotone.
pub proof fn lemma_dec_sqrt_monotone(a1: nat, a2: nat)
    requires
        a1 <= a2,
        a2 * p10(18) <= u128::MAX,
    ensures
        dec_sqrt_spec(a1) <= dec_sqrt_spec(a2),
{
    assert(a1 * p10(18) <= a2 * p10(18)) by (nonlinear_arith)
        requires a1 <= a2;
    assert(sqrt_precision(a1, 9) == 9);
    assert(sqrt_precision(a2, 9) == 9);
    assert(p10(0) == 1);
    lemma_isqrt_monotone(a1 * p10(18), a2 * p10(18));
    assert(isqrt(a1 * p10(18)) * 1 == isqrt(a1 * p10(18)));
    assert(isqrt(a2 * p10(18)) * 1 == isqrt(a2 * p10(18)));
}

} // verus!
