//! Fixed-point decimal quantities (seconds, tokens, rates) with six
//! fractional digits, and their parsing from command line text.
use vstd::prelude::*;

verus! {

/// A signed decimal quantity, held as a whole number of millionths.
#[derive(Clone, Copy, Debug, PartialEq, Eq, Structural)]
pub struct Decimal {
    pub micros: i64,
}

pub open spec fn is_digit(c: char) -> bool {
    48 <= (c as int) <= 57
}

pub open spec fn digit_value(c: char) -> int {
    (c as int) - 48
}

pub open spec fn all_digits(t: Seq<char>) -> bool {
    forall|i: int| 0 <= i < t.len() ==> is_digit(#[trigger] t[i])
}

/// The value of a string of decimal digits read in base ten.
pub open spec fn digits_value(t: Seq<char>) -> int
    decreases t.len(),
{
    if t.len() == 0 {
        0
    } else {
        10 * digits_value(t.drop_last()) + digit_value(t.last())
    }
}

pub open spec fn zeros(n: nat) -> Seq<char> {
    Seq::new(n, |i: int| '0')
}

/// The millionths denoted by the digits after a decimal point: the first
/// six digits count, later ones are dropped.
pub open spec fn fraction_micros(f: Seq<char>) -> int {
    if f.len() >= 6 {
        digits_value(f.take(6))
    } else {
        digits_value(f + zeros((6 - f.len()) as nat))
    }
}

/// Whether the text holds a decimal point.
pub open spec fn has_point(b: Seq<char>) -> bool {
    exists|k: int| 0 <= k < b.len() && b[k] == '.'
}

/// The position of the decimal point, where the text holds one.
pub open spec fn point_at(b: Seq<char>) -> int {
    choose|k: int| 0 <= k < b.len() && b[k] == '.'
}

/// An unsigned decimal without exponent: digits, optionally followed by a
/// point and more digits, with at least one digit in all. Its value in
/// millionths.
pub open spec fn plain_micros(b: Seq<char>) -> Option<int> {
    if has_point(b) {
        let k = point_at(b);
        let w = b.take(k);
        let f = b.skip(k + 1);
        if all_digits(w) && all_digits(f) && w.len() + f.len() > 0 {
            Some(digits_value(w) * 1_000_000 + fraction_micros(f))
        } else {
            None
        }
    } else if all_digits(b) && b.len() > 0 {
        Some(digits_value(b) * 1_000_000)
    } else {
        None
    }
}

/// An exponent marker.
pub open spec fn is_exp_marker(c: char) -> bool {
    c == 'e' || c == 'E'
}

/// Whether the text holds an exponent marker.
pub open spec fn has_marker(b: Seq<char>) -> bool {
    exists|k: int| 0 <= k < b.len() && is_exp_marker(b[k])
}

/// The position of the exponent marker, where the text holds one.
pub open spec fn marker_at(b: Seq<char>) -> int {
    choose|k: int| 0 <= k < b.len() && is_exp_marker(b[k])
}

/// The digits of a mantissa without its point, and how many of them follow
/// the point: the mantissa is digits, optionally with one point among them,
/// and at least one digit in all.
pub open spec fn mantissa(m: Seq<char>) -> Option<(Seq<char>, nat)> {
    if has_point(m) {
        let k = point_at(m);
        let w = m.take(k);
        let f = m.skip(k + 1);
        if all_digits(w) && all_digits(f) && w.len() + f.len() > 0 {
            Some((w + f, f.len()))
        } else {
            None
        }
    } else if all_digits(m) && m.len() > 0 {
        Some((m, 0))
    } else {
        None
    }
}

/// The value of an exponent: an optional sign and at least one digit.
pub open spec fn exponent_value(x: Seq<char>) -> Option<int> {
    if x.len() > 0 && (x[0] == '-' || x[0] == '+') {
        let t = x.skip(1);
        if all_digits(t) && t.len() > 0 {
            Some(if x[0] == '-' { -digits_value(t) } else { digits_value(t) })
        } else {
            None
        }
    } else if all_digits(x) && x.len() > 0 {
        Some(digits_value(x))
    } else {
        None
    }
}

/// `n` times ten to the power `e`, rounded down.
pub open spec fn scaled(n: int, e: int) -> int {
    if e >= 0 {
        n * pow10(e as nat)
    } else {
        n / pow10((-e) as nat)
    }
}

/// An unsigned decimal, with or without an exponent (`1.5e3`, `2E-4`).
/// Its value in millionths, rounded down: digits after the sixth
/// fractional one are dropped.
pub open spec fn unsigned_micros(b: Seq<char>) -> Option<int> {
    if has_marker(b) {
        let k = marker_at(b);
        match (mantissa(b.take(k)), exponent_value(b.skip(k + 1))) {
            (Some(m), Some(x)) => Some(scaled(digits_value(m.0), 6 + x - m.1)),
            _ => None,
        }
    } else {
        plain_micros(b)
    }
}

/// A decimal with an optional leading sign. Its value in millionths.
pub open spec fn decimal_micros(s: Seq<char>) -> Option<int> {
    if s.len() > 0 && s[0] == '-' {
        match unsigned_micros(s.skip(1)) {
            Some(v) => Some(-v),
            None => None,
        }
    } else if s.len() > 0 && s[0] == '+' {
        unsigned_micros(s.skip(1))
    } else {
        unsigned_micros(s)
    }
}

/// What parsing `s` yields: the decimal it denotes, where that fits in the
/// representation.
pub open spec fn parsed_decimal(s: Seq<char>) -> Option<Decimal> {
    match decimal_micros(s) {
        Some(v) => if i64::MIN <= v <= i64::MAX {
            Some(Decimal { micros: v as i64 })
        } else {
            None
        },
        None => None,
    }
}

proof fn lemma_digits_value_nonneg(t: Seq<char>)
    requires
        all_digits(t),
    ensures
        digits_value(t) >= 0,
    decreases t.len(),
{
    if t.len() > 0 {
        assert(all_digits(t.drop_last()));
        lemma_digits_value_nonneg(t.drop_last());
        assert(is_digit(t[t.len() - 1]));
    }
}

proof fn lemma_digits_value_below(t: Seq<char>)
    requires
        all_digits(t),
    ensures
        0 <= digits_value(t) < pow10(t.len()),
    decreases t.len(),
{
    if t.len() > 0 {
        assert(all_digits(t.drop_last()));
        lemma_digits_value_below(t.drop_last());
        assert(is_digit(t[t.len() - 1]));
    }
}

pub open spec fn pow10(n: nat) -> int
    decreases n,
{
    if n == 0 {
        1
    } else {
        10 * pow10((n - 1) as nat)
    }
}

proof fn lemma_pow10_small(n: nat)
    requires
        n <= 5,
    ensures
        pow10(n) <= 100_000,
        pow10(n + 1) == 10 * pow10(n),
{
    reveal_with_fuel(pow10, 7);
}

/// A character other than a digit after the point leaves no decimal.
proof fn lemma_bad_fraction(b: Seq<char>, k0: int, p: int)
    requires
        0 <= k0 < b.len(),
        b[k0] == '.',
        all_digits(b.take(k0)),
        0 <= p < b.len() - k0 - 1,
        !is_digit(b[k0 + 1 + p]),
    ensures
        plain_micros(b) is None,
{
    let k = choose|k: int| 0 <= k < b.len() && b[k] == '.';
    if k < k0 {
        assert(is_digit(b.take(k0)[k]));
    } else if k > k0 {
        assert(b.take(k)[k0] == '.');
        assert(!all_digits(b.take(k)));
    } else {
        assert(b.skip(k0 + 1)[p] == b[k0 + 1 + p]);
        assert(!all_digits(b.skip(k0 + 1)));
    }
}

/// Where the point at `k0` is followed by digits only, it is the point the
/// definition picks.
proof fn lemma_point_found(b: Seq<char>, k0: int)
    requires
        0 <= k0 < b.len(),
        b[k0] == '.',
        all_digits(b.take(k0)),
        all_digits(b.skip(k0 + 1)),
    ensures
        plain_micros(b) == (if k0 + b.skip(k0 + 1).len() > 0 {
            Some(digits_value(b.take(k0)) * 1_000_000 + fraction_micros(b.skip(k0 + 1)))
        } else {
            None
        }),
        point_at(b) == k0,
{
    let k = choose|k: int| 0 <= k < b.len() && b[k] == '.';
    if k < k0 {
        assert(is_digit(b.take(k0)[k]));
    } else if k > k0 {
        assert(b.skip(k0 + 1)[k - k0 - 1] == '.');
    }
    assert(k == k0);
}

proof fn lemma_pow10_pos(n: nat)
    ensures
        pow10(n) >= 1,
    decreases n,
{
    if n > 0 {
        lemma_pow10_pos((n - 1) as nat);
    }
}

proof fn lemma_pow10_mono(a: nat, b: nat)
    requires
        a <= b,
    ensures
        pow10(a) <= pow10(b),
    decreases b,
{
    if b > a {
        lemma_pow10_mono(a, (b - 1) as nat);
        lemma_pow10_pos((b - 1) as nat);
    }
}

/// Dropping the last `k` digits divides by ten to the `k`, rounding down.
proof fn lemma_digits_div(t: Seq<char>, k: nat)
    requires
        all_digits(t),
        k <= t.len(),
    ensures
        digits_value(t) / pow10(k) == digits_value(t.take(t.len() - k)),
    decreases k,
{
    if k == 0 {
        assert(t.take(t.len() as int) =~= t);
    } else {
        let u = t.drop_last();
        assert(all_digits(u));
        lemma_digits_div(u, (k - 1) as nat);
        lemma_digits_value_nonneg(u);
        lemma_digits_value_nonneg(t);
        assert(is_digit(t[t.len() - 1]));
        lemma_pow10_pos((k - 1) as nat);
        vstd::arithmetic::div_mod::lemma_fundamental_div_mod_converse(
            digits_value(t),
            10,
            digits_value(u),
            digit_value(t.last()),
        );
        vstd::arithmetic::div_mod::lemma_div_denominator(digits_value(t), 10, pow10((k - 1) as nat));
        assert(u.take(u.len() - (k - 1)) =~= t.take(t.len() - k));
    }
}

/// Scaling by a power of ten: at least ten to the twentieth where `n` is
/// positive and the power at least twenty; nothing where the power drops
/// more digits than `t` has.
proof fn lemma_scaled_extremes(t: Seq<char>, e: int)
    requires
        all_digits(t),
    ensures
        (e >= 20 && digits_value(t) > 0) ==> scaled(digits_value(t), e) >= pow10(20),
        e <= -(t.len() as int) ==> scaled(digits_value(t), e) == 0,
        e < 0 && e > -(t.len() as int) ==> scaled(digits_value(t), e) == digits_value(t.take(t.len() + e)),
        scaled(digits_value(t), e) >= 0,
{
    lemma_digits_value_nonneg(t);
    if e >= 0 {
        lemma_pow10_pos(e as nat);
        assert(digits_value(t) * pow10(e as nat) >= 0) by (nonlinear_arith)
            requires
                digits_value(t) >= 0,
                pow10(e as nat) >= 1,
        ;
    } else {
        lemma_pow10_pos((-e) as nat);
        vstd::arithmetic::div_mod::lemma_div_pos_is_pos(digits_value(t), pow10((-e) as nat));
    }
    if e >= 20 && digits_value(t) > 0 {
        lemma_pow10_mono(20, e as nat);
        lemma_pow10_pos(e as nat);
        assert(digits_value(t) * pow10(e as nat) >= pow10(e as nat)) by (nonlinear_arith)
            requires
                digits_value(t) >= 1,
                pow10(e as nat) >= 1,
        ;
    }
    if e <= -(t.len() as int) {
        lemma_digits_value_below(t);
        lemma_pow10_mono(t.len(), (-e) as nat);
        lemma_pow10_pos((-e) as nat);
        vstd::arithmetic::div_mod::lemma_basic_div(digits_value(t), pow10((-e) as nat));
    }
    if e < 0 && e > -(t.len() as int) {
        lemma_digits_div(t, (-e) as nat);
    }
}

/// A mantissa holds digits and at most its point.
proof fn lemma_mantissa_chars(m: Seq<char>, i: int)
    requires
        mantissa(m) is Some,
        0 <= i < m.len(),
        !is_digit(m[i]),
    ensures
        has_point(m),
        i == point_at(m),
{
    if has_point(m) {
        let k = point_at(m);
        if i < k {
            assert(m.take(k)[i] == m[i]);
        } else if i > k {
            assert(m.skip(k + 1)[i - k - 1] == m[i]);
        }
    }
}

/// Where `p` is the first exponent marker, it is the one the definition
/// picks, or else the text is no decimal.
proof fn lemma_first_marker(b: Seq<char>, p: int)
    requires
        0 <= p < b.len(),
        is_exp_marker(b[p]),
        forall|i: int| 0 <= i < p ==> !is_exp_marker(b[i]),
    ensures
        has_marker(b),
        (mantissa(b.take(p)) is None || exponent_value(b.skip(p + 1)) is None) ==> unsigned_micros(b) is None,
        (mantissa(b.take(p)) is Some && exponent_value(b.skip(p + 1)) is Some) ==> marker_at(b) == p,
{
    let k = marker_at(b);
    assert(has_marker(b));
    if k > p {
        if mantissa(b.take(k)) is Some {
            assert(b.take(k)[p] == b[p]);
            assert(!is_digit(b.take(k)[p]));
            lemma_mantissa_chars(b.take(k), p);
            assert(b.take(k)[p] == '.');
        }
    }
    if k < p {
        assert(!is_exp_marker(b[k]));
    }
    if mantissa(b.take(p)) is Some && exponent_value(b.skip(p + 1)) is Some && k > p {
        let x = b.skip(p + 1);
        assert(x[k - p - 1] == b[k]);
        assert(!is_digit(x[k - p - 1]));
        if x.len() > 0 && (x[0] == '-' || x[0] == '+') {
            if k - p - 1 > 0 {
                assert(x.skip(1)[k - p - 2] == x[k - p - 1]);
                assert(!is_digit(x.skip(1)[k - p - 2]));
            }
        }
    }
}

fn char_is_digit(c: char) -> (r: bool)
    ensures
        r == is_digit(c),
{
    let u = c as u32;
    48 <= u && u <= 57
}

fn char_digit_value(c: char) -> (r: u64)
    requires
        is_digit(c),
    ensures
        r == digit_value(c),
        r <= 9,
{
    (c as u32 - 48) as u64
}

/// Scans the unsigned decimal that starts at character `start` of `s`, and
/// returns its value in millionths where that is at most 2^63.
fn parse_plain(s: &str, start: usize) -> (r: Option<u64>)
    requires
        start <= s@.len(),
    ensures
        r == (match plain_micros(s@.skip(start as int)) {
            Some(v) => if v <= 0x8000_0000_0000_0000 {
                Some(v as u64)
            } else {
                None::<u64>
            },
            None => None::<u64>,
        }),
        r matches Some(v) ==> v <= 0x8000_0000_0000_0000u64
            && plain_micros(s@.skip(start as int)) == Some(v as int),
{
    let ghost b = s@.skip(start as int);
    let n = s.unicode_len();
    let cap: u64 = 10_000_000_000_000;
    let mut i = start;
    let mut whole: u64 = 0;
    while i < n && char_is_digit(s.get_char(i))
        invariant
            b == s@.skip(start as int),
            b.len() == n - start,
            n == s@.len(),
            cap == 10_000_000_000_000,
            start <= i <= n,
            all_digits(b.take(i - start)),
            whole == if digits_value(b.take(i - start)) < cap {
                digits_value(b.take(i - start))
            } else {
                cap as int
            },
        decreases n - i,
    {
        let c = s.get_char(i);
        proof {
            assert(b[i - start] == c);
            assert(b.take(i + 1 - start).drop_last() =~= b.take(i - start));
            assert(b.take(i + 1 - start).last() == c);
            lemma_digits_value_nonneg(b.take(i - start));
            assert(all_digits(b.take(i + 1 - start)));
        }
        let d = char_digit_value(c);
        if whole < cap {
            let next = whole * 10 + d;
            whole = if next < cap { next } else { cap };
        }
        i = i + 1;
    }
    let whole_end = i;
    let ghost k0: int = whole_end - start;
    let ghost w = b.take(k0);
    proof {
        lemma_digits_value_nonneg(w);
    }
    if whole_end == n {
        // No point: the text is a run of digits.
        proof {
            assert(w =~= b);
            assert(!exists|k: int| 0 <= k < b.len() && b[k] == '.') by {
                if exists|k: int| 0 <= k < b.len() && b[k] == '.' {
                    let k = choose|k: int| 0 <= k < b.len() && b[k] == '.';
                    assert(is_digit(w[k]));
                }
            }
        }
        if whole_end == start || whole >= cap {
            return None;
        }
        let total = whole * 1_000_000;
        if total > 0x8000_0000_0000_0000 {
            return None;
        }
        return Some(total);
    }
    let c = s.get_char(whole_end);
    proof {
        assert(b[k0] == c);
        assert(!is_digit(c));
    }
    if c != '.' {
        proof {
            if exists|k: int| 0 <= k < b.len() && b[k] == '.' {
                let k = choose|k: int| 0 <= k < b.len() && b[k] == '.';
                if k < k0 {
                    assert(is_digit(w[k]));
                } else {
                    assert(b.take(k)[k0] == c);
                    assert(!all_digits(b.take(k)));
                }
            }
        }
        return None;
    }
    let ghost f = b.skip(k0 + 1);
    proof {
        reveal_with_fuel(pow10, 1);
        assert(0 <= k0 < b.len());
        assert(w.len() == k0);
    }
    let mut j = whole_end + 1;
    let mut frac: u64 = 0;
    let mut taken: usize = 0;
    while j < n
        invariant
            b == s@.skip(start as int),
            b.len() == n - start,
            n == s@.len(),
            f == b.skip(k0 + 1),
            f.len() == n - whole_end - 1,
            cap == 10_000_000_000_000,
            k0 == whole_end - start,
            0 <= k0 < b.len(),
            w.len() == k0,
            b[k0] == '.',
            w == b.take(k0),
            all_digits(w),
            whole_end + 1 <= j <= n,
            all_digits(f.take(j - whole_end - 1)),
            taken == if j - whole_end - 1 < 6 { j - whole_end - 1 } else { 6 },
            frac == digits_value(f.take(taken as int)),
            frac < pow10(taken as nat),
        decreases n - j,
    {
        let c = s.get_char(j);
        proof {
            assert(b[j - start] == c);
            assert(f[j - whole_end - 1] == b[j - start]);
        }
        if !char_is_digit(c) {
            proof {
                lemma_bad_fraction(b, k0, j - whole_end - 1);
            }
            return None;
        }
        proof {
            assert(f.take(j + 1 - whole_end - 1).drop_last() =~= f.take(j - whole_end - 1));
            assert(all_digits(f.take(j + 1 - whole_end - 1)));
        }
        if taken < 6 {
            proof {
                assert(f.take(taken + 1).drop_last() =~= f.take(taken as int));
                assert(f.take(taken + 1).last() == c);
                lemma_pow10_small(taken as nat);
            }
            let d = char_digit_value(c);
            frac = frac * 10 + d;
            taken = taken + 1;
        }
        j = j + 1;
    }
    proof {
        assert(f.take(n - whole_end - 1) =~= f);
        lemma_point_found(b, k0);
    }
    let ghost kept = f.take(taken as int);
    let mut pad = taken;
    proof {
        assert(kept + zeros(0) =~= kept);
    }
    while pad < 6
        invariant
            taken <= pad <= 6,
            kept == f.take(taken as int),
            frac == digits_value(kept + zeros((pad - taken) as nat)),
            frac < pow10(pad as nat),
        decreases 6 - pad,
    {
        proof {
            let t = kept + zeros((pad - taken) as nat);
            assert((kept + zeros((pad + 1 - taken) as nat)).drop_last() =~= t);
            assert((kept + zeros((pad + 1 - taken) as nat)).last() == '0');
            lemma_pow10_small(pad as nat);
        }
        frac = frac * 10;
        pad = pad + 1;
    }
    proof {
        reveal_with_fuel(pow10, 7);
        if f.len() >= 6 {
            assert(kept + zeros(0) =~= f.take(6));
        } else {
            assert(kept =~= f);
        }
        assert(frac == fraction_micros(f));
    }
    if whole_end == start && j == whole_end + 1 {
        return None;
    }
    if whole >= cap {
        return None;
    }
    let total = whole * 1_000_000 + frac;
    if total > 0x8000_0000_0000_0000 {
        return None;
    }
    Some(total)
}

/// A mantissa whose first point is at `k0`.
proof fn lemma_mantissa_at(m: Seq<char>, k0: int)
    requires
        0 <= k0 < m.len(),
        m[k0] == '.',
        forall|i: int| 0 <= i < k0 ==> #[trigger] m[i] != '.',
    ensures
        (all_digits(m.take(k0)) && all_digits(m.skip(k0 + 1))) ==> mantissa(m) == (if m.len() > 1 {
            Some((m.take(k0) + m.skip(k0 + 1), (m.len() - k0 - 1) as nat))
        } else {
            None
        }),
        !(all_digits(m.take(k0)) && all_digits(m.skip(k0 + 1))) ==> mantissa(m) is None,
{
    assert(has_point(m));
    let kk = point_at(m);
    assert(m[kk] == '.');
    if kk < k0 {
        assert(m[kk] != '.');
    }
    let w = m.take(k0);
    let f = m.skip(k0 + 1);
    if all_digits(w) && all_digits(f) {
        if kk > k0 {
            assert(f[kk - k0 - 1] == m[kk]);
            assert(!is_digit(f[kk - k0 - 1]));
        }
        assert(kk == k0);
    } else if mantissa(m) is Some {
        if !all_digits(w) {
            let j = choose|j: int| 0 <= j < w.len() && !is_digit(#[trigger] w[j]);
            assert(w[j] == m[j]);
            lemma_mantissa_chars(m, j);
        } else {
            let j = choose|j: int| 0 <= j < f.len() && !is_digit(#[trigger] f[j]);
            assert(f[j] == m[k0 + 1 + j]);
            lemma_mantissa_chars(m, k0 + 1 + j);
            if kk > k0 {
                assert(!is_digit(m[k0]));
                lemma_mantissa_chars(m, k0);
            }
        }
    }
}

/// The value of a scientific decimal whose exponent was read clamped.
proof fn lemma_scientific_value(d: Seq<char>, xv: int, sc: int, e: int)
    requires
        all_digits(d),
        0 <= sc <= d.len() < 0x1_0000_0000_0000_0000,
        e == 6 + clamp_exp(xv) - sc,
    ensures
        e >= 20 ==> (digits_value(d) > 0 ==> scaled(digits_value(d), 6 + xv - sc) > 0x8000_0000_0000_0000),
        0 <= e < 20 ==> 6 + xv - sc == e,
        e >= 0 && digits_value(d) == 0 ==> scaled(digits_value(d), 6 + xv - sc) == 0,
        (e < 0 && d.len() + e <= 0) ==> scaled(digits_value(d), 6 + xv - sc) == 0,
        (e < 0 && d.len() + e > 0) ==> scaled(digits_value(d), 6 + xv - sc) == digits_value(d.take(d.len() + e)),
        scaled(digits_value(d), 6 + xv - sc) >= 0,
{
    let et = 6 + xv - sc;
    lemma_scaled_extremes(d, et);
    lemma_digits_value_nonneg(d);
    reveal_with_fuel(pow10, 21);
    if xv > exp_cap() {
        assert(et >= 20);
    } else if xv < -exp_cap() {
        assert(et <= -(d.len() as int));
    }
}

fn is_marker_char(c: char) -> (r: bool)
    ensures
        r == is_exp_marker(c),
{
    c == 'e' || c == 'E'
}

/// The first exponent marker at or after `start`, where there is one.
fn find_marker(s: &str, start: usize) -> (r: Option<usize>)
    requires
        start <= s@.len(),
    ensures
        match r {
            Some(p) => start <= p < s@.len() && is_exp_marker(s@[p as int]) && forall|i: int|
                start <= i < p ==> !is_exp_marker(#[trigger] s@[i]),
            None => forall|i: int| start <= i < s@.len() ==> !is_exp_marker(#[trigger] s@[i]),
        },
{
    let n = s.unicode_len();
    let mut i = start;
    while i < n
        invariant
            start <= i <= n,
            n == s@.len(),
            forall|j: int| start <= j < i ==> !is_exp_marker(#[trigger] s@[j]),
        decreases n - i,
    {
        if is_marker_char(s.get_char(i)) {
            return Some(i);
        }
        i = i + 1;
    }
    None
}

/// The first decimal point from `a` to `b`, where there is one.
fn find_point(s: &str, a: usize, b: usize) -> (r: Option<usize>)
    requires
        a <= b <= s@.len(),
    ensures
        match r {
            Some(k) => a <= k < b && s@[k as int] == '.' && forall|i: int| a <= i < k ==> #[trigger] s@[i] != '.',
            None => forall|i: int| a <= i < b ==> #[trigger] s@[i] != '.',
        },
{
    let mut i = a;
    while i < b
        invariant
            a <= i <= b,
            b <= s@.len(),
            forall|j: int| a <= j < i ==> #[trigger] s@[j] != '.',
        decreases b - i,
    {
        if s.get_char(i) == '.' {
            return Some(i);
        }
        i = i + 1;
    }
    None
}

/// Whether every character from `a` to `b` is a digit.
fn check_digits(s: &str, a: usize, b: usize) -> (r: bool)
    requires
        a <= b <= s@.len(),
    ensures
        r == all_digits(s@.subrange(a as int, b as int)),
{
    let mut i = a;
    while i < b
        invariant
            a <= i <= b,
            b <= s@.len(),
            all_digits(s@.subrange(a as int, i as int)),
        decreases b - i,
    {
        if !char_is_digit(s.get_char(i)) {
            assert(s@.subrange(a as int, b as int)[i - a] == s@[i as int]);
            return false;
        }
        assert(s@.subrange(a as int, i + 1) =~= s@.subrange(a as int, i as int).push(s@[i as int]));
        i = i + 1;
    }
    true
}

pub open spec fn min_cap(v: int, cap: int) -> int {
    if v < cap {
        v
    } else {
        cap
    }
}

/// The value of the digits `pre` followed by those of `s` from `a` to `b`,
/// capped at `cap`, from `acc`, the capped value of `pre`.
fn accumulate(s: &str, a: usize, b: usize, acc: u128, cap: u128, Ghost(pre): Ghost<Seq<char>>) -> (r: u128)
    requires
        a <= b <= s@.len(),
        all_digits(pre),
        all_digits(s@.subrange(a as int, b as int)),
        0 < cap <= 0x1_0000_0000_0000_0000_0000_0000_0000,
        acc == min_cap(digits_value(pre), cap as int),
    ensures
        r == min_cap(digits_value(pre + s@.subrange(a as int, b as int)), cap as int),
{
    let mut i = a;
    let mut v = acc;
    proof {
        assert(pre + s@.subrange(a as int, a as int) =~= pre);
    }
    while i < b
        invariant
            a <= i <= b,
            b <= s@.len(),
            all_digits(pre),
            all_digits(s@.subrange(a as int, b as int)),
            0 < cap <= 0x1_0000_0000_0000_0000_0000_0000_0000,
            v == min_cap(digits_value(pre + s@.subrange(a as int, i as int)), cap as int),
        decreases b - i,
    {
        let c = s.get_char(i);
        let ghost t = pre + s@.subrange(a as int, i as int);
        proof {
            assert(s@.subrange(a as int, b as int)[i - a] == c);
            assert((pre + s@.subrange(a as int, i + 1)).drop_last() =~= t);
            assert((pre + s@.subrange(a as int, i + 1)).last() == c);
            assert(all_digits(t)) by {
                assert forall|j: int| 0 <= j < t.len() implies is_digit(#[trigger] t[j]) by {
                    if j < pre.len() {
                        assert(t[j] == pre[j]);
                    } else {
                        assert(t[j] == s@.subrange(a as int, b as int)[j - pre.len()]);
                    }
                }
            }
            lemma_digits_value_nonneg(t);
        }
        let d = char_digit_value(c);
        if v < cap {
            let next = v * 10 + d as u128;
            v = if next < cap { next } else { cap };
        }
        i = i + 1;
    }
    v
}

/// Ten to the power `e`.
fn pow10_of(e: u32) -> (r: u128)
    requires
        e < 20,
    ensures
        r == pow10(e as nat),
        r <= 10_000_000_000_000_000_000,
{
    let mut r: u128 = 1;
    let mut i: u32 = 0;
    while i < e
        invariant
            i <= e < 20,
            r == pow10(i as nat),
            r <= 10_000_000_000_000_000_000,
        decreases e - i,
    {
        proof {
            lemma_pow10_mono((i + 1) as nat, 19);
            reveal_with_fuel(pow10, 20);
            assert(pow10(19) == 10_000_000_000_000_000_000);
        }
        r = r * 10;
        i = i + 1;
    }
    r
}

/// The largest exponent the parser tells apart from a larger one.
pub open spec fn exp_cap() -> int {
    1_000_000_000_000_000_000_000_000_000_000
}

pub open spec fn clamp_exp(v: int) -> int {
    if v > exp_cap() {
        exp_cap()
    } else if v < -exp_cap() {
        -exp_cap()
    } else {
        v
    }
}

/// The exponent written from `from` on, clamped to plus or minus
/// [`exp_cap`].
fn parse_exponent(s: &str, from: usize) -> (r: Option<i128>)
    requires
        from <= s@.len(),
    ensures
        exponent_value(s@.skip(from as int)) is None ==> r is None,
        exponent_value(s@.skip(from as int)) matches Some(v) ==> r == Some(clamp_exp(v) as i128),
{
    let ghost x = s@.skip(from as int);
    let n = s.unicode_len();
    if from == n {
        return None;
    }
    let c0 = s.get_char(from);
    assert(x[0] == c0);
    let signed = c0 == '-' || c0 == '+';
    let a: usize = if signed { from + 1 } else { from };
    proof {
        if signed {
            assert(x.skip(1) =~= s@.subrange(a as int, n as int));
        } else {
            assert(x =~= s@.subrange(a as int, n as int));
        }
    }
    if a == n || !check_digits(s, a, n) {
        return None;
    }
    let cap: u128 = 1_000_000_000_000_000_000_000_000_000_001;
    let v = accumulate(s, a, n, 0, cap, Ghost(Seq::empty()));
    proof {
        assert(Seq::<char>::empty() + s@.subrange(a as int, n as int) =~= s@.subrange(a as int, n as int));
        lemma_digits_value_nonneg(s@.subrange(a as int, n as int));
    }
    let m: i128 = if v >= cap { 1_000_000_000_000_000_000_000_000_000_000 } else { v as i128 };
    if c0 == '-' {
        Some(-m)
    } else {
        Some(m)
    }
}

/// The digits of the mantissa from `start` to `p`, without its point at
/// `pt`.
pub open spec fn mantissa_digits(s: Seq<char>, start: int, p: int, pt: Option<usize>) -> Seq<char> {
    match pt {
        Some(k) => s.subrange(start, k as int) + s.subrange(k + 1, p),
        None => s.subrange(start, p),
    }
}

/// What reading the mantissa from `start` to `p` finds: its point, where
/// it has one, and how many digits stand before and after it.
pub open spec fn mantissa_read(s: Seq<char>, start: int, p: int, pt: Option<usize>, wl: usize, sc: usize) -> bool {
    &&& mantissa(s.subrange(start, p)) == Some((mantissa_digits(s, start, p, pt), sc as nat))
    &&& all_digits(mantissa_digits(s, start, p, pt))
    &&& mantissa_digits(s, start, p, pt).len() == wl + sc
    &&& wl + sc > 0
    &&& match pt {
        Some(k) => start <= k < p && wl == k - start && sc == p - k - 1,
        None => wl == p - start && sc == 0,
    }
}

/// Reads the mantissa from `start` to `p`.
fn read_mantissa(s: &str, start: usize, p: usize) -> (r: Option<(Option<usize>, usize, usize)>)
    requires
        start <= p <= s@.len(),
    ensures
        r is None <==> mantissa(s@.subrange(start as int, p as int)) is None,
        r matches Some((pt, wl, sc)) ==> mantissa_read(s@, start as int, p as int, pt, wl, sc),
{
    let ghost m = s@.subrange(start as int, p as int);
    let pt = find_point(s, start, p);
    let (wl, sc): (usize, usize) = match pt {
        Some(k) => (k - start, p - k - 1),
        None => (p - start, 0),
    };
    let ok = match pt {
        Some(k) => check_digits(s, start, k) && check_digits(s, k + 1, p),
        None => check_digits(s, start, p),
    };
    proof {
        match pt {
            Some(k) => {
                let k0 = k - start;
                assert forall|i: int| 0 <= i < k0 implies #[trigger] m[i] != '.' by {
                    assert(m[i] == s@[start + i]);
                }
                assert(m[k0] == s@[k as int]);
                assert(m.take(k0) =~= s@.subrange(start as int, k as int));
                assert(m.skip(k0 + 1) =~= s@.subrange(k + 1, p as int));
                lemma_mantissa_at(m, k0);
            },
            None => {
                assert forall|i: int| 0 <= i < m.len() implies #[trigger] m[i] != '.' by {
                    assert(m[i] == s@[start + i]);
                }
                assert(!has_point(m));
            },
        }
    }
    if !ok || wl + sc == 0 {
        return None;
    }
    proof {
        let d = mantissa_digits(s@, start as int, p as int, pt);
        match pt {
            Some(k) => {
                let w = s@.subrange(start as int, k as int);
                let f = s@.subrange(k + 1, p as int);
                assert forall|j: int| 0 <= j < d.len() implies is_digit(#[trigger] d[j]) by {
                    if j < w.len() {
                        assert(d[j] == w[j]);
                    } else {
                        assert(d[j] == f[j - w.len()]);
                    }
                }
            },
            None => {},
        }
    }
    Some((pt, wl, sc))
}

/// The value of the first `qq` digits of the mantissa, capped at 2^63 + 1.
fn mantissa_prefix(s: &str, start: usize, p: usize, pt: Option<usize>, wl: usize, sc: usize, qq: usize) -> (r: u128)
    requires
        p <= s@.len(),
        mantissa_read(s@, start as int, p as int, pt, wl, sc),
        qq <= wl + sc,
    ensures
        r == min_cap(digits_value(mantissa_digits(s@, start as int, p as int, pt).take(qq as int)), 0x8000_0000_0000_0001),
{
    let ghost d = mantissa_digits(s@, start as int, p as int, pt);
    let cap: u128 = 0x8000_0000_0000_0001;
    if qq <= wl {
        let ghost t = s@.subrange(start as int, (start + qq) as int);
        proof {
            assert(Seq::<char>::empty() + t =~= d.take(qq as int));
            assert forall|j: int| 0 <= j < qq implies is_digit(#[trigger] t[j]) by {
                assert(t[j] == d[j]);
            }
        }
        accumulate(s, start, start + qq, 0, cap, Ghost(Seq::empty()))
    } else {
        let k = match pt {
            Some(k) => k,
            None => p,
        };
        let ghost w = s@.subrange(start as int, k as int);
        let ghost t = s@.subrange(k + 1, (k + 1 + qq - wl) as int);
        proof {
            assert(pt is Some);
            assert(Seq::<char>::empty() + w =~= w);
            assert forall|j: int| 0 <= j < w.len() implies is_digit(#[trigger] w[j]) by {
                assert(w[j] == d[j]);
            }
            assert(w + t =~= d.take(qq as int));
            assert forall|j: int| 0 <= j < t.len() implies is_digit(#[trigger] t[j]) by {
                assert(t[j] == d[wl + j]);
            }
            lemma_digits_value_nonneg(w);
        }
        let vw = accumulate(s, start, k, 0, cap, Ghost(Seq::empty()));
        assert(k + 1 + sc == p);
        accumulate(s, k + 1, k + 1 + (qq - wl), vw, cap, Ghost(w))
    }
}

/// How many leading digits of `l` digits are kept when scaling by ten to
/// the power `e`.
pub open spec fn kept_digits(e: int, l: int) -> int {
    if e >= 0 {
        l
    } else if l + e <= 0 {
        0
    } else {
        l + e
    }
}

/// The value in millionths, where it is at most 2^63, of the digits `d`
/// times ten to the power `6 + xv - sc`, from `val`, the capped value of the
/// digits kept, and the power `e` with the exponent clamped.
fn scaled_result(val: u128, e: i128, l: usize, Ghost(d): Ghost<Seq<char>>, Ghost(xv): Ghost<int>, Ghost(sc): Ghost<int>) -> (r: Option<u64>)
    requires
        all_digits(d),
        d.len() == l,
        0 <= sc <= l,
        e == 6 + clamp_exp(xv) - sc,
        val == min_cap(digits_value(d.take(kept_digits(e as int, l as int))), 0x8000_0000_0000_0001),
    ensures
        r == (if scaled(digits_value(d), 6 + xv - sc) <= 0x8000_0000_0000_0000 {
            Some(scaled(digits_value(d), 6 + xv - sc) as u64)
        } else {
            None::<u64>
        }),
        scaled(digits_value(d), 6 + xv - sc) >= 0,
{
    proof {
        assert(d.take(l as int) =~= d);
        lemma_scientific_value(d, xv, sc, e as int);
        lemma_digits_value_nonneg(d);
    }
    if e >= 0 {
        if val == 0 {
            return Some(0);
        }
        if e >= 20 {
            return None;
        }
        let pw = pow10_of(e as u32);
        assert(val * pw <= 0x8000_0000_0000_0001u128 * 10_000_000_000_000_000_000u128) by (nonlinear_arith)
            requires
                val <= 0x8000_0000_0000_0001u128,
                pw <= 10_000_000_000_000_000_000u128,
        ;
        let prod = val * pw;
        proof {
            lemma_pow10_pos(e as nat);
            assert(digits_value(d) * pow10(e as nat) >= digits_value(d)) by (nonlinear_arith)
                requires
                    digits_value(d) >= 0,
                    pow10(e as nat) >= 1,
            ;
        }
        if val > 0x8000_0000_0000_0000 || prod > 0x8000_0000_0000_0000 {
            return None;
        }
        Some(prod as u64)
    } else if (l as i128) + e <= 0 {
        Some(0)
    } else if val > 0x8000_0000_0000_0000 {
        None
    } else {
        Some(val as u64)
    }
}

/// Scans an unsigned decimal with an exponent, from `start`, whose first
/// exponent marker is at `p`.
fn parse_scientific(s: &str, start: usize, p: usize) -> (r: Option<u64>)
    requires
        start <= p < s@.len(),
        is_exp_marker(s@[p as int]),
        forall|i: int| start <= i < p ==> !is_exp_marker(#[trigger] s@[i]),
    ensures
        r == (match unsigned_micros(s@.skip(start as int)) {
            Some(v) => if v <= 0x8000_0000_0000_0000 {
                Some(v as u64)
            } else {
                None::<u64>
            },
            None => None::<u64>,
        }),
        r matches Some(v) ==> v <= 0x8000_0000_0000_0000u64
            && unsigned_micros(s@.skip(start as int)) == Some(v as int),
{
    let ghost b = s@.skip(start as int);
    let ghost p0 = p - start;
    proof {
        assert forall|i: int| 0 <= i < p0 implies !is_exp_marker(#[trigger] b[i]) by {
            assert(b[i] == s@[start + i]);
        }
        assert(b[p0] == s@[p as int]);
        lemma_first_marker(b, p0);
        assert(b.take(p0) =~= s@.subrange(start as int, p as int));
        assert(b.skip(p0 + 1) =~= s@.skip(p + 1));
    }
    let n = s.unicode_len();
    let x = match parse_exponent(s, p + 1) {
        Some(x) => x,
        None => return None,
    };
    let (pt, wl, sc) = match read_mantissa(s, start, p) {
        Some(r) => r,
        None => return None,
    };
    let ghost d = mantissa_digits(s@, start as int, p as int, pt);
    let ghost xv = exponent_value(b.skip(p0 + 1))->Some_0;
    assert(marker_at(b) == p0);
    assert(unsigned_micros(b) == Some(scaled(digits_value(d), 6 + xv - sc)));
    let l: usize = wl + sc;
    let e: i128 = 6 + x - sc as i128;
    let qq: usize = if e >= 0 {
        l
    } else if (l as i128) + e <= 0 {
        0
    } else {
        ((l as i128) + e) as usize
    };
    let val = mantissa_prefix(s, start, p, pt, wl, sc, qq);
    scaled_result(val, e, l, Ghost(d), Ghost(xv), Ghost(sc as int))
}

/// Scans the unsigned decimal that starts at character `start` of `s`, and
/// returns its value in millionths where that is at most 2^63.
fn parse_unsigned(s: &str, start: usize) -> (r: Option<u64>)
    requires
        start <= s@.len(),
    ensures
        r == (match unsigned_micros(s@.skip(start as int)) {
            Some(v) => if v <= 0x8000_0000_0000_0000 {
                Some(v as u64)
            } else {
                None::<u64>
            },
            None => None::<u64>,
        }),
        r matches Some(v) ==> v <= 0x8000_0000_0000_0000u64
            && unsigned_micros(s@.skip(start as int)) == Some(v as int),
{
    match find_marker(s, start) {
        Some(p) => parse_scientific(s, start, p),
        None => {
            proof {
                let b = s@.skip(start as int);
                assert forall|k: int| 0 <= k < b.len() implies !is_exp_marker(#[trigger] b[k]) by {
                    assert(b[k] == s@[start + k]);
                }
            }
            parse_plain(s, start)
        },
    }
}

impl Decimal {
    /// Parses a decimal such as `12`, `-0.5`, `+3.`, `.25` or `1.5e-3`.
    /// Digits after the sixth fractional one are dropped. Returns `None`
    /// where the text is no such decimal (`inf` and `nan` are none) or its
    /// value does not fit.
    pub fn parse(text: &str) -> (r: Option<Decimal>)
        ensures
            r == parsed_decimal(text@),
    {
        let n = text.unicode_len();
        let first: char = if n > 0 { text.get_char(0) } else { ' ' };
        let negative = n > 0 && first == '-';
        let start: usize = if n > 0 && (first == '-' || first == '+') { 1 } else { 0 };
        proof {
            if start == 0 {
                assert(text@.skip(0) =~= text@);
            }
        }
        let magnitude = parse_unsigned(text, start);
        let ghost u = unsigned_micros(text@.skip(start as int));
        assert(decimal_micros(text@) == if negative {
            match u { Some(v) => Some(-v), None => None }
        } else {
            u
        });
        match magnitude {
            Some(v) => {
                if negative {
                    if v == 0x8000_0000_0000_0000 {
                        Some(Decimal { micros: i64::MIN })
                    } else {
                        let m: i64 = v as i64;
                        Some(Decimal { micros: -m })
                    }
                } else if v > i64::MAX as u64 {
                    None
                } else {
                    Some(Decimal { micros: v as i64 })
                }
            },
            None => {
                proof {
                    match u {
                        Some(v) => {
                            assert(v > 0x8000_0000_0000_0000);
                        },
                        None => {},
                    }
                }
                None
            },
        }
    }
}

/// A run of digits is read as a whole number of units, where it fits.
pub proof fn law_parse_whole_number(t: Seq<char>)
    requires
        t.len() > 0,
        all_digits(t),
        digits_value(t) <= 9_223_372_036_854,
    ensures
        parsed_decimal(t) == Some(Decimal { micros: (digits_value(t) * 1_000_000) as i64 }),
{
    lemma_digits_value_nonneg(t);
    assert(!has_marker(t)) by {
        if has_marker(t) {
            let k = marker_at(t);
            assert(is_digit(t[k]));
        }
    }
    assert(!has_point(t)) by {
        if has_point(t) {
            let k = point_at(t);
            assert(is_digit(t[k]));
        }
    }
    assert(t[0] != '-' && t[0] != '+') by {
        assert(is_digit(t[0]));
    }
}

/// A leading minus sign negates what the rest of the text denotes; a
/// leading plus sign changes nothing.
pub proof fn law_parse_sign(t: Seq<char>)
    requires
        t.len() > 0,
        t[0] != '-' && t[0] != '+',
    ensures
        decimal_micros(seq!['-'] + t) == (match decimal_micros(t) {
            Some(v) => Some(-v),
            None => None::<int>,
        }),
        decimal_micros(seq!['+'] + t) == decimal_micros(t),
{
    assert((seq!['-'] + t).skip(1) =~= t);
    assert((seq!['+'] + t).skip(1) =~= t);
}

} // verus!
