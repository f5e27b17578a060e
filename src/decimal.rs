//! Decimal numerals and the rule that maps a number onto a confidence.
//!
//! Confidences are whole numbers of millionths: `SCALE` stands for 1.0.
use vstd::prelude::*;
use crate::text::{chars_of, copy_range};

verus! {

/// The fixed-point unit: a confidence of `SCALE` means 1.0.
pub const SCALE: u64 = 1_000_000;

/// A confidence in millionths of the unit interval.
pub type Confidence = u64;

pub open spec fn is_digit(c: char) -> bool {
    '0' <= c && c <= '9'
}

pub open spec fn digit_value(c: char) -> nat {
    ((c as u32) - ('0' as u32)) as nat
}

pub open spec fn all_digits(s: Seq<char>) -> bool {
    forall|i: int| 0 <= i < s.len() ==> is_digit(#[trigger] s[i])
}

/// The value of a run of decimal digits, most significant first.
pub open spec fn digits_value(d: Seq<char>) -> nat
    decreases d.len(),
{
    if d.len() == 0 {
        0
    } else {
        digits_value(d.drop_last()) * 10 + digit_value(d.last())
    }
}

pub open spec fn pow10(k: nat) -> nat
    decreases k,
{
    if k == 0 {
        1
    } else {
        10 * pow10((k - 1) as nat)
    }
}

/// The first `k` digits of a fraction, padded with zeros: the fraction `0.f`
/// multiplied by `10^k` and rounded down is the value of this run.
pub open spec fn fraction_prefix(f: Seq<char>, k: nat) -> Seq<char> {
    Seq::new(k, |i: int| if i < f.len() { f[i] } else { '0' })
}

/// A finite decimal number: its sign, and its digits split at the point.
pub struct Numeral {
    pub negative: bool,
    pub whole: Seq<char>,
    pub fraction: Seq<char>,
}

/// Index of the first `a` or `b` in `s`, or its length when there is none.
pub open spec fn first_of(s: Seq<char>, a: char, b: char) -> nat
    decreases s.len(),
{
    if s.len() == 0 || s[0] == a || s[0] == b {
        0
    } else {
        1 + first_of(s.drop_first(), a, b)
    }
}

/// What follows an optional leading sign.
pub open spec fn unsigned_part(s: Seq<char>) -> Seq<char> {
    if s.len() > 0 && (s[0] == '+' || s[0] == '-') {
        s.drop_first()
    } else {
        s
    }
}

/// `c` is the lower-case letter `w` or its upper-case form.
pub open spec fn same_letter(c: char, w: char) -> bool {
    c == w || ('A' <= c && c <= 'Z' && (c as u32) + 32 == (w as u32))
}

/// `s` spells the lower-case `word` in any mix of ASCII cases.
pub open spec fn spells(s: Seq<char>, word: Seq<char>) -> bool {
    s.len() == word.len() && forall|i: int| 0 <= i < s.len() ==> same_letter(#[trigger] s[i], word[i])
}

/// Infinity or not-a-number, as float syntax writes them.
pub open spec fn is_non_finite(body: Seq<char>) -> bool {
    spells(body, "inf"@) || spells(body, "infinity"@) || spells(body, "nan"@)
}

/// An exponent: an optional sign, then at least one digit.
pub open spec fn exponent_of(t: Seq<char>) -> Option<int> {
    let body = unsigned_part(t);
    if body.len() > 0 && all_digits(body) {
        if t[0] == '-' {
            Some(-(digits_value(body) as int))
        } else {
            Some(digits_value(body) as int)
        }
    } else {
        None
    }
}

pub open spec fn zeros(n: nat) -> Seq<char> {
    Seq::new(n, |i: int| '0')
}

pub open spec fn all_zero(d: Seq<char>) -> bool {
    forall|i: int| 0 <= i < d.len() ==> #[trigger] d[i] == '0'
}

/// The digits `whole.fraction` with the point moved `e` places to the right
/// (to the left when `e` is negative), as a new whole part and fraction.
pub open spec fn shift_point(whole: Seq<char>, fraction: Seq<char>, e: int) -> (Seq<char>, Seq<char>) {
    let d = whole + fraction;
    let p = whole.len() + e;
    if p <= 0 {
        (Seq::empty(), zeros((-p) as nat) + d)
    } else if p >= d.len() {
        (d + zeros((p - d.len()) as nat), Seq::empty())
    } else {
        (d.subrange(0, p), d.subrange(p, d.len() as int))
    }
}

/// What a number's text stands for.
pub enum Reading {
    Finite(Numeral),
    NonFinite,
}

/// Reads a number as float syntax writes it: an optional sign, then either
/// `inf`, `infinity` or `nan` in any case, or digits with at most one point
/// among them and at least one digit in all, then an optional exponent (`e`
/// or `E`, an optional sign, digits). The exponent moves the point.
pub open spec fn numeral_of(s: Seq<char>) -> Option<Reading> {
    let body = unsigned_part(s);
    let negative = s.len() > 0 && s[0] == '-';
    if is_non_finite(body) {
        Some(Reading::NonFinite)
    } else {
        let x = first_of(body, 'e', 'E') as int;
        let mantissa = body.subrange(0, x);
        let exponent = if x < body.len() {
            exponent_of(body.subrange(x + 1, body.len() as int))
        } else {
            Some(0int)
        };
        let p = first_of(mantissa, '.', '.') as int;
        let whole = mantissa.subrange(0, p);
        let fraction = if p < mantissa.len() {
            mantissa.subrange(p + 1, mantissa.len() as int)
        } else {
            Seq::empty()
        };
        if all_digits(whole) && all_digits(fraction) && whole.len() + fraction.len() > 0
            && exponent is Some {
            let shifted = shift_point(whole, fraction, exponent->0);
            Some(Reading::Finite(Numeral { negative, whole: shifted.0, fraction: shifted.1 }))
        } else {
            None
        }
    }
}

pub open spec fn fraction_is_zero(n: Numeral) -> bool {
    forall|i: int| 0 <= i < n.fraction.len() ==> #[trigger] n.fraction[i] == '0'
}

pub open spec fn numeral_is_zero(n: Numeral) -> bool {
    digits_value(n.whole) == 0 && fraction_is_zero(n)
}

/// The numeral lies in `[0, 1]`.
pub open spec fn in_unit_range(n: Numeral) -> bool {
    &&& (!n.negative || numeral_is_zero(n))
    &&& (digits_value(n.whole) == 0 || (digits_value(n.whole) == 1 && fraction_is_zero(n)))
}

/// The numeral lies in `(1, 100]`: a percentage.
pub open spec fn in_percent_range(n: Numeral) -> bool {
    &&& !n.negative
    &&& !in_unit_range(n)
    &&& (digits_value(n.whole) < 100 || (digits_value(n.whole) == 100 && fraction_is_zero(n)))
}

/// The numeric rule: a value in `[0, 1]` is kept, one in `(1, 100]` is read as
/// a percentage, anything else gives `default`. Results are rounded down to
/// millionths.
pub open spec fn scaled_value(n: Numeral, default: nat) -> nat {
    if in_unit_range(n) {
        digits_value(n.whole) * pow10(6) + digits_value(fraction_prefix(n.fraction, 6))
    } else if in_percent_range(n) {
        digits_value(n.whole) * pow10(4) + digits_value(fraction_prefix(n.fraction, 4))
    } else {
        default
    }
}

/// An optional confidence as a natural number.
pub open spec fn lifted(r: Option<Confidence>) -> Option<nat> {
    match r {
        Some(v) => Some(v as nat),
        None => None,
    }
}

/// The numeric rule applied to a number's text; `None` when the text is no
/// number. Infinity and not-a-number lie outside both ranges.
pub open spec fn normalized_text(s: Seq<char>, default: nat) -> Option<nat> {
    match numeral_of(s) {
        Some(Reading::Finite(n)) => Some(scaled_value(n, default)),
        Some(Reading::NonFinite) => Some(default),
        None => None,
    }
}


pub proof fn lemma_zero_digits(d: Seq<char>)
    requires
        forall|i: int| 0 <= i < d.len() ==> #[trigger] d[i] == '0',
    ensures
        digits_value(d) == 0,
    decreases d.len(),
{
    if d.len() > 0 {
        lemma_zero_digits(d.drop_last());
    }
}

proof fn lemma_first_of(s: Seq<char>, p: int, a: char, b: char)
    requires
        0 <= p <= s.len(),
        forall|j: int| 0 <= j < p ==> s[j] != a && s[j] != b,
        p == s.len() || s[p] == a || s[p] == b,
    ensures
        first_of(s, a, b) == p,
    decreases p,
{
    if p > 0 {
        lemma_first_of(s.drop_first(), p - 1, a, b);
    }
}

proof fn lemma_pow10_grows(m: nat)
    ensures
        pow10(m) >= 1,
        m >= 4 ==> pow10(m) >= 10_000,
    decreases m,
{
    if m > 0 {
        lemma_pow10_grows((m - 1) as nat);
        if m == 4 {
            reveal_with_fuel(pow10, 5);
        }
    }
}

proof fn lemma_append_zeros(d: Seq<char>, m: nat)
    ensures
        digits_value(d + zeros(m)) == digits_value(d) * pow10(m),
    decreases m,
{
    if m == 0 {
        assert(d + zeros(0) =~= d);
        assert(pow10(0) == 1);
        assert(digits_value(d) * 1 == digits_value(d));
    } else {
        lemma_append_zeros(d, (m - 1) as nat);
        let t = d + zeros(m);
        assert(t.drop_last() =~= d + zeros((m - 1) as nat));
        assert(t.last() == '0');
        assert(digit_value('0') == 0);
        let x = digits_value(d);
        let q = pow10((m - 1) as nat);
        assert(pow10(m) == 10 * q);
        assert(digits_value(t) == x * q * 10);
        assert(x * q * 10 == x * (10 * q)) by (nonlinear_arith);
        assert(digits_value(t) == x * pow10(m));
    }
}

proof fn lemma_nonzero_digits(d: Seq<char>)
    requires
        all_digits(d),
        !all_zero(d),
    ensures
        digits_value(d) >= 1,
    decreases d.len(),
{
    if d.last() == '0' {
        let k = choose|k: int| 0 <= k < d.len() && d[k] != '0';
        assert(d.drop_last()[k] != '0');
        lemma_nonzero_digits(d.drop_last());
    } else {
        assert(is_digit(d[d.len() - 1]));
    }
}

/// With the point moved at least six places left of every digit, the
/// fraction's first six digits are zeros.
proof fn lemma_far_fraction(negative: bool, d: Seq<char>, k: nat, default: nat)
    requires
        all_digits(d),
        k >= 6,
    ensures
        scaled_value(Numeral { negative, whole: Seq::empty(), fraction: zeros(k) + d }, default)
            == if !negative || all_zero(d) { 0 } else { default },
{
    let f = zeros(k) + d;
    let n = Numeral { negative, whole: Seq::empty(), fraction: f };
    assert(digits_value(Seq::<char>::empty()) == 0);
    if all_zero(d) {
        assert forall|i: int| 0 <= i < n.fraction.len() implies #[trigger] n.fraction[i] == '0' by {
            if i >= k {
                assert(f[i] == d[i - k]);
            }
        }
        assert(fraction_is_zero(n));
    } else {
        let j = choose|j: int| 0 <= j < d.len() && #[trigger] d[j] != '0';
        assert(n.fraction[j + k] == d[j]);
        assert(!fraction_is_zero(n));
    }
    let q = fraction_prefix(f, 6);
    assert forall|i: int| 0 <= i < q.len() implies #[trigger] q[i] == '0' by {
        assert(f[i] == '0');
    }
    lemma_zero_digits(q);
}

/// With the point moved at least four places right of every digit, a
/// non-zero number is far above 100.
proof fn lemma_far_whole(negative: bool, d: Seq<char>, m: nat, default: nat)
    requires
        all_digits(d),
        m >= 4,
    ensures
        scaled_value(Numeral { negative, whole: d + zeros(m), fraction: Seq::empty() }, default)
            == if all_zero(d) { 0 } else { default },
{
    let w = d + zeros(m);
    let n = Numeral { negative, whole: w, fraction: Seq::empty() };
    lemma_zero_digits(fraction_prefix(Seq::empty(), 6));
    if all_zero(d) {
        assert forall|i: int| 0 <= i < w.len() implies #[trigger] w[i] == '0' by {
            if i < d.len() {
                assert(w[i] == d[i]);
            }
        }
        lemma_zero_digits(w);
    } else {
        lemma_nonzero_digits(d);
        lemma_append_zeros(d, m);
        lemma_pow10_grows(m);
        let x = digits_value(d);
        assert(x * pow10(m) >= 10_000) by (nonlinear_arith)
            requires
                x >= 1,
                pow10(m) >= 10_000,
        ;
    }
}

proof fn lemma_zero_prefix(f: Seq<char>, k: nat)
    requires
        forall|i: int| 0 <= i < f.len() ==> #[trigger] f[i] == '0',
    ensures
        digits_value(fraction_prefix(f, k)) == 0,
{
    let q = fraction_prefix(f, k);
    assert forall|i: int| 0 <= i < q.len() implies #[trigger] q[i] == '0' by {
        if i < f.len() {
            assert(f[i] == '0');
        }
    }
    lemma_zero_digits(q);
}

/// The numeric rule on the parts of a numeral: its sign, its whole part
/// (any value above 101 may stand as 101), whether its fraction is zero, and
/// its fraction's first six and four digits.
fn apply_rule(negative: bool, w: u64, zero: bool, f6: u64, f4: u64, default: u64) -> (r: u64)
    requires
        w <= 101,
        f6 < 1_000_000,
        f4 < 10_000,
        zero ==> f6 == 0 && f4 == 0,
        default <= SCALE,
    ensures
        r == if (!negative || (w == 0 && zero)) && (w == 0 || (w == 1 && zero)) {
            w * 1_000_000 + f6
        } else if !negative && (w < 100 || (w == 100 && zero)) {
            w * 10_000 + f4
        } else {
            default as int
        },
        r <= SCALE,
{
    if (!negative || (w == 0 && zero)) && (w == 0 || (w == 1 && zero)) {
        w * 1_000_000 + f6
    } else if !negative && (w < 100 || (w == 100 && zero)) {
        w * 10_000 + f4
    } else {
        default
    }
}

fn capped_value(s: &[char], lo: usize, hi: usize, cap: u128) -> (r: Option<u128>)
    requires
        lo <= hi <= s@.len(),
        cap <= 0x1_0000_0000_0000_0000_0000_0000,
    ensures
        r is Some <==> all_digits(s@.subrange(lo as int, hi as int)),
        r is Some ==> r->0 == if digits_value(s@.subrange(lo as int, hi as int)) > cap {
            cap as int
        } else {
            digits_value(s@.subrange(lo as int, hi as int)) as int
        },
{
    let mut w: u128 = 0;
    let mut i: usize = lo;
    while i < hi
        invariant
            lo <= i <= hi <= s@.len(),
            cap <= 0x1_0000_0000_0000_0000_0000_0000,
            w <= cap,
            all_digits(s@.subrange(lo as int, i as int)),
            w == if digits_value(s@.subrange(lo as int, i as int)) > cap {
                cap as int
            } else {
                digits_value(s@.subrange(lo as int, i as int)) as int
            },
        decreases hi - i,
    {
        let c = s[i];
        if !('0' <= c && c <= '9') {
            assert(s@.subrange(lo as int, hi as int)[i - lo] == c);
            return None;
        }
        assert(s@.subrange(lo as int, i + 1).drop_last() =~= s@.subrange(lo as int, i as int));
        let d = (c as u32 - '0' as u32) as u128;
        let next = w * 10 + d;
        w = if next > cap { cap } else { next };
        i = i + 1;
    }
    Some(w)
}

fn zero_digits(s: &[char], lo: usize, hi: usize) -> (r: Option<bool>)
    requires
        lo <= hi <= s@.len(),
    ensures
        r is Some <==> all_digits(s@.subrange(lo as int, hi as int)),
        r is Some ==> (r->0 <==> forall|k: int|
            0 <= k < hi - lo ==> #[trigger] s@.subrange(lo as int, hi as int)[k] == '0'),
{
    let ghost sub = s@.subrange(lo as int, hi as int);
    let mut zero = true;
    let mut j: usize = lo;
    while j < hi
        invariant
            lo <= j <= hi <= s@.len(),
            sub == s@.subrange(lo as int, hi as int),
            forall|k: int| 0 <= k < j - lo ==> is_digit(#[trigger] sub[k]),
            zero == forall|k: int| 0 <= k < j - lo ==> #[trigger] sub[k] == '0',
        decreases hi - j,
    {
        let c = s[j];
        assert(sub[j - lo] == c);
        if !('0' <= c && c <= '9') {
            return None;
        }
        if c != '0' {
            zero = false;
        }
        j = j + 1;
    }
    Some(zero)
}

fn leading_units(s: &[char], lo: usize, hi: usize, k: usize) -> (r: u64)
    requires
        lo <= hi <= s@.len(),
        all_digits(s@.subrange(lo as int, hi as int)),
        k <= 6,
    ensures
        r == digits_value(fraction_prefix(s@.subrange(lo as int, hi as int), k as nat)),
        r < pow10(k as nat),
{
    let ghost f = s@.subrange(lo as int, hi as int);
    let mut v: u64 = 0;
    let mut i: usize = 0;
    while i < k
        invariant
            i <= k <= 6,
            lo <= hi <= s@.len(),
            f == s@.subrange(lo as int, hi as int),
            all_digits(f),
            v == digits_value(fraction_prefix(f, i as nat)),
            v < pow10(i as nat),
            pow10(i as nat) <= 1_000_000,
        decreases k - i,
    {
        proof {
            reveal_with_fuel(pow10, 7);
        }
        let c = if i < hi - lo { s[lo + i] } else { '0' };
        assert(fraction_prefix(f, (i + 1) as nat).drop_last() =~= fraction_prefix(f, i as nat));
        assert(fraction_prefix(f, (i + 1) as nat).last() == c);
        proof {
            if i < hi - lo {
                assert(is_digit(f[i as int]));
            }
        }
        v = v * 10 + (c as u32 - '0' as u32) as u64;
        i = i + 1;
    }
    v
}


fn first_of_at(s: &[char], lo: usize, hi: usize, a: char, b: char) -> (r: usize)
    requires
        lo <= hi <= s@.len(),
    ensures
        lo <= r <= hi,
        r - lo == first_of(s@.subrange(lo as int, hi as int), a, b),
{
    let mut p: usize = lo;
    while p < hi && s[p] != a && s[p] != b
        invariant
            lo <= p <= hi <= s@.len(),
            forall|j: int| lo <= j < p ==> s@[j] != a && s@[j] != b,
        decreases hi - p,
    {
        p = p + 1;
    }
    proof {
        lemma_first_of(s@.subrange(lo as int, hi as int), p - lo, a, b);
    }
    p
}

fn spells_at(s: &[char], lo: usize, hi: usize, word: &str) -> (r: bool)
    requires
        lo <= hi <= s@.len(),
    ensures
        r == spells(s@.subrange(lo as int, hi as int), word@),
{
    let w = chars_of(word);
    let ghost t = s@.subrange(lo as int, hi as int);
    if hi - lo != w.len() {
        return false;
    }
    let mut i: usize = 0;
    while i < w.len()
        invariant
            i <= w@.len() == hi - lo,
            lo <= hi <= s@.len(),
            t == s@.subrange(lo as int, hi as int),
            w@ == word@,
            forall|j: int| 0 <= j < i ==> same_letter(#[trigger] t[j], w@[j]),
        decreases w@.len() - i,
    {
        let c = s[lo + i];
        let l = w[i];
        assert(t[i as int] == c);
        if !(c == l || ('A' <= c && c <= 'Z' && (c as u32) + 32 == (l as u32))) {
            return false;
        }
        i = i + 1;
    }
    true
}

/// The exponent in `s[lo..hi]`, held within `[-cap, cap]`.
fn read_exponent(s: &[char], lo: usize, hi: usize, cap: u128) -> (r: Option<i128>)
    requires
        lo <= hi <= s@.len(),
        cap <= 0x1_0000_0000_0000_0000_0000_0000,
    ensures
        r is Some <==> exponent_of(s@.subrange(lo as int, hi as int)) is Some,
        r is Some ==> {
            let t = exponent_of(s@.subrange(lo as int, hi as int))->0;
            &&& -cap <= r->0 <= cap
            &&& (r->0 == t || (r->0 == cap && t > cap) || (r->0 == -cap && t < -cap))
        },
{
    let ghost t = s@.subrange(lo as int, hi as int);
    let mut start = lo;
    let mut negative = false;
    if lo < hi && (s[lo] == '+' || s[lo] == '-') {
        start = lo + 1;
        negative = s[lo] == '-';
    }
    assert(unsigned_part(t) =~= s@.subrange(start as int, hi as int));
    if start == hi {
        return None;
    }
    match capped_value(s, start, hi, cap) {
        Some(v) => {
            if negative {
                Some(-(v as i128))
            } else {
                Some(v as i128)
            }
        },
        None => None,
    }
}

/// The numeric rule on a whole part and a fraction given as ranges of `s`.
fn rule_on_ranges(
    s: &[char],
    negative: bool,
    wlo: usize,
    whi: usize,
    flo: usize,
    fhi: usize,
    default: Confidence,
) -> (r: Confidence)
    requires
        wlo <= whi <= s@.len(),
        flo <= fhi <= s@.len(),
        all_digits(s@.subrange(wlo as int, whi as int)),
        all_digits(s@.subrange(flo as int, fhi as int)),
        default <= SCALE,
    ensures
        r == scaled_value(
            Numeral {
                negative,
                whole: s@.subrange(wlo as int, whi as int),
                fraction: s@.subrange(flo as int, fhi as int),
            },
            default as nat,
        ),
        r <= SCALE,
{
    let ghost num = Numeral {
        negative,
        whole: s@.subrange(wlo as int, whi as int),
        fraction: s@.subrange(flo as int, fhi as int),
    };
    let w = match capped_value(s, wlo, whi, 101) {
        Some(w) => w as u64,
        None => 101,
    };
    let zero = match zero_digits(s, flo, fhi) {
        Some(z) => z,
        None => true,
    };
    let f6 = leading_units(s, flo, fhi, 6);
    let f4 = leading_units(s, flo, fhi, 4);
    proof {
        assert(pow10(6) == 1_000_000 && pow10(4) == 10_000) by {
            reveal_with_fuel(pow10, 7);
        }
        let sub = s@.subrange(flo as int, fhi as int);
        if zero {
            assert(forall|k: int| 0 <= k < fhi - flo ==> #[trigger] sub[k] == '0');
            lemma_zero_prefix(sub, 6);
            lemma_zero_prefix(sub, 4);
        } else {
            let k = choose|k: int| 0 <= k < fhi - flo && #[trigger] sub[k] != '0';
            assert(num.fraction[k] != '0');
        }
        assert(fraction_is_zero(num) == zero);
    }
    apply_rule(negative, w, zero, f6, f4, default)
}

/// `zeros(k) + d`.
fn pad_front(d: &Vec<char>, k: usize) -> (f: Vec<char>)
    requires
        all_digits(d@),
    ensures
        f@ == zeros(k as nat) + d@,
        all_digits(f@),
        f@.subrange(0, 0) == Seq::<char>::empty(),
        f@.subrange(0, f@.len() as int) == f@,
{
    let dl = d.len();
    let mut f: Vec<char> = Vec::new();
    let mut i: usize = 0;
    while i < k
        invariant
            0 <= i <= k,
            f@ == zeros(i as nat),
        decreases k - i,
    {
        f.push('0');
        assert(f@ =~= zeros((i + 1) as nat));
        i = i + 1;
    }
    let mut j: usize = 0;
    while j < dl
        invariant
            j <= dl == d@.len(),
            f@ == zeros(k as nat) + d@.subrange(0, j as int),
        decreases dl - j,
    {
        f.push(d[j]);
        assert(d@.subrange(0, j + 1) =~= d@.subrange(0, j as int).push(d@[j as int]));
        assert(f@ =~= zeros(k as nat) + d@.subrange(0, j + 1));
        j = j + 1;
    }
    assert(d@.subrange(0, dl as int) =~= d@);
    assert(f@.subrange(0, 0) =~= Seq::<char>::empty());
    assert(f@.subrange(0, f@.len() as int) =~= f@);
    assert forall|i: int| 0 <= i < f@.len() implies is_digit(#[trigger] f@[i]) by {
        if i >= k {
            assert(f@[i] == d@[i - k]);
        }
    }
    f
}

/// `d + zeros(m)`.
fn pad_back(d: &Vec<char>, m: usize) -> (w: Vec<char>)
    requires
        all_digits(d@),
    ensures
        w@ == d@ + zeros(m as nat),
        all_digits(w@),
        w@.subrange(0, 0) == Seq::<char>::empty(),
        w@.subrange(0, w@.len() as int) == w@,
{
    let dl = d.len();
    let mut w: Vec<char> = Vec::new();
    let mut j: usize = 0;
    while j < dl
        invariant
            j <= dl == d@.len(),
            w@ == d@.subrange(0, j as int),
        decreases dl - j,
    {
        w.push(d[j]);
        assert(d@.subrange(0, j + 1) =~= d@.subrange(0, j as int).push(d@[j as int]));
        j = j + 1;
    }
    assert(d@.subrange(0, dl as int) =~= d@);
    let mut i: usize = 0;
    while i < m
        invariant
            0 <= i <= m,
            w@ == d@ + zeros(i as nat),
        decreases m - i,
    {
        w.push('0');
        assert(w@ =~= d@ + zeros((i + 1) as nat));
        i = i + 1;
    }
    assert(w@.subrange(0, 0) =~= Seq::<char>::empty());
    assert(w@.subrange(0, w@.len() as int) =~= w@);
    assert forall|i: int| 0 <= i < w@.len() implies is_digit(#[trigger] w@[i]) by {
        if i < dl {
            assert(w@[i] == d@[i]);
        }
    }
    w
}

/// The numeric rule on the digits `d` with the point after `wlen` of them,
/// moved by the exponent `e_true`; `e` is that exponent held within
/// `[-cap, cap]`.
fn shifted_rule(
    negative: bool,
    d: &Vec<char>,
    wlen: usize,
    e: i128,
    Ghost(e_true): Ghost<int>,
    cap: u128,
    default: Confidence,
) -> (r: Confidence)
    requires
        all_digits(d@),
        wlen <= d@.len(),
        d@.len() + 16 <= cap <= 0x1_0000_0000_0000_0000_0000_0000,
        -cap <= e <= cap,
        e == e_true || (e == cap && e_true > cap) || (e == -cap && e_true < -cap),
        default <= SCALE,
    ensures
        r == ({
            let shifted = shift_point(
                d@.subrange(0, wlen as int),
                d@.subrange(wlen as int, d@.len() as int),
                e_true,
            );
            scaled_value(
                Numeral { negative, whole: shifted.0, fraction: shifted.1 },
                default as nat,
            )
        }),
        r <= SCALE,
{
    let dl = d.len();
    let ghost whole = d@.subrange(0, wlen as int);
    let ghost fraction = d@.subrange(wlen as int, dl as int);
    assert(whole + fraction =~= d@);
    let ghost pt = wlen + e_true;
    let p: i128 = wlen as i128 + e;
    if p <= 0 {
        let k = -p;
        if k < 6 {
            let f = pad_front(d, k as usize);
            let len = f.len();
            rule_on_ranges(f.as_slice(), negative, 0, 0, 0, len, default)
        } else {
            let zero = match zero_digits(d.as_slice(), 0, dl) {
                Some(z) => z,
                None => true,
            };
            proof {
                assert(d@.subrange(0, dl as int) =~= d@);
                lemma_far_fraction(negative, d@, (-pt) as nat, default as nat);
            }
            if !negative || zero {
                0
            } else {
                default
            }
        }
    } else if p >= dl as i128 {
        let m = p - dl as i128;
        if m <= 3 {
            let w = pad_back(d, m as usize);
            let len = w.len();
            rule_on_ranges(w.as_slice(), negative, 0, len, 0, 0, default)
        } else {
            let zero = match zero_digits(d.as_slice(), 0, dl) {
                Some(z) => z,
                None => true,
            };
            proof {
                assert(d@.subrange(0, dl as int) =~= d@);
                lemma_far_whole(negative, d@, (pt - dl) as nat, default as nat);
            }
            if zero {
                0
            } else {
                default
            }
        }
    } else {
        let q = p as usize;
        assert(d@.subrange(0, dl as int) =~= d@);
        rule_on_ranges(d.as_slice(), negative, 0, q, q, dl, default)
    }
}

/// The digits of `s[alo..ahi]` followed by those of `s[blo..bhi]`.
fn join_ranges(s: &[char], alo: usize, ahi: usize, blo: usize, bhi: usize) -> (d: Vec<char>)
    requires
        alo <= ahi <= s@.len(),
        blo <= bhi <= s@.len(),
        all_digits(s@.subrange(alo as int, ahi as int)),
        all_digits(s@.subrange(blo as int, bhi as int)),
    ensures
        d@ == s@.subrange(alo as int, ahi as int) + s@.subrange(blo as int, bhi as int),
        d@.subrange(0, ahi - alo) == s@.subrange(alo as int, ahi as int),
        d@.subrange(ahi - alo, d@.len() as int) == s@.subrange(blo as int, bhi as int),
        all_digits(d@),
{
    let ghost a = s@.subrange(alo as int, ahi as int);
    let ghost b = s@.subrange(blo as int, bhi as int);
    let mut d = copy_range(s, alo, ahi);
    let mut j: usize = blo;
    while j < bhi
        invariant
            blo <= j <= bhi <= s@.len(),
            a == s@.subrange(alo as int, ahi as int),
            d@ == a + s@.subrange(blo as int, j as int),
        decreases bhi - j,
    {
        d.push(s[j]);
        assert(s@.subrange(blo as int, j + 1) =~= s@.subrange(blo as int, j as int).push(
            s@[j as int],
        ));
        assert(d@ =~= a + s@.subrange(blo as int, j + 1));
        j = j + 1;
    }
    assert(d@.subrange(0, ahi - alo) =~= a);
    assert(d@.subrange(ahi - alo, d@.len() as int) =~= b);
    assert forall|i: int| 0 <= i < d@.len() implies is_digit(#[trigger] d@[i]) by {
        if i < ahi - alo {
            assert(d@[i] == a[i]);
        } else {
            assert(d@[i] == b[i - (ahi - alo)]);
        }
    }
    d
}

/// Reads a number's text and applies the numeric rule to it, in millionths.
#[verifier::rlimit(40)]
pub fn normalize_chars(s: &[char], default: Confidence) -> (r: Option<Confidence>)
    requires
        default <= SCALE,
    ensures
        lifted(r) == normalized_text(s@, default as nat),
        r is Some ==> r->0 <= SCALE,
{
    let n = s.len();
    let mut start: usize = 0;
    let mut negative = false;
    if n > 0 && (s[0] == '+' || s[0] == '-') {
        start = 1;
        negative = s[0] == '-';
    }
    let ghost body = unsigned_part(s@);
    assert(body =~= s@.subrange(start as int, n as int));
    if spells_at(s, start, n, "inf") || spells_at(s, start, n, "infinity") || spells_at(
        s,
        start,
        n,
        "nan",
    ) {
        return Some(default);
    }
    let x = first_of_at(s, start, n, 'e', 'E');
    let cap: u128 = n as u128 + 16;
    let ghost mantissa = body.subrange(0, x - start);
    assert(mantissa =~= s@.subrange(start as int, x as int));
    let e: i128 = if x < n {
        assert(body.subrange(x - start + 1, body.len() as int) =~= s@.subrange(x + 1, n as int));
        match read_exponent(s, x + 1, n, cap) {
            Some(v) => v,
            None => return None,
        }
    } else {
        0
    };
    let ghost e_true: int = if x < n {
        exponent_of(s@.subrange(x + 1, n as int))->0
    } else {
        0
    };
    let p = first_of_at(s, start, x, '.', '.');
    let fstart: usize = if p < x { p + 1 } else { x };
    let ghost whole = mantissa.subrange(0, p - start);
    let ghost fraction = if p < x {
        mantissa.subrange(p - start + 1, mantissa.len() as int)
    } else {
        Seq::<char>::empty()
    };
    assert(whole =~= s@.subrange(start as int, p as int));
    assert(fraction =~= s@.subrange(fstart as int, x as int));
    if zero_digits(s, start, p).is_none() || zero_digits(s, fstart, x).is_none() {
        return None;
    }
    if (p - start) + (x - fstart) == 0 {
        return None;
    }
    let d = join_ranges(s, start, p, fstart, x);
    let wlen = p - start;
    Some(shifted_rule(negative, &d, wlen, e, Ghost(e_true), cap, default))
}

} // verus!
