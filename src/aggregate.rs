//! Combining several confidences into one, scoring agreement among results,
//! and calibration.
use vstd::prelude::*;
use crate::decimal::{Confidence, SCALE};
use crate::json::{canonical, render, render_text, Json};
use crate::text::{chars_eq, chars_of};

verus! {

/// The largest number of confidences that `combine` takes: sums then stay
/// exact in 128 bits.
pub const MAX_SCORES: usize = 0xffff_ffff;

/// `SCALE²`: the unit of a variance.
pub const SQUARED_SCALE: u128 = 1_000_000_000_000;

/// The score of an empty combination, of fewer than two results, and the
/// centre of calibration.
pub const NEUTRAL: u64 = 500_000;

/// A combination policy.
#[derive(Clone, Copy, Debug, PartialEq, Eq, Structural)]
pub enum AggregationStrategy {
    Min,
    Max,
    Avg,
    WeightedAvg,
    Consensus,
}

/// The policy a label names; any unknown label means `Avg`.
pub open spec fn strategy_of(label: Seq<char>) -> AggregationStrategy {
    if label == "min"@ {
        AggregationStrategy::Min
    } else if label == "max"@ {
        AggregationStrategy::Max
    } else if label == "weighted_avg"@ {
        AggregationStrategy::WeightedAvg
    } else if label == "consensus"@ {
        AggregationStrategy::Consensus
    } else {
        AggregationStrategy::Avg
    }
}

pub open spec fn all_confidences(c: Seq<u64>) -> bool {
    forall|i: int| 0 <= i < c.len() ==> #[trigger] c[i] <= SCALE
}

pub open spec fn sum(c: Seq<u64>) -> int
    decreases c.len(),
{
    if c.len() == 0 {
        0
    } else {
        sum(c.drop_last()) + c.last()
    }
}

pub open spec fn min_of(c: Seq<u64>) -> int
    decreases c.len(),
{
    if c.len() <= 1 {
        if c.len() == 0 { 0 } else { c[0] as int }
    } else if c.last() < min_of(c.drop_last()) {
        c.last() as int
    } else {
        min_of(c.drop_last())
    }
}

pub open spec fn max_of(c: Seq<u64>) -> int
    decreases c.len(),
{
    if c.len() <= 1 {
        if c.len() == 0 { 0 } else { c[0] as int }
    } else if c.last() > max_of(c.drop_last()) {
        c.last() as int
    } else {
        max_of(c.drop_last())
    }
}

/// The arithmetic mean, rounded down.
pub open spec fn mean(c: Seq<u64>) -> int {
    sum(c) / (c.len() as int)
}

/// `Σ cᵢ·wᵢ` over the common length.
pub open spec fn weighted_sum(c: Seq<u64>, w: Seq<i32>) -> int
    decreases c.len(),
{
    if c.len() == 0 || w.len() == 0 {
        0
    } else {
        weighted_sum(c.drop_last(), w.drop_last()) + c.last() * w.last()
    }
}

pub open spec fn weight_total(w: Seq<i32>) -> int
    decreases w.len(),
{
    if w.len() == 0 {
        0
    } else {
        weight_total(w.drop_last()) + w.last()
    }
}

/// `Σ cᵢ·i` with positions counted from 1.
pub open spec fn ramp_sum(c: Seq<u64>) -> int
    decreases c.len(),
{
    if c.len() == 0 {
        0
    } else {
        ramp_sum(c.drop_last()) + c.last() * c.len()
    }
}

/// `1 + 2 + … + n`.
pub open spec fn ramp_total(n: nat) -> int
    decreases n,
{
    if n == 0 {
        0
    } else {
        ramp_total((n - 1) as nat) + n
    }
}

/// `v` held within the unit interval.
pub open spec fn unit_clamp(v: int) -> int {
    if v < 0 {
        0
    } else if v > SCALE {
        SCALE as int
    } else {
        v
    }
}

/// The given weights when they fit and have a positive total, else the
/// ascending ramp. Weights may be negative; the mean they give is rounded
/// down and held within the unit interval, where every confidence lies.
pub open spec fn weighted_mean(c: Seq<u64>, weights: Option<Seq<i32>>) -> int {
    match weights {
        Some(w) if w.len() == c.len() && weight_total(w) > 0 => unit_clamp(
            weighted_sum(c, w) / weight_total(w),
        ),
        _ => ramp_sum(c) / ramp_total(c.len()),
    }
}

/// `Σ (cᵢ − m)²`, in millionths squared.
pub open spec fn squared_deviation(c: Seq<u64>, m: int) -> int
    decreases c.len(),
{
    if c.len() == 0 {
        0
    } else {
        squared_deviation(c.drop_last(), m) + (c.last() - m) * (c.last() - m)
    }
}

/// The population variance around the mean, in millionths squared, rounded
/// down.
pub open spec fn variance(c: Seq<u64>) -> int {
    squared_deviation(c, mean(c)) / (c.len() as int)
}

/// `min(2·variance, 0.5)` in millionths.
pub open spec fn disagreement(c: Seq<u64>) -> int {
    let v = 2 * variance(c) / (SCALE as int);
    if v < SCALE / 2 {
        v
    } else {
        (SCALE / 2) as int
    }
}

/// The mean scaled by `1 − disagreement`.
pub open spec fn consensus(c: Seq<u64>) -> int {
    mean(c) * (SCALE - disagreement(c)) / (SCALE as int)
}

/// What `combine` returns.
pub open spec fn combined(c: Seq<u64>, label: Seq<char>, weights: Option<Seq<i32>>) -> int {
    if c.len() == 0 {
        NEUTRAL as int
    } else {
        match strategy_of(label) {
            AggregationStrategy::Min => min_of(c),
            AggregationStrategy::Max => max_of(c),
            AggregationStrategy::Avg => mean(c),
            AggregationStrategy::WeightedAvg => weighted_mean(c, weights),
            AggregationStrategy::Consensus => consensus(c),
        }
    }
}


pub open spec fn seq_of(w: Option<&[i32]>) -> Option<Seq<i32>> {
    match w {
        Some(w) => Some(w@),
        None => None,
    }
}

proof fn lemma_div_bound(x: int, n: int, b: int)
    requires
        0 <= x <= b * n,
        n > 0,
        b >= 0,
    ensures
        0 <= x / n <= b,
{
    assert(0 <= x / n <= b) by (nonlinear_arith)
        requires
            0 <= x <= b * n,
            n > 0,
            b >= 0,
    ;
}

fn label_strategy(label: &str) -> (r: AggregationStrategy)
    ensures
        r == strategy_of(label@),
{
    let l = chars_of(label);
    let min = chars_of("min");
    let max = chars_of("max");
    let weighted = chars_of("weighted_avg");
    let cons = chars_of("consensus");
    if chars_eq(l.as_slice(), min.as_slice()) {
        AggregationStrategy::Min
    } else if chars_eq(l.as_slice(), max.as_slice()) {
        AggregationStrategy::Max
    } else if chars_eq(l.as_slice(), weighted.as_slice()) {
        AggregationStrategy::WeightedAvg
    } else if chars_eq(l.as_slice(), cons.as_slice()) {
        AggregationStrategy::Consensus
    } else {
        AggregationStrategy::Avg
    }
}

fn sum_of(c: &[u64]) -> (r: u128)
    requires
        all_confidences(c@),
        c@.len() <= MAX_SCORES,
    ensures
        r == sum(c@),
        r <= SCALE * c@.len(),
{
    let mut acc: u128 = 0;
    let mut i: usize = 0;
    while i < c.len()
        invariant
            i <= c@.len() <= MAX_SCORES,
            all_confidences(c@),
            acc == sum(c@.subrange(0, i as int)),
            acc <= SCALE * i,
        decreases c@.len() - i,
    {
        assert(c@.subrange(0, i + 1).drop_last() =~= c@.subrange(0, i as int));
        assert(c@[i as int] <= SCALE);
        acc = acc + c[i] as u128;
        i = i + 1;
    }
    assert(c@.subrange(0, i as int) =~= c@);
    acc
}

fn min_max_of(c: &[u64]) -> (r: (u64, u64))
    requires
        c@.len() > 0,
    ensures
        r.0 == min_of(c@),
        r.1 == max_of(c@),
        exists|i: int| 0 <= i < c@.len() && c@[i] == r.0,
        exists|i: int| 0 <= i < c@.len() && c@[i] == r.1,
{
    let mut lo = c[0];
    let mut hi = c[0];
    let mut i: usize = 1;
    assert(c@.subrange(0, 1).drop_last().len() == 0);
    while i < c.len()
        invariant
            1 <= i <= c@.len(),
            lo == min_of(c@.subrange(0, i as int)),
            hi == max_of(c@.subrange(0, i as int)),
            exists|k: int| 0 <= k < c@.len() && c@[k] == lo,
            exists|k: int| 0 <= k < c@.len() && c@[k] == hi,
        decreases c@.len() - i,
    {
        assert(c@.subrange(0, i + 1).drop_last() =~= c@.subrange(0, i as int));
        if c[i] < lo {
            lo = c[i];
        }
        if c[i] > hi {
            hi = c[i];
        }
        i = i + 1;
    }
    assert(c@.subrange(0, i as int) =~= c@);
    (lo, hi)
}

fn weighted_sums(c: &[u64], w: &[i32]) -> (r: (i128, i128))
    requires
        all_confidences(c@),
        c@.len() <= MAX_SCORES,
        w@.len() == c@.len(),
    ensures
        r.0 == weighted_sum(c@, w@),
        r.1 == weight_total(w@),
        -0x10_0000_0000_0000_0000_0000 <= r.0 <= 0x10_0000_0000_0000_0000_0000,
        -0x1_0000_0000_0000_0000 <= r.1 <= 0x1_0000_0000_0000_0000,
{
    let mut acc: i128 = 0;
    let mut total: i128 = 0;
    let mut i: usize = 0;
    while i < c.len()
        invariant
            i <= c@.len() <= MAX_SCORES,
            w@.len() == c@.len(),
            all_confidences(c@),
            acc == weighted_sum(c@.subrange(0, i as int), w@.subrange(0, i as int)),
            total == weight_total(w@.subrange(0, i as int)),
            -0x8000_0000 * i <= total <= 0x8000_0000 * i,
            -0x10_0000_0000_0000 * i <= acc <= 0x10_0000_0000_0000 * i,
        decreases c@.len() - i,
    {
        assert(c@.subrange(0, i + 1).drop_last() =~= c@.subrange(0, i as int));
        assert(w@.subrange(0, i + 1).drop_last() =~= w@.subrange(0, i as int));
        let ci = c[i] as i128;
        let wi = w[i] as i128;
        assert(ci <= SCALE);
        assert(-0x10_0000_0000_0000 <= ci * wi <= 0x10_0000_0000_0000) by (nonlinear_arith)
            requires
                0 <= ci <= 1_000_000,
                -0x8000_0000 <= wi < 0x8000_0000,
        ;
        acc = acc + ci * wi;
        total = total + wi;
        i = i + 1;
    }
    assert(c@.subrange(0, i as int) =~= c@);
    assert(w@.subrange(0, i as int) =~= w@);
    (acc, total)
}

/// `x / d` rounded down, for a positive `d`.
fn floor_div(x: i128, d: i128) -> (q: i128)
    requires
        d > 0,
        -0x10_0000_0000_0000_0000_0000 <= x <= 0x10_0000_0000_0000_0000_0000,
        d <= 0x1_0000_0000_0000_0000,
    ensures
        q == x / d,
{
    if x >= 0 {
        x / d
    } else {
        let a = -x;
        let e = (a + d - 1) / d;
        proof {
            let ai = a as int;
            let di = d as int;
            let xi = x as int;
            let ei = e as int;
            assert(-ei == xi / di) by (nonlinear_arith)
                requires
                    ai == -xi,
                    ai > 0,
                    di > 0,
                    ei == (ai + di - 1) / di,
            ;
        }
        -e
    }
}

fn ramp_sums(c: &[u64]) -> (r: (u128, u128))
    requires
        all_confidences(c@),
        c@.len() <= MAX_SCORES,
    ensures
        r.0 == ramp_sum(c@),
        r.1 == ramp_total(c@.len()),
        r.0 <= SCALE * r.1,
{
    let mut acc: u128 = 0;
    let mut total: u128 = 0;
    let mut i: usize = 0;
    while i < c.len()
        invariant
            i <= c@.len() <= MAX_SCORES,
            all_confidences(c@),
            acc == ramp_sum(c@.subrange(0, i as int)),
            total == ramp_total(i as nat),
            total <= 0xffff_ffff * i,
            acc <= SCALE * total,
        decreases c@.len() - i,
    {
        assert(c@.subrange(0, i + 1).drop_last() =~= c@.subrange(0, i as int));
        let ci = c[i] as u128;
        let pos = (i + 1) as u128;
        assert(ci <= SCALE);
        assert(ci * pos <= SCALE * pos) by (nonlinear_arith)
            requires
                ci <= SCALE,
        ;
        acc = acc + ci * pos;
        total = total + pos;
        i = i + 1;
    }
    assert(c@.subrange(0, i as int) =~= c@);
    (acc, total)
}

fn squared_deviation_of(c: &[u64], m: u64) -> (r: u128)
    requires
        all_confidences(c@),
        c@.len() <= MAX_SCORES,
        m <= SCALE,
    ensures
        r == squared_deviation(c@, m as int),
        r <= SQUARED_SCALE * c@.len(),
{
    let mut acc: u128 = 0;
    let mut i: usize = 0;
    while i < c.len()
        invariant
            i <= c@.len() <= MAX_SCORES,
            all_confidences(c@),
            m <= SCALE,
            acc == squared_deviation(c@.subrange(0, i as int), m as int),
            acc <= SQUARED_SCALE * i,
        decreases c@.len() - i,
    {
        assert(c@.subrange(0, i + 1).drop_last() =~= c@.subrange(0, i as int));
        let ci = c[i];
        assert(ci <= SCALE);
        let d: u128 = if ci >= m { (ci - m) as u128 } else { (m - ci) as u128 };
        assert(d * d == (ci - m) * (ci - m)) by (nonlinear_arith)
            requires
                d == ci - m || d == m - ci,
        ;
        assert(d * d <= SQUARED_SCALE) by (nonlinear_arith)
            requires
                d <= SCALE,
        ;
        acc = acc + d * d;
        i = i + 1;
    }
    assert(c@.subrange(0, i as int) =~= c@);
    acc
}


proof fn lemma_ramp_total_grows(n: nat)
    ensures
        ramp_total(n) >= n,
    decreases n,
{
    if n > 0 {
        lemma_ramp_total_grows((n - 1) as nat);
    }
}

/// The score of results that all render alike.
pub const AGREEMENT: u64 = 950_000;

/// How far agreement raises the score above `NEUTRAL`.
pub const AGREEMENT_SPAN: u64 = 450_000;

/// The canonical texts of results, in order.
pub open spec fn renderings(results: Seq<Json>) -> Seq<Seq<char>> {
    results.map_values(|r: Json| render(r))
}

/// How many different canonical texts the results have.
pub open spec fn distinct_count(results: Seq<Json>) -> nat {
    renderings(results).to_set().len()
}

/// The agreement score of `n` results with `u` different texts:
/// `NEUTRAL` below two results, `AGREEMENT` for one text, else
/// `NEUTRAL + AGREEMENT_SPAN · (1 − (u − 1)/(n − 1))`, rounded down.
pub open spec fn consistency_score(n: nat, u: nat) -> int {
    if n < 2 {
        NEUTRAL as int
    } else if u == 1 {
        AGREEMENT as int
    } else {
        NEUTRAL + AGREEMENT_SPAN * (n - u) / (n - 1)
    }
}

/// What `calibrate` returns: `(raw − ½)·scale + ½ − bias`, clamped to the unit
/// interval; `bias` and `scale` are in millionths too, and the product is
/// rounded down.
pub open spec fn calibrated(raw: int, bias: int, scale: int) -> int {
    let v = (raw - NEUTRAL) * scale / (SCALE as int) + NEUTRAL - bias;
    if v < 0 {
        0
    } else if v > SCALE {
        SCALE as int
    } else {
        v
    }
}

fn contains_text(seen: &Vec<Vec<char>>, t: &Vec<char>) -> (r: bool)
    ensures
        r == exists|k: int| 0 <= k < seen@.len() && #[trigger] seen@[k]@ == t@,
{
    let mut k: usize = 0;
    while k < seen.len()
        invariant
            k <= seen@.len(),
            forall|j: int| 0 <= j < k ==> #[trigger] seen@[j]@ != t@,
        decreases seen@.len() - k,
    {
        if chars_eq(seen[k].as_slice(), t.as_slice()) {
            return true;
        }
        k = k + 1;
    }
    false
}

/// Combines several confidences.
pub struct ConfidenceAggregator;

impl ConfidenceAggregator {
    /// Combines `confidences` by the policy that `strategy` names; the empty
    /// sequence gives `NEUTRAL`.
    pub fn combine(confidences: &[u64], strategy: &str, weights: Option<&[i32]>) -> (r: Confidence)
        requires
            all_confidences(confidences@),
            confidences@.len() <= MAX_SCORES,
        ensures
            r == combined(confidences@, strategy@, seq_of(weights)),
            r <= SCALE,
    {
        let c = confidences;
        let n = c.len();
        if n == 0 {
            return NEUTRAL;
        }
        match label_strategy(strategy) {
            AggregationStrategy::Min => {
                let (lo, _) = min_max_of(c);
                lo
            },
            AggregationStrategy::Max => {
                let (_, hi) = min_max_of(c);
                hi
            },
            AggregationStrategy::Avg => {
                let s = sum_of(c);
                proof {
                    lemma_div_bound(s as int, n as int, SCALE as int);
                }
                (s / n as u128) as u64
            },
            AggregationStrategy::WeightedAvg => {
                if let Some(w) = weights {
                    if w.len() == n {
                        let (ws, wt) = weighted_sums(c, w);
                        if wt > 0 {
                            let q = floor_div(ws, wt);
                            return if q < 0 {
                                0
                            } else if q > SCALE as i128 {
                                SCALE
                            } else {
                                q as u64
                            };
                        }
                    }
                }
                let (rs, rt) = ramp_sums(c);
                proof {
                    lemma_ramp_total_grows(n as nat);
                    lemma_div_bound(rs as int, rt as int, SCALE as int);
                }
                (rs / rt) as u64
            },
            AggregationStrategy::Consensus => {
                let s = sum_of(c);
                proof {
                    lemma_div_bound(s as int, n as int, SCALE as int);
                }
                let m = (s / n as u128) as u64;
                let sq = squared_deviation_of(c, m);
                proof {
                    lemma_div_bound(sq as int, n as int, SQUARED_SCALE as int);
                }
                let var = sq / n as u128;
                let v = 2 * var / SCALE as u128;
                let dis: u128 = if v < (SCALE / 2) as u128 { v } else { (SCALE / 2) as u128 };
                let keep = SCALE as u128 - dis;
                assert(m * keep <= m * SCALE) by (nonlinear_arith)
                    requires
                        keep <= SCALE,
                ;
                proof {
                    lemma_div_bound(m * keep, SCALE as int, m as int);
                }
                (m as u128 * keep / SCALE as u128) as u64
            },
        }
    }

    /// Scores how far results agree: by the number of different canonical
    /// texts among them.
    pub fn from_consistency(results: &[Json]) -> (r: Confidence)
        requires
            forall|i: int| 0 <= i < results@.len() ==> canonical(#[trigger] results@[i]),
        ensures
            r == consistency_score(results@.len(), distinct_count(results@)),
            r <= SCALE,
    {
        let n = results.len();
        if n < 2 {
            return NEUTRAL;
        }
        let mut seen: Vec<Vec<char>> = Vec::new();
        let ghost mut seen_v: Seq<Seq<char>> = Seq::empty();
        let mut i: usize = 0;
        while i < n
            invariant
                i <= n == results@.len(),
                seen@.len() == seen_v.len() <= i,
                i > 0 ==> seen_v.len() > 0,
                forall|k: int| 0 <= k < seen@.len() ==> #[trigger] seen@[k]@ == seen_v[k],
                seen_v.no_duplicates(),
                seen_v.to_set() == renderings(results@.subrange(0, i as int)).to_set(),
            decreases n - i,
        {
            let t = render_text(&results[i]);
            let ghost before = renderings(results@.subrange(0, i as int));
            assert(renderings(results@.subrange(0, i + 1)) =~= before.push(t@));
            proof {
                before.lemma_push_to_set_commute(t@);
            }
            if !contains_text(&seen, &t) {
                proof {
                    seen_v.lemma_push_to_set_commute(t@);
                    assert forall|k: int| 0 <= k < seen_v.len() implies seen_v[k] != t@ by {
                        assert(seen@[k]@ == seen_v[k]);
                    }
                    assert(!seen_v.contains(t@));
                }
                seen.push(t);
                proof {
                    seen_v = seen_v.push(t@);
                }
            } else {
                proof {
                    let k = choose|k: int| 0 <= k < seen@.len() && #[trigger] seen@[k]@ == t@;
                    assert(seen_v[k] == t@);
                    assert(seen_v.to_set().insert(t@) =~= seen_v.to_set());
                }
            }
            i = i + 1;
        }
        assert(results@.subrange(0, n as int) =~= results@);
        proof {
            seen_v.unique_seq_to_set();
        }
        let u = seen.len();
        if u == 1 {
            return AGREEMENT;
        }
        let span = AGREEMENT_SPAN as u128 * (n - u) as u128;
        assert(span <= AGREEMENT_SPAN * (n - 1)) by (nonlinear_arith)
            requires
                span == AGREEMENT_SPAN * (n - u),
                u >= 1,
        ;
        proof {
            lemma_div_bound(span as int, (n - 1) as int, AGREEMENT_SPAN as int);
        }
        NEUTRAL + (span / (n - 1) as u128) as u64
    }

    /// Applies an affine correction to a raw confidence: `bias` and `scale`
    /// are in millionths.
    pub fn calibrate(raw_confidence: Confidence, bias: i64, scale: i64) -> (r: Confidence)
        requires
            raw_confidence <= SCALE,
        ensures
            r == calibrated(raw_confidence as int, bias as int, scale as int),
            r <= SCALE,
    {
        let centred = raw_confidence as i128 - NEUTRAL as i128;
        assert(-500_000 * 0x8000_0000_0000_0000 <= centred * scale <= 500_000 * 0x8000_0000_0000_0000)
            by (nonlinear_arith)
            requires
                -500_000 <= centred <= 500_000,
                -0x8000_0000_0000_0000 <= scale < 0x8000_0000_0000_0000,
        ;
        let p = centred * scale as i128;
        let q = if p >= 0 {
            p / SCALE as i128
        } else {
            -((-p + (SCALE as i128 - 1)) / SCALE as i128)
        };
        let v = q + NEUTRAL as i128 - bias as i128;
        if v < 0 {
            0
        } else if v > SCALE as i128 {
            SCALE
        } else {
            v as u64
        }
    }
}

} // verus!
