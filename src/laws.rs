//! Properties that relate the engine's operations, proved over their
//! specifications.
use vstd::prelude::*;
use crate::aggregate::{
    all_confidences, combined, max_of, min_of, consistency_score, disagreement, distinct_count, mean,
    renderings, squared_deviation, strategy_of, sum, variance, AggregationStrategy, AGREEMENT,
    NEUTRAL,
};
use crate::decimal::SCALE;
use crate::extract::{
    extraction, field_name, fields_signal, hedge_count, hedge_pattern, keyword, keyword_gain,
    keyword_score, keyword_signal, NUM_HEDGES, NUM_KEYWORDS,
    structured_or_text, structured_signal, value_signal, ConfidenceConfig, ExtractionStrategy,
};
use crate::json::{canonical, canonical_fields, key_less, lookup, render, Json};
use crate::matching::regex_found;
use crate::text::contains;

verus! {

/// A `confidence` field that states a value wins over every other field and
/// over anything nested under `metadata`.
pub proof fn top_level_confidence_wins(fields: Vec<(String, Json)>, default: nat, v: Json)
    requires
        lookup(fields@, "confidence"@) == Some(v),
        value_signal(v, default) is Some,
    ensures
        structured_signal(Json::Object(fields), default) == value_signal(v, default),
{
    assert(field_name(0) == "confidence"@);
    assert(fields_signal(fields@, default, 0) == value_signal(v, default));
}

/// Under the hybrid strategy the score is seven tenths of the
/// structured-or-text score plus three tenths of the keyword score, rounded
/// down.
pub proof fn hybrid_is_blend(r: Json, config: ConfidenceConfig)
    requires
        config.strategy == ExtractionStrategy::Hybrid,
    ensures
        extraction(r, config) == (7 * structured_or_text(r, config.default_confidence as nat) + 3
            * keyword_signal(r, config.default_confidence as nat)) / 10,
{
}

/// The keyword gain depends only on which vocabulary words occur, not on how
/// often: texts with the same words present gain the same.
pub proof fn keyword_gain_counts_presence(a: Seq<char>, b: Seq<char>, n: nat)
    requires
        forall|i: int| 0 <= i < n ==> contains(a, keyword(i).0) == contains(b, keyword(i).0),
    ensures
        keyword_gain(a, n) == keyword_gain(b, n),
    decreases n,
{
    if n > 0 {
        keyword_gain_counts_presence(a, b, (n - 1) as nat);
        assert(contains(a, keyword(n - 1).0) == contains(b, keyword(n - 1).0));
    }
}

/// Combining nothing gives the neutral score, whatever the policy.
pub proof fn empty_combination_is_neutral(label: Seq<char>, weights: Option<Seq<i32>>)
    ensures
        combined(Seq::empty(), label, weights) == NEUTRAL,
{
}

proof fn lemma_constant_sum(c: Seq<u64>, v: u64)
    requires
        forall|i: int| 0 <= i < c.len() ==> #[trigger] c[i] == v,
    ensures
        sum(c) == c.len() * v,
        squared_deviation(c, v as int) == 0,
    decreases c.len(),
{
    if c.len() > 0 {
        lemma_constant_sum(c.drop_last(), v);
        assert(c.last() == v);
        assert((c.len() - 1) * v + v == c.len() * v) by (nonlinear_arith);
    }
}

proof fn lemma_squared_deviation_nonnegative(c: Seq<u64>, m: int)
    ensures
        squared_deviation(c, m) >= 0,
    decreases c.len(),
{
    if c.len() > 0 {
        lemma_squared_deviation_nonnegative(c.drop_last(), m);
        let d = c.last() - m;
        assert(d * d >= 0) by (nonlinear_arith);
    }
}

proof fn lemma_labels()
    ensures
        strategy_of("consensus"@) == AggregationStrategy::Consensus,
        strategy_of("avg"@) == AggregationStrategy::Avg,
        strategy_of("min"@) == AggregationStrategy::Min,
        strategy_of("max"@) == AggregationStrategy::Max,
{
    reveal_strlit("consensus");
    reveal_strlit("avg");
    reveal_strlit("min");
    reveal_strlit("max");
    reveal_strlit("weighted_avg");
    assert("consensus"@.len() != "min"@.len());
    assert("consensus"@.len() != "max"@.len());
    assert("consensus"@ != "weighted_avg"@);
    assert("max"@[1] != "min"@[1]);
    assert("max"@.len() != "weighted_avg"@.len());
    assert("max"@.len() != "consensus"@.len());
    assert("avg"@[0] != "min"@[0]);
    assert("avg"@[0] != "max"@[0]);
    assert("avg"@ != "weighted_avg"@);
    assert("avg"@ != "consensus"@);
}

/// When all scores are equal there is no disagreement: consensus returns
/// that score.
pub proof fn consensus_of_equal_scores(c: Seq<u64>, v: u64, weights: Option<Seq<i32>>)
    requires
        c.len() > 0,
        forall|i: int| 0 <= i < c.len() ==> #[trigger] c[i] == v,
    ensures
        combined(c, "consensus"@, weights) == v,
{
    lemma_labels();
    lemma_constant_sum(c, v);
    let n = c.len() as int;
    assert((n * v) / n == v) by (nonlinear_arith)
        requires
            n > 0,
    ;
    assert(mean(c) == v);
    assert(variance(c) == 0);
    assert(disagreement(c) == 0);
    assert((v * SCALE) / (SCALE as int) == v) by (nonlinear_arith);
}

/// Disagreement never raises the score: consensus is at most the mean, and
/// strictly below it when the scores disagree and the mean is positive.
pub proof fn consensus_at_most_average(c: Seq<u64>, weights: Option<Seq<i32>>)
    requires
        c.len() > 0,
        all_confidences(c),
    ensures
        combined(c, "consensus"@, weights) <= combined(c, "avg"@, weights),
        disagreement(c) > 0 && mean(c) > 0 ==> combined(c, "consensus"@, weights) < combined(
            c,
            "avg"@,
            weights,
        ),
{
    lemma_labels();
    lemma_squared_deviation_nonnegative(c, mean(c));
    let n = c.len() as int;
    let sq = squared_deviation(c, mean(c));
    assert(sq / n >= 0) by (nonlinear_arith)
        requires
            sq >= 0,
            n > 0,
    ;
    assert(sum(c) >= 0) by {
        lemma_sum_nonnegative(c);
    }
    let m = mean(c);
    assert(m >= 0) by (nonlinear_arith)
        requires
            m == sum(c) / n,
            sum(c) >= 0,
            n > 0,
    ;
    let d = disagreement(c);
    assert(0 <= d <= SCALE / 2);
    let keep = SCALE - d;
    assert(m * keep / (SCALE as int) <= m) by (nonlinear_arith)
        requires
            m >= 0,
            0 <= keep <= SCALE,
    ;
    if d > 0 && m > 0 {
        assert(m * keep / (SCALE as int) < m) by (nonlinear_arith)
            requires
                m > 0,
                0 <= keep < SCALE,
        ;
    }
}

proof fn lemma_sum_nonnegative(c: Seq<u64>)
    ensures
        sum(c) >= 0,
    decreases c.len(),
{
    if c.len() > 0 {
        lemma_sum_nonnegative(c.drop_last());
    }
}

/// Fewer than two results carry no evidence of agreement: the neutral score.
pub proof fn single_result_is_neutral(results: Seq<Json>)
    requires
        results.len() < 2,
    ensures
        consistency_score(results.len(), distinct_count(results)) == NEUTRAL,
{
}

/// Two or more identical results agree perfectly.
pub proof fn identical_results_agree(results: Seq<Json>)
    requires
        results.len() >= 2,
        forall|i: int| 0 <= i < results.len() ==> #[trigger] results[i] == results[0],
    ensures
        consistency_score(results.len(), distinct_count(results)) == AGREEMENT,
{
    let t = render(results[0]);
    let rs = renderings(results);
    assert(rs.to_set() =~= set![t]) by {
        assert(rs[0] == t);
        assert forall|x: Seq<char>| rs.to_set().contains(x) implies x == t by {
            let k = choose|k: int| 0 <= k < rs.len() && rs[k] == x;
            assert(results[k] == results[0]);
        }
    }
    assert(set![t].len() == 1);
}


/// The agreement score of several results lies between the neutral score
/// (every result different) and full agreement, which only a single text
/// reaches. Scores are whole millionths, so below 450 002 results the
/// neutral score also means that every result differs; beyond that a single
/// repeated text can round down to it.
pub proof fn consistency_within_range(n: nat, u: nat)
    requires
        n >= 2,
        1 <= u <= n,
    ensures
        NEUTRAL <= consistency_score(n, u) <= AGREEMENT,
        consistency_score(n, u) == AGREEMENT <==> u == 1,
        u == n ==> consistency_score(n, u) == NEUTRAL,
        n <= 450_001 ==> (consistency_score(n, u) == NEUTRAL <==> u == n),
{
    let span = 450_000 * (n - u);
    assert(0 <= span <= 450_000 * (n - 1)) by (nonlinear_arith)
        requires
            span == 450_000 * (n - u),
            1 <= u <= n,
    ;
    assert(0 <= span / (n - 1) <= 450_000) by (nonlinear_arith)
        requires
            0 <= span <= 450_000 * (n - 1),
            n >= 2,
    ;
    if u >= 2 {
        assert(span < 450_000 * (n - 1)) by (nonlinear_arith)
            requires
                span == 450_000 * (n - u),
                2 <= u <= n,
        ;
        assert(span / (n - 1) < 450_000) by (nonlinear_arith)
            requires
                0 <= span < 450_000 * (n - 1),
                n >= 2,
        ;
    }
    if n <= 450_001 && u < n {
        assert(span >= n - 1) by (nonlinear_arith)
            requires
                span == 450_000 * (n - u),
                u < n,
                n <= 450_001,
        ;
        assert(span / (n - 1) >= 1) by (nonlinear_arith)
            requires
                span >= n - 1,
                n >= 2,
        ;
    }
}

/// The keyword score depends only on which vocabulary words occur and which
/// hedging phrases match, not on how often a word occurs.
pub proof fn keyword_score_counts_presence(a: Seq<char>, b: Seq<char>, default: nat)
    requires
        forall|i: int|
            0 <= i < NUM_KEYWORDS ==> contains(a, keyword(i).0) == contains(b, keyword(i).0),
        forall|i: int|
            0 <= i < NUM_HEDGES ==> regex_found(hedge_pattern(i), a) == regex_found(
                hedge_pattern(i),
                b,
            ),
    ensures
        keyword_score(a, default) == keyword_score(b, default),
{
    keyword_gain_counts_presence(a, b, NUM_KEYWORDS as nat);
    lemma_hedges_agree(a, b, NUM_HEDGES as nat);
}

proof fn lemma_hedges_agree(a: Seq<char>, b: Seq<char>, n: nat)
    requires
        forall|i: int| 0 <= i < n ==> regex_found(hedge_pattern(i), a) == regex_found(
            hedge_pattern(i),
            b,
        ),
    ensures
        hedge_count(a, n) == hedge_count(b, n),
    decreases n,
{
    if n > 0 {
        lemma_hedges_agree(a, b, (n - 1) as nat);
        assert(regex_found(hedge_pattern(n - 1), a) == regex_found(hedge_pattern(n - 1), b));
    }
}

proof fn lemma_sum_between_extremes(c: Seq<u64>)
    requires
        c.len() > 0,
    ensures
        c.len() * min_of(c) <= sum(c) <= c.len() * max_of(c),
    decreases c.len(),
{
    if c.len() == 1 {
        assert(c.drop_last().len() == 0);
        assert(sum(c.drop_last()) == 0);
        assert(c.last() == c[0]);
        assert(sum(c) == c[0]);
    } else {
        let d = c.drop_last();
        lemma_sum_between_extremes(d);
        let n = d.len() as int;
        let lo = min_of(c);
        let hi = max_of(c);
        assert(lo <= min_of(d) && lo <= c.last());
        assert(hi >= max_of(d) && hi >= c.last());
        assert(n * lo <= n * min_of(d)) by (nonlinear_arith)
            requires
                lo <= min_of(d),
                n >= 0,
        ;
        assert(n * max_of(d) <= n * hi) by (nonlinear_arith)
            requires
                max_of(d) <= hi,
                n >= 0,
        ;
        assert((n + 1) * lo == n * lo + lo) by (nonlinear_arith);
        assert((n + 1) * hi == n * hi + hi) by (nonlinear_arith);
        assert(sum(c) == sum(d) + c.last());
        assert(c.len() == n + 1);
        assert(c.len() * lo <= sum(c));
        assert(sum(c) <= c.len() * hi);
    }
}

/// The average lies between the smallest and the largest score.
pub proof fn average_between_extremes(c: Seq<u64>, weights: Option<Seq<i32>>)
    requires
        c.len() > 0,
    ensures
        combined(c, "min"@, weights) <= combined(c, "avg"@, weights) <= combined(
            c,
            "max"@,
            weights,
        ),
{
    lemma_labels();
    lemma_sum_between_extremes(c);
    let n = c.len() as int;
    let lo = min_of(c);
    let hi = max_of(c);
    let t = sum(c);
    assert(lo <= t / n <= hi) by (nonlinear_arith)
        requires
            n * lo <= t <= n * hi,
            n > 0,
    ;
}


proof fn lemma_key_less_irreflexive(a: Seq<char>)
    ensures
        !key_less(a, a),
    decreases a.len(),
{
    if a.len() > 0 {
        lemma_key_less_irreflexive(a.drop_first());
    }
}

proof fn lemma_key_less_transitive(a: Seq<char>, b: Seq<char>, c: Seq<char>)
    requires
        key_less(a, b),
        key_less(b, c),
    ensures
        key_less(a, c),
    decreases a.len(),
{
    if a.len() > 0 && b.len() > 0 && c.len() > 0 && a[0] == b[0] && b[0] == c[0] {
        lemma_key_less_transitive(a.drop_first(), b.drop_first(), c.drop_first());
    }
}

proof fn lemma_fields_ascending(fields: Vec<(String, Json)>, n: nat)
    requires
        n <= fields.len(),
        canonical_fields(fields, n),
    ensures
        forall|i: int, j: int|
            0 <= i < j < n ==> key_less(#[trigger] fields@[i].0@, #[trigger] fields@[j].0@),
    decreases n,
{
    if n > 0 {
        lemma_fields_ascending(fields, (n - 1) as nat);
        assert forall|i: int, j: int|
            0 <= i < j < n implies key_less(#[trigger] fields@[i].0@, #[trigger] fields@[j].0@) by {
            if j == n - 1 && i < n - 2 {
                lemma_key_less_transitive(fields@[i].0@, fields@[n - 2].0@, fields@[j].0@);
            }
        }
    }
}

/// A canonical object holds each field name once, so a lookup by name is
/// unambiguous and the order of its fields is fixed by their names.
pub proof fn canonical_names_distinct(fields: Vec<(String, Json)>)
    requires
        canonical(Json::Object(fields)),
    ensures
        forall|i: int, j: int|
            0 <= i < j < fields.len() ==> (#[trigger] fields@[i]).0@ != (#[trigger] fields@[j]).0@,
{
    lemma_fields_ascending(fields, fields@.len());
    assert forall|i: int, j: int| 0 <= i < j < fields.len() implies (
    #[trigger] fields@[i]).0@ != (#[trigger] fields@[j]).0@ by {
        assert(key_less(fields@[i].0@, fields@[j].0@));
        lemma_key_less_irreflexive(fields@[i].0@);
    }
}

} // verus!
