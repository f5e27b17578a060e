use parallax_sdk::{ConfidenceAggregator, Json};

#[test]
fn combine_empty_is_neutral() {
    assert_eq!(ConfidenceAggregator::combine(&[], "avg", None), 500_000);
    assert_eq!(ConfidenceAggregator::combine(&[], "min", None), 500_000);
}

#[test]
fn combine_min_max_avg() {
    let c = [200_000u64, 800_000];
    assert_eq!(ConfidenceAggregator::combine(&c, "min", None), 200_000);
    assert_eq!(ConfidenceAggregator::combine(&c, "max", None), 800_000);
    assert_eq!(ConfidenceAggregator::combine(&c, "avg", None), 500_000);
}

#[test]
fn combine_unknown_label_is_avg() {
    let c = [200_000u64, 800_000, 500_000];
    assert_eq!(ConfidenceAggregator::combine(&c, "median", None), 500_000);
}

#[test]
fn combine_weighted_avg() {
    let c = [200_000u64, 800_000];
    assert_eq!(ConfidenceAggregator::combine(&c, "weighted_avg", Some(&[1, 3])), 650_000);
    // mismatched or zero weights fall back to the ramp 1, 2
    assert_eq!(ConfidenceAggregator::combine(&c, "weighted_avg", Some(&[1])), 600_000);
    assert_eq!(ConfidenceAggregator::combine(&c, "weighted_avg", Some(&[0, 0])), 600_000);
    assert_eq!(ConfidenceAggregator::combine(&c, "weighted_avg", None), 600_000);
}

#[test]
fn combine_weighted_avg_signed_weights() {
    let c = [200_000u64, 800_000];
    // (0.2·(−1) + 0.8·3) / 2 = 1.1, held at 1.0
    assert_eq!(ConfidenceAggregator::combine(&c, "weighted_avg", Some(&[-1, 3])), 1_000_000);
    // (0.2·3 + 0.8·(−1)) / 2 = −0.1, held at 0
    assert_eq!(ConfidenceAggregator::combine(&c, "weighted_avg", Some(&[3, -1])), 0);
    // weights summing to zero fall back to the ramp 1, 2
    assert_eq!(ConfidenceAggregator::combine(&c, "weighted_avg", Some(&[-1, 1])), 600_000);
    let d = [500_000u64, 900_000, 700_000];
    // (0.5·2 + 0.9·(−1) + 0.7·1) / 2 = 0.4
    assert_eq!(ConfidenceAggregator::combine(&d, "weighted_avg", Some(&[2, -1, 1])), 400_000);
}

#[test]
fn consistency_ignores_field_order_in_canonical_form() {
    let a = Json::Object(vec![
        ("a".to_string(), Json::Null),
        ("b".to_string(), Json::Null),
    ]);
    let b = Json::Object(vec![
        ("a".to_string(), Json::Null),
        ("b".to_string(), Json::Null),
    ]);
    assert_eq!(ConfidenceAggregator::from_consistency(&[a, b]), 950_000);
}

#[test]
fn consensus_of_agreeing_scores() {
    let c = [900_000u64, 900_000, 900_000];
    assert_eq!(ConfidenceAggregator::combine(&c, "consensus", None), 900_000);
}

#[test]
fn consensus_penalises_disagreement() {
    let c = [100_000u64, 900_000];
    let consensus = ConfidenceAggregator::combine(&c, "consensus", None);
    let avg = ConfidenceAggregator::combine(&c, "avg", None);
    assert_eq!(consensus, 340_000);
    assert!(consensus < avg);
}

#[test]
fn consensus_factor_floor_is_half() {
    let c = [0u64, 1_000_000];
    assert_eq!(ConfidenceAggregator::combine(&c, "consensus", None), 250_000);
}

fn answer(a: &str) -> Json {
    Json::Object(vec![("answer".to_string(), Json::Str(a.to_string()))])
}

#[test]
fn consistency_single_result_is_neutral() {
    assert_eq!(ConfidenceAggregator::from_consistency(&[answer("a")]), 500_000);
    assert_eq!(ConfidenceAggregator::from_consistency(&[]), 500_000);
}

#[test]
fn consistency_identical_results() {
    let r = [answer("a"), answer("a"), answer("a")];
    assert_eq!(ConfidenceAggregator::from_consistency(&r), 950_000);
}

#[test]
fn consistency_two_forms_of_three() {
    let r = [answer("a"), answer("a"), answer("b")];
    assert_eq!(ConfidenceAggregator::from_consistency(&r), 725_000);
}

#[test]
fn consistency_all_different() {
    let r = [answer("a"), answer("b"), answer("c")];
    assert_eq!(ConfidenceAggregator::from_consistency(&r), 500_000);
}

#[test]
fn calibrate_shifts_by_bias() {
    assert_eq!(ConfidenceAggregator::calibrate(800_000, 50_000, 1_000_000), 750_000);
}

#[test]
fn calibrate_scales_around_centre() {
    assert_eq!(ConfidenceAggregator::calibrate(800_000, 0, 500_000), 650_000);
    assert_eq!(ConfidenceAggregator::calibrate(200_000, 0, 500_000), 350_000);
}

#[test]
fn calibrate_clamps() {
    assert_eq!(ConfidenceAggregator::calibrate(1_000_000, -600_000, 1_000_000), 1_000_000);
    assert_eq!(ConfidenceAggregator::calibrate(0, 600_000, 1_000_000), 0);
}
