use parallax_sdk::{
    is_canonical, render_text, ConfidenceConfig, ConfidenceExtractor, ExtractionStrategy, Json,
};

fn num(t: &str) -> Json {
    Json::Number(t.to_string())
}

fn text(t: &str) -> Json {
    Json::Str(t.to_string())
}

fn object(fields: Vec<(&str, Json)>) -> Json {
    Json::Object(fields.into_iter().map(|(k, v)| (k.to_string(), v)).collect())
}

fn extractor(strategy: ExtractionStrategy) -> ConfidenceExtractor {
    ConfidenceExtractor::new(ConfidenceConfig { default_confidence: 500_000, strategy })
}

fn rendered(j: &Json) -> String {
    render_text(j).iter().collect()
}

#[test]
fn normalize_keeps_unit_values() {
    let e = extractor(ExtractionStrategy::Hybrid);
    assert_eq!(e.normalize_confidence(&num("0.42")), Some(420_000));
    assert_eq!(e.normalize_confidence_value("0.42"), Some(420_000));
    assert_eq!(e.normalize_confidence(&num("1")), Some(1_000_000));
    assert_eq!(e.normalize_confidence(&num("0")), Some(0));
}

#[test]
fn normalize_reads_percentages() {
    let e = extractor(ExtractionStrategy::Hybrid);
    assert_eq!(e.normalize_confidence(&num("85")), Some(850_000));
    assert_eq!(e.normalize_confidence(&text("73%")), Some(730_000));
    assert_eq!(e.normalize_confidence(&text("  90% ")), Some(900_000));
    assert_eq!(e.normalize_confidence(&num("100")), Some(1_000_000));
}

#[test]
fn normalize_falls_back_out_of_range() {
    let e = ConfidenceExtractor::new(ConfidenceConfig {
        default_confidence: 300_000,
        strategy: ExtractionStrategy::Structured,
    });
    assert_eq!(e.normalize_confidence(&num("150")), Some(300_000));
    assert_eq!(e.normalize_confidence(&num("-0.5")), Some(300_000));
    assert_eq!(e.normalize_confidence(&num("100.5")), Some(300_000));
}

#[test]
fn normalize_rejects_non_numbers() {
    let e = extractor(ExtractionStrategy::Hybrid);
    assert_eq!(e.normalize_confidence(&text("high")), None);
    assert_eq!(e.normalize_confidence(&text("")), None);
    assert_eq!(e.normalize_confidence(&text("1.2.3")), None);
    assert_eq!(e.normalize_confidence(&Json::Bool(true)), None);
    assert_eq!(e.normalize_confidence(&Json::Null), None);
}

#[test]
fn structured_prefers_top_level_confidence() {
    let e = extractor(ExtractionStrategy::Structured);
    let r = object(vec![
        ("confidence", num("0.9")),
        ("metadata", object(vec![("confidence", num("0.2"))])),
    ]);
    assert!(is_canonical(&r));
    assert_eq!(e.extract_structured(&r), Some(900_000));
    assert_eq!(e.extract(&r), 900_000);
}

#[test]
fn structured_field_priority() {
    let e = extractor(ExtractionStrategy::Structured);
    let r = object(vec![("probability", num("0.3")), ("score", num("0.6"))]);
    assert_eq!(e.extract_structured(&r), Some(600_000));
    let skip = object(vec![("certainty", text("40%")), ("confidence", text("n/a"))]);
    assert_eq!(e.extract_structured(&skip), Some(400_000));
}

#[test]
fn structured_reads_metadata() {
    let e = extractor(ExtractionStrategy::Structured);
    let r = object(vec![
        ("answer", text("yes")),
        ("metadata", object(vec![("_confidence", num("0.8"))])),
    ]);
    assert_eq!(e.extract_structured(&r), Some(800_000));
}

#[test]
fn text_patterns_state_confidence() {
    let e = extractor(ExtractionStrategy::Structured);
    assert_eq!(e.extract(&text("I am 85% confident in this")), 850_000);
    assert_eq!(e.extract(&text("confidence: 0.9")), 900_000);
    assert_eq!(e.extract_text("probability: 70"), Some(700_000));
    assert_eq!(e.extract_text("nothing here"), None);
}

#[test]
fn no_signal_gives_default() {
    let e = ConfidenceExtractor::new(ConfidenceConfig {
        default_confidence: 420_000,
        strategy: ExtractionStrategy::Structured,
    });
    assert_eq!(e.extract(&object(vec![("answer", text("blue"))])), 420_000);
}

#[test]
fn hybrid_blends_structured_and_keywords() {
    let e = extractor(ExtractionStrategy::Hybrid);
    let r = object(vec![
        ("score", num("0.6")),
        ("text", text("This is definitely correct")),
    ]);
    let s = e.extract_structured_or_text(&r);
    let k = e.extract_keywords(&r);
    assert_eq!(s, 600_000);
    assert_eq!(k, 650_000);
    assert!(k > 500_000);
    assert_eq!(e.extract(&r), (7 * s + 3 * k) / 10);
    assert_eq!(e.extract(&r), 615_000);
}

#[test]
fn repeated_keyword_counts_once() {
    let e = extractor(ExtractionStrategy::Keyword);
    let r = text("definitely definitely definitely definitely definitely");
    assert_eq!(e.extract(&r), 650_000);
    assert_eq!(e.extract(&text("definitely")), 650_000);
}

#[test]
fn keywords_read_lower_case() {
    let e = extractor(ExtractionStrategy::Keyword);
    assert_eq!(e.extract(&text("DEFINITELY")), 650_000);
}

#[test]
fn hedging_lowers_keyword_score() {
    let e = extractor(ExtractionStrategy::Keyword);
    assert_eq!(e.extract(&text("perhaps")), 400_000);
    assert_eq!(e.extract(&text("maybe it might be")), 130_000);
}

#[test]
fn keyword_score_is_clamped() {
    let e = extractor(ExtractionStrategy::Keyword);
    let low = text("maybe possibly uncertain unclear doubt");
    assert_eq!(e.extract(&low), 100_000);
    let high = text("definitely certainly absolutely confirmed verified");
    assert_eq!(e.extract(&high), 950_000);
}

#[test]
fn default_config_is_hybrid_half() {
    let c = ConfidenceConfig::default();
    assert_eq!(c.default_confidence, 500_000);
    assert_eq!(c.strategy, ExtractionStrategy::Hybrid);
}

#[test]
fn rendering_is_compact_and_escaped() {
    let r = object(vec![
        ("a", Json::Array(vec![num("1"), Json::Null, Json::Bool(false)])),
        ("b", text("say \"hi\"\n")),
    ]);
    assert_eq!(rendered(&r), "{\"a\":[1,null,false],\"b\":\"say \\\"hi\\\"\\n\"}");
    assert_eq!(rendered(&text("\u{1}")), "\"\\u0001\"");
}

#[test]
fn normalize_reads_float_syntax() {
    let e = extractor(ExtractionStrategy::Hybrid);
    assert_eq!(e.normalize_confidence_value("1e-1"), Some(100_000));
    assert_eq!(e.normalize_confidence_value("8.5e1"), Some(850_000));
    assert_eq!(e.normalize_confidence_value("1E2"), Some(1_000_000));
    assert_eq!(e.normalize_confidence_value("12345e-3"), Some(123_450));
    assert_eq!(e.normalize_confidence_value("0.5e+0"), Some(500_000));
    assert_eq!(e.normalize_confidence_value("1e-7"), Some(0));
    assert_eq!(e.normalize_confidence_value(".5"), Some(500_000));
    assert_eq!(e.normalize_confidence_value("5."), Some(50_000));
    assert_eq!(e.normalize_confidence_value("+0.3"), Some(300_000));
    assert_eq!(e.normalize_confidence_value("-0"), Some(0));
}

#[test]
fn normalize_non_finite_and_huge_fall_back() {
    let e = ConfidenceExtractor::new(ConfidenceConfig {
        default_confidence: 250_000,
        strategy: ExtractionStrategy::Hybrid,
    });
    assert_eq!(e.normalize_confidence_value("1e3"), Some(250_000));
    assert_eq!(e.normalize_confidence_value("1e400"), Some(250_000));
    assert_eq!(e.normalize_confidence_value("inf"), Some(250_000));
    assert_eq!(e.normalize_confidence_value("-Infinity"), Some(250_000));
    assert_eq!(e.normalize_confidence_value("NaN"), Some(250_000));
    assert_eq!(e.normalize_confidence_value("1e"), None);
    assert_eq!(e.normalize_confidence_value("e5"), None);
    assert_eq!(e.normalize_confidence_value("."), None);
    assert_eq!(e.normalize_confidence_value("infinite"), None);
}

#[test]
fn canonical_form_needs_ascending_unique_keys() {
    assert!(is_canonical(&object(vec![("a", Json::Null), ("b", Json::Null)])));
    assert!(!is_canonical(&object(vec![("b", Json::Null), ("a", Json::Null)])));
    assert!(!is_canonical(&object(vec![("a", Json::Null), ("a", Json::Null)])));
    assert!(is_canonical(&object(vec![("a", Json::Null), ("ab", Json::Null)])));
    let nested = Json::Array(vec![object(vec![("y", num("1")), ("x", num("2"))])]);
    assert!(!is_canonical(&nested));
    assert!(is_canonical(&text("anything")));
}

#[test]
fn clone_keeps_text() {
    let r = object(vec![
        ("a", Json::Array(vec![num("0.5"), text("x\n")])),
        ("b", object(vec![("c", Json::Bool(true))])),
    ]);
    let c = r.clone();
    assert_eq!(rendered(&c), rendered(&r));
    assert!(is_canonical(&c));
}
