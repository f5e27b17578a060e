//! Deriving one confidence from a result: stated fields, textual phrases and
//! keyword heuristics, blended by strategy.
use vstd::prelude::*;
use crate::decimal::{lifted, normalize_chars, normalized_text, Confidence, SCALE};
use crate::json::{canonical, lookup, render, render_text, Json};
use crate::matching::{first_group, is_found, regex_found, regex_group};
use crate::text::{
    chars_eq, chars_of, contains, contains_chars, lower_of, lowercase, string_of, strip_percent,
    trimmed, trimmed_number_text,
};

verus! {

/// How `extract` derives its score.
#[derive(Clone, Copy, Debug, PartialEq, Eq, Structural)]
pub enum ExtractionStrategy {
    /// Stated fields first, then phrases in the text, then the default.
    Structured,
    /// Keyword heuristics over the text.
    Keyword,
    /// Seven tenths of `Structured` plus three tenths of `Keyword`.
    Hybrid,
}

/// The default confidence, and the strategy.
#[derive(Clone, Copy, Debug)]
pub struct ConfidenceConfig {
    pub default_confidence: Confidence,
    pub strategy: ExtractionStrategy,
}

impl ConfidenceConfig {
    pub open spec fn wf(&self) -> bool {
        self.default_confidence <= SCALE
    }
}

impl Default for ConfidenceConfig {
    fn default() -> (r: Self)
        ensures
            r.default_confidence == SCALE / 2,
            r.strategy == ExtractionStrategy::Hybrid,
    {
        ConfidenceConfig { default_confidence: SCALE / 2, strategy: ExtractionStrategy::Hybrid }
    }
}

// ---------------------------------------------------------------------------
// Stated fields

pub const NUM_FIELDS: usize = 5;

/// The field names searched for a stated confidence, by priority.
pub open spec fn field_name(i: int) -> Seq<char> {
    if i == 0 {
        "confidence"@
    } else if i == 1 {
        "_confidence"@
    } else if i == 2 {
        "score"@
    } else if i == 3 {
        "certainty"@
    } else {
        "probability"@
    }
}

fn field_name_str(i: usize) -> (r: &'static str)
    ensures
        r@ == field_name(i as int),
{
    if i == 0 {
        "confidence"
    } else if i == 1 {
        "_confidence"
    } else if i == 2 {
        "score"
    } else if i == 3 {
        "certainty"
    } else {
        "probability"
    }
}

/// The confidence a single value states: a number, or a string holding one
/// (white space and one trailing `%` are ignored).
pub open spec fn value_signal(v: Json, default: nat) -> Option<nat> {
    match v {
        Json::Number(t) => normalized_text(t@, default),
        Json::Str(s) => normalized_text(strip_percent(trimmed(s@)), default),
        _ => None,
    }
}

/// The first of the field names from the `i`-th on whose value states a
/// confidence.
pub open spec fn fields_signal(fields: Seq<(String, Json)>, default: nat, i: nat) -> Option<nat>
    decreases NUM_FIELDS - i,
{
    if i >= NUM_FIELDS {
        None
    } else {
        match lookup(fields, field_name(i as int)) {
            Some(v) => match value_signal(v, default) {
                Some(c) => Some(c),
                None => fields_signal(fields, default, i + 1),
            },
            None => fields_signal(fields, default, i + 1),
        }
    }
}

/// A confidence stated by the result's own fields, else by the fields of its
/// `metadata` object.
pub open spec fn structured_signal(r: Json, default: nat) -> Option<nat> {
    match r {
        Json::Object(fields) => match fields_signal(fields@, default, 0) {
            Some(c) => Some(c),
            None => match lookup(fields@, "metadata"@) {
                Some(Json::Object(inner)) => fields_signal(inner@, default, 0),
                _ => None,
            },
        },
        _ => None,
    }
}

// ---------------------------------------------------------------------------
// Phrases in the text

pub const NUM_TEXT_PATTERNS: usize = 5;

/// The phrases that state a confidence in text, by priority; group 1 is the
/// number.
pub open spec fn text_pattern(i: int) -> Seq<char> {
    if i == 0 {
        "confidence:\\s*(\\d+\\.?\\d*)"@
    } else if i == 1 {
        "certainty:\\s*(\\d+\\.?\\d*)"@
    } else if i == 2 {
        "probability:\\s*(\\d+\\.?\\d*)"@
    } else if i == 3 {
        "score:\\s*(\\d+\\.?\\d*)"@
    } else {
        "(\\d+\\.?\\d*)\\s*%\\s*(?:confident|certain|sure)"@
    }
}

fn text_pattern_str(i: usize) -> (r: &'static str)
    ensures
        r@ == text_pattern(i as int),
{
    if i == 0 {
        "confidence:\\s*(\\d+\\.?\\d*)"
    } else if i == 1 {
        "certainty:\\s*(\\d+\\.?\\d*)"
    } else if i == 2 {
        "probability:\\s*(\\d+\\.?\\d*)"
    } else if i == 3 {
        "score:\\s*(\\d+\\.?\\d*)"
    } else {
        "(\\d+\\.?\\d*)\\s*%\\s*(?:confident|certain|sure)"
    }
}

/// The first phrase from the `i`-th on that matches `text` with a number.
pub open spec fn text_signal_from(text: Seq<char>, default: nat, i: nat) -> Option<nat>
    decreases NUM_TEXT_PATTERNS - i,
{
    if i >= NUM_TEXT_PATTERNS {
        None
    } else {
        match regex_group(text_pattern(i as int), text) {
            Some(g) => match normalized_text(g, default) {
                Some(c) => Some(c),
                None => text_signal_from(text, default, i + 1),
            },
            None => text_signal_from(text, default, i + 1),
        }
    }
}

pub open spec fn text_signal(text: Seq<char>, default: nat) -> Option<nat> {
    text_signal_from(text, default, 0)
}

/// Stated fields, else phrases in the rendered result, else the default.
pub open spec fn structured_or_text(r: Json, default: nat) -> nat {
    match structured_signal(r, default) {
        Some(c) => c,
        None => match text_signal(render(r), default) {
            Some(c) => c,
            None => default,
        },
    }
}

// ---------------------------------------------------------------------------
// Keywords

pub const NUM_KEYWORDS: usize = 42;

pub const NUM_HEDGES: usize = 4;

/// The vocabulary: each word with the change, in millionths, that its
/// presence makes.
pub open spec fn keyword(i: int) -> (Seq<char>, int) {
    if i == 0 { ("definitely"@, 150_000) }
    else if i == 1 { ("certainly"@, 150_000) }
    else if i == 2 { ("absolutely"@, 150_000) }
    else if i == 3 { ("confirmed"@, 150_000) }
    else if i == 4 { ("verified"@, 150_000) }
    else if i == 5 { ("guaranteed"@, 150_000) }
    else if i == 6 { ("certain"@, 120_000) }
    else if i == 7 { ("sure"@, 120_000) }
    else if i == 8 { ("clear"@, 100_000) }
    else if i == 9 { ("obvious"@, 100_000) }
    else if i == 10 { ("undoubtedly"@, 120_000) }
    else if i == 11 { ("unquestionably"@, 120_000) }
    else if i == 12 { ("conclusive"@, 120_000) }
    else if i == 13 { ("definitive"@, 120_000) }
    else if i == 14 { ("established"@, 100_000) }
    else if i == 15 { ("probably"@, 50_000) }
    else if i == 16 { ("likely"@, 50_000) }
    else if i == 17 { ("appears"@, 50_000) }
    else if i == 18 { ("seems"@, 50_000) }
    else if i == 19 { ("suggests"@, 50_000) }
    else if i == 20 { ("indicates"@, 50_000) }
    else if i == 21 { ("mostly"@, 40_000) }
    else if i == 22 { ("generally"@, 40_000) }
    else if i == 23 { ("typically"@, 40_000) }
    else if i == 24 { ("reasonable"@, 50_000) }
    else if i == 25 { ("plausible"@, 50_000) }
    else if i == 26 { ("expected"@, 40_000) }
    else if i == 27 { ("possibly"@, -150_000) }
    else if i == 28 { ("maybe"@, -150_000) }
    else if i == 29 { ("might"@, -120_000) }
    else if i == 30 { ("could"@, -100_000) }
    else if i == 31 { ("uncertain"@, -150_000) }
    else if i == 32 { ("unclear"@, -150_000) }
    else if i == 33 { ("unsure"@, -150_000) }
    else if i == 34 { ("doubt"@, -150_000) }
    else if i == 35 { ("guess"@, -120_000) }
    else if i == 36 { ("assume"@, -100_000) }
    else if i == 37 { ("questionable"@, -150_000) }
    else if i == 38 { ("tentative"@, -120_000) }
    else if i == 39 { ("approximate"@, -80_000) }
    else if i == 40 { ("estimated"@, -80_000) }
    else { ("roughly"@, -80_000) }
}

fn keyword_entry(i: usize) -> (r: (&'static str, i64))
    ensures
        r.0@ == keyword(i as int).0,
        r.1 == keyword(i as int).1,
{
    if i == 0 { ("definitely", 150_000) }
    else if i == 1 { ("certainly", 150_000) }
    else if i == 2 { ("absolutely", 150_000) }
    else if i == 3 { ("confirmed", 150_000) }
    else if i == 4 { ("verified", 150_000) }
    else if i == 5 { ("guaranteed", 150_000) }
    else if i == 6 { ("certain", 120_000) }
    else if i == 7 { ("sure", 120_000) }
    else if i == 8 { ("clear", 100_000) }
    else if i == 9 { ("obvious", 100_000) }
    else if i == 10 { ("undoubtedly", 120_000) }
    else if i == 11 { ("unquestionably", 120_000) }
    else if i == 12 { ("conclusive", 120_000) }
    else if i == 13 { ("definitive", 120_000) }
    else if i == 14 { ("established", 100_000) }
    else if i == 15 { ("probably", 50_000) }
    else if i == 16 { ("likely", 50_000) }
    else if i == 17 { ("appears", 50_000) }
    else if i == 18 { ("seems", 50_000) }
    else if i == 19 { ("suggests", 50_000) }
    else if i == 20 { ("indicates", 50_000) }
    else if i == 21 { ("mostly", 40_000) }
    else if i == 22 { ("generally", 40_000) }
    else if i == 23 { ("typically", 40_000) }
    else if i == 24 { ("reasonable", 50_000) }
    else if i == 25 { ("plausible", 50_000) }
    else if i == 26 { ("expected", 40_000) }
    else if i == 27 { ("possibly", -150_000) }
    else if i == 28 { ("maybe", -150_000) }
    else if i == 29 { ("might", -120_000) }
    else if i == 30 { ("could", -100_000) }
    else if i == 31 { ("uncertain", -150_000) }
    else if i == 32 { ("unclear", -150_000) }
    else if i == 33 { ("unsure", -150_000) }
    else if i == 34 { ("doubt", -150_000) }
    else if i == 35 { ("guess", -120_000) }
    else if i == 36 { ("assume", -100_000) }
    else if i == 37 { ("questionable", -150_000) }
    else if i == 38 { ("tentative", -120_000) }
    else if i == 39 { ("approximate", -80_000) }
    else if i == 40 { ("estimated", -80_000) }
    else { ("roughly", -80_000) }
}

/// The hedging phrases; each one that matches lowers the score by a tenth.
pub open spec fn hedge_pattern(i: int) -> Seq<char> {
    if i == 0 {
        "(?:i|we)\\s+(?:think|believe|suppose)"@
    } else if i == 1 {
        "(?:may|might)\\s+be"@
    } else if i == 2 {
        "(?:could|would)\\s+(?:be|suggest)"@
    } else {
        "(?:perhaps|presumably)"@
    }
}

fn hedge_pattern_str(i: usize) -> (r: &'static str)
    ensures
        r@ == hedge_pattern(i as int),
{
    if i == 0 {
        "(?:i|we)\\s+(?:think|believe|suppose)"
    } else if i == 1 {
        "(?:may|might)\\s+be"
    } else if i == 2 {
        "(?:could|would)\\s+(?:be|suggest)"
    } else {
        "(?:perhaps|presumably)"
    }
}

/// The changes of the first `n` vocabulary words, each counted once when the
/// word occurs in `text`, however often it occurs.
pub open spec fn keyword_gain(text: Seq<char>, n: nat) -> int
    decreases n,
{
    if n == 0 {
        0
    } else {
        keyword_gain(text, (n - 1) as nat) + if contains(text, keyword(n - 1).0) {
            keyword(n - 1).1
        } else {
            0
        }
    }
}

/// How many of the first `n` hedging phrases match `text`.
pub open spec fn hedge_count(text: Seq<char>, n: nat) -> int
    decreases n,
{
    if n == 0 {
        0
    } else {
        hedge_count(text, (n - 1) as nat) + if regex_found(hedge_pattern(n - 1), text) {
            1int
        } else {
            0
        }
    }
}

pub open spec fn clamp(v: int, lo: int, hi: int) -> int {
    if v < lo {
        lo
    } else if v > hi {
        hi
    } else {
        v
    }
}

pub const KEYWORD_FLOOR: u64 = 100_000;

pub const KEYWORD_CEILING: u64 = 950_000;

pub const HEDGE_PENALTY: u64 = 100_000;

/// The keyword score of a lower-case text.
pub open spec fn keyword_score(text: Seq<char>, default: nat) -> nat {
    clamp(
        default + keyword_gain(text, NUM_KEYWORDS as nat) - HEDGE_PENALTY * hedge_count(
            text,
            NUM_HEDGES as nat,
        ),
        KEYWORD_FLOOR as int,
        KEYWORD_CEILING as int,
    ) as nat
}

/// The keyword score of a result: that of its rendering in lower case.
pub open spec fn keyword_signal(r: Json, default: nat) -> nat {
    keyword_score(lower_of(render(r)), default)
}

// ---------------------------------------------------------------------------
// Strategies

/// What `extract` returns for a result under a configuration.
pub open spec fn extraction(r: Json, config: ConfidenceConfig) -> nat {
    let d = config.default_confidence as nat;
    match config.strategy {
        ExtractionStrategy::Structured => structured_or_text(r, d),
        ExtractionStrategy::Keyword => keyword_signal(r, d),
        ExtractionStrategy::Hybrid => (7 * structured_or_text(r, d) + 3 * keyword_signal(r, d))
            / 10,
    }
}

/// The value of the first field named `key`.
pub fn find_field<'a>(fields: &'a Vec<(String, Json)>, key: &str) -> (r: Option<&'a Json>)
    ensures
        r is Some <==> lookup(fields@, key@) is Some,
        r is Some ==> *r->0 == lookup(fields@, key@)->0,
{
    let k = chars_of(key);
    let n = fields.len();
    let mut i: usize = 0;
    assert(fields@.subrange(0, n as int) =~= fields@);
    while i < n
        invariant
            i <= n == fields@.len(),
            k@ == key@,
            lookup(fields@, key@) == lookup(fields@.subrange(i as int, n as int), key@),
        decreases n - i,
    {
        let name = chars_of(fields[i].0.as_str());
        let ghost rest = fields@.subrange(i as int, n as int);
        assert(rest[0] == fields@[i as int]);
        if chars_eq(name.as_slice(), k.as_slice()) {
            return Some(&fields[i].1);
        }
        assert(rest.drop_first() =~= fields@.subrange(i + 1, n as int));
        i = i + 1;
    }
    None
}

/// Scores results under one configuration.
pub struct ConfidenceExtractor {
    pub config: ConfidenceConfig,
}

impl ConfidenceExtractor {
    pub fn new(config: ConfidenceConfig) -> (r: Self)
        ensures
            r.config == config,
    {
        ConfidenceExtractor { config }
    }

    /// The numeric rule on a numeral's text; `None` when it is no numeral.
    pub fn normalize_confidence_value(&self, numeral: &str) -> (r: Option<Confidence>)
        requires
            self.config.wf(),
        ensures
            lifted(r) == normalized_text(numeral@, self.config.default_confidence as nat),
            r is Some ==> r->0 <= SCALE,
    {
        let cs = chars_of(numeral);
        normalize_chars(cs.as_slice(), self.config.default_confidence)
    }

    /// The confidence that a value states, if any.
    pub fn normalize_confidence(&self, value: &Json) -> (r: Option<Confidence>)
        requires
            self.config.wf(),
        ensures
            lifted(r) == value_signal(*value, self.config.default_confidence as nat),
            r is Some ==> r->0 <= SCALE,
    {
        match value {
            Json::Number(t) => self.normalize_confidence_value(t.as_str()),
            Json::Str(s) => {
                let cs = trimmed_number_text(s.as_str());
                normalize_chars(cs.as_slice(), self.config.default_confidence)
            },
            _ => None,
        }
    }

    fn fields_confidence(&self, fields: &Vec<(String, Json)>) -> (r: Option<Confidence>)
        requires
            self.config.wf(),
        ensures
            lifted(r) == fields_signal(fields@, self.config.default_confidence as nat, 0),
            r is Some ==> r->0 <= SCALE,
    {
        let ghost d = self.config.default_confidence as nat;
        let mut i: usize = 0;
        while i < NUM_FIELDS
            invariant
                i <= NUM_FIELDS,
                self.config.wf(),
                d == self.config.default_confidence as nat,
                fields_signal(fields@, d, 0) == fields_signal(fields@, d, i as nat),
            decreases NUM_FIELDS - i,
        {
            match find_field(fields, field_name_str(i)) {
                Some(v) => {
                    let c = self.normalize_confidence(v);
                    if c.is_some() {
                        return c;
                    }
                },
                None => {},
            }
            i = i + 1;
        }
        None
    }

    /// The confidence that the result's fields state, or those of its
    /// `metadata` object.
    pub fn extract_structured(&self, result: &Json) -> (r: Option<Confidence>)
        requires
            self.config.wf(),
        ensures
            lifted(r) == structured_signal(*result, self.config.default_confidence as nat),
            r is Some ==> r->0 <= SCALE,
    {
        match result {
            Json::Object(fields) => {
                let top = self.fields_confidence(fields);
                if top.is_some() {
                    return top;
                }
                match find_field(fields, "metadata") {
                    Some(Json::Object(inner)) => self.fields_confidence(inner),
                    _ => None,
                }
            },
            _ => None,
        }
    }

    /// The confidence that a phrase in `text` states, if any.
    pub fn extract_text(&self, text: &str) -> (r: Option<Confidence>)
        requires
            self.config.wf(),
        ensures
            lifted(r) == text_signal(text@, self.config.default_confidence as nat),
            r is Some ==> r->0 <= SCALE,
    {
        let ghost d = self.config.default_confidence as nat;
        let mut i: usize = 0;
        while i < NUM_TEXT_PATTERNS
            invariant
                i <= NUM_TEXT_PATTERNS,
                self.config.wf(),
                d == self.config.default_confidence as nat,
                text_signal(text@, d) == text_signal_from(text@, d, i as nat),
            decreases NUM_TEXT_PATTERNS - i,
        {
            match first_group(text_pattern_str(i), text) {
                Some(g) => {
                    let c = self.normalize_confidence_value(g.as_str());
                    if c.is_some() {
                        return c;
                    }
                },
                None => {},
            }
            i = i + 1;
        }
        None
    }

    /// Stated fields, else a phrase in the rendered result, else the default.
    pub fn extract_structured_or_text(&self, result: &Json) -> (r: Confidence)
        requires
            self.config.wf(),
            canonical(*result),
        ensures
            r == structured_or_text(*result, self.config.default_confidence as nat),
            r <= SCALE,
    {
        match self.extract_structured(result) {
            Some(c) => c,
            None => {
                let rendered = render_text(result);
                let text = string_of(rendered.as_slice());
                match self.extract_text(text.as_str()) {
                    Some(c) => c,
                    None => self.config.default_confidence,
                }
            },
        }
    }

    /// The keyword score of a lower-case text.
    pub fn keyword_score_of(&self, text: &str) -> (r: Confidence)
        requires
            self.config.wf(),
        ensures
            r == keyword_score(text@, self.config.default_confidence as nat),
            KEYWORD_FLOOR <= r <= KEYWORD_CEILING,
    {
        let cs = chars_of(text);
        let mut gain: i64 = 0;
        let mut i: usize = 0;
        while i < NUM_KEYWORDS
            invariant
                i <= NUM_KEYWORDS,
                cs@ == text@,
                gain == keyword_gain(text@, i as nat),
                -150_000 * i <= gain <= 150_000 * i,
            decreases NUM_KEYWORDS - i,
        {
            let (word, delta) = keyword_entry(i);
            let w = chars_of(word);
            if contains_chars(cs.as_slice(), w.as_slice()) {
                gain = gain + delta;
            }
            i = i + 1;
        }
        let mut hedges: i64 = 0;
        let mut h: usize = 0;
        while h < NUM_HEDGES
            invariant
                h <= NUM_HEDGES,
                hedges == hedge_count(text@, h as nat),
                0 <= hedges <= h,
                gain == keyword_gain(text@, NUM_KEYWORDS as nat),
                -6_300_000 <= gain <= 6_300_000,
                self.config.wf(),
            decreases NUM_HEDGES - h,
        {
            if is_found(hedge_pattern_str(h), text) {
                hedges = hedges + 1;
            }
            h = h + 1;
        }
        assert(0 <= 100_000 * hedges <= 400_000) by (nonlinear_arith)
            requires
                0 <= hedges <= 4,
        ;
        let score: i64 = self.config.default_confidence as i64 + gain - 100_000 * hedges;
        if score < KEYWORD_FLOOR as i64 {
            KEYWORD_FLOOR
        } else if score > KEYWORD_CEILING as i64 {
            KEYWORD_CEILING
        } else {
            score as u64
        }
    }

    /// The keyword score of the result's rendering in lower case.
    pub fn extract_keywords(&self, result: &Json) -> (r: Confidence)
        requires
            self.config.wf(),
            canonical(*result),
        ensures
            r == keyword_signal(*result, self.config.default_confidence as nat),
            KEYWORD_FLOOR <= r <= KEYWORD_CEILING,
    {
        let rendered = render_text(result);
        let text = string_of(rendered.as_slice());
        let lowered = lowercase(text.as_str());
        self.keyword_score_of(lowered.as_str())
    }

    /// The confidence of a result under this configuration.
    pub fn extract(&self, result: &Json) -> (r: Confidence)
        requires
            self.config.wf(),
            canonical(*result),
        ensures
            r == extraction(*result, self.config),
            r <= SCALE,
    {
        match self.config.strategy {
            ExtractionStrategy::Structured => self.extract_structured_or_text(result),
            ExtractionStrategy::Keyword => self.extract_keywords(result),
            ExtractionStrategy::Hybrid => {
                let s = self.extract_structured_or_text(result);
                let k = self.extract_keywords(result);
                (7 * s + 3 * k) / 10
            },
        }
    }
}

} // verus!
