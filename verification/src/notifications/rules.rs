//! Subscription rules: configuration validation and the pure matching
//! decisions (keyword, topic, threshold, cooldown).
//!
//! `keyword` rules match when the serialised payload or the event type
//! contains any (or, with `match_mode = "all"`, every) listed keyword, case
//! insensitively.  `topic` rules match an event type against a glob pattern
//! (`"ops.trip.*"`), an exact type, or a list of namespace prefixes.
use vstd::prelude::*;

use crate::text::text;

use crate::json::{array_field, get_array, get_str, json_get, json_is_number, json_number_at_most_zero, str_field, Json};
use crate::text::{
    chars_of, contains_chars, contains_seq, is_prefix, is_suffix, lowercased, push_chars, push_str, slice_chars,
    starts_with, str_eq, string_of, to_lowercase, ends_with,
};

verus! {

broadcast use {vstd::string::group_string_axioms, vstd::slice::group_slice_axioms};

/// Whether `text` is a UUID that `uuid::Uuid::parse_str` accepts.
pub uninterp spec fn uuid_text_valid(text: Seq<char>) -> bool;

/// `uuid::Uuid::parse_str(text).is_ok()`.  Claims only that the answer is the
/// named acceptance of `text`.
#[verifier::external_body]
fn uuid_parses(text: &str) -> (r: bool)
    ensures
        r == uuid_text_valid(text@),
{
    uuid::Uuid::parse_str(text).is_ok()
}

/// The string items of a JSON array, in order (others are skipped).
pub open spec fn string_items(items: Seq<Json>) -> Seq<Seq<char>>
    decreases items.len(),
{
    if items.len() == 0 {
        Seq::empty()
    } else {
        let prev = string_items(items.drop_last());
        match items.last() {
            Json::Str(s) => prev.push(s@),
            _ => prev,
        }
    }
}

/// Every item is a string.
pub open spec fn all_strings(items: Seq<Json>) -> bool {
    forall|i: int| 0 <= i < items.len() ==> #[trigger] items[i] is Str
}

fn string_items_exec(items: &Vec<Json>) -> (r: Vec<String>)
    ensures
        r@.map_values(|s: String| s@) == string_items(items@),
        (r@.len() == items@.len()) == all_strings(items@),
{
    let mut out: Vec<String> = Vec::new();
    let mut i: usize = 0;
    while i < items.len()
        invariant
            i <= items@.len(),
            out@.map_values(|s: String| s@) == string_items(items@.take(i as int)),
            out@.len() <= i,
            (out@.len() == i) == all_strings(items@.take(i as int)),
        decreases items.len() - i,
    {
        assert(items@.take(i + 1).drop_last() =~= items@.take(i as int));
        assert(items@.take(i + 1).last() == items@[i as int]);
        let ghost before = out@.map_values(|s: String| s@);
        match &items[i] {
            Json::Str(s) => {
                out.push(string_of(chars_of(s.as_str()).as_slice()));
                assert(out@.map_values(|s: String| s@) =~= before.push(s@));
                assert(all_strings(items@.take(i + 1)) == all_strings(items@.take(i as int))) by {
                    if all_strings(items@.take(i as int)) {
                        assert forall|j: int| 0 <= j < i + 1 implies #[trigger] items@.take(i + 1)[j] is Str by {
                            if j < i {
                                assert(items@.take(i + 1)[j] == items@.take(i as int)[j]);
                            }
                        }
                    }
                    if all_strings(items@.take(i + 1)) {
                        assert forall|j: int| 0 <= j < i implies #[trigger] items@.take(i as int)[j] is Str by {
                            assert(items@.take(i + 1)[j] == items@.take(i as int)[j]);
                        }
                    }
                }
            },
            _ => {
                assert(items@.take(i + 1)[i as int] !is Str);
            },
        }
        i = i + 1;
    }
    assert(items@.take(i as int) =~= items@);
    out
}

// ------------------------------------------------------------------
// Configuration validation
// ------------------------------------------------------------------

/// Whether a rule configuration is complete for its type, and the message of
/// the first problem otherwise.
pub open spec fn rule_config_check(rule_type: Seq<char>, config: Json) -> Result<(), Seq<char>> {
    if rule_type == "keyword"@ {
        match array_field(config, "keywords"@) {
            None => Err("'keywords' array is required"@),
            Some(kws) => if kws.len() == 0 {
                Err("'keywords' must not be empty"@)
            } else if !all_strings(kws) {
                Err("'keywords' must all be strings"@)
            } else {
                match str_field(config, "match_mode"@) {
                    Some(m) => if m != "any"@ && m != "all"@ {
                        Err("'match_mode' must be 'any' or 'all'"@)
                    } else {
                        Ok(())
                    },
                    None => Ok(()),
                }
            },
        }
    } else if rule_type == "topic"@ {
        let has_pattern = str_field(config, "pattern"@) is Some;
        let has_topics = match array_field(config, "topics"@) { Some(a) => a.len() > 0, None => false };
        if !has_pattern && !has_topics {
            Err("'pattern' (string) or non-empty 'topics' (array of strings) is required"@)
        } else {
            Ok(())
        }
    } else if rule_type == "entity_threshold"@ {
        match str_field(config, "metric"@) {
            None => Err("'metric' string is required"@),
            Some(metric) => if metric != "open_conflicts"@ && metric != "unassigned_trips"@ && metric != "active_trips"@ {
                Err("'metric' must be one of: open_conflicts, unassigned_trips, active_trips"@)
            } else if !(match json_get(config, "threshold"@) { Some(t) => json_is_number(t), None => false }) {
                Err("'threshold' number is required"@)
            } else {
                match str_field(config, "operator"@) {
                    None => Err("'operator' string is required"@),
                    Some(op) => if op != ">"@ && op != ">="@ && op != "=="@ && op != "<="@ && op != "<"@ {
                        Err("'operator' must be one of: >, >=, ==, <=, <"@)
                    } else {
                        match str_field(config, "entity_id"@) {
                            Some(eid) => if !uuid_text_valid(eid) { Err("'entity_id' is not a valid UUID"@) } else { Ok(()) },
                            None => Ok(()),
                        }
                    },
                }
            },
        }
    } else if rule_type == "spike"@ {
        match str_field(config, "metric"@) {
            None => Err("'metric' string is required"@),
            Some(metric) => if metric != "conflict_rate"@ && metric != "cancellation_rate"@
                && metric != "driver_assignment_rate"@ {
                Err("'metric' must be one of: conflict_rate, cancellation_rate, driver_assignment_rate"@)
            } else {
                match json_get(config, "threshold_pct"@) {
                    Some(p) => if !json_is_number(p) {
                        Err("'threshold_pct' number is required"@)
                    } else if json_number_at_most_zero(p) {
                        Err("'threshold_pct' must be > 0"@)
                    } else {
                        match str_field(config, "direction"@) {
                            Some(d) => if d != "up"@ && d != "down"@ && d != "either"@ {
                                Err("'direction' must be 'up', 'down', or 'either'"@)
                            } else {
                                Ok(())
                            },
                            None => Ok(()),
                        }
                    },
                    None => Err("'threshold_pct' number is required"@),
                }
            },
        }
    } else {
        Err("Unknown rule_type: '"@ + rule_type + "'"@)
    }
}


/// Check that `config` holds what a rule of `rule_type` needs.
pub fn validate_rule_config(rule_type: &str, config: &Json) -> (r: Result<(), String>)
    ensures
        match r {
            Ok(()) => rule_config_check(rule_type@, *config) == Ok::<(), Seq<char>>(()),
            Err(m) => rule_config_check(rule_type@, *config) == Err::<(), Seq<char>>(m@),
        },
{
    if str_eq(rule_type, "keyword") {
        let kws = match get_array(config, "keywords") {
            None => return Err(text("'keywords' array is required")),
            Some(k) => k,
        };
        if kws.len() == 0 {
            return Err(text("'keywords' must not be empty"));
        }
        let strings = string_items_exec(kws);
        if strings.len() != kws.len() {
            return Err(text("'keywords' must all be strings"));
        }
        match get_str(config, "match_mode") {
            Some(m) => if !str_eq(m, "any") && !str_eq(m, "all") {
                return Err(text("'match_mode' must be 'any' or 'all'"));
            },
            None => {},
        }
        Ok(())
    } else if str_eq(rule_type, "topic") {
        let has_pattern = get_str(config, "pattern").is_some();
        let has_topics = match get_array(config, "topics") {
            Some(a) => a.len() > 0,
            None => false,
        };
        if !has_pattern && !has_topics {
            return Err(text("'pattern' (string) or non-empty 'topics' (array of strings) is required"));
        }
        Ok(())
    } else if str_eq(rule_type, "entity_threshold") {
        let metric = match get_str(config, "metric") {
            None => return Err(text("'metric' string is required")),
            Some(m) => m,
        };
        if !str_eq(metric, "open_conflicts") && !str_eq(metric, "unassigned_trips") && !str_eq(metric, "active_trips") {
            return Err(text("'metric' must be one of: open_conflicts, unassigned_trips, active_trips"));
        }
        let has_threshold = match config.get("threshold") {
            Some(t) => t.is_number(),
            None => false,
        };
        if !has_threshold {
            return Err(text("'threshold' number is required"));
        }
        let op = match get_str(config, "operator") {
            None => return Err(text("'operator' string is required")),
            Some(o) => o,
        };
        if !str_eq(op, ">") && !str_eq(op, ">=") && !str_eq(op, "==") && !str_eq(op, "<=") && !str_eq(op, "<") {
            return Err(text("'operator' must be one of: >, >=, ==, <=, <"));
        }
        match get_str(config, "entity_id") {
            Some(eid) => if !uuid_parses(eid) {
                return Err(text("'entity_id' is not a valid UUID"));
            },
            None => {},
        }
        Ok(())
    } else if str_eq(rule_type, "spike") {
        let metric = match get_str(config, "metric") {
            None => return Err(text("'metric' string is required")),
            Some(m) => m,
        };
        if !str_eq(metric, "conflict_rate") && !str_eq(metric, "cancellation_rate") && !str_eq(
            metric,
            "driver_assignment_rate",
        ) {
            return Err(text("'metric' must be one of: conflict_rate, cancellation_rate, driver_assignment_rate"));
        }
        match config.get("threshold_pct") {
            Some(p) => {
                if !p.is_number() {
                    return Err(text("'threshold_pct' number is required"));
                }
                if p.number_at_most_zero() {
                    return Err(text("'threshold_pct' must be > 0"));
                }
            },
            None => return Err(text("'threshold_pct' number is required")),
        }
        match get_str(config, "direction") {
            Some(d) => if !str_eq(d, "up") && !str_eq(d, "down") && !str_eq(d, "either") {
                return Err(text("'direction' must be 'up', 'down', or 'either'"));
            },
            None => {},
        }
        Ok(())
    } else {
        let mut m: Vec<char> = Vec::new();
        push_str(&mut m, "Unknown rule_type: '");
        push_str(&mut m, rule_type);
        push_str(&mut m, "'");
        Err(string_of(m.as_slice()))
    }
}

// ------------------------------------------------------------------
// Matching
// ------------------------------------------------------------------

/// `corpus` contains every lower-cased keyword.
pub open spec fn contains_every(corpus: Seq<char>, ks: Seq<Seq<char>>) -> bool {
    forall|i: int| 0 <= i < ks.len() ==> contains_seq(corpus, lowercased(#[trigger] ks[i]))
}

/// `corpus` contains some lower-cased keyword.
pub open spec fn contains_some(corpus: Seq<char>, ks: Seq<Seq<char>>) -> bool {
    exists|i: int| 0 <= i < ks.len() && contains_seq(corpus, lowercased(#[trigger] ks[i]))
}

/// Whether a keyword rule matches: the lower-cased corpus
/// `payload_text + " " + event_type` contains every (`match_mode = "all"`) or
/// some (otherwise) lower-cased keyword.
pub open spec fn keyword_match(event_type: Seq<char>, payload_text: Seq<char>, config: Json) -> bool {
    match array_field(config, "keywords"@) {
        None => false,
        Some(items) => {
            if str_field(config, "match_mode"@) == Some("all"@) {
                contains_every(lowercased(payload_text + " "@ + event_type), string_items(items))
            } else {
                contains_some(lowercased(payload_text + " "@ + event_type), string_items(items))
            }
        },
    }
}

/// Whether a keyword rule matches an event whose payload serialises to
/// `payload_text`.
pub fn matches_keyword(event_type: &str, payload_text: &str, config: &Json) -> (r: bool)
    ensures
        r == keyword_match(event_type@, payload_text@, *config),
{
    let items = match get_array(config, "keywords") {
        Some(a) => a,
        None => return false,
    };
    let all_mode = match get_str(config, "match_mode") {
        Some(m) => str_eq(m, "all"),
        None => false,
    };
    let mut corpus_chars: Vec<char> = Vec::new();
    push_str(&mut corpus_chars, payload_text);
    push_str(&mut corpus_chars, " ");
    push_str(&mut corpus_chars, event_type);
    let corpus_text = string_of(corpus_chars.as_slice());
    let corpus_lower = to_lowercase(corpus_text.as_str());
    let corpus = chars_of(corpus_lower.as_str());
    let ks = string_items_exec(items);
    let ghost kv = ks@.map_values(|s: String| s@);
    let mut i: usize = 0;
    while i < ks.len()
        invariant
            i <= ks@.len(),
            kv == ks@.map_values(|s: String| s@),
            kv == string_items(items@),
            array_field(*config, "keywords"@) == Some(items@),
            all_mode == (str_field(*config, "match_mode"@) == Some("all"@)),
            corpus@ == lowercased(payload_text@ + " "@ + event_type@),
            all_mode ==> forall|j: int| 0 <= j < i ==> contains_seq(corpus@, lowercased(#[trigger] kv[j])),
            !all_mode ==> forall|j: int| 0 <= j < i ==> !contains_seq(corpus@, lowercased(#[trigger] kv[j])),
        decreases ks.len() - i,
    {
        let k = to_lowercase(ks[i].as_str());
        let kc = chars_of(k.as_str());
        let found = contains_chars(corpus.as_slice(), kc.as_slice());
        assert(kv[i as int] == ks@[i as int]@);
        if all_mode && !found {
            assert(!contains_seq(corpus@, lowercased(kv[i as int])));
            return false;
        }
        if !all_mode && found {
            assert(contains_seq(corpus@, lowercased(kv[i as int])));
            return true;
        }
        i = i + 1;
    }
    all_mode
}

/// Whether `event_type` is `t` or lies under the namespace `t`.
pub open spec fn under_namespace(event_type: Seq<char>, t: Seq<char>) -> bool {
    event_type == t || is_prefix(t + "."@, event_type)
}

/// `event_type` lies under one of the namespaces `ts`.
pub open spec fn under_some_namespace(event_type: Seq<char>, ts: Seq<Seq<char>>) -> bool {
    exists|i: int| 0 <= i < ts.len() && under_namespace(event_type, #[trigger] ts[i])
}

/// Whether a topic rule matches `event_type`: a `pattern` ending in `.*`
/// matches its namespace, another pattern only itself; without a pattern,
/// any of the `topics` namespaces matches.
pub open spec fn topic_match(event_type: Seq<char>, config: Json) -> bool {
    match str_field(config, "pattern"@) {
        Some(p) => if is_suffix(".*"@, p) {
            under_namespace(event_type, p.take(p.len() - 2))
        } else {
            event_type == p
        },
        None => match array_field(config, "topics"@) {
            Some(items) => under_some_namespace(event_type, string_items(items)),
            None => false,
        },
    }
}

fn under_namespace_exec(event_type: &[char], t: &[char]) -> (r: bool)
    ensures
        r == under_namespace(event_type@, t@),
{
    if crate::text::chars_eq(event_type, t) {
        return true;
    }
    let mut p: Vec<char> = Vec::new();
    push_chars(&mut p, t);
    push_str(&mut p, ".");
    starts_with(event_type, p.as_slice())
}

/// Whether a topic rule matches `event_type`.
pub fn matches_topic(event_type: &str, config: &Json) -> (r: bool)
    ensures
        r == topic_match(event_type@, *config),
{
    let et = chars_of(event_type);
    match get_str(config, "pattern") {
        Some(pattern) => {
            let p = chars_of(pattern);
            let star = chars_of(".*");
            proof {
                reveal_strlit(".*");
            }
            if ends_with(p.as_slice(), star.as_slice()) {
                let prefix = slice_chars(p.as_slice(), 0, p.len() - 2);
                return under_namespace_exec(et.as_slice(), prefix.as_slice());
            } else {
                return crate::text::chars_eq(et.as_slice(), p.as_slice());
            }
        },
        None => {},
    }
    match get_array(config, "topics") {
        Some(items) => {
            let ts = string_items_exec(items);
            let ghost tv = ts@.map_values(|s: String| s@);
            let mut i: usize = 0;
            while i < ts.len()
                invariant
                    i <= ts@.len(),
                    tv == ts@.map_values(|s: String| s@),
                    tv == string_items(items@),
                    array_field(*config, "topics"@) == Some(items@),
                    str_field(*config, "pattern"@) is None,
                    et@ == event_type@,
                    forall|j: int| 0 <= j < i ==> !under_namespace(et@, #[trigger] tv[j]),
                decreases ts.len() - i,
            {
                let tc = chars_of(ts[i].as_str());
                assert(tv[i as int] == ts@[i as int]@);
                if under_namespace_exec(et.as_slice(), tc.as_slice()) {
                    assert(under_namespace(et@, tv[i as int]));
                    return true;
                }
                i = i + 1;
            }
            false
        },
        None => false,
    }
}

/// Comparison operators of threshold rules.
pub open spec fn threshold_holds(current: i64, threshold: i64, operator: Seq<char>) -> bool {
    if operator == ">"@ {
        current > threshold
    } else if operator == ">="@ {
        current >= threshold
    } else if operator == "=="@ {
        current == threshold
    } else if operator == "<="@ {
        current <= threshold
    } else if operator == "<"@ {
        current < threshold
    } else {
        false
    }
}

/// Each operator means the comparison it names: `<=` triggers exactly when
/// the current value is at most the threshold, and so on; `<=` and `<` are
/// the negations of `>` and `>=`, and the mirror images of `>=` and `>`.
pub proof fn law_threshold_operators_mean_their_comparison(current: i64, threshold: i64)
    ensures
        threshold_holds(current, threshold, ">"@) <==> current > threshold,
        threshold_holds(current, threshold, ">="@) <==> current >= threshold,
        threshold_holds(current, threshold, "=="@) <==> current == threshold,
        threshold_holds(current, threshold, "<="@) <==> current <= threshold,
        threshold_holds(current, threshold, "<"@) <==> current < threshold,
        threshold_holds(current, threshold, "<="@) == !threshold_holds(current, threshold, ">"@),
        threshold_holds(current, threshold, "<"@) == !threshold_holds(current, threshold, ">="@),
        threshold_holds(current, threshold, "<="@) == threshold_holds(threshold, current, ">="@),
        threshold_holds(current, threshold, "<"@) == threshold_holds(threshold, current, ">"@),
        threshold_holds(current, threshold, "=="@) == threshold_holds(threshold, current, "=="@),
{
    reveal_strlit(">");
    reveal_strlit(">=");
    reveal_strlit("==");
    reveal_strlit("<=");
    reveal_strlit("<");
    assert(">="@ != ">"@) by { assert(">="@.len() != ">"@.len()); }
    assert("=="@ != ">"@) by { assert("=="@.len() != ">"@.len()); }
    assert("=="@ != ">="@) by { assert("=="@[0] != ">="@[0]); }
    assert("<="@ != ">"@) by { assert("<="@.len() != ">"@.len()); }
    assert("<="@ != ">="@) by { assert("<="@[0] != ">="@[0]); }
    assert("<="@ != "=="@) by { assert("<="@[0] != "=="@[0]); }
    assert("<"@ != ">"@) by { assert("<"@[0] != ">"@[0]); }
    assert("<"@ != ">="@) by { assert("<"@.len() != ">="@.len()); }
    assert("<"@ != "=="@) by { assert("<"@.len() != "=="@.len()); }
    assert("<"@ != "<="@) by { assert("<"@.len() != "<="@.len()); }
}

/// Whether `current` crosses `threshold` under `operator`; an unknown
/// operator never triggers.
pub fn threshold_triggered(current: i64, threshold: i64, operator: &str) -> (r: bool)
    ensures
        r == threshold_holds(current, threshold, operator@),
{
    if str_eq(operator, ">") {
        current > threshold
    } else if str_eq(operator, ">=") {
        current >= threshold
    } else if str_eq(operator, "==") {
        current == threshold
    } else if str_eq(operator, "<=") {
        current <= threshold
    } else if str_eq(operator, "<") {
        current < threshold
    } else {
        false
    }
}

/// Whole minutes between two instants in seconds, truncated toward zero (as
/// `chrono::Duration::num_minutes`).
pub open spec fn whole_minutes(seconds: int) -> int {
    if seconds >= 0 { seconds / 60 } else { -((-seconds) / 60) }
}

/// Whether a rule last triggered at `last_triggered_at` is still cooling
/// down at `now` (Unix seconds).
pub fn is_in_cooldown(last_triggered_at: Option<i64>, now: i64, cooldown_minutes: i32) -> (r: bool)
    requires
        last_triggered_at matches Some(l) ==> i64::MIN <= now - l <= i64::MAX,
    ensures
        r == (match last_triggered_at {
            Some(l) => whole_minutes(now - l) < cooldown_minutes,
            None => false,
        }),
{
    match last_triggered_at {
        None => false,
        Some(l) => {
            let d = now - l;
            let m: i64 = if d >= 0 { d / 60 } else { -((-(d as i128)) / 60) as i64 };
            m < cooldown_minutes as i64
        },
    }
}

/// Severity of a rule's alerts: its override, or `warning`.
pub fn rule_severity(severity_override: Option<&str>) -> (r: &str)
    ensures
        r@ == (match severity_override { Some(s) => s@, None => "warning"@ }),
{
    match severity_override {
        Some(s) => s,
        None => "warning",
    }
}

/// Whether a rule alert is queued rather than delivered: when the owner is
/// in do-not-disturb and the severity is not `critical`.
pub fn alert_is_queued(severity: &str, dnd_active: bool) -> (r: bool)
    ensures
        r == (severity@ != "critical"@ && dnd_active),
{
    !str_eq(severity, "critical") && dnd_active
}

/// `"{rule_type} rule matched event '{event_type}' (entity: {entity or —})"`.
pub fn rule_match_description(rule_type: &str, event_type: &str, entity: Option<&str>) -> (r: String)
    ensures
        r@ == rule_type@ + " rule matched event '"@ + event_type@ + "' (entity: "@ + (match entity {
            Some(e) => e@,
            None => "—"@,
        }) + ")"@,
{
    let mut v: Vec<char> = Vec::new();
    push_str(&mut v, rule_type);
    push_str(&mut v, " rule matched event '");
    push_str(&mut v, event_type);
    push_str(&mut v, "' (entity: ");
    match entity {
        Some(e) => push_str(&mut v, e),
        None => push_str(&mut v, "—"),
    }
    push_str(&mut v, ")");
    string_of(v.as_slice())
}

} // verus!
