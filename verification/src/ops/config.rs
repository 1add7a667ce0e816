//! Configuration versions: building a new version's payload on top of a base
//! version, and the checks on scheduling.
use vstd::prelude::*;

use crate::text::text;

use crate::json::{entry_position, json_get, keys_unique, Json};
use crate::text::{chars_of, str_eq, string_of};

verus! {

broadcast use {vstd::string::group_string_axioms, vstd::slice::group_slice_axioms};


/// Whether `v` is an object with each key once (every `serde_json` object
/// is).
pub open spec fn well_formed_object(v: Json) -> bool {
    match v {
        Json::Object(entries) => keys_unique(entries@),
        _ => true,
    }
}

pub(crate) fn position_of(entries: &Vec<(String, Json)>, key: &str) -> (r: Option<usize>)
    ensures
        match r {
            Some(i) => entry_position(entries@, key@) == Some(i as int) && i < entries@.len(),
            None => entry_position(entries@, key@) is None,
        },
{
    let mut i: usize = 0;
    while i < entries.len()
        invariant
            i <= entries@.len(),
            entry_position(entries@.take(i as int), key@) is None,
        decreases entries.len() - i,
    {
        assert(entries@.take(i + 1).drop_last() =~= entries@.take(i as int));
        if str_eq(entries[i].0.as_str(), key) {
            proof {
                assert(entries@.take(i + 1).last() == entries@[i as int]);
                lemma_position_prefix(entries@, i + 1, key@);
            }
            return Some(i);
        }
        i = i + 1;
    }
    assert(entries@.take(i as int) =~= entries@);
    None
}

proof fn lemma_position_prefix(entries: Seq<(String, Json)>, k: int, key: Seq<char>)
    requires
        0 <= k <= entries.len(),
        entry_position(entries.take(k), key) is Some,
    ensures
        entry_position(entries, key) == entry_position(entries.take(k), key),
    decreases entries.len() - k,
{
    if k < entries.len() {
        assert(entries.take(k + 1).drop_last() =~= entries.take(k));
        lemma_position_prefix(entries, k + 1, key);
    } else {
        assert(entries.take(k) =~= entries);
    }
}

/// `entry_position` finds the first entry carrying the key.
pub(crate) proof fn lemma_position_spec(entries: Seq<(String, Json)>, key: Seq<char>)
    ensures
        match entry_position(entries, key) {
            Some(i) => 0 <= i < entries.len() && entries[i].0@ == key && forall|j: int| 0 <= j < i ==> entries[j].0@ != key,
            None => forall|j: int| 0 <= j < entries.len() ==> entries[j].0@ != key,
        },
    decreases entries.len(),
{
    if entries.len() > 0 {
        let d = entries.drop_last();
        lemma_position_spec(d, key);
        assert forall|j: int| 0 <= j < d.len() implies #[trigger] d[j] == entries[j] by {}
        match entry_position(d, key) {
            Some(i) => {
                assert(d[i] == entries[i]);
                assert forall|j: int| 0 <= j < i implies entries[j].0@ != key by {
                    assert(d[j] == entries[j]);
                }
            },
            None => {
                assert forall|j: int| 0 <= j < d.len() implies entries[j].0@ != key by {
                    assert(d[j] == entries[j]);
                }
            },
        }
    }
}

/// The value of `key` after merging: the override's when it has the key,
/// otherwise the base's.
pub open spec fn merged_value(base: Json, overrides: Json, key: Seq<char>) -> Option<Json> {
    if json_get(overrides, key) is Some {
        json_get(overrides, key)
    } else {
        json_get(base, key)
    }
}

/// The value of the first entry carrying `key`.
pub open spec fn lookup(entries: Seq<(String, Json)>, key: Seq<char>) -> Option<Json> {
    match entry_position(entries, key) {
        Some(i) => Some(entries[i].1),
        None => None,
    }
}

pub(crate) proof fn lemma_position_same_keys(a: Seq<(String, Json)>, b: Seq<(String, Json)>, key: Seq<char>)
    requires
        a.len() == b.len(),
        forall|j: int| 0 <= j < a.len() ==> #[trigger] a[j].0@ == b[j].0@,
    ensures
        entry_position(a, key) == entry_position(b, key),
    decreases a.len(),
{
    if a.len() > 0 {
        assert forall|j: int| 0 <= j < a.drop_last().len() implies #[trigger] a.drop_last()[j].0@ == b.drop_last()[j].0@ by {
            assert(a.drop_last()[j] == a[j]);
            assert(b.drop_last()[j] == b[j]);
        }
        lemma_position_same_keys(a.drop_last(), b.drop_last(), key);
    }
}

/// Setting the value of `key` (in place when it is present, appended
/// otherwise) changes the lookup of that key only.
proof fn lemma_lookup_after_set(entries: Seq<(String, Json)>, after: Seq<(String, Json)>, key: (String, Json))
    requires
        match entry_position(entries, key.0@) {
            Some(i) => after == entries.update(i, key),
            None => after == entries.push(key),
        },
    ensures
        lookup(after, key.0@) == Some(key.1),
        forall|k: Seq<char>| k != key.0@ ==> #[trigger] lookup(after, k) == lookup(entries, k),
{
    lemma_position_spec(entries, key.0@);
    match entry_position(entries, key.0@) {
        Some(i) => {
            assert forall|j: int| 0 <= j < after.len() implies #[trigger] after[j].0@ == entries[j].0@ by {}
            lemma_position_same_keys(after, entries, key.0@);
            assert forall|k: Seq<char>| k != key.0@ implies #[trigger] lookup(after, k) == lookup(entries, k) by {
                lemma_position_same_keys(after, entries, k);
                lemma_position_spec(entries, k);
                match entry_position(entries, k) {
                    Some(p) => {
                        assert(p != i);
                        assert(after[p] == entries[p]);
                    },
                    None => {},
                }
            }
        },
        None => {
            assert(after.drop_last() =~= entries);
            assert(after.last() == key);
            assert forall|k: Seq<char>| k != key.0@ implies #[trigger] lookup(after, k) == lookup(entries, k) by {
                lemma_position_spec(entries, k);
                match entry_position(entries, k) {
                    Some(p) => {
                        assert(after[p] == entries[p]);
                    },
                    None => {},
                }
            }
        },
    }
}

/// The payload of a new version built on `base`: when both are objects, the
/// base with every key of the override set to the override's value; when the
/// base is not an object, or the override is not, the base unchanged;
/// without a base, the override.
pub fn merge_payload(base: Option<Json>, overrides: Json) -> (r: Json)
    requires
        well_formed_object(overrides),
    ensures
        match base {
            Some(b) => if b is Object && overrides is Object {
                r is Object && forall|k: Seq<char>| #[trigger] json_get(r, k) == merged_value(b, overrides, k)
            } else {
                r == b
            },
            None => r == overrides,
        },
{
    let ghost ov = overrides;
    match base {
        None => overrides,
        Some(b) => match b {
            Json::Object(entries) => match overrides {
                Json::Object(over) => {
                    let ghost base_entries = entries@;
                    let ghost oe = over@;
                    let ghost n = over@.len() as int;
                    let mut entries = entries;
                    let mut over = over;
                    while over.len() > 0
                        invariant
                            over@ == oe.take(over@.len() as int),
                            over@.len() <= n,
                            n == oe.len(),
                            keys_unique(oe),
                            forall|j: int| over@.len() <= j < n ==> lookup(entries@, (#[trigger] oe[j]).0@) == Some(oe[j].1),
                            forall|k: Seq<char>| (forall|j: int| over@.len() <= j < n ==> oe[j].0@ != k)
                                ==> #[trigger] lookup(entries@, k) == lookup(base_entries, k),
                        decreases over.len(),
                    {
                        let ghost m = over@.len() as int - 1;
                        let ghost before = entries@;
                        let e = over.pop().unwrap();
                        assert(e == oe[m]);
                        match position_of(&entries, e.0.as_str()) {
                            Some(i) => {
                                entries.set(i, e);
                            },
                            None => {
                                entries.push(e);
                            },
                        }
                        proof {
                            lemma_lookup_after_set(before, entries@, oe[m]);
                            assert forall|j: int| over@.len() <= j < n implies lookup(entries@, (#[trigger] oe[j]).0@) == Some(oe[j].1) by {
                                if j != m {
                                    assert(oe[j].0@ != oe[m].0@);
                                }
                            }
                            assert forall|k: Seq<char>| (forall|j: int| over@.len() <= j < n ==> oe[j].0@ != k)
                                implies #[trigger] lookup(entries@, k) == lookup(base_entries, k) by {
                                assert(oe[m].0@ != k);
                            }
                            assert(over@ =~= oe.take(over@.len() as int));
                        }
                    }
                    let r = Json::Object(entries);
                    proof {
                        assert forall|k: Seq<char>| #[trigger] json_get(r, k) == merged_value(b, ov, k) by {
                            lemma_position_spec(oe, k);
                            assert(json_get(ov, k) == lookup(oe, k));
                            assert(json_get(b, k) == lookup(base_entries, k));
                            assert(json_get(r, k) == lookup(entries@, k));
                            match entry_position(oe, k) {
                                Some(j) => {
                                    assert(lookup(entries@, oe[j].0@) == Some(oe[j].1));
                                },
                                None => {},
                            }
                        }
                    }
                    r
                },
                _ => Json::Object(entries),
            },
            _ => b,
        },
    }
}

/// A schedule must start after `now` and end, if it ends, after it starts.
/// Times are Unix seconds.
pub fn check_schedule_window(effective_from: i64, effective_to: Option<i64>, now: i64) -> (r: Result<(), String>)
    ensures
        effective_from <= now ==> (r matches Err(m) && m@ == "effective_from must be in the future"@),
        effective_from > now ==> match effective_to {
            Some(to) => if to <= effective_from {
                r matches Err(m) && m@ == "effective_to must be after effective_from"@
            } else {
                r is Ok
            },
            None => r is Ok,
        },
{
    if effective_from <= now {
        return Err(text("effective_from must be in the future"));
    }
    match effective_to {
        Some(to) => if to <= effective_from {
            return Err(text("effective_to must be after effective_from"));
        },
        None => {},
    }
    Ok(())
}

} // verus!
