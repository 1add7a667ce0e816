//! Structural difference between two configuration payloads.
//!
//! Keys only in the old object are removed, keys only in the new one are
//! added; a key in both is compared again when both values are objects, and
//! is modified otherwise when the values differ.  Arrays are compared whole.
use vstd::prelude::*;

use crate::json::{
    entries_same, entries_wf, entry_position, items_same, items_wf, json_clone, json_eq, json_same, json_wf,
    keys_unique, lemma_json_same_reflexive, lemma_json_same_symmetric, Json,
};
use crate::ops::config::{lemma_position_same_keys, lemma_position_spec, lookup, position_of};
use crate::text::{chars_of, push_str, string_of, text};

verus! {

broadcast use {vstd::string::group_string_axioms, vstd::slice::group_slice_axioms};

/// Dotted path of `key` under `parent` (the key alone at the top).
pub open spec fn child_path_of(parent: Seq<char>, key: Seq<char>) -> Seq<char> {
    if parent.len() == 0 {
        key
    } else {
        parent + "."@ + key
    }
}

/// A leaf comparison: no change when equal, one modification otherwise.
pub open spec fn leaf_of(path: Seq<char>, v1: Json, v2: Json) -> (
    Seq<(Seq<char>, Option<Json>, Option<Json>)>,
    Seq<(Seq<char>, Option<Json>, Option<Json>)>,
    Seq<(Seq<char>, Option<Json>, Option<Json>)>,
) {
    if json_same(v1, v2) {
        (seq![], seq![], seq![])
    } else {
        (seq![], seq![], seq![(path, Some(v1), Some(v2))])
    }
}

/// The changes under `path` from `v1` to `v2`, as (added, removed,
/// modified); each change is (path, old value, new value).
pub open spec fn walk_of(path: Seq<char>, v1: Json, v2: Json) -> (
    Seq<(Seq<char>, Option<Json>, Option<Json>)>,
    Seq<(Seq<char>, Option<Json>, Option<Json>)>,
    Seq<(Seq<char>, Option<Json>, Option<Json>)>,
)
    decreases v1,
{
    match v1 {
        Json::Object(o1) => match v2 {
            Json::Object(o2) => {
                proof {
                    assert(decreases_to!(v1 => v1->Object_0));
                    assert(decreases_to!(o1 => o1@));
                }
                let r = keys_walk_of(path, o1@, o2@);
                (r.0 + added_of(path, o1@, o2@), r.1, r.2)
            },
            _ => leaf_of(path, v1, v2),
        },
        _ => leaf_of(path, v1, v2),
    }
}

/// The changes from the entries `e1` of the old object, in order: a key
/// that the new object `o2` lacks is removed, one that it has is compared.
pub open spec fn keys_walk_of(path: Seq<char>, e1: Seq<(String, Json)>, o2: Seq<(String, Json)>) -> (
    Seq<(Seq<char>, Option<Json>, Option<Json>)>,
    Seq<(Seq<char>, Option<Json>, Option<Json>)>,
    Seq<(Seq<char>, Option<Json>, Option<Json>)>,
)
    decreases e1,
{
    if e1.len() == 0 {
        (seq![], seq![], seq![])
    } else {
        proof {
            assert(decreases_to!(e1 => e1.drop_last()));
            assert(decreases_to!(e1 => e1[e1.len() - 1]));
            assert(decreases_to!(e1[e1.len() - 1] => e1[e1.len() - 1].1));
        }
        let prev = keys_walk_of(path, e1.drop_last(), o2);
        let key = e1[e1.len() - 1].0@;
        let value = e1[e1.len() - 1].1;
        let cp = child_path_of(path, key);
        match lookup(o2, key) {
            Some(nv) => {
                let w = walk_of(cp, value, nv);
                (prev.0 + w.0, prev.1 + w.1, prev.2 + w.2)
            },
            None => (prev.0, prev.1.push((cp, Some(value), None)), prev.2),
        }
    }
}

/// The keys of the entries `e2` of the new object that the old object `o1`
/// lacks, as additions, in order.
pub open spec fn added_of(path: Seq<char>, o1: Seq<(String, Json)>, e2: Seq<(String, Json)>) -> Seq<
    (Seq<char>, Option<Json>, Option<Json>),
>
    decreases e2.len(),
{
    if e2.len() == 0 {
        seq![]
    } else {
        let prev = added_of(path, o1, e2.drop_last());
        let key = e2.last().0@;
        if lookup(o1, key) is Some {
            prev
        } else {
            prev.push((child_path_of(path, key), None, Some(e2.last().1)))
        }
    }
}

/// One changed field: its dotted path and the values before and after.
#[derive(Debug)]
pub struct FieldChange {
    pub path: String,
    pub old_value: Option<Json>,
    pub new_value: Option<Json>,
}

/// The difference between two versions of a configuration.
#[derive(Debug)]
pub struct DiffResult {
    pub v1_version: String,
    pub v2_version: String,
    pub total_changes: usize,
    pub added: Vec<FieldChange>,
    pub removed: Vec<FieldChange>,
    pub modified: Vec<FieldChange>,
}

/// An optional value equal to the expected one.
pub open spec fn opt_same(expected: Option<Json>, v: Option<Json>) -> bool {
    match expected {
        Some(a) => v matches Some(b) && json_same(a, b),
        None => v is None,
    }
}

/// A change carries the expected path and values.
pub open spec fn change_is(c: FieldChange, s: (Seq<char>, Option<Json>, Option<Json>)) -> bool {
    &&& c.path@ == s.0
    &&& opt_same(s.1, c.old_value)
    &&& opt_same(s.2, c.new_value)
}

/// Changes, one by one, as expected.
pub open spec fn changes_are(cs: Seq<FieldChange>, ss: Seq<(Seq<char>, Option<Json>, Option<Json>)>) -> bool {
    &&& cs.len() == ss.len()
    &&& forall|i: int| 0 <= i < cs.len() ==> change_is(#[trigger] cs[i], ss[i])
}

/// `after` is `before` followed by the changes `ss`.
pub open spec fn grew_by(
    before: Seq<FieldChange>,
    after: Seq<FieldChange>,
    ss: Seq<(Seq<char>, Option<Json>, Option<Json>)>,
) -> bool {
    &&& after.len() == before.len() + ss.len()
    &&& after.take(before.len() as int) == before
    &&& changes_are(after.skip(before.len() as int), ss)
}

proof fn lemma_grew_nothing(before: Seq<FieldChange>)
    ensures
        grew_by(before, before, seq![]),
{
    assert(before.take(before.len() as int) =~= before);
}

proof fn lemma_grew_push(before: Seq<FieldChange>, c: FieldChange, s: (Seq<char>, Option<Json>, Option<Json>))
    requires
        change_is(c, s),
    ensures
        grew_by(before, before.push(c), seq![s]),
{
    assert(before.push(c).take(before.len() as int) =~= before);
    assert(before.push(c).skip(before.len() as int) =~= seq![c]);
}

proof fn lemma_grew_trans(
    a: Seq<FieldChange>,
    b: Seq<FieldChange>,
    c: Seq<FieldChange>,
    s1: Seq<(Seq<char>, Option<Json>, Option<Json>)>,
    s2: Seq<(Seq<char>, Option<Json>, Option<Json>)>,
)
    requires
        grew_by(a, b, s1),
        grew_by(b, c, s2),
    ensures
        grew_by(a, c, s1 + s2),
{
    assert(c.take(a.len() as int) =~= b.take(a.len() as int)) by {
        assert forall|i: int| 0 <= i < a.len() implies c.take(a.len() as int)[i] == b.take(a.len() as int)[i] by {
            assert(c.take(b.len() as int)[i] == b[i]);
        }
    }
    assert forall|i: int| 0 <= i < c.len() - a.len() implies change_is(
        #[trigger] c.skip(a.len() as int)[i],
        (s1 + s2)[i],
    ) by {
        if i < s1.len() {
            assert(c.take(b.len() as int)[a.len() + i] == b[a.len() + i]);
            assert(b.skip(a.len() as int)[i] == b[a.len() + i]);
        } else {
            assert(c.skip(b.len() as int)[i - s1.len()] == c[a.len() + i]);
        }
    }
}

/// Dotted path of `key` under `parent`.
fn child_path(parent: &str, key: &str) -> (r: String)
    ensures
        r@ == child_path_of(parent@, key@),
{
    let p = chars_of(parent);
    if p.len() == 0 {
        text(key)
    } else {
        let mut v: Vec<char> = Vec::new();
        push_str(&mut v, parent);
        push_str(&mut v, ".");
        push_str(&mut v, key);
        proof {
            reveal_strlit(".");
        }
        string_of(v.as_slice())
    }
}

/// Records the changes under `path` from `v1` to `v2`.
fn walk(
    path: &str,
    v1: &Json,
    v2: &Json,
    added: &mut Vec<FieldChange>,
    removed: &mut Vec<FieldChange>,
    modified: &mut Vec<FieldChange>,
)
    ensures
        grew_by(old(added)@, final(added)@, walk_of(path@, *v1, *v2).0),
        grew_by(old(removed)@, final(removed)@, walk_of(path@, *v1, *v2).1),
        grew_by(old(modified)@, final(modified)@, walk_of(path@, *v1, *v2).2),
    decreases *v1,
{
    let ghost a0 = added@;
    let ghost r0 = removed@;
    let ghost m0 = modified@;
    match (v1, v2) {
        (Json::Object(o1), Json::Object(o2)) => {
            proof {
                lemma_grew_nothing(a0);
                lemma_grew_nothing(r0);
                lemma_grew_nothing(m0);
                assert(o1@.take(0) =~= Seq::<(String, Json)>::empty());
            }
            let mut i: usize = 0;
            while i < o1.len()
                invariant
                    i <= o1@.len(),
                    *v1 == Json::Object(*o1),
                    *v2 == Json::Object(*o2),
                    grew_by(a0, added@, keys_walk_of(path@, o1@.take(i as int), o2@).0),
                    grew_by(r0, removed@, keys_walk_of(path@, o1@.take(i as int), o2@).1),
                    grew_by(m0, modified@, keys_walk_of(path@, o1@.take(i as int), o2@).2),
                decreases o1.len() - i,
            {
                let ghost a1 = added@;
                let ghost r1 = removed@;
                let ghost m1 = modified@;
                let ghost e = o1@.take(i + 1);
                assert(e.drop_last() =~= o1@.take(i as int));
                assert(e[e.len() - 1] == o1@[i as int]);
                let cp = child_path(path, o1[i].0.as_str());
                match position_of(o2, o1[i].0.as_str()) {
                    Some(j) => {
                        proof {
                            assert(decreases_to!(*v1 => (*v1)->Object_0));
                            assert(decreases_to!(*o1 => o1@));
                            assert(decreases_to!(o1@ => o1@[i as int]));
                            assert(decreases_to!(o1@[i as int] => o1@[i as int].1));
                        }
                        walk(cp.as_str(), &o1[i].1, &o2[j].1, added, removed, modified);
                        proof {
                            let w = walk_of(cp@, o1@[i as int].1, o2@[j as int].1);
                            lemma_grew_trans(a0, a1, added@, keys_walk_of(path@, o1@.take(i as int), o2@).0, w.0);
                            lemma_grew_trans(r0, r1, removed@, keys_walk_of(path@, o1@.take(i as int), o2@).1, w.1);
                            lemma_grew_trans(m0, m1, modified@, keys_walk_of(path@, o1@.take(i as int), o2@).2, w.2);
                        }
                    },
                    None => {
                        let old_value = json_clone(&o1[i].1);
                        let c = FieldChange { path: cp, old_value: Some(old_value), new_value: None };
                        let ghost s = (child_path_of(path@, o1@[i as int].0@), Some(o1@[i as int].1), None::<Json>);
                        proof {
                            lemma_grew_push(r1, c, s);
                        }
                        removed.push(c);
                        proof {
                            lemma_grew_trans(r0, r1, removed@, keys_walk_of(path@, o1@.take(i as int), o2@).1, seq![s]);
                            lemma_grew_nothing(a1);
                            lemma_grew_nothing(m1);
                            lemma_grew_trans(a0, a1, added@, keys_walk_of(path@, o1@.take(i as int), o2@).0, seq![]);
                            lemma_grew_trans(m0, m1, modified@, keys_walk_of(path@, o1@.take(i as int), o2@).2, seq![]);
                            let k = keys_walk_of(path@, o1@.take(i as int), o2@);
                            assert(k.0 + seq![] =~= k.0);
                            assert(k.2 + seq![] =~= k.2);
                            assert(k.1.push(s) =~= k.1 + seq![s]);
                        }
                    },
                }
                i = i + 1;
            }
            assert(o1@.take(i as int) =~= o1@);
            let ghost a_mid = added@;
            let ghost kw = keys_walk_of(path@, o1@, o2@);
            proof {
                lemma_grew_nothing(a_mid);
                assert(o2@.take(0) =~= Seq::<(String, Json)>::empty());
            }
            let mut j: usize = 0;
            while j < o2.len()
                invariant
                    j <= o2@.len(),
                    *v1 == Json::Object(*o1),
                    *v2 == Json::Object(*o2),
                    grew_by(a0, a_mid, kw.0),
                    grew_by(a_mid, added@, added_of(path@, o1@, o2@.take(j as int))),
                decreases o2.len() - j,
            {
                let ghost e = o2@.take(j + 1);
                assert(e.drop_last() =~= o2@.take(j as int));
                assert(e.last() == o2@[j as int]);
                if position_of(o1, o2[j].0.as_str()).is_none() {
                    let cp = child_path(path, o2[j].0.as_str());
                    let new_value = json_clone(&o2[j].1);
                    let c = FieldChange { path: cp, old_value: None, new_value: Some(new_value) };
                    let ghost a1 = added@;
                    let ghost s = (child_path_of(path@, o2@[j as int].0@), None::<Json>, Some(o2@[j as int].1));
                    proof {
                        lemma_grew_push(a1, c, s);
                    }
                    added.push(c);
                    proof {
                        lemma_grew_trans(a_mid, a1, added@, added_of(path@, o1@, o2@.take(j as int)), seq![s]);
                        assert(added_of(path@, o1@, o2@.take(j as int)).push(s) =~= added_of(path@, o1@, o2@.take(j as int)) + seq![s]);
                    }
                }
                j = j + 1;
            }
            assert(o2@.take(j as int) =~= o2@);
            proof {
                lemma_grew_trans(a0, a_mid, added@, kw.0, added_of(path@, o1@, o2@));
            }
        },
        _ => {
            if json_eq(v1, v2) {
                proof {
                    lemma_grew_nothing(a0);
                    lemma_grew_nothing(r0);
                    lemma_grew_nothing(m0);
                }
            } else {
                let old_value = json_clone(v1);
                let new_value = json_clone(v2);
                let c = FieldChange { path: text(path), old_value: Some(old_value), new_value: Some(new_value) };
                proof {
                    lemma_grew_push(m0, c, (path@, Some(*v1), Some(*v2)));
                    lemma_grew_nothing(a0);
                    lemma_grew_nothing(r0);
                }
                modified.push(c);
            }
        },
    }
}

/// Compares `v1` (old) against `v2` (new); `v1_label` and `v2_label` name
/// the two versions for display.
pub fn diff_versions(v1: &Json, v2: &Json, v1_label: &str, v2_label: &str) -> (d: DiffResult)
    ensures
        d.v1_version@ == v1_label@,
        d.v2_version@ == v2_label@,
        changes_are(d.added@, walk_of(seq![], *v1, *v2).0),
        changes_are(d.removed@, walk_of(seq![], *v1, *v2).1),
        changes_are(d.modified@, walk_of(seq![], *v1, *v2).2),
        d.added@.len() + d.removed@.len() + d.modified@.len() <= usize::MAX ==> d.total_changes == d.added@.len()
            + d.removed@.len() + d.modified@.len(),
        d.added@.len() + d.removed@.len() + d.modified@.len() > usize::MAX ==> d.total_changes == usize::MAX,
{
    let mut added: Vec<FieldChange> = Vec::new();
    let mut removed: Vec<FieldChange> = Vec::new();
    let mut modified: Vec<FieldChange> = Vec::new();
    let root = text("");
    proof {
        reveal_strlit("");
    }
    walk(root.as_str(), v1, v2, &mut added, &mut removed, &mut modified);
    proof {
        assert(added@.skip(0) =~= added@);
        assert(removed@.skip(0) =~= removed@);
        assert(modified@.skip(0) =~= modified@);
        assert(root@ =~= seq![]);
    }
    let total = added.len().saturating_add(removed.len()).saturating_add(modified.len());
    DiffResult {
        v1_version: text(v1_label),
        v2_version: text(v2_label),
        total_changes: total,
        added,
        removed,
        modified,
    }
}

/// A well-formed entry list's values are well formed, one by one.
proof fn lemma_entries_wf_at(es: Seq<(String, Json)>, i: int)
    requires
        entries_wf(es),
        0 <= i < es.len(),
    ensures
        json_wf(es[i].1),
    decreases es.len(),
{
    if i < es.len() - 1 {
        assert(es.drop_last()[i] == es[i]);
        lemma_entries_wf_at(es.drop_last(), i);
    }
}

/// With each key once, the lookup of an entry's key gives that entry's
/// value.
proof fn lemma_lookup_own_key(es: Seq<(String, Json)>, i: int)
    requires
        keys_unique(es),
        0 <= i < es.len(),
    ensures
        lookup(es, es[i].0@) == Some(es[i].1),
{
    lemma_position_spec(es, es[i].0@);
}

/// Comparing the entries of a well-formed object with themselves gives no
/// change.
proof fn lemma_keys_walk_identical(path: Seq<char>, v: Json, es: Seq<(String, Json)>, k: int)
    requires
        v matches Json::Object(entries) && entries@ == es,
        keys_unique(es),
        entries_wf(es),
        0 <= k <= es.len(),
    ensures
        keys_walk_of(path, es.take(k), es) == (
            Seq::<(Seq<char>, Option<Json>, Option<Json>)>::empty(),
            Seq::<(Seq<char>, Option<Json>, Option<Json>)>::empty(),
            Seq::<(Seq<char>, Option<Json>, Option<Json>)>::empty(),
        ),
    decreases v, k,
{
    if k > 0 {
        let e = es.take(k);
        assert(e.drop_last() =~= es.take(k - 1));
        assert(e[e.len() - 1] == es[k - 1]);
        lemma_keys_walk_identical(path, v, es, k - 1);
        lemma_lookup_own_key(es, k - 1);
        lemma_entries_wf_at(es, k - 1);
        let entries = v->Object_0;
        assert(decreases_to!(v => entries));
        assert(decreases_to!(entries => entries@));
        assert(decreases_to!(es => es[k - 1]));
        assert(decreases_to!(es[k - 1] => es[k - 1].1));
        law_identical_versions_have_no_changes(child_path_of(path, es[k - 1].0@), es[k - 1].1);
        let w = walk_of(child_path_of(path, es[k - 1].0@), es[k - 1].1, es[k - 1].1);
        assert(Seq::<(Seq<char>, Option<Json>, Option<Json>)>::empty() + w.0 =~= w.0);
        assert(Seq::<(Seq<char>, Option<Json>, Option<Json>)>::empty() + w.1 =~= w.1);
        assert(Seq::<(Seq<char>, Option<Json>, Option<Json>)>::empty() + w.2 =~= w.2);
    } else {
        assert(es.take(0) =~= Seq::<(String, Json)>::empty());
    }
}

/// Every key of an object is found in it: nothing is added.
proof fn lemma_added_identical(path: Seq<char>, es: Seq<(String, Json)>, k: int)
    requires
        0 <= k <= es.len(),
    ensures
        added_of(path, es, es.take(k)) == Seq::<(Seq<char>, Option<Json>, Option<Json>)>::empty(),
    decreases k,
{
    if k > 0 {
        let e = es.take(k);
        assert(e.drop_last() =~= es.take(k - 1));
        assert(e.last() == es[k - 1]);
        lemma_added_identical(path, es, k - 1);
        lemma_position_spec(es, es[k - 1].0@);
    } else {
        assert(es.take(0) =~= Seq::<(String, Json)>::empty());
    }
}

/// The number of entries of an object (zero for other values).
pub open spec fn entry_count(v: Json) -> int {
    match v {
        Json::Object(es) => es@.len() as int,
        _ => 0,
    }
}

/// The paths of a list of changes.
pub open spec fn change_paths(cs: Seq<(Seq<char>, Option<Json>, Option<Json>)>) -> Set<Seq<char>> {
    Set::new(|p: Seq<char>| exists|i: int| 0 <= i < cs.len() && cs[i].0 == p)
}

/// Comparing `b` with `a` gives, path for path, the removals of comparing
/// `a` with `b` as additions, its additions as removals, and the same
/// modifications.
pub open spec fn walk_symmetric(path: Seq<char>, a: Json, b: Json) -> bool {
    let w = walk_of(path, a, b);
    let r = walk_of(path, b, a);
    &&& change_paths(r.0) == change_paths(w.1)
    &&& change_paths(r.1) == change_paths(w.0)
    &&& change_paths(r.2) == change_paths(w.2)
}

proof fn lemma_change_paths_add(a: Seq<(Seq<char>, Option<Json>, Option<Json>)>, b: Seq<(Seq<char>, Option<Json>, Option<Json>)>)
    ensures
        change_paths(a + b) == change_paths(a).union(change_paths(b)),
{
    assert forall|p: Seq<char>| change_paths(a + b).contains(p) <==> change_paths(a).union(change_paths(b)).contains(p) by {
        if change_paths(a + b).contains(p) {
            let i = choose|i: int| 0 <= i < (a + b).len() && (a + b)[i].0 == p;
            if i < a.len() {
                assert(a[i] == (a + b)[i]);
            } else {
                assert(b[i - a.len()] == (a + b)[i]);
            }
        }
        if change_paths(a).contains(p) {
            let i = choose|i: int| 0 <= i < a.len() && a[i].0 == p;
            assert((a + b)[i] == a[i]);
        }
        if change_paths(b).contains(p) {
            let i = choose|i: int| 0 <= i < b.len() && b[i].0 == p;
            assert((a + b)[a.len() + i] == b[i]);
        }
    }
    assert(change_paths(a + b) =~= change_paths(a).union(change_paths(b)));
}

proof fn lemma_change_paths_push(a: Seq<(Seq<char>, Option<Json>, Option<Json>)>, x: (Seq<char>, Option<Json>, Option<Json>))
    ensures
        change_paths(a.push(x)) == change_paths(a).insert(x.0),
{
    assert forall|p: Seq<char>| change_paths(a.push(x)).contains(p) <==> change_paths(a).insert(x.0).contains(p) by {
        if change_paths(a.push(x)).contains(p) {
            let i = choose|i: int| 0 <= i < a.push(x).len() && a.push(x)[i].0 == p;
            if i < a.len() {
                assert(a[i] == a.push(x)[i]);
            }
        }
        if change_paths(a).contains(p) {
            let i = choose|i: int| 0 <= i < a.len() && a[i].0 == p;
            assert(a.push(x)[i] == a[i]);
        }
        if p == x.0 {
            assert(a.push(x)[a.len() as int] == x);
        }
    }
    assert(change_paths(a.push(x)) =~= change_paths(a).insert(x.0));
}

proof fn lemma_change_paths_empty()
    ensures
        change_paths(seq![]) == Set::<Seq<char>>::empty(),
{
    assert(change_paths(seq![]) =~= Set::<Seq<char>>::empty());
}

/// The change paths contributed by entry `i` of `e1` against `o2`:
/// additions, removals and modifications.
spec fn entry_adds(path: Seq<char>, e1: Seq<(String, Json)>, o2: Seq<(String, Json)>, i: int, x: Seq<char>) -> bool {
    lookup(o2, e1[i].0@) matches Some(nv) && change_paths(walk_of(child_path_of(path, e1[i].0@), e1[i].1, nv).0).contains(x)
}

spec fn entry_removes(path: Seq<char>, e1: Seq<(String, Json)>, o2: Seq<(String, Json)>, i: int, x: Seq<char>) -> bool {
    match lookup(o2, e1[i].0@) {
        Some(nv) => change_paths(walk_of(child_path_of(path, e1[i].0@), e1[i].1, nv).1).contains(x),
        None => x == child_path_of(path, e1[i].0@),
    }
}

spec fn entry_modifies(path: Seq<char>, e1: Seq<(String, Json)>, o2: Seq<(String, Json)>, i: int, x: Seq<char>) -> bool {
    lookup(o2, e1[i].0@) matches Some(nv) && change_paths(walk_of(child_path_of(path, e1[i].0@), e1[i].1, nv).2).contains(x)
}

spec fn entry_added(path: Seq<char>, o1: Seq<(String, Json)>, e2: Seq<(String, Json)>, j: int, x: Seq<char>) -> bool {
    lookup(o1, e2[j].0@) is None && x == child_path_of(path, e2[j].0@)
}

proof fn lemma_keys_walk_members(path: Seq<char>, e1: Seq<(String, Json)>, o2: Seq<(String, Json)>, x: Seq<char>)
    ensures
        change_paths(keys_walk_of(path, e1, o2).0).contains(x)
            <==> exists|i: int| 0 <= i < e1.len() && #[trigger] entry_adds(path, e1, o2, i, x),
        change_paths(keys_walk_of(path, e1, o2).1).contains(x)
            <==> exists|i: int| 0 <= i < e1.len() && #[trigger] entry_removes(path, e1, o2, i, x),
        change_paths(keys_walk_of(path, e1, o2).2).contains(x)
            <==> exists|i: int| 0 <= i < e1.len() && #[trigger] entry_modifies(path, e1, o2, i, x),
    decreases e1.len(),
{
    if e1.len() == 0 {
        lemma_change_paths_empty();
    } else {
        let d = e1.drop_last();
        lemma_keys_walk_members(path, d, o2, x);
        let prev = keys_walk_of(path, d, o2);
        let n = e1.len() - 1;
        let key = e1[n].0@;
        let cp = child_path_of(path, key);
        assert forall|i: int| 0 <= i < d.len() implies d[i] == e1[i] by {}
        assert forall|i: int| 0 <= i < d.len() implies
            (entry_adds(path, d, o2, i, x) == entry_adds(path, e1, o2, i, x))
            && (entry_removes(path, d, o2, i, x) == entry_removes(path, e1, o2, i, x))
            && (entry_modifies(path, d, o2, i, x) == entry_modifies(path, e1, o2, i, x)) by {
            assert(d[i] == e1[i]);
        }
        match lookup(o2, key) {
            Some(nv) => {
                let w = walk_of(cp, e1[n].1, nv);
                lemma_change_paths_add(prev.0, w.0);
                lemma_change_paths_add(prev.1, w.1);
                lemma_change_paths_add(prev.2, w.2);
                if change_paths(prev.0 + w.0).contains(x) && !change_paths(prev.0).contains(x) {
                    assert(entry_adds(path, e1, o2, n, x));
                }
                if change_paths(prev.1 + w.1).contains(x) && !change_paths(prev.1).contains(x) {
                    assert(entry_removes(path, e1, o2, n, x));
                }
                if change_paths(prev.2 + w.2).contains(x) && !change_paths(prev.2).contains(x) {
                    assert(entry_modifies(path, e1, o2, n, x));
                }
            },
            None => {
                lemma_change_paths_push(prev.1, (cp, Some(e1[n].1), None));
                if x == cp {
                    assert(entry_removes(path, e1, o2, n, x));
                }
            },
        }
    }
}

proof fn lemma_added_members(path: Seq<char>, o1: Seq<(String, Json)>, e2: Seq<(String, Json)>, x: Seq<char>)
    ensures
        change_paths(added_of(path, o1, e2)).contains(x)
            <==> exists|j: int| 0 <= j < e2.len() && #[trigger] entry_added(path, o1, e2, j, x),
    decreases e2.len(),
{
    if e2.len() == 0 {
        lemma_change_paths_empty();
    } else {
        let d = e2.drop_last();
        lemma_added_members(path, o1, d, x);
        let n = e2.len() - 1;
        assert forall|j: int| 0 <= j < d.len() implies entry_added(path, o1, d, j, x) == entry_added(path, o1, e2, j, x) by {
            assert(d[j] == e2[j]);
        }
        let prev = added_of(path, o1, d);
        if lookup(o1, e2.last().0@) is None {
            lemma_change_paths_push(prev, (child_path_of(path, e2.last().0@), None, Some(e2.last().1)));
            if x == child_path_of(path, e2.last().0@) {
                assert(entry_added(path, o1, e2, n, x));
            }
        }
    }
}

proof fn lemma_leaf_symmetric(path: Seq<char>, v1: Json, v2: Json)
    requires
        walk_of(path, v1, v2) == leaf_of(path, v1, v2),
        walk_of(path, v2, v1) == leaf_of(path, v2, v1),
    ensures
        walk_symmetric(path, v1, v2),
{
    lemma_json_same_symmetric(v1, v2);
    let a = leaf_of(path, v1, v2);
    let b = leaf_of(path, v2, v1);
    assert forall|p: Seq<char>| change_paths(a.2).contains(p) <==> change_paths(b.2).contains(p) by {
        if change_paths(a.2).contains(p) {
            assert(b.2[0].0 == p);
        }
        if change_paths(b.2).contains(p) {
            assert(a.2[0].0 == p);
        }
    }
    assert(change_paths(a.2) =~= change_paths(b.2));
}

/// Swapping the two versions swaps additions and removals and keeps the
/// modifications, path for path (both versions well formed).
pub proof fn law_diff_swaps_added_and_removed(path: Seq<char>, v1: Json, v2: Json)
    requires
        json_wf(v1),
        json_wf(v2),
    ensures
        walk_symmetric(path, v1, v2),
    decreases v1,
{
    match v1 {
        Json::Object(o1) => match v2 {
            Json::Object(o2) => {
                let es1 = o1@;
                let es2 = o2@;
                assert forall|i: int, j: int| 0 <= i < es1.len() && 0 <= j < es2.len() && es1[i].0@ == es2[j].0@ implies
                    #[trigger] walk_symmetric(child_path_of(path, es1[i].0@), es1[i].1, es2[j].1) by {
                    assert(decreases_to!(v1 => v1->Object_0));
                    assert(decreases_to!(o1 => o1@));
                    assert(decreases_to!(es1 => es1[i]));
                    assert(decreases_to!(es1[i] => es1[i].1));
                    lemma_entries_wf_at(es1, i);
                    lemma_entries_wf_at(es2, j);
                    law_diff_swaps_added_and_removed(child_path_of(path, es1[i].0@), es1[i].1, es2[j].1);
                }
                let k12 = keys_walk_of(path, es1, es2);
                let k21 = keys_walk_of(path, es2, es1);
                let a12 = added_of(path, es1, es2);
                let a21 = added_of(path, es2, es1);
                assert(walk_of(path, v1, v2) == (k12.0 + a12, k12.1, k12.2));
                assert(walk_of(path, v2, v1) == (k21.0 + a21, k21.1, k21.2));
                lemma_change_paths_add(k12.0, a12);
                lemma_change_paths_add(k21.0, a21);
                assert forall|x: Seq<char>| #![trigger change_paths(k12.1).contains(x)]
                    change_paths(k21.0 + a21).contains(x) <==> change_paths(k12.1).contains(x) by {
                    lemma_keys_walk_members(path, es1, es2, x);
                    lemma_keys_walk_members(path, es2, es1, x);
                    lemma_added_members(path, es2, es1, x);
                    if exists|j: int| 0 <= j < es2.len() && #[trigger] entry_adds(path, es2, es1, j, x) {
                        let j = choose|j: int| 0 <= j < es2.len() && #[trigger] entry_adds(path, es2, es1, j, x);
                        lemma_position_spec(es1, es2[j].0@);
                        let i = entry_position(es1, es2[j].0@).unwrap();
                        lemma_lookup_own_key(es2, j);
                        assert(walk_symmetric(child_path_of(path, es1[i].0@), es1[i].1, es2[j].1));
                        assert(entry_removes(path, es1, es2, i, x));
                    }
                    if exists|i: int| 0 <= i < es1.len() && #[trigger] entry_added(path, es2, es1, i, x) {
                        let i = choose|i: int| 0 <= i < es1.len() && #[trigger] entry_added(path, es2, es1, i, x);
                        assert(entry_removes(path, es1, es2, i, x));
                    }
                    if exists|i: int| 0 <= i < es1.len() && #[trigger] entry_removes(path, es1, es2, i, x) {
                        let i = choose|i: int| 0 <= i < es1.len() && #[trigger] entry_removes(path, es1, es2, i, x);
                        match lookup(es2, es1[i].0@) {
                            Some(nv) => {
                                lemma_position_spec(es2, es1[i].0@);
                                let j = entry_position(es2, es1[i].0@).unwrap();
                                lemma_lookup_own_key(es1, i);
                                assert(walk_symmetric(child_path_of(path, es1[i].0@), es1[i].1, es2[j].1));
                                assert(entry_adds(path, es2, es1, j, x));
                            },
                            None => {
                                assert(entry_added(path, es2, es1, i, x));
                            },
                        }
                    }
                }
                assert forall|x: Seq<char>| #![trigger change_paths(k21.1).contains(x)]
                    change_paths(k21.1).contains(x) <==> change_paths(k12.0 + a12).contains(x) by {
                    lemma_keys_walk_members(path, es1, es2, x);
                    lemma_keys_walk_members(path, es2, es1, x);
                    lemma_added_members(path, es1, es2, x);
                    if exists|j: int| 0 <= j < es2.len() && #[trigger] entry_removes(path, es2, es1, j, x) {
                        let j = choose|j: int| 0 <= j < es2.len() && #[trigger] entry_removes(path, es2, es1, j, x);
                        match lookup(es1, es2[j].0@) {
                            Some(ov) => {
                                lemma_position_spec(es1, es2[j].0@);
                                let i = entry_position(es1, es2[j].0@).unwrap();
                                lemma_lookup_own_key(es2, j);
                                assert(walk_symmetric(child_path_of(path, es1[i].0@), es1[i].1, es2[j].1));
                                assert(entry_adds(path, es1, es2, i, x));
                            },
                            None => {
                                assert(entry_added(path, es1, es2, j, x));
                            },
                        }
                    }
                    if exists|i: int| 0 <= i < es1.len() && #[trigger] entry_adds(path, es1, es2, i, x) {
                        let i = choose|i: int| 0 <= i < es1.len() && #[trigger] entry_adds(path, es1, es2, i, x);
                        lemma_position_spec(es2, es1[i].0@);
                        let j = entry_position(es2, es1[i].0@).unwrap();
                        lemma_lookup_own_key(es1, i);
                        assert(walk_symmetric(child_path_of(path, es1[i].0@), es1[i].1, es2[j].1));
                        assert(entry_removes(path, es2, es1, j, x));
                    }
                    if exists|j: int| 0 <= j < es2.len() && #[trigger] entry_added(path, es1, es2, j, x) {
                        let j = choose|j: int| 0 <= j < es2.len() && #[trigger] entry_added(path, es1, es2, j, x);
                        assert(entry_removes(path, es2, es1, j, x));
                    }
                }
                assert forall|x: Seq<char>| #![trigger change_paths(k21.2).contains(x)]
                    change_paths(k21.2).contains(x) <==> change_paths(k12.2).contains(x) by {
                    lemma_keys_walk_members(path, es1, es2, x);
                    lemma_keys_walk_members(path, es2, es1, x);
                    if exists|j: int| 0 <= j < es2.len() && #[trigger] entry_modifies(path, es2, es1, j, x) {
                        let j = choose|j: int| 0 <= j < es2.len() && #[trigger] entry_modifies(path, es2, es1, j, x);
                        lemma_position_spec(es1, es2[j].0@);
                        let i = entry_position(es1, es2[j].0@).unwrap();
                        lemma_lookup_own_key(es2, j);
                        assert(walk_symmetric(child_path_of(path, es1[i].0@), es1[i].1, es2[j].1));
                        assert(entry_modifies(path, es1, es2, i, x));
                    }
                    if exists|i: int| 0 <= i < es1.len() && #[trigger] entry_modifies(path, es1, es2, i, x) {
                        let i = choose|i: int| 0 <= i < es1.len() && #[trigger] entry_modifies(path, es1, es2, i, x);
                        lemma_position_spec(es2, es1[i].0@);
                        let j = entry_position(es2, es1[i].0@).unwrap();
                        lemma_lookup_own_key(es1, i);
                        assert(walk_symmetric(child_path_of(path, es1[i].0@), es1[i].1, es2[j].1));
                        assert(entry_modifies(path, es2, es1, j, x));
                    }
                }
                assert(change_paths(k21.0 + a21) =~= change_paths(k12.1));
                assert(change_paths(k21.1) =~= change_paths(k12.0 + a12));
                assert(change_paths(k21.2) =~= change_paths(k12.2));
            },
            _ => {
                lemma_leaf_symmetric(path, v1, v2);
            },
        },
        _ => {
            lemma_leaf_symmetric(path, v1, v2);
        },
    }
}

/// Equality of JSON values as `serde_json` compares them, its objects being
/// maps: objects with the same keys and equal values under each key, in any
/// order; arrays item by item; other values as `json_same` has them.
pub open spec fn json_equiv(a: Json, b: Json) -> bool
    decreases a,
{
    match a {
        Json::Object(es) => match b {
            Json::Object(fs) => keys_covered(fs@, es@) && entries_equiv(es@, fs@),
            _ => false,
        },
        Json::Array(xs) => match b {
            Json::Array(ys) => xs@.len() == ys@.len() && items_equiv(xs@, ys@),
            _ => false,
        },
        _ => json_same(a, b),
    }
}

/// Every key of the entries `fs` is a key of the object `es`.
pub open spec fn keys_covered(fs: Seq<(String, Json)>, es: Seq<(String, Json)>) -> bool {
    forall|j: int| 0 <= j < fs.len() ==> lookup(es, #[trigger] fs[j].0@) is Some
}

/// Every entry of `es` has its key in the object `fs`, with an equal value.
pub open spec fn entries_equiv(es: Seq<(String, Json)>, fs: Seq<(String, Json)>) -> bool
    decreases es,
{
    if es.len() == 0 {
        true
    } else {
        &&& entries_equiv(es.drop_last(), fs)
        &&& match lookup(fs, es.last().0@) {
            Some(y) => json_equiv(es.last().1, y),
            None => false,
        }
    }
}

/// Items equal position by position (over the length of `xs`).
pub open spec fn items_equiv(xs: Seq<Json>, ys: Seq<Json>) -> bool
    decreases xs,
{
    if xs.len() == 0 {
        true
    } else {
        &&& items_equiv(xs.drop_last(), ys)
        &&& json_equiv(xs.last(), ys[xs.len() - 1])
    }
}

proof fn lemma_entries_same_at(es: Seq<(String, Json)>, fs: Seq<(String, Json)>)
    requires
        entries_same(es, fs),
        es.len() <= fs.len(),
    ensures
        forall|i: int| 0 <= i < es.len() ==> (#[trigger] es[i]).0@ == fs[i].0@ && json_same(es[i].1, fs[i].1),
    decreases es.len(),
{
    if es.len() > 0 {
        lemma_entries_same_at(es.drop_last(), fs);
        assert forall|i: int| 0 <= i < es.len() - 1 implies es.drop_last()[i] == es[i] by {}
    }
}

proof fn lemma_items_same_at(xs: Seq<Json>, ys: Seq<Json>)
    requires
        items_same(xs, ys),
        xs.len() <= ys.len(),
    ensures
        forall|i: int| 0 <= i < xs.len() ==> json_same(#[trigger] xs[i], ys[i]),
    decreases xs.len(),
{
    if xs.len() > 0 {
        lemma_items_same_at(xs.drop_last(), ys);
        assert forall|i: int| 0 <= i < xs.len() - 1 implies xs.drop_last()[i] == xs[i] by {}
    }
}

proof fn lemma_items_wf_at(xs: Seq<Json>, i: int)
    requires
        items_wf(xs),
        0 <= i < xs.len(),
    ensures
        json_wf(xs[i]),
    decreases xs.len(),
{
    if i < xs.len() - 1 {
        assert(xs.drop_last()[i] == xs[i]);
        lemma_items_wf_at(xs.drop_last(), i);
    }
}

/// Values equal entry by entry are equal as maps.
proof fn lemma_same_is_equiv(a: Json, b: Json)
    requires
        json_wf(a),
        json_same(a, b),
    ensures
        json_equiv(a, b),
    decreases a,
{
    match a {
        Json::Object(es) => {
            let fs = b->Object_0;
            lemma_entries_same_at(es@, fs@);
            assert forall|j: int| 0 <= j < fs@.len() implies lookup(es@, #[trigger] fs@[j].0@) is Some by {
                lemma_lookup_own_key(es@, j);
            }
            lemma_entries_same_equiv(a, es@, fs@, es@.len() as int);
            assert(es@.take(es@.len() as int) =~= es@);
        },
        Json::Array(xs) => {
            let ys = b->Array_0;
            lemma_items_same_at(xs@, ys@);
            lemma_items_same_equiv(a, xs@, ys@, xs@.len() as int);
            assert(xs@.take(xs@.len() as int) =~= xs@);
        },
        _ => {},
    }
}

proof fn lemma_entries_same_equiv(v: Json, es: Seq<(String, Json)>, fs: Seq<(String, Json)>, k: int)
    requires
        v matches Json::Object(entries) && entries@ == es,
        json_wf(v),
        es.len() == fs.len(),
        forall|i: int| 0 <= i < es.len() ==> (#[trigger] es[i]).0@ == fs[i].0@ && json_same(es[i].1, fs[i].1),
        0 <= k <= es.len(),
    ensures
        entries_equiv(es.take(k), fs),
    decreases v, k,
{
    if k > 0 {
        assert(es.take(k).drop_last() =~= es.take(k - 1));
        lemma_entries_same_equiv(v, es, fs, k - 1);
        let entries = v->Object_0;
        assert(decreases_to!(v => entries));
        assert(decreases_to!(entries => entries@));
        assert(decreases_to!(es => es[k - 1]));
        assert(decreases_to!(es[k - 1] => es[k - 1].1));
        assert forall|j: int| 0 <= j < es.len() implies #[trigger] es[j].0@ == fs[j].0@ by {}
        lemma_position_same_keys(es, fs, es[k - 1].0@);
        lemma_lookup_own_key(es, k - 1);
        lemma_position_spec(es, es[k - 1].0@);
        assert(lookup(fs, es[k - 1].0@) == Some(fs[k - 1].1));
        lemma_entries_wf_at(es, k - 1);
        lemma_same_is_equiv(es[k - 1].1, fs[k - 1].1);
        assert(es.take(k).last() == es[k - 1]);
    }
}

proof fn lemma_items_same_equiv(v: Json, xs: Seq<Json>, ys: Seq<Json>, k: int)
    requires
        v matches Json::Array(items) && items@ == xs,
        json_wf(v),
        xs.len() == ys.len(),
        forall|i: int| 0 <= i < xs.len() ==> json_same(#[trigger] xs[i], ys[i]),
        0 <= k <= xs.len(),
    ensures
        items_equiv(xs.take(k), ys),
    decreases v, k,
{
    if k > 0 {
        assert(xs.take(k).drop_last() =~= xs.take(k - 1));
        lemma_items_same_equiv(v, xs, ys, k - 1);
        let items = v->Array_0;
        assert(decreases_to!(v => items));
        assert(decreases_to!(items => items@));
        assert(decreases_to!(xs => xs[k - 1]));
        lemma_items_wf_at(xs, k - 1);
        lemma_same_is_equiv(xs[k - 1], ys[k - 1]);
        assert(xs.take(k).last() == xs[k - 1]);
    }
}

proof fn lemma_added_none(path: Seq<char>, o1: Seq<(String, Json)>, e2: Seq<(String, Json)>)
    requires
        added_of(path, o1, e2).len() == 0,
    ensures
        keys_covered(e2, o1),
    decreases e2.len(),
{
    if e2.len() > 0 {
        lemma_added_none(path, o1, e2.drop_last());
        assert forall|j: int| 0 <= j < e2.len() implies lookup(o1, #[trigger] e2[j].0@) is Some by {
            if j < e2.len() - 1 {
                assert(e2.drop_last()[j] == e2[j]);
            }
        }
    }
}

/// Entries whose comparison gives no change are equal as maps.
proof fn lemma_keys_walk_none(v: Json, path: Seq<char>, e1: Seq<(String, Json)>, o2: Seq<(String, Json)>)
    requires
        v matches Json::Object(entries) && entries@.len() >= e1.len()
            && forall|i: int| 0 <= i < e1.len() ==> #[trigger] e1[i] == entries@[i],
        json_wf(v),
        entries_wf(o2),
        keys_unique(o2),
        keys_walk_of(path, e1, o2).0.len() == 0,
        keys_walk_of(path, e1, o2).1.len() == 0,
        keys_walk_of(path, e1, o2).2.len() == 0,
    ensures
        entries_equiv(e1, o2),
    decreases v, e1.len(),
{
    if e1.len() > 0 {
        let d = e1.drop_last();
        assert forall|i: int| 0 <= i < d.len() implies #[trigger] d[i] == v->Object_0@[i] by {
            assert(d[i] == e1[i]);
        }
        let n = e1.len() - 1;
        let key = e1[n].0@;
        match lookup(o2, key) {
            Some(nv) => {
                lemma_keys_walk_none(v, path, d, o2);
                let entries = v->Object_0;
                assert(decreases_to!(v => entries));
                assert(decreases_to!(entries => entries@));
                assert(entries@[n] == e1[n]);
                assert(decreases_to!(entries@ => entries@[n]));
                assert(decreases_to!(entries@[n] => entries@[n].1));
                lemma_entries_wf_at(entries@, n);
                lemma_position_spec(o2, key);
                let p = entry_position(o2, key).unwrap();
                lemma_entries_wf_at(o2, p);
                law_no_changes_only_for_equal_versions(child_path_of(path, key), e1[n].1, nv);
            },
            None => {},
        }
    }
}

/// Comparing two well-formed values gives no change only when they are
/// equal as `serde_json` values: the same keys with equal values under each,
/// whatever the order of the keys.
pub proof fn law_no_changes_only_for_equal_versions(path: Seq<char>, v1: Json, v2: Json)
    requires
        json_wf(v1),
        json_wf(v2),
        walk_of(path, v1, v2).0.len() == 0,
        walk_of(path, v1, v2).1.len() == 0,
        walk_of(path, v1, v2).2.len() == 0,
    ensures
        json_equiv(v1, v2),
    decreases v1,
{
    match v1 {
        Json::Object(o1) => match v2 {
            Json::Object(o2) => {
                let k12 = keys_walk_of(path, o1@, o2@);
                let a12 = added_of(path, o1@, o2@);
                assert(walk_of(path, v1, v2) == (k12.0 + a12, k12.1, k12.2));
                lemma_added_none(path, o1@, o2@);
                lemma_keys_walk_none(v1, path, o1@, o2@);
            },
            _ => {},
        },
        _ => {
            assert(json_same(v1, v2));
            lemma_same_is_equiv(v1, v2);
        },
    }
}

/// Comparing a well-formed value with itself gives no change: no field is
/// added, removed or modified.
pub proof fn law_identical_versions_have_no_changes(path: Seq<char>, v: Json)
    requires
        json_wf(v),
    ensures
        walk_of(path, v, v) == (
            Seq::<(Seq<char>, Option<Json>, Option<Json>)>::empty(),
            Seq::<(Seq<char>, Option<Json>, Option<Json>)>::empty(),
            Seq::<(Seq<char>, Option<Json>, Option<Json>)>::empty(),
        ),
    decreases v, entry_count(v) + 1,
{
    match v {
        Json::Object(es) => {
            lemma_keys_walk_identical(path, v, es@, es@.len() as int);
            assert(es@.take(es@.len() as int) =~= es@);
            lemma_added_identical(path, es@, es@.len() as int);
            assert(Seq::<(Seq<char>, Option<Json>, Option<Json>)>::empty() + Seq::<(Seq<char>, Option<Json>, Option<Json>)>::empty() =~= Seq::<(Seq<char>, Option<Json>, Option<Json>)>::empty());
        },
        _ => {
            lemma_json_same_reflexive(v);
        },
    }
}

} // verus!
