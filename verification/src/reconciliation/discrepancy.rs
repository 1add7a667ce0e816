//! Duplicate detection and amount classification, independent of storage.
use vstd::prelude::*;

use crate::reconciliation::models::{high_discrepancy, DiscrepancyType, StatementRecord};
use crate::text::str_eq;

verus! {

/// Largest difference, in micros (0.01 of the currency unit), between the
/// expected and the actual amount of a `matched` pair.
pub const AMOUNT_TOLERANCE: i64 = 10_000;

/// The references of a statement, in order.
pub open spec fn refs_of(records: Seq<StatementRecord>) -> Seq<Seq<char>> {
    Seq::new(records.len(), |i: int| records[i].reference@)
}

/// Ascending positions at which `r` occurs in `refs`.
pub open spec fn occurrences(refs: Seq<Seq<char>>, r: Seq<char>) -> Seq<usize>
    decreases refs.len(),
{
    if refs.len() == 0 {
        Seq::<usize>::empty()
    } else {
        let o = occurrences(refs.drop_last(), r);
        if refs.last() == r {
            o.push((refs.len() - 1) as usize)
        } else {
            o
        }
    }
}

/// References occurring more than once, each with all its positions.
pub struct DuplicateGroup {
    pub reference: String,
    pub indices: Vec<usize>,
}

/// Map from each reference that occurs more than once to the ascending
/// positions of all rows carrying it.
pub struct DuplicateMap {
    groups: Vec<DuplicateGroup>,
}

impl DuplicateMap {
    pub closed spec fn group_count(&self) -> nat {
        self.groups@.len()
    }

    pub closed spec fn group_ref(&self, g: int) -> Seq<char> {
        self.groups@[g].reference@
    }

    pub closed spec fn group_indices(&self, g: int) -> Seq<usize> {
        self.groups@[g].indices@
    }

    /// The positions recorded for `r`, if `r` has a group.
    pub open spec fn lookup(&self, r: Seq<char>) -> Option<Seq<usize>> {
        if exists|g: int| 0 <= g < self.group_count() && self.group_ref(g) == r {
            let g = choose|g: int| 0 <= g < self.group_count() && self.group_ref(g) == r;
            Some(self.group_indices(g))
        } else {
            None
        }
    }

    /// `self` is the duplicate map of the reference list `refs`: exactly the
    /// references occurring more than once, each once, with all positions.
    pub open spec fn describes(&self, refs: Seq<Seq<char>>) -> bool {
        &&& forall|g1: int, g2: int|
            0 <= g1 < self.group_count() && 0 <= g2 < self.group_count() && g1 != g2
                ==> self.group_ref(g1) != self.group_ref(g2)
        &&& forall|g: int| 0 <= g < self.group_count()
            ==> #[trigger] self.group_indices(g) == occurrences(refs, self.group_ref(g))
        &&& forall|r: Seq<char>| (exists|g: int| 0 <= g < self.group_count() && self.group_ref(g) == r)
            <==> #[trigger] occurrences(refs, r).len() > 1
    }

    /// Number of duplicated references.
    pub fn len(&self) -> (r: usize)
        ensures
            r == self.group_count(),
    {
        self.groups.len()
    }

    /// No reference is duplicated.
    pub fn is_empty(&self) -> (r: bool)
        ensures
            r == (self.group_count() == 0),
    {
        self.groups.len() == 0
    }

    /// The positions of `reference`, if it is duplicated.
    pub fn get(&self, reference: &str) -> (r: Option<&Vec<usize>>)
        ensures
            r is Some <==> exists|g: int| 0 <= g < self.group_count() && self.group_ref(g) == reference@,
            r matches Some(v) ==> exists|g: int|
                0 <= g < self.group_count() && self.group_ref(g) == reference@ && v@ == self.group_indices(g),
    {
        let mut g: usize = 0;
        while g < self.groups.len()
            invariant
                g <= self.groups@.len(),
                forall|k: int| 0 <= k < g ==> self.group_ref(k) != reference@,
            decreases self.groups.len() - g,
        {
            if str_eq(self.groups[g].reference.as_str(), reference) {
                assert(self.group_ref(g as int) == reference@);
                return Some(&self.groups[g].indices);
            }
            g = g + 1;
        }
        None
    }

    /// The positions of the `g`-th duplicated reference.
    pub fn group_at(&self, g: usize) -> (r: &Vec<usize>)
        requires
            g < self.group_count(),
        ensures
            r@ == self.group_indices(g as int),
    {
        &self.groups[g].indices
    }

    /// Whether `reference` is duplicated.
    pub fn contains_key(&self, reference: &str) -> (r: bool)
        ensures
            r == exists|g: int| 0 <= g < self.group_count() && self.group_ref(g) == reference@,
    {
        self.get(reference).is_some()
    }
}

proof fn lemma_occurrences_step(refs: Seq<Seq<char>>, k: int, r: Seq<char>)
    requires
        0 <= k < refs.len(),
    ensures
        occurrences(refs.take(k + 1), r) == if refs[k] == r {
            occurrences(refs.take(k), r).push(k as usize)
        } else {
            occurrences(refs.take(k), r)
        },
{
    assert(refs.take(k + 1).drop_last() =~= refs.take(k));
}

proof fn lemma_occurrences_empty(refs: Seq<Seq<char>>, r: Seq<char>)
    ensures
        occurrences(refs.take(0), r).len() == 0,
{
    assert(refs.take(0).len() == 0);
}

proof fn lemma_occurrences_members(refs: Seq<Seq<char>>, r: Seq<char>)
    requires
        refs.len() <= usize::MAX,
    ensures
        forall|i: int| 0 <= i < occurrences(refs, r).len() ==>
            (#[trigger] occurrences(refs, r)[i]) < refs.len() && refs[occurrences(refs, r)[i] as int] == r,
        forall|i: int, j: int| 0 <= i < j < occurrences(refs, r).len() ==>
            #[trigger] occurrences(refs, r)[i] < #[trigger] occurrences(refs, r)[j],
        forall|k: int| 0 <= k < refs.len() && refs[k] == r ==> #[trigger] occurrences(refs, r).contains(k as usize),
    decreases refs.len(),
{
    if refs.len() > 0 {
        let p = refs.drop_last();
        lemma_occurrences_members(p, r);
        let o = occurrences(p, r);
        let cur = occurrences(refs, r);
        assert(cur == if refs.last() == r { o.push((refs.len() - 1) as usize) } else { o });
        assert forall|i: int| 0 <= i < cur.len() implies
            (#[trigger] cur[i]) < refs.len() && refs[cur[i] as int] == r by {
            if i < o.len() {
                assert(cur[i] == o[i]);
                assert(refs[o[i] as int] == p[o[i] as int]);
            } else {
                assert(cur[i] == (refs.len() - 1) as usize);
            }
        }
        assert forall|i: int, j: int| 0 <= i < j < cur.len() implies #[trigger] cur[i] < #[trigger] cur[j] by {
            if j < o.len() {
                assert(cur[i] == o[i] && cur[j] == o[j]);
            } else {
                assert(cur[i] == o[i]);
            }
        }
        assert forall|k: int| 0 <= k < refs.len() && refs[k] == r implies #[trigger] cur.contains(k as usize) by {
            if k < refs.len() - 1 {
                assert(p[k] == refs[k]);
                assert(o.contains(k as usize));
                let m = choose|m: int| 0 <= m < o.len() && o[m] == k as usize;
                assert(cur[m] == o[m]);
            } else {
                assert(cur[cur.len() - 1] == k as usize);
            }
        }
    }
}

/// A statement row is a duplicate exactly when another row carries the same
/// reference: its position then lies in a group of the map, and no other
/// position does (the references being those of a statement held in memory).
pub proof fn law_duplicate_exactly_when_shared(m: DuplicateMap, refs: Seq<Seq<char>>, idx: usize)
    requires
        m.describes(refs),
        refs.len() <= usize::MAX,
    ensures
        (exists|g: int| 0 <= g < m.group_count() && #[trigger] m.group_indices(g).contains(idx))
            <==> (idx < refs.len() && exists|j: int| 0 <= j < refs.len() && j != idx && #[trigger] refs[j] == refs[idx as int]),
{
    if exists|g: int| 0 <= g < m.group_count() && #[trigger] m.group_indices(g).contains(idx) {
        let g = choose|g: int| 0 <= g < m.group_count() && #[trigger] m.group_indices(g).contains(idx);
        let r = m.group_ref(g);
        let occ = occurrences(refs, r);
        assert(m.group_indices(g) == occ);
        lemma_occurrences_members(refs, r);
        assert(occ.len() > 1);
        let a = choose|a: int| 0 <= a < occ.len() && occ[a] == idx;
        let b = if a == 0 { 1int } else { 0int };
        assert(occ[a] != occ[b]);
        assert(refs[occ[b] as int] == r);
        assert(refs[idx as int] == r);
    }
    if idx < refs.len() && exists|j: int| 0 <= j < refs.len() && j != idx && #[trigger] refs[j] == refs[idx as int] {
        let j = choose|j: int| 0 <= j < refs.len() && j != idx && #[trigger] refs[j] == refs[idx as int];
        let r = refs[idx as int];
        let occ = occurrences(refs, r);
        lemma_occurrences_members(refs, r);
        assert(refs[idx as int] == r && refs[j] == r);
        assert(occurrences(refs, r).contains((idx as int) as usize));
        assert(occurrences(refs, r).contains(j as usize));
        let a = choose|a: int| 0 <= a < occ.len() && occ[a] == idx;
        let b = choose|b: int| 0 <= b < occ.len() && occ[b] == j as usize;
        assert(a != b);
        assert(occ.len() > 1);
        assert(exists|g: int| 0 <= g < m.group_count() && m.group_ref(g) == r);
        let g = choose|g: int| 0 <= g < m.group_count() && m.group_ref(g) == r;
        assert(m.group_indices(g) == occ);
    }
}

/// Position of the group whose reference is `reference`, if any.
fn position_of(groups: &Vec<DuplicateGroup>, reference: &String) -> (r: Option<usize>)
    ensures
        r matches Some(g) ==> g < groups@.len() && groups@[g as int].reference@ == reference@,
        r is None ==> forall|k: int| 0 <= k < groups@.len() ==> groups@[k].reference@ != reference@,
{
    let mut g: usize = 0;
    while g < groups.len()
        invariant
            g <= groups@.len(),
            forall|k: int| 0 <= k < g ==> groups@[k].reference@ != reference@,
        decreases groups.len() - g,
    {
        if str_eq(groups[g].reference.as_str(), reference.as_str()) {
            return Some(g);
        }
        g = g + 1;
    }
    None
}

/// Group statement records by reference and keep the references that occur
/// more than once, each with the ascending positions of all its rows.
pub fn find_duplicates(records: &[StatementRecord]) -> (m: DuplicateMap)
    ensures
        m.describes(refs_of(records@)),
{
    let ghost refs = refs_of(records@);
    let mut all: Vec<DuplicateGroup> = Vec::new();
    let mut i: usize = 0;
    proof {
        assert forall|r: Seq<char>| occurrences(refs.take(0), r).len() == 0 by {
            lemma_occurrences_empty(refs, r);
        }
    }
    while i < records.len()
        invariant
            i <= records@.len(),
            refs == refs_of(records@),
            forall|g1: int, g2: int| 0 <= g1 < all@.len() && 0 <= g2 < all@.len() && g1 != g2
                ==> all@[g1].reference@ != all@[g2].reference@,
            forall|g: int| 0 <= g < all@.len()
                ==> #[trigger] all@[g].indices@ == occurrences(refs.take(i as int), all@[g].reference@),
            forall|r: Seq<char>| (exists|g: int| 0 <= g < all@.len() && all@[g].reference@ == r)
                <==> #[trigger] occurrences(refs.take(i as int), r).len() > 0,
        decreases records.len() - i,
    {
        let ghost old_all = all@;
        proof {
            assert forall|r: Seq<char>| true implies #[trigger] occurrences(refs.take(i + 1), r) == if refs[i as int] == r {
                occurrences(refs.take(i as int), r).push(i)
            } else {
                occurrences(refs.take(i as int), r)
            } by {
                lemma_occurrences_step(refs, i as int, r);
            }
        }
        let pos = position_of(&all, &records[i].reference);
        let ghost ri = refs[i as int];
        assert(ri == records@[i as int].reference@);
        if let Some(g) = pos {
            let mut grp = all.remove(g);
            grp.indices.push(i);
            all.insert(g, grp);
            proof {
                assert(all@ =~= old_all.update(g as int, all@[g as int]));
                assert(old_all[g as int].reference@ == ri);
                assert forall|g1: int, g2: int| 0 <= g1 < all@.len() && 0 <= g2 < all@.len() && g1 != g2
                    implies all@[g1].reference@ != all@[g2].reference@ by {
                    assert(all@[g1].reference@ == old_all[g1].reference@);
                    assert(all@[g2].reference@ == old_all[g2].reference@);
                }
                assert forall|h: int| 0 <= h < all@.len()
                    implies #[trigger] all@[h].indices@ == occurrences(refs.take(i + 1), all@[h].reference@) by {
                    assert(occurrences(refs.take(i + 1), all@[h].reference@) == if refs[i as int] == all@[h].reference@ {
                        occurrences(refs.take(i as int), all@[h].reference@).push(i)
                    } else {
                        occurrences(refs.take(i as int), all@[h].reference@)
                    });
                    if h != g {
                        assert(old_all[h].reference@ != old_all[g as int].reference@);
                    }
                }
                assert forall|r: Seq<char>| (exists|h: int| 0 <= h < all@.len() && all@[h].reference@ == r)
                    <==> #[trigger] occurrences(refs.take(i + 1), r).len() > 0 by {
                    assert(occurrences(refs.take(i + 1), r) == if refs[i as int] == r {
                        occurrences(refs.take(i as int), r).push(i)
                    } else {
                        occurrences(refs.take(i as int), r)
                    });
                    if exists|h: int| 0 <= h < all@.len() && all@[h].reference@ == r {
                        let h = choose|h: int| 0 <= h < all@.len() && all@[h].reference@ == r;
                        assert(old_all[h].reference@ == r);
                    }
                    if occurrences(refs.take(i as int), r).len() > 0 {
                        let h = choose|h: int| 0 <= h < old_all.len() && old_all[h].reference@ == r;
                        assert(all@[h].reference@ == r);
                    }
                    if r == ri {
                        assert(all@[g as int].reference@ == r);
                    }
                }
            }
        } else {
            let mut idxs: Vec<usize> = Vec::new();
            idxs.push(i);
            let grp = DuplicateGroup { reference: records[i].reference.clone(), indices: idxs };
            all.push(grp);
            proof {
                assert(all@ =~= old_all.push(all@[old_all.len() as int]));
                assert(!(exists|h: int| 0 <= h < old_all.len() && old_all[h].reference@ == ri));
                assert(occurrences(refs.take(i as int), ri).len() == 0);
                assert(occurrences(refs.take(i as int), ri) =~= Seq::<usize>::empty());
                assert forall|g1: int, g2: int| 0 <= g1 < all@.len() && 0 <= g2 < all@.len() && g1 != g2
                    implies all@[g1].reference@ != all@[g2].reference@ by {
                    if g1 < old_all.len() && g2 < old_all.len() {
                        assert(all@[g1] == old_all[g1]);
                        assert(all@[g2] == old_all[g2]);
                    } else if g1 < old_all.len() {
                        assert(all@[g1] == old_all[g1]);
                    } else {
                        assert(all@[g2] == old_all[g2]);
                    }
                }
                assert forall|h: int| 0 <= h < all@.len()
                    implies #[trigger] all@[h].indices@ == occurrences(refs.take(i + 1), all@[h].reference@) by {
                    assert(occurrences(refs.take(i + 1), all@[h].reference@) == if refs[i as int] == all@[h].reference@ {
                        occurrences(refs.take(i as int), all@[h].reference@).push(i)
                    } else {
                        occurrences(refs.take(i as int), all@[h].reference@)
                    });
                    if h < old_all.len() {
                        assert(all@[h] == old_all[h]);
                    } else {
                        assert(all@[h].indices@ =~= Seq::<usize>::empty().push(i));
                    }
                }
                assert forall|r: Seq<char>| (exists|h: int| 0 <= h < all@.len() && all@[h].reference@ == r)
                    <==> #[trigger] occurrences(refs.take(i + 1), r).len() > 0 by {
                    assert(occurrences(refs.take(i + 1), r) == if refs[i as int] == r {
                        occurrences(refs.take(i as int), r).push(i)
                    } else {
                        occurrences(refs.take(i as int), r)
                    });
                    if exists|h: int| 0 <= h < all@.len() && all@[h].reference@ == r {
                        let h = choose|h: int| 0 <= h < all@.len() && all@[h].reference@ == r;
                        if h < old_all.len() {
                            assert(old_all[h].reference@ == r);
                        }
                    }
                    if occurrences(refs.take(i as int), r).len() > 0 {
                        let h = choose|h: int| 0 <= h < old_all.len() && old_all[h].reference@ == r;
                        assert(all@[h].reference@ == r);
                    }
                    if r == ri {
                        assert(all@[old_all.len() as int].reference@ == r);
                    }
                }
            }
        }
        i = i + 1;
    }
    assert(refs.take(records@.len() as int) =~= refs);
    let ghost full = all@;
    let ghost mut src: Seq<int> = Seq::empty();
    let mut kept: Vec<DuplicateGroup> = Vec::new();
    while all.len() > 0
        invariant
            all@ == full.take(all@.len() as int),
            all@.len() <= full.len(),
            forall|g1: int, g2: int| 0 <= g1 < full.len() && 0 <= g2 < full.len() && g1 != g2
                ==> full[g1].reference@ != full[g2].reference@,
            forall|g: int| 0 <= g < full.len()
                ==> #[trigger] full[g].indices@ == occurrences(refs, full[g].reference@),
            forall|r: Seq<char>| (exists|g: int| 0 <= g < full.len() && full[g].reference@ == r)
                <==> #[trigger] occurrences(refs, r).len() > 0,
            kept@.len() == src.len(),
            forall|j: int| 0 <= j < src.len() ==> all@.len() <= #[trigger] src[j] < full.len()
                && kept@[j] == full[src[j]] && full[src[j]].indices@.len() > 1,
            forall|j1: int, j2: int| 0 <= j1 < j2 < src.len() ==> #[trigger] src[j1] > #[trigger] src[j2],
            forall|g: int| all@.len() <= g < full.len() && #[trigger] full[g].indices@.len() > 1
                ==> exists|j: int| 0 <= j < src.len() && src[j] == g,
        decreases all.len(),
    {
        let grp = all.pop().unwrap();
        let ghost k = all@.len() as int;
        assert(grp == full[k]);
        if grp.indices.len() > 1 {
            kept.push(grp);
            proof {
                let ghost before = src;
                src = src.push(k);
                assert forall|g: int| all@.len() <= g < full.len() && #[trigger] full[g].indices@.len() > 1
                    implies exists|j: int| 0 <= j < src.len() && src[j] == g by {
                    if g == k {
                        assert(src[before.len() as int] == k);
                    } else {
                        let j = choose|j: int| 0 <= j < before.len() && before[j] == g;
                        assert(src[j] == g);
                    }
                }
            }
        } else {
            proof {
                assert forall|g: int| all@.len() <= g < full.len() && #[trigger] full[g].indices@.len() > 1
                    implies exists|j: int| 0 <= j < src.len() && src[j] == g by {
                    assert(g != k);
                }
            }
        }
    }
    let m = DuplicateMap { groups: kept };
    proof {
        assert forall|g1: int, g2: int|
            0 <= g1 < m.group_count() && 0 <= g2 < m.group_count() && g1 != g2
                implies m.group_ref(g1) != m.group_ref(g2) by {
            assert(src[g1] != src[g2]);
        }
        assert forall|g: int| 0 <= g < m.group_count()
            implies #[trigger] m.group_indices(g) == occurrences(refs, m.group_ref(g)) by {
            assert(kept@[g] == full[src[g]]);
        }
        assert forall|r: Seq<char>| (exists|g: int| 0 <= g < m.group_count() && m.group_ref(g) == r)
            <==> #[trigger] occurrences(refs, r).len() > 1 by {
            if exists|g: int| 0 <= g < m.group_count() && m.group_ref(g) == r {
                let g = choose|g: int| 0 <= g < m.group_count() && m.group_ref(g) == r;
                assert(kept@[g] == full[src[g]]);
            }
            if occurrences(refs, r).len() > 1 {
                let h = choose|h: int| 0 <= h < full.len() && full[h].reference@ == r;
                assert(full[h].indices@.len() > 1);
                let j = choose|j: int| 0 <= j < src.len() && src[j] == h;
                assert(kept@[j] == full[h]);
                assert(m.group_ref(j) == r);
            }
        }
    }
    m
}

/// Whether position `idx` belongs to a duplicated reference.
pub fn is_duplicate(idx: usize, dup_map: &DuplicateMap) -> (r: bool)
    ensures
        r == exists|g: int| 0 <= g < dup_map.group_count() && dup_map.group_indices(g).contains(idx),
{
    let mut g: usize = 0;
    while g < dup_map.groups.len()
        invariant
            g <= dup_map.groups@.len(),
            forall|k: int| 0 <= k < g ==> !dup_map.group_indices(k).contains(idx),
        decreases dup_map.groups.len() - g,
    {
        let v = &dup_map.groups[g].indices;
        let mut k: usize = 0;
        while k < v.len()
            invariant
                k <= v@.len(),
                g < dup_map.groups@.len(),
                v@ == dup_map.group_indices(g as int),
                forall|j: int| 0 <= j < k ==> v@[j] != idx,
            decreases v.len() - k,
        {
            if v[k] == idx {
                assert(dup_map.group_indices(g as int)[k as int] == idx);
                assert(dup_map.group_indices(g as int).contains(idx));
                assert((g as int) < dup_map.group_count());
                return true;
            }
            k = k + 1;
        }
        g = g + 1;
    }
    false
}

/// The canonical row of a duplicate group: its lowest position.
pub fn canonical_index(indices: &[usize]) -> (r: usize)
    requires
        indices@.len() > 0,
    ensures
        indices@.contains(r),
        forall|k: int| 0 <= k < indices@.len() ==> r <= indices@[k],
{
    let mut m = indices[0];
    let mut i: usize = 1;
    assert(indices@.take(1)[0] == m);
    while i < indices.len()
        invariant
            1 <= i <= indices@.len(),
            indices@.take(i as int).contains(m),
            forall|k: int| 0 <= k < i ==> m <= indices@[k],
        decreases indices.len() - i,
    {
        if indices[i] < m {
            m = indices[i];
            assert(indices@.take(i + 1)[i as int] == m);
        } else {
            proof {
                let k = choose|k: int| 0 <= k < i && indices@.take(i as int)[k] == m;
                assert(indices@.take(i + 1)[k] == m);
            }
        }
        i = i + 1;
    }
    assert(indices@.take(i as int) =~= indices@);
    m
}

/// `matched` when the amounts differ by at most the tolerance, otherwise
/// `amount_mismatch`.
pub open spec fn classification(expected: int, actual: int) -> DiscrepancyType {
    let d = expected - actual;
    if (if d < 0 { -d } else { d }) <= AMOUNT_TOLERANCE {
        DiscrepancyType::Matched
    } else {
        DiscrepancyType::AmountMismatch
    }
}

/// Classify an expected (transaction) amount against an actual (statement)
/// amount of the same reference.
pub fn classify_amounts(expected: i64, actual: i64) -> (r: DiscrepancyType)
    ensures
        r == classification(expected as int, actual as int),
{
    let d: i128 = expected as i128 - actual as i128;
    let a: i128 = if d < 0 { -d } else { d };
    if a <= AMOUNT_TOLERANCE as i128 {
        DiscrepancyType::Matched
    } else {
        DiscrepancyType::AmountMismatch
    }
}

/// `actual − expected`: positive when over-collected, negative when
/// under-collected.
pub fn net_discrepancy(expected: i64, actual: i64) -> (r: i128)
    ensures
        r == actual - expected,
{
    actual as i128 - expected as i128
}

/// Counts across all discrepancy types of a run.
#[derive(Debug, Default, Clone, Copy, PartialEq, Eq, Structural)]
pub struct DiscrepancySummary {
    pub matched: usize,
    pub amount_mismatches: usize,
    pub missing_from_statement: usize,
    pub extra_in_statement: usize,
    pub duplicates: usize,
}

impl DiscrepancySummary {
    pub open spec fn spec_total(&self) -> nat {
        (self.amount_mismatches + self.missing_from_statement + self.extra_in_statement + self.duplicates) as nat
    }

    /// Every kind of discrepancy adds to the total, one for one, and
    /// matches add nothing: a summary is clean exactly when it has no amount
    /// mismatch, no missing or extra line and no duplicate.
    pub proof fn law_every_unmatched_kind_counts(self)
        ensures
            (self.spec_total() == 0) <==> (self.amount_mismatches == 0 && self.missing_from_statement == 0
                && self.extra_in_statement == 0 && self.duplicates == 0),
            self.spec_total() >= self.amount_mismatches,
            self.spec_total() >= self.missing_from_statement,
            self.spec_total() >= self.extra_in_statement,
            self.spec_total() >= self.duplicates,
            self.duplicates < usize::MAX ==> (DiscrepancySummary { duplicates: (self.duplicates + 1) as usize, ..self }).spec_total()
                == self.spec_total() + 1,
            self.amount_mismatches < usize::MAX ==> (DiscrepancySummary {
                amount_mismatches: (self.amount_mismatches + 1) as usize,
                ..self
            }).spec_total() == self.spec_total() + 1,
            self.missing_from_statement < usize::MAX ==> (DiscrepancySummary {
                missing_from_statement: (self.missing_from_statement + 1) as usize,
                ..self
            }).spec_total() == self.spec_total() + 1,
            self.extra_in_statement < usize::MAX ==> (DiscrepancySummary {
                extra_in_statement: (self.extra_in_statement + 1) as usize,
                ..self
            }).spec_total() == self.spec_total() + 1,
            self.matched < usize::MAX ==> (DiscrepancySummary { matched: (self.matched + 1) as usize, ..self }).spec_total()
                == self.spec_total(),
    {
    }

    /// Every count but `matched`.
    pub fn total_discrepancies(&self) -> (r: usize)
        requires
            self.spec_total() <= usize::MAX,
        ensures
            r == self.spec_total(),
    {
        self.amount_mismatches + self.missing_from_statement + self.extra_in_statement + self.duplicates
    }

    /// No discrepancy at all.
    pub fn is_clean(&self) -> (r: bool)
        requires
            self.spec_total() <= usize::MAX,
        ensures
            r == (self.spec_total() == 0),
    {
        self.total_discrepancies() == 0
    }

    /// More than 10 discrepancies, or more than 5 % of `total_records`.
    pub fn is_high(&self, total_records: usize) -> (r: bool)
        requires
            self.spec_total() * 100 <= usize::MAX,
        ensures
            r == high_discrepancy(self.spec_total(), total_records as nat),
    {
        let n = self.total_discrepancies();
        n > 10 || (total_records > 0 && n * 20 > total_records)
    }
}

} // verus!
