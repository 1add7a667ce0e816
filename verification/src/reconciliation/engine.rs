//! The matching engine: pairs the completed transactions of a day with the
//! lines of a statement import, classifies every pair, and lists the
//! statement lines that no transaction claimed.
use vstd::prelude::*;

use crate::reconciliation::discrepancy::{
    canonical_index, classification, find_duplicates, occurrences, refs_of, DiscrepancySummary,
    DuplicateMap, AMOUNT_TOLERANCE,
};
use crate::reconciliation::models::{
    high_discrepancy, DiscrepancyType, ReconItem, StatementRecord,
};
use crate::text::str_eq;

verus! {

/// A completed transaction of the run date.  `amount` is in micros.
pub struct TxnInput {
    pub id: u128,
    pub idempotency_key: String,
    pub amount: i64,
}

/// A stored line of the statement import.  `amount` is in micros.
pub struct LineInput {
    pub id: u128,
    pub transaction_ref: Option<String>,
    pub amount: i64,
}

/// Items, counts and totals of one reconciliation.
pub struct ReconcileOutcome {
    pub summary: DiscrepancySummary,
    pub items: Vec<ReconItem>,
    /// Sum of the transaction amounts, micros.
    pub total_expected: i128,
    /// Sum of the statement line amounts, micros.
    pub total_collected: i128,
}

/// Whether `idx` is the lowest position in `occ`.
pub open spec fn lowest_position(occ: Seq<usize>, idx: int) -> bool {
    &&& occ.contains(idx as usize)
    &&& forall|k: int| 0 <= k < occ.len() ==> idx <= occ[k]
}

/// A line may stand for its reference: it has one, and the reference is
/// either not duplicated in the statement or the line sits at the reference's
/// first (canonical) position.
pub open spec fn usable_line(refs: Seq<Seq<char>>, lines: Seq<LineInput>, idx: int) -> bool {
    match lines[idx].transaction_ref {
        Some(r) => occurrences(refs, r@).len() > 1 ==> lowest_position(occurrences(refs, r@), idx),
        None => false,
    }
}

/// Whether line `idx` carries the reference `key`.
pub open spec fn line_has_ref(lines: Seq<LineInput>, idx: int, key: Seq<char>) -> bool {
    match lines[idx].transaction_ref {
        Some(r) => r@ == key,
        None => false,
    }
}

/// The last usable line among the first `n` that carries `key`: the line a
/// transaction with idempotency key `key` is paired with.
pub open spec fn keyed_line(refs: Seq<Seq<char>>, lines: Seq<LineInput>, n: nat, key: Seq<char>) -> Option<int>
    decreases n,
{
    if n == 0 {
        None
    } else if usable_line(refs, lines, n - 1) && line_has_ref(lines, n - 1, key) {
        Some(n - 1)
    } else {
        keyed_line(refs, lines, (n - 1) as nat, key)
    }
}

/// The line a transaction with idempotency key `key` is paired with by key:
/// its keyed line, unless a transaction already claimed that reference.
pub open spec fn free_keyed_line(refs: Seq<Seq<char>>, lines: Seq<LineInput>, claimed: Set<Seq<char>>, key: Seq<char>) -> Option<int> {
    if claimed.contains(key) {
        None
    } else {
        keyed_line(refs, lines, lines.len(), key)
    }
}

/// `|a − b| ≤ tolerance`.
pub open spec fn within_tolerance(a: int, b: int) -> bool {
    let d = a - b;
    (if d < 0 { -d } else { d }) <= AMOUNT_TOLERANCE
}

/// Whether line `j` is already paired: by its reference, claimed by a
/// transaction, or, for a line without a reference, by its position, taken by
/// a pairing on amount.
pub open spec fn claimed_line(claimed: Set<Seq<char>>, taken: Set<int>, lines: Seq<LineInput>, j: int) -> bool {
    match lines[j].transaction_ref {
        Some(r) => claimed.contains(r@),
        None => taken.contains(j),
    }
}

/// Line `j` may pair with a transaction of `amount` by amount alone: it is
/// not paired yet, and the amounts agree within the tolerance.
pub open spec fn fallback_eligible(lines: Seq<LineInput>, claimed: Set<Seq<char>>, taken: Set<int>, j: int, amount: int) -> bool {
    &&& !claimed_line(claimed, taken, lines, j)
    &&& within_tolerance(lines[j].amount as int, amount)
}

/// The first eligible line at or after `j`.
pub open spec fn first_fallback(lines: Seq<LineInput>, claimed: Set<Seq<char>>, taken: Set<int>, amount: int, j: nat) -> Option<int>
    decreases lines.len() - j,
{
    if j >= lines.len() {
        None
    } else if fallback_eligible(lines, claimed, taken, j as int, amount) {
        Some(j as int)
    } else {
        first_fallback(lines, claimed, taken, amount, j + 1)
    }
}

/// The item of one transaction, and the claimed references and taken
/// unreferenced lines after it.
pub open spec fn txn_step(
    refs: Seq<Seq<char>>,
    lines: Seq<LineInput>,
    claimed: Set<Seq<char>>,
    taken: Set<int>,
    t: TxnInput,
) -> (ReconItem, Set<Seq<char>>, Set<int>) {
    match free_keyed_line(refs, lines, claimed, t.idempotency_key@) {
        Some(li) => (
            ReconItem {
                transaction_id: Some(t.id),
                statement_line_id: Some(lines[li].id),
                expected_amount: t.amount,
                actual_amount: lines[li].amount,
                discrepancy_type: classification(t.amount as int, lines[li].amount as int),
            },
            claimed.insert(t.idempotency_key@),
            taken,
        ),
        None => match first_fallback(lines, claimed, taken, t.amount as int, 0) {
            Some(j) => (
                ReconItem {
                    transaction_id: Some(t.id),
                    statement_line_id: Some(lines[j].id),
                    expected_amount: t.amount,
                    actual_amount: lines[j].amount,
                    discrepancy_type: DiscrepancyType::Matched,
                },
                match lines[j].transaction_ref {
                    Some(r) => claimed.insert(r@),
                    None => claimed,
                },
                match lines[j].transaction_ref {
                    Some(_) => taken,
                    None => taken.insert(j),
                },
            ),
            None => (
                ReconItem {
                    transaction_id: Some(t.id),
                    statement_line_id: None,
                    expected_amount: t.amount,
                    actual_amount: 0,
                    discrepancy_type: DiscrepancyType::MissingFromStatement,
                },
                claimed,
                taken,
            ),
        },
    }
}

/// The items of the transactions, in order, the references they claimed and
/// the unreferenced lines they took.
pub open spec fn match_txns(refs: Seq<Seq<char>>, lines: Seq<LineInput>, txns: Seq<TxnInput>) -> (Seq<ReconItem>, Set<Seq<char>>, Set<int>)
    decreases txns.len(),
{
    if txns.len() == 0 {
        (Seq::empty(), Set::empty(), Set::empty())
    } else {
        let (items, claimed, taken) = match_txns(refs, lines, txns.drop_last());
        let (item, next_claimed, next_taken) = txn_step(refs, lines, claimed, taken, txns.last());
        (items.push(item), next_claimed, next_taken)
    }
}

/// The item of a statement line that no transaction claimed: `duplicate`
/// when its reference occurs more than once in the statement, otherwise
/// `extra_in_statement`.
pub open spec fn extra_item(refs: Seq<Seq<char>>, l: LineInput) -> ReconItem {
    ReconItem {
        transaction_id: None,
        statement_line_id: Some(l.id),
        expected_amount: 0,
        actual_amount: l.amount,
        discrepancy_type: match l.transaction_ref {
            Some(r) => if occurrences(refs, r@).len() > 1 {
                DiscrepancyType::Duplicate
            } else {
                DiscrepancyType::ExtraInStatement
            },
            None => DiscrepancyType::ExtraInStatement,
        },
    }
}

/// Items of the lines among the first `n` that no transaction paired, in
/// order.
pub open spec fn extra_items(refs: Seq<Seq<char>>, lines: Seq<LineInput>, claimed: Set<Seq<char>>, taken: Set<int>, n: nat) -> Seq<ReconItem>
    decreases n,
{
    if n == 0 {
        Seq::empty()
    } else {
        let prev = extra_items(refs, lines, claimed, taken, (n - 1) as nat);
        if claimed_line(claimed, taken, lines, n - 1) {
            prev
        } else {
            prev.push(extra_item(refs, lines[n - 1]))
        }
    }
}

/// All items of a reconciliation: one per transaction, in order, then one per
/// statement line that no transaction paired, in order.
pub open spec fn reconciled_items(records: Seq<StatementRecord>, txns: Seq<TxnInput>, lines: Seq<LineInput>) -> Seq<ReconItem> {
    let refs = refs_of(records);
    let (items, claimed, taken) = match_txns(refs, lines, txns);
    items + extra_items(refs, lines, claimed, taken, lines.len())
}

/// Number of items of type `t`.
pub open spec fn count_of(items: Seq<ReconItem>, t: DiscrepancyType) -> nat
    decreases items.len(),
{
    if items.len() == 0 {
        0
    } else {
        count_of(items.drop_last(), t) + if items.last().discrepancy_type == t { 1nat } else { 0nat }
    }
}

/// Sum of the transaction amounts.
pub open spec fn txn_total(txns: Seq<TxnInput>) -> int
    decreases txns.len(),
{
    if txns.len() == 0 { 0 } else { txn_total(txns.drop_last()) + txns.last().amount }
}

/// Sum of the line amounts.
pub open spec fn line_total(lines: Seq<LineInput>) -> int
    decreases lines.len(),
{
    if lines.len() == 0 { 0 } else { line_total(lines.drop_last()) + lines.last().amount }
}

/// The summary that counts `items` by type.
pub open spec fn summary_of(items: Seq<ReconItem>) -> DiscrepancySummary {
    DiscrepancySummary {
        matched: count_of(items, DiscrepancyType::Matched) as usize,
        amount_mismatches: count_of(items, DiscrepancyType::AmountMismatch) as usize,
        missing_from_statement: count_of(items, DiscrepancyType::MissingFromStatement) as usize,
        extra_in_statement: count_of(items, DiscrepancyType::ExtraInStatement) as usize,
        duplicates: count_of(items, DiscrepancyType::Duplicate) as usize,
    }
}

proof fn lemma_count_push(items: Seq<ReconItem>, x: ReconItem, t: DiscrepancyType)
    ensures
        count_of(items.push(x), t) == count_of(items, t) + if x.discrepancy_type == t { 1nat } else { 0nat },
{
    assert(items.push(x).drop_last() =~= items);
}

proof fn lemma_count_bound(items: Seq<ReconItem>, t: DiscrepancyType)
    ensures
        count_of(items, t) <= items.len(),
    decreases items.len(),
{
    if items.len() > 0 {
        lemma_count_bound(items.drop_last(), t);
    }
}

proof fn lemma_count_concat(a: Seq<ReconItem>, b: Seq<ReconItem>, t: DiscrepancyType)
    ensures
        count_of(a + b, t) == count_of(a, t) + count_of(b, t),
    decreases b.len(),
{
    if b.len() == 0 {
        assert(a + b =~= a);
    } else {
        lemma_count_concat(a, b.drop_last(), t);
        assert((a + b).drop_last() =~= a + b.drop_last());
    }
}

proof fn lemma_claim_push(cl: Seq<String>, cs: Set<Seq<char>>, x: String)
    requires
        forall|s: Seq<char>| cs.contains(s) <==> exists|k: int| 0 <= k < cl.len() && #[trigger] cl[k]@ == s,
    ensures
        forall|s: Seq<char>| cs.insert(x@).contains(s) <==> exists|k: int| 0 <= k < cl.push(x).len() && #[trigger] cl.push(x)[k]@ == s,
{
    let cl2 = cl.push(x);
    assert forall|s: Seq<char>| cs.insert(x@).contains(s) <==> exists|k: int| 0 <= k < cl2.len() && #[trigger] cl2[k]@ == s by {
        if s == x@ {
            assert(cl2[cl.len() as int]@ == s);
        }
        if cs.contains(s) {
            let k = choose|k: int| 0 <= k < cl.len() && #[trigger] cl[k]@ == s;
            assert(cl2[k] == cl[k]);
        }
        if exists|k: int| 0 <= k < cl2.len() && #[trigger] cl2[k]@ == s {
            let k = choose|k: int| 0 <= k < cl2.len() && #[trigger] cl2[k]@ == s;
            if k < cl.len() {
                assert(cl2[k] == cl[k]);
            }
        }
    }
}

/// Whether `s` is one of `v`.
fn contains_str(v: &Vec<String>, s: &str) -> (r: bool)
    ensures
        r == exists|k: int| 0 <= k < v@.len() && #[trigger] v@[k]@ == s@,
{
    let mut k: usize = 0;
    while k < v.len()
        invariant
            k <= v@.len(),
            forall|j: int| 0 <= j < k ==> v@[j]@ != s@,
        decreases v.len() - k,
    {
        if str_eq(v[k].as_str(), s) {
            return true;
        }
        k = k + 1;
    }
    false
}

/// For every line, whether it may stand for its reference.
fn usable_flags(dup_map: &DuplicateMap, lines: &[LineInput], Ghost(refs): Ghost<Seq<Seq<char>>>) -> (r: Vec<bool>)
    requires
        dup_map.describes(refs),
    ensures
        r@.len() == lines@.len(),
        forall|j: int| 0 <= j < lines@.len() ==> r@[j] == usable_line(refs, lines@, j),
{
    let mut flags: Vec<bool> = Vec::new();
    let mut j: usize = 0;
    while j < lines.len()
        invariant
            j <= lines@.len(),
            flags@.len() == j,
            dup_map.describes(refs),
            forall|k: int| 0 <= k < j ==> flags@[k] == usable_line(refs, lines@, k),
        decreases lines.len() - j,
    {
        let u = match &lines[j].transaction_ref {
            None => false,
            Some(r) => match dup_map.get(r.as_str()) {
                None => {
                    proof {
                        if occurrences(refs, r@).len() > 1 {
                            assert(exists|g: int| 0 <= g < dup_map.group_count() && dup_map.group_ref(g) == r@);
                        }
                    }
                    true
                },
                Some(v) => {
                    let ghost g = choose|g: int|
                        0 <= g < dup_map.group_count() && dup_map.group_ref(g) == r@ && v@ == dup_map.group_indices(g);
                    assert(v@ == occurrences(refs, r@));
                    assert(occurrences(refs, r@).len() > 1);
                    let c = canonical_index(v.as_slice());
                    proof {
                        if lowest_position(v@, j as int) {
                            let k = choose|k: int| 0 <= k < v@.len() && v@[k] == j;
                            let kc = choose|k: int| 0 <= k < v@.len() && v@[k] == c;
                            assert(c <= v@[k]);
                            assert(j <= v@[kc]);
                        }
                    }
                    c == j
                },
            },
        };
        flags.push(u);
        j = j + 1;
    }
    flags
}

/// The line paired by key with a transaction whose idempotency key is `key`.
fn keyed_line_exec(usable: &Vec<bool>, lines: &[LineInput], key: &str, Ghost(refs): Ghost<Seq<Seq<char>>>) -> (r: Option<usize>)
    requires
        usable@.len() == lines@.len(),
        forall|j: int| 0 <= j < lines@.len() ==> usable@[j] == usable_line(refs, lines@, j),
    ensures
        match r {
            Some(j) => keyed_line(refs, lines@, lines@.len(), key@) == Some(j as int) && j < lines@.len(),
            None => keyed_line(refs, lines@, lines@.len(), key@) is None,
        },
{
    let mut found: Option<usize> = None;
    let mut j: usize = 0;
    while j < lines.len()
        invariant
            j <= lines@.len(),
            usable@.len() == lines@.len(),
            forall|k: int| 0 <= k < lines@.len() ==> usable@[k] == usable_line(refs, lines@, k),
            match found {
                Some(f) => keyed_line(refs, lines@, j as nat, key@) == Some(f as int) && f < j,
                None => keyed_line(refs, lines@, j as nat, key@) is None,
            },
        decreases lines.len() - j,
    {
        let has = match &lines[j].transaction_ref {
            Some(r) => str_eq(r.as_str(), key),
            None => false,
        };
        if usable[j] && has {
            found = Some(j);
        }
        j = j + 1;
    }
    found
}

/// The first line that may pair by amount with a transaction of `amount`.
fn first_fallback_exec(
    lines: &[LineInput],
    claimed: &Vec<String>,
    taken: &Vec<bool>,
    amount: i64,
    Ghost(cset): Ghost<Set<Seq<char>>>,
    Ghost(tset): Ghost<Set<int>>,
) -> (r: Option<usize>)
    requires
        forall|s: Seq<char>| cset.contains(s) <==> exists|k: int| 0 <= k < claimed@.len() && #[trigger] claimed@[k]@ == s,
        taken@.len() == lines@.len(),
        forall|k: int| 0 <= k < lines@.len() ==> (taken@[k] <==> tset.contains(k)),
    ensures
        match r {
            Some(j) => first_fallback(lines@, cset, tset, amount as int, 0) == Some(j as int) && j < lines@.len(),
            None => first_fallback(lines@, cset, tset, amount as int, 0) is None,
        },
{
    let mut j: usize = 0;
    while j < lines.len()
        invariant
            j <= lines@.len(),
            forall|s: Seq<char>| cset.contains(s) <==> exists|k: int| 0 <= k < claimed@.len() && #[trigger] claimed@[k]@ == s,
            taken@.len() == lines@.len(),
            forall|k: int| 0 <= k < lines@.len() ==> (taken@[k] <==> tset.contains(k)),
            first_fallback(lines@, cset, tset, amount as int, 0) == first_fallback(lines@, cset, tset, amount as int, j as nat),
        decreases lines.len() - j,
    {
        let free = match &lines[j].transaction_ref {
            Some(r) => !contains_str(claimed, r.as_str()),
            None => !taken[j],
        };
        let d: i128 = lines[j].amount as i128 - amount as i128;
        let a: i128 = if d < 0 { -d } else { d };
        if free && a <= AMOUNT_TOLERANCE as i128 {
            return Some(j);
        }
        j = j + 1;
    }
    None
}

/// Reconcile the completed transactions of a day against the stored lines of
/// a statement import, whose parsed records are `records`.
///
/// Each transaction is paired first by key: with the last line carrying its
/// idempotency key whose reference is not duplicated in the statement or
/// which sits at the reference's first position, unless an earlier
/// transaction already claimed that reference; the pair is classified by
/// amount.  Otherwise it falls back to the first line, in order, not yet
/// paired (its reference not claimed, or, for a line without a reference, not
/// taken by an earlier pairing on amount) whose amount agrees within the
/// tolerance (`matched`), and failing that it is `missing_from_statement`.
/// Lines that no transaction paired follow, as `duplicate` when the reference
/// is duplicated in the statement and `extra_in_statement` otherwise.
pub fn reconcile(records: &[StatementRecord], txns: &[TxnInput], lines: &[LineInput]) -> (out: ReconcileOutcome)
    ensures
        out.items@ == reconciled_items(records@, txns@, lines@),
        out.summary == summary_of(out.items@),
        out.total_expected == txn_total(txns@),
        out.total_collected == line_total(lines@),
{
    let ghost refs = refs_of(records@);
    let dup_map = find_duplicates(records);
    let usable = usable_flags(&dup_map, lines, Ghost(refs));
    let mut claimed: Vec<String> = Vec::new();
    let ghost mut cset: Set<Seq<char>> = Set::empty();
    let mut taken: Vec<bool> = Vec::new();
    let ghost mut tset: Set<int> = Set::empty();
    let mut k: usize = 0;
    while k < lines.len()
        invariant
            k <= lines@.len(),
            taken@.len() == k,
            forall|m: int| 0 <= m < k ==> !taken@[m],
        decreases lines.len() - k,
    {
        taken.push(false);
        k = k + 1;
    }
    let mut items: Vec<ReconItem> = Vec::new();
    let mut summary = DiscrepancySummary {
        matched: 0,
        amount_mismatches: 0,
        missing_from_statement: 0,
        extra_in_statement: 0,
        duplicates: 0,
    };
    let mut total_expected: i128 = 0;
    let mut i: usize = 0;
    while i < txns.len()
        invariant
            i <= txns@.len(),
            refs == refs_of(records@),
            dup_map.describes(refs),
            usable@.len() == lines@.len(),
            forall|k: int| 0 <= k < lines@.len() ==> usable@[k] == usable_line(refs, lines@, k),
            (items@, cset, tset) == match_txns(refs, lines@, txns@.take(i as int)),
            items@.len() == i,
            forall|s: Seq<char>| cset.contains(s) <==> exists|k: int| 0 <= k < claimed@.len() && #[trigger] claimed@[k]@ == s,
            taken@.len() == lines@.len(),
            forall|m: int| 0 <= m < lines@.len() ==> (taken@[m] <==> tset.contains(m)),
            summary == summary_of(items@),
            summary.extra_in_statement == 0,
            summary.duplicates == 0,
            total_expected == txn_total(txns@.take(i as int)),
            -(i as int) * 0x8000_0000_0000_0000 <= total_expected <= (i as int) * 0x8000_0000_0000_0000,
        decreases txns.len() - i,
    {
        let t = &txns[i];
        let ghost before = items@;
        let ghost clbefore = claimed@;
        proof {
            assert(txns@.take(i + 1).drop_last() =~= txns@.take(i as int));
            assert(txns@.take(i + 1).last() == txns@[i as int]);
        }
        let keyed = if contains_str(&claimed, t.idempotency_key.as_str()) {
            None
        } else {
            keyed_line_exec(&usable, lines, t.idempotency_key.as_str(), Ghost(refs))
        };
        let item = match keyed {
            Some(li) => {
                let d = crate::reconciliation::discrepancy::classify_amounts(t.amount, lines[li].amount);
                claimed.push(t.idempotency_key.clone());
                proof {
                    lemma_claim_push(clbefore, cset, t.idempotency_key);
                    cset = cset.insert(t.idempotency_key@);
                }
                ReconItem {
                    transaction_id: Some(t.id),
                    statement_line_id: Some(lines[li].id),
                    expected_amount: t.amount,
                    actual_amount: lines[li].amount,
                    discrepancy_type: d,
                }
            },
            None => match first_fallback_exec(lines, &claimed, &taken, t.amount, Ghost(cset), Ghost(tset)) {
                Some(j) => {
                    match &lines[j].transaction_ref {
                        Some(r) => {
                            claimed.push(r.clone());
                            proof {
                                lemma_claim_push(clbefore, cset, *r);
                                cset = cset.insert(r@);
                            }
                        },
                        None => {
                            taken.set(j, true);
                            proof {
                                tset = tset.insert(j as int);
                            }
                        },
                    }
                    ReconItem {
                        transaction_id: Some(t.id),
                        statement_line_id: Some(lines[j].id),
                        expected_amount: t.amount,
                        actual_amount: lines[j].amount,
                        discrepancy_type: DiscrepancyType::Matched,
                    }
                },
                None => ReconItem {
                    transaction_id: Some(t.id),
                    statement_line_id: None,
                    expected_amount: t.amount,
                    actual_amount: 0,
                    discrepancy_type: DiscrepancyType::MissingFromStatement,
                },
            },
        };
        proof {
            lemma_count_bound(before, item.discrepancy_type);
            lemma_count_push(before, item, DiscrepancyType::Matched);
            lemma_count_push(before, item, DiscrepancyType::AmountMismatch);
            lemma_count_push(before, item, DiscrepancyType::MissingFromStatement);
            lemma_count_push(before, item, DiscrepancyType::ExtraInStatement);
            lemma_count_push(before, item, DiscrepancyType::Duplicate);
        }
        match item.discrepancy_type {
            DiscrepancyType::Matched => summary.matched = summary.matched + 1,
            DiscrepancyType::AmountMismatch => summary.amount_mismatches = summary.amount_mismatches + 1,
            DiscrepancyType::MissingFromStatement => summary.missing_from_statement = summary.missing_from_statement + 1,
            _ => {},
        }
        items.push(item);
        total_expected = total_expected + t.amount as i128;
        i = i + 1;
    }
    assert(txns@.take(txns@.len() as int) =~= txns@);
    let ghost txn_items = items@;
    proof {
        lemma_count_bound(txn_items, DiscrepancyType::Matched);
        lemma_count_bound(txn_items, DiscrepancyType::AmountMismatch);
        lemma_count_bound(txn_items, DiscrepancyType::MissingFromStatement);
        lemma_count_bound(txn_items, DiscrepancyType::ExtraInStatement);
        lemma_count_bound(txn_items, DiscrepancyType::Duplicate);
    }
    let mut extras: Vec<ReconItem> = Vec::new();
    let mut total_collected: i128 = 0;
    let mut j: usize = 0;
    while j < lines.len()
        invariant
            j <= lines@.len(),
            refs == refs_of(records@),
            dup_map.describes(refs),
            (txn_items, cset, tset) == match_txns(refs, lines@, txns@),
            forall|s: Seq<char>| cset.contains(s) <==> exists|k: int| 0 <= k < claimed@.len() && #[trigger] claimed@[k]@ == s,
            taken@.len() == lines@.len(),
            forall|m: int| 0 <= m < lines@.len() ==> (taken@[m] <==> tset.contains(m)),
            extras@ == extra_items(refs, lines@, cset, tset, j as nat),
            extras@.len() <= j,
            summary.matched == count_of(txn_items, DiscrepancyType::Matched),
            summary.amount_mismatches == count_of(txn_items, DiscrepancyType::AmountMismatch),
            summary.missing_from_statement == count_of(txn_items, DiscrepancyType::MissingFromStatement),
            count_of(txn_items, DiscrepancyType::ExtraInStatement) == 0,
            count_of(txn_items, DiscrepancyType::Duplicate) == 0,
            count_of(extras@, DiscrepancyType::Matched) == 0,
            count_of(extras@, DiscrepancyType::AmountMismatch) == 0,
            count_of(extras@, DiscrepancyType::MissingFromStatement) == 0,
            summary.extra_in_statement == count_of(extras@, DiscrepancyType::ExtraInStatement),
            summary.duplicates == count_of(extras@, DiscrepancyType::Duplicate),
            total_collected == line_total(lines@.take(j as int)),
            -(j as int) * 0x8000_0000_0000_0000 <= total_collected <= (j as int) * 0x8000_0000_0000_0000,
        decreases lines.len() - j,
    {
        let l = &lines[j];
        let ghost before = extras@;
        proof {
            assert(lines@.take(j + 1).drop_last() =~= lines@.take(j as int));
            assert(lines@.take(j + 1).last() == lines@[j as int]);
        }
        let paired = match &l.transaction_ref {
            Some(r) => contains_str(&claimed, r.as_str()),
            None => taken[j],
        };
        if !paired {
            let dtype = match &l.transaction_ref {
                Some(r) => if dup_map.contains_key(r.as_str()) {
                    DiscrepancyType::Duplicate
                } else {
                    DiscrepancyType::ExtraInStatement
                },
                None => DiscrepancyType::ExtraInStatement,
            };
            let item = ReconItem {
                transaction_id: None,
                statement_line_id: Some(l.id),
                expected_amount: 0,
                actual_amount: l.amount,
                discrepancy_type: dtype,
            };
            proof {
                lemma_count_bound(before, item.discrepancy_type);
                lemma_count_push(before, item, DiscrepancyType::Matched);
                lemma_count_push(before, item, DiscrepancyType::AmountMismatch);
                lemma_count_push(before, item, DiscrepancyType::MissingFromStatement);
                lemma_count_push(before, item, DiscrepancyType::ExtraInStatement);
                lemma_count_push(before, item, DiscrepancyType::Duplicate);
            }
            if dtype == DiscrepancyType::Duplicate {
                summary.duplicates = summary.duplicates + 1;
            } else {
                summary.extra_in_statement = summary.extra_in_statement + 1;
            }
            extras.push(item);
        }
        total_collected = total_collected + l.amount as i128;
        j = j + 1;
    }
    assert(lines@.take(lines@.len() as int) =~= lines@);
    proof {
        lemma_count_concat(txn_items, extras@, DiscrepancyType::Matched);
        lemma_count_concat(txn_items, extras@, DiscrepancyType::AmountMismatch);
        lemma_count_concat(txn_items, extras@, DiscrepancyType::MissingFromStatement);
        lemma_count_concat(txn_items, extras@, DiscrepancyType::ExtraInStatement);
        lemma_count_concat(txn_items, extras@, DiscrepancyType::Duplicate);
    }
    items.append(&mut extras);
    ReconcileOutcome { summary, items, total_expected, total_collected }
}

proof fn lemma_match_txns_shape(refs: Seq<Seq<char>>, lines: Seq<LineInput>, txns: Seq<TxnInput>)
    ensures
        match_txns(refs, lines, txns).0.len() == txns.len(),
        forall|i: int| 0 <= i < txns.len() ==> {
            let it = #[trigger] match_txns(refs, lines, txns).0[i];
            it.transaction_id == Some(txns[i].id) && it.expected_amount == txns[i].amount
        },
    decreases txns.len(),
{
    if txns.len() > 0 {
        lemma_match_txns_shape(refs, lines, txns.drop_last());
    }
}

proof fn lemma_extra_items_shape(refs: Seq<Seq<char>>, lines: Seq<LineInput>, claimed: Set<Seq<char>>, taken: Set<int>, n: nat)
    ensures
        extra_items(refs, lines, claimed, taken, n).len() <= n,
        forall|i: int| 0 <= i < extra_items(refs, lines, claimed, taken, n).len()
            ==> (#[trigger] extra_items(refs, lines, claimed, taken, n)[i]).transaction_id is None,
    decreases n,
{
    if n > 0 {
        lemma_extra_items_shape(refs, lines, claimed, taken, (n - 1) as nat);
    }
}

/// Every transaction yields exactly one item, in the transactions' order,
/// carrying its id and amount; every further item is a statement line with no
/// transaction.
pub proof fn law_one_item_per_transaction(records: Seq<StatementRecord>, txns: Seq<TxnInput>, lines: Seq<LineInput>)
    ensures
        reconciled_items(records, txns, lines).len() >= txns.len(),
        reconciled_items(records, txns, lines).len() <= txns.len() + lines.len(),
        forall|i: int| 0 <= i < txns.len() ==> {
            let it = #[trigger] reconciled_items(records, txns, lines)[i];
            it.transaction_id == Some(txns[i].id) && it.expected_amount == txns[i].amount
        },
        forall|i: int| txns.len() <= i < reconciled_items(records, txns, lines).len()
            ==> (#[trigger] reconciled_items(records, txns, lines)[i]).transaction_id is None,
{
    let refs = refs_of(records);
    let (items, claimed, taken) = match_txns(refs, lines, txns);
    lemma_match_txns_shape(refs, lines, txns);
    lemma_extra_items_shape(refs, lines, claimed, taken, lines.len());
    let all = reconciled_items(records, txns, lines);
    assert forall|i: int| 0 <= i < txns.len() implies {
        let it = #[trigger] all[i];
        it.transaction_id == Some(txns[i].id) && it.expected_amount == txns[i].amount
    } by {
        assert(all[i] == items[i]);
    }
    assert forall|i: int| txns.len() <= i < all.len() implies (#[trigger] all[i]).transaction_id is None by {
        assert(all[i] == extra_items(refs, lines, claimed, taken, lines.len())[i - txns.len()]);
    }
}

/// No two lines carry the same id.
pub open spec fn distinct_line_ids(lines: Seq<LineInput>) -> bool {
    forall|a: int, b: int| 0 <= a < lines.len() && 0 <= b < lines.len() && a != b ==> lines[a].id != lines[b].id
}

/// `item` names a line of `lines`, if any, that is paired under `claimed`
/// and `taken`.
spec fn names_paired_line(item: ReconItem, lines: Seq<LineInput>, claimed: Set<Seq<char>>, taken: Set<int>) -> bool {
    item.statement_line_id is Some ==> exists|k: int|
        0 <= k < lines.len() && item.statement_line_id == Some(lines[k].id) && #[trigger] claimed_line(claimed, taken, lines, k)
}

proof fn lemma_keyed_line_has_ref(refs: Seq<Seq<char>>, lines: Seq<LineInput>, n: nat, key: Seq<char>)
    requires
        n <= lines.len(),
    ensures
        keyed_line(refs, lines, n, key) matches Some(k) ==> 0 <= k < n && line_has_ref(lines, k, key),
    decreases n,
{
    if n > 0 {
        lemma_keyed_line_has_ref(refs, lines, (n - 1) as nat, key);
    }
}

proof fn lemma_first_fallback_eligible(lines: Seq<LineInput>, claimed: Set<Seq<char>>, taken: Set<int>, amount: int, j: nat)
    ensures
        first_fallback(lines, claimed, taken, amount, j) matches Some(k)
            ==> j <= k < lines.len() && fallback_eligible(lines, claimed, taken, k, amount),
    decreases lines.len() - j,
{
    if j < lines.len() && !fallback_eligible(lines, claimed, taken, j as int, amount) {
        lemma_first_fallback_eligible(lines, claimed, taken, amount, j + 1);
    }
}

proof fn lemma_match_txns_pairing(refs: Seq<Seq<char>>, lines: Seq<LineInput>, txns: Seq<TxnInput>)
    requires
        distinct_line_ids(lines),
    ensures
        ({
            let (items, claimed, taken) = match_txns(refs, lines, txns);
            &&& items.len() == txns.len()
            &&& forall|i: int| 0 <= i < items.len() ==> names_paired_line(#[trigger] items[i], lines, claimed, taken)
            &&& forall|i1: int, i2: int, k: int|
                #![trigger items[i1], items[i2], lines[k]]
                0 <= i1 < i2 < items.len() && 0 <= k < lines.len()
                    && items[i1].statement_line_id == Some(lines[k].id)
                    ==> items[i2].statement_line_id != Some(lines[k].id)
        }),
    decreases txns.len(),
{
    if txns.len() > 0 {
        let p = txns.drop_last();
        lemma_match_txns_pairing(refs, lines, p);
        let (pi, pc, pt) = match_txns(refs, lines, p);
        let t = txns.last();
        let (item, nc, nt) = txn_step(refs, lines, pc, pt, t);
        let items = pi.push(item);
        assert(match_txns(refs, lines, txns) == (items, nc, nt));
        assert forall|k: int| 0 <= k < lines.len() && claimed_line(pc, pt, lines, k) implies claimed_line(nc, nt, lines, k) by {}
        lemma_keyed_line_has_ref(refs, lines, lines.len(), t.idempotency_key@);
        lemma_first_fallback_eligible(lines, pc, pt, t.amount as int, 0);
        // The new item names a line that was not paired before this step.
        let ghost fresh: Option<int> = match free_keyed_line(refs, lines, pc, t.idempotency_key@) {
            Some(li) => Some(li),
            None => first_fallback(lines, pc, pt, t.amount as int, 0),
        };
        match fresh {
            Some(k) => {
                assert(0 <= k < lines.len());
                assert(item.statement_line_id == Some(lines[k].id));
                assert(!claimed_line(pc, pt, lines, k));
                assert(claimed_line(nc, nt, lines, k));
            },
            None => {
                assert(item.statement_line_id is None);
            },
        }
        assert forall|i: int| 0 <= i < items.len() implies names_paired_line(#[trigger] items[i], lines, nc, nt) by {
            if i < pi.len() {
                assert(items[i] == pi[i]);
                if pi[i].statement_line_id is Some {
                    let k = choose|k: int| 0 <= k < lines.len() && pi[i].statement_line_id == Some(lines[k].id)
                        && #[trigger] claimed_line(pc, pt, lines, k);
                    assert(claimed_line(nc, nt, lines, k));
                }
            } else {
                assert(items[i] == item);
            }
        }
        assert forall|i1: int, i2: int, k: int|
            #![trigger items[i1], items[i2], lines[k]]
            0 <= i1 < i2 < items.len() && 0 <= k < lines.len()
                && items[i1].statement_line_id == Some(lines[k].id)
                implies items[i2].statement_line_id != Some(lines[k].id) by {
            assert(items[i1] == pi[i1]);
            if i2 < pi.len() {
                assert(items[i2] == pi[i2]);
            } else {
                let k1 = choose|k1: int| 0 <= k1 < lines.len() && pi[i1].statement_line_id == Some(lines[k1].id)
                    && #[trigger] claimed_line(pc, pt, lines, k1);
                assert(k1 == k);
                assert(items[i2] == item);
            }
        }
    }
}

proof fn lemma_extra_items_unpaired(refs: Seq<Seq<char>>, lines: Seq<LineInput>, claimed: Set<Seq<char>>, taken: Set<int>, n: nat)
    requires
        n <= lines.len(),
        distinct_line_ids(lines),
    ensures
        forall|e: int| 0 <= e < extra_items(refs, lines, claimed, taken, n).len() ==> exists|k: int|
            0 <= k < n && (#[trigger] extra_items(refs, lines, claimed, taken, n)[e]).statement_line_id == Some(lines[k].id)
                && !claimed_line(claimed, taken, lines, k),
        forall|e1: int, e2: int, k: int|
            #![trigger extra_items(refs, lines, claimed, taken, n)[e1], extra_items(refs, lines, claimed, taken, n)[e2], lines[k]]
            0 <= e1 < e2 < extra_items(refs, lines, claimed, taken, n).len() && 0 <= k < lines.len()
                && extra_items(refs, lines, claimed, taken, n)[e1].statement_line_id == Some(lines[k].id)
                ==> extra_items(refs, lines, claimed, taken, n)[e2].statement_line_id != Some(lines[k].id),
    decreases n,
{
    if n > 0 {
        lemma_extra_items_unpaired(refs, lines, claimed, taken, (n - 1) as nat);
        let prev = extra_items(refs, lines, claimed, taken, (n - 1) as nat);
        let cur = extra_items(refs, lines, claimed, taken, n);
        assert forall|e: int| 0 <= e < cur.len() implies exists|k: int|
            0 <= k < n && (#[trigger] cur[e]).statement_line_id == Some(lines[k].id) && !claimed_line(claimed, taken, lines, k) by {
            if e < prev.len() {
                assert(cur[e] == prev[e]);
                let k = choose|k: int| 0 <= k < n - 1 && (#[trigger] prev[e]).statement_line_id == Some(lines[k].id)
                    && !claimed_line(claimed, taken, lines, k);
                assert(0 <= k < n);
            } else {
                assert(cur[e].statement_line_id == Some(lines[n - 1].id));
            }
        }
        assert forall|e1: int, e2: int, k: int|
            #![trigger cur[e1], cur[e2], lines[k]]
            0 <= e1 < e2 < cur.len() && 0 <= k < lines.len() && cur[e1].statement_line_id == Some(lines[k].id)
                implies cur[e2].statement_line_id != Some(lines[k].id) by {
            assert(cur[e1] == prev[e1]);
            if e2 < prev.len() {
                assert(cur[e2] == prev[e2]);
            } else {
                let k1 = choose|k1: int| 0 <= k1 < n - 1 && (#[trigger] prev[e1]).statement_line_id == Some(lines[k1].id)
                    && !claimed_line(claimed, taken, lines, k1);
                assert(k1 == k);
                assert(cur[e2].statement_line_id == Some(lines[n - 1].id));
            }
        }
    }
}

/// Each statement line appears in at most one item of a reconciliation
/// (line ids being distinct): it is paired with at most one transaction, and
/// a paired line is never also listed among the unpaired lines.
pub proof fn law_each_line_in_at_most_one_item(records: Seq<StatementRecord>, txns: Seq<TxnInput>, lines: Seq<LineInput>)
    requires
        distinct_line_ids(lines),
    ensures
        forall|a: int, b: int, k: int|
            #![trigger reconciled_items(records, txns, lines)[a], reconciled_items(records, txns, lines)[b], lines[k]]
            0 <= a < b < reconciled_items(records, txns, lines).len() && 0 <= k < lines.len()
                && reconciled_items(records, txns, lines)[a].statement_line_id == Some(lines[k].id)
                ==> reconciled_items(records, txns, lines)[b].statement_line_id != Some(lines[k].id),
{
    let refs = refs_of(records);
    let (items, claimed, taken) = match_txns(refs, lines, txns);
    lemma_match_txns_pairing(refs, lines, txns);
    lemma_extra_items_unpaired(refs, lines, claimed, taken, lines.len());
    let extra = extra_items(refs, lines, claimed, taken, lines.len());
    let all = reconciled_items(records, txns, lines);
    assert(all == items + extra);
    assert forall|a: int, b: int, k: int|
        #![trigger all[a], all[b], lines[k]]
        0 <= a < b < all.len() && 0 <= k < lines.len() && all[a].statement_line_id == Some(lines[k].id)
            implies all[b].statement_line_id != Some(lines[k].id) by {
        if b < items.len() {
            assert(all[a] == items[a]);
            assert(all[b] == items[b]);
        } else if a >= items.len() {
            assert(all[a] == extra[a - items.len()]);
            assert(all[b] == extra[b - items.len()]);
        } else {
            assert(all[a] == items[a]);
            assert(all[b] == extra[b - items.len()]);
            let k1 = choose|k1: int| 0 <= k1 < lines.len() && items[a].statement_line_id == Some(lines[k1].id)
                && #[trigger] claimed_line(claimed, taken, lines, k1);
            assert(k1 == k);
            let k2 = choose|k2: int| 0 <= k2 < lines.len() && (#[trigger] extra[b - items.len()]).statement_line_id
                == Some(lines[k2].id) && !claimed_line(claimed, taken, lines, k2);
            assert(k2 != k);
        }
    }
}

/// The five counts of a summary together count every item exactly once.
pub proof fn law_summary_counts_every_item(items: Seq<ReconItem>)
    ensures
        count_of(items, DiscrepancyType::Matched) + count_of(items, DiscrepancyType::AmountMismatch)
            + count_of(items, DiscrepancyType::MissingFromStatement)
            + count_of(items, DiscrepancyType::ExtraInStatement)
            + count_of(items, DiscrepancyType::Duplicate) == items.len(),
    decreases items.len(),
{
    if items.len() > 0 {
        law_summary_counts_every_item(items.drop_last());
    }
}

proof fn lemma_count_all(items: Seq<ReconItem>, t: DiscrepancyType)
    ensures
        count_of(items, t) <= items.len(),
        (count_of(items, t) == items.len()) <==> forall|i: int| 0 <= i < items.len() ==> (#[trigger] items[i]).discrepancy_type == t,
    decreases items.len(),
{
    if items.len() > 0 {
        lemma_count_all(items.drop_last(), t);
        if count_of(items, t) == items.len() {
            assert forall|i: int| 0 <= i < items.len() implies (#[trigger] items[i]).discrepancy_type == t by {
                if i < items.len() - 1 {
                    assert(items[i] == items.drop_last()[i]);
                }
            }
        }
        if forall|i: int| 0 <= i < items.len() ==> (#[trigger] items[i]).discrepancy_type == t {
            assert forall|i: int| 0 <= i < items.drop_last().len() implies (#[trigger] items.drop_last()[i]).discrepancy_type == t by {
                assert(items.drop_last()[i] == items[i]);
            }
            assert(items[items.len() - 1].discrepancy_type == t);
        }
    }
}

/// The discrepancy total of a run's summary counts every item that is not a
/// match, duplicates included: total and matches together count every item,
/// and the run is clean exactly when every item matched.
pub proof fn law_total_counts_unmatched_items(items: Seq<ReconItem>)
    requires
        items.len() <= usize::MAX,
    ensures
        summary_of(items).spec_total() + summary_of(items).matched == items.len(),
        (summary_of(items).spec_total() == 0) <==> forall|i: int|
            0 <= i < items.len() ==> (#[trigger] items[i]).discrepancy_type == DiscrepancyType::Matched,
{
    law_summary_counts_every_item(items);
    lemma_count_all(items, DiscrepancyType::Matched);
}

/// Severity carried by a reconciliation notification.
#[derive(Debug, Clone, Copy, PartialEq, Eq, Structural)]
pub enum EventSeverity {
    Info,
    Warning,
    Critical,
}

impl EventSeverity {
    pub fn as_str(self) -> (r: &'static str)
        ensures
            r@ == (match self {
                EventSeverity::Info => "info"@,
                EventSeverity::Warning => "warning"@,
                EventSeverity::Critical => "critical"@,
            }),
    {
        match self {
            EventSeverity::Info => "info",
            EventSeverity::Warning => "warning",
            EventSeverity::Critical => "critical",
        }
    }
}

/// A notification event raised when a run finishes.
#[derive(Debug, Clone, Copy, PartialEq, Eq, Structural)]
pub enum ReconEvent {
    /// Always raised; `info` for a clean run, `warning` otherwise.
    Completed { severity: EventSeverity },
    /// Raised when the run has any discrepancy.
    DiscrepancyFound,
    /// Raised, as `critical`, when the discrepancies are high.
    HighDiscrepancy,
}

impl ReconEvent {
    /// The event type stored in the notification event.
    pub fn event_type(self) -> (r: &'static str)
        ensures
            r@ == (match self {
                ReconEvent::Completed { .. } => "payments.reconciliation.completed"@,
                ReconEvent::DiscrepancyFound => "payments.reconciliation.discrepancy_found"@,
                ReconEvent::HighDiscrepancy => "payments.reconciliation.high_discrepancy"@,
            }),
    {
        match self {
            ReconEvent::Completed { .. } => "payments.reconciliation.completed",
            ReconEvent::DiscrepancyFound => "payments.reconciliation.discrepancy_found",
            ReconEvent::HighDiscrepancy => "payments.reconciliation.high_discrepancy",
        }
    }

    /// The severity placed in the payload, if any.
    pub fn severity(self) -> (r: Option<EventSeverity>)
        ensures
            r == (match self {
                ReconEvent::Completed { severity } => Some(severity),
                ReconEvent::DiscrepancyFound => None,
                ReconEvent::HighDiscrepancy => Some(EventSeverity::Critical),
            }),
    {
        match self {
            ReconEvent::Completed { severity } => Some(severity),
            ReconEvent::DiscrepancyFound => None,
            ReconEvent::HighDiscrepancy => Some(EventSeverity::Critical),
        }
    }
}

/// The events of a finished run, in the order they are raised.
pub open spec fn planned_events(discrepancies: nat, total_records: nat) -> Seq<ReconEvent> {
    seq![ReconEvent::Completed {
        severity: if discrepancies == 0 { EventSeverity::Info } else { EventSeverity::Warning },
    }] + (if discrepancies > 0 { seq![ReconEvent::DiscrepancyFound] } else { Seq::empty() })
        + (if high_discrepancy(discrepancies, total_records) { seq![ReconEvent::HighDiscrepancy] } else {
        Seq::empty()
    })
}

/// The notification events to raise for a run with `summary` over
/// `total_records` items.
pub fn reconciliation_events(summary: &DiscrepancySummary, total_records: usize) -> (r: Vec<ReconEvent>)
    requires
        summary.spec_total() * 100 <= usize::MAX,
    ensures
        r@ == planned_events(summary.spec_total(), total_records as nat),
{
    let mut events: Vec<ReconEvent> = Vec::new();
    let clean = summary.is_clean();
    let severity = if clean { EventSeverity::Info } else { EventSeverity::Warning };
    events.push(ReconEvent::Completed { severity });
    if !clean {
        events.push(ReconEvent::DiscrepancyFound);
    }
    if summary.is_high(total_records) {
        events.push(ReconEvent::HighDiscrepancy);
    }
    events
}

/// Whether a finished run raises an anomaly alert: when it has any
/// discrepancy.
pub fn needs_alert(summary: &DiscrepancySummary) -> (r: bool)
    requires
        summary.spec_total() <= usize::MAX,
    ensures
        r == (summary.spec_total() > 0),
{
    summary.total_discrepancies() > 0
}

} // verus!
