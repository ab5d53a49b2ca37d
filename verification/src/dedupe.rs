//! Pure deduplication operations on in-memory record collections:
//! reward filtering, new-record detection relative to a known set, and
//! first-seen-wins merging by id.

use vstd::prelude::*;

use crate::keys::base_of;
use crate::quest::{summaries, summary_of, Quest, QuestSummary, StoredQuest};

verus! {

/// Whether some record of `s` carries exactly the id `id`.
pub open spec fn has_qid(s: Seq<QuestSummary>, id: Seq<char>) -> bool {
    exists|i: int| 0 <= i < s.len() && s[i].id == id
}

/// Whether some record of `s` has base id `b`, under any region prefix.
pub open spec fn has_base(s: Seq<QuestSummary>, b: Seq<char>) -> bool {
    exists|i: int| 0 <= i < s.len() && base_of(s[i].id) == b
}

/// The candidates whose full id does not appear in `known`, in candidate
/// order.
pub open spec fn new_quests(
    candidates: Seq<QuestSummary>,
    known: Seq<QuestSummary>,
) -> Seq<QuestSummary> {
    candidates.filter(|q: QuestSummary| !has_qid(known, q.id))
}

/// The candidates whose base id appears nowhere in `known`, in candidate
/// order.  This is the cross-region suppression step: a quest already known
/// under one region tag must not count as new under another.
pub open spec fn without_known_bases(
    candidates: Seq<QuestSummary>,
    known: Seq<QuestSummary>,
) -> Seq<QuestSummary> {
    candidates.filter(|q: QuestSummary| !has_base(known, base_of(q.id)))
}

/// Whether a record passes the reward filter.  `all` passes everything,
/// `orbs` and `decor` pass matching reward types, and any other filter value
/// passes nothing: a deliberate strict-allowlist policy.
pub open spec fn passes_filter(q: QuestSummary, filter: Seq<char>) -> bool {
    if filter == "all"@ {
        true
    } else if filter == "orbs"@ {
        q.reward_type == "orbs"@
    } else if filter == "decor"@ {
        q.reward_type == "decor"@
    } else {
        false
    }
}

/// The summaries of the quests of a batch that pass the reward filter, in
/// batch order.
pub open spec fn filtered(qs: Seq<Quest>, filter: Seq<char>) -> Seq<QuestSummary> {
    summaries(qs).filter(|q: QuestSummary| passes_filter(q, filter))
}

/// First-seen-wins deduplication by full id: of several records sharing an
/// id, the earliest occurrence is kept, in first-occurrence order.
pub open spec fn dedupe_ids(s: Seq<QuestSummary>) -> Seq<QuestSummary>
    decreases s.len(),
{
    if s.len() == 0 {
        s
    } else {
        let rest = dedupe_ids(s.drop_last());
        if has_qid(rest, s.last().id) {
            rest
        } else {
            rest.push(s.last())
        }
    }
}

/// The known set after merging `records` into `known`: records are appended
/// and the result is deduplicated by id, first seen wins.
pub open spec fn merged(known: Seq<QuestSummary>, records: Seq<QuestSummary>) -> Seq<
    QuestSummary,
> {
    dedupe_ids(known + records)
}

/// The new-record selection is exact: every selected record's id is absent
/// from the known set and is one of the candidates, and every candidate
/// whose id is absent from the known set is selected.  Candidate order is
/// preserved, since the selection is a filter of the candidate sequence.
pub proof fn lemma_new_quests_exact(candidates: Seq<QuestSummary>, known: Seq<QuestSummary>)
    ensures
        forall|i: int|
            0 <= i < new_quests(candidates, known).len() ==> !has_qid(
                known,
                (#[trigger] new_quests(candidates, known)[i]).id,
            ),
        forall|i: int|
            0 <= i < new_quests(candidates, known).len() ==> candidates.contains(
                #[trigger] new_quests(candidates, known)[i],
            ),
        forall|j: int|
            0 <= j < candidates.len() && !has_qid(known, (#[trigger] candidates[j]).id)
                ==> new_quests(candidates, known).contains(candidates[j]),
{
    let pred = |q: QuestSummary| !has_qid(known, q.id);
    let out = new_quests(candidates, known);
    assert forall|i: int| 0 <= i < out.len() implies !has_qid(known, out[i].id) by {
        candidates.lemma_filter_pred(pred, i);
    }
    assert forall|i: int|
        0 <= i < new_quests(candidates, known).len() implies candidates.contains(
        #[trigger] new_quests(candidates, known)[i],
    ) by {
        lemma_filter_subset(candidates, pred, i);
        let j = choose|j: int|
            0 <= j < candidates.len() && candidates[j] == candidates.filter(pred)[i];
        assert(candidates[j] == new_quests(candidates, known)[i]);
    }
    assert forall|j: int|
        0 <= j < candidates.len() && !has_qid(known, candidates[j].id) implies out.contains(
        candidates[j],
    ) by {
        candidates.lemma_filter_contains(pred, j);
    }
}

/// No two records of `s` share a full id.
pub open spec fn unique_ids(s: Seq<QuestSummary>) -> bool {
    forall|i: int, j: int| 0 <= i < j < s.len() ==> s[i].id != s[j].id
}

proof fn lemma_has_qid_unsnoc(s: Seq<QuestSummary>, id: Seq<char>)
    requires
        s.len() > 0,
    ensures
        has_qid(s, id) == (has_qid(s.drop_last(), id) || s.last().id == id),
{
    if has_qid(s, id) {
        let i = choose|i: int| 0 <= i < s.len() && s[i].id == id;
        if i < s.len() - 1 {
            assert(s.drop_last()[i].id == id);
        }
    }
    if has_qid(s.drop_last(), id) {
        let i = choose|i: int| 0 <= i < s.drop_last().len() && s.drop_last()[i].id == id;
        assert(s[i].id == id);
    }
    if s.last().id == id {
        assert(s[s.len() - 1].id == id);
    }
}

proof fn lemma_has_base_unsnoc(s: Seq<QuestSummary>, b: Seq<char>)
    requires
        s.len() > 0,
    ensures
        has_base(s, b) == (has_base(s.drop_last(), b) || base_of(s.last().id) == b),
{
    if has_base(s, b) {
        let i = choose|i: int| 0 <= i < s.len() && base_of(s[i].id) == b;
        if i < s.len() - 1 {
            assert(base_of(s.drop_last()[i].id) == b);
        }
    }
    if has_base(s.drop_last(), b) {
        let i = choose|i: int|
            0 <= i < s.drop_last().len() && base_of(s.drop_last()[i].id) == b;
        assert(base_of(s[i].id) == b);
    }
    if base_of(s.last().id) == b {
        assert(base_of(s[s.len() - 1].id) == b);
    }
}

/// An id occurs somewhere in a concatenation exactly when it occurs in one of
/// the parts.
pub proof fn lemma_has_qid_concat(a: Seq<QuestSummary>, b: Seq<QuestSummary>, id: Seq<char>)
    ensures
        has_qid(a + b, id) == (has_qid(a, id) || has_qid(b, id)),
{
    if has_qid(a + b, id) {
        let i = choose|i: int| 0 <= i < (a + b).len() && (a + b)[i].id == id;
        if i < a.len() {
            assert(a[i].id == id);
        } else {
            assert(b[i - a.len()].id == id);
        }
    }
    if has_qid(a, id) {
        let i = choose|i: int| 0 <= i < a.len() && a[i].id == id;
        assert((a + b)[i].id == id);
    }
    if has_qid(b, id) {
        let i = choose|i: int| 0 <= i < b.len() && b[i].id == id;
        assert((a + b)[i + a.len()].id == id);
    }
}

/// A base id occurs somewhere in a concatenation exactly when it occurs in
/// one of the parts.
pub proof fn lemma_has_base_concat(a: Seq<QuestSummary>, b: Seq<QuestSummary>, bid: Seq<char>)
    ensures
        has_base(a + b, bid) == (has_base(a, bid) || has_base(b, bid)),
{
    if has_base(a + b, bid) {
        let i = choose|i: int| 0 <= i < (a + b).len() && base_of((a + b)[i].id) == bid;
        if i < a.len() {
            assert(base_of(a[i].id) == bid);
        } else {
            assert(base_of(b[i - a.len()].id) == bid);
        }
    }
    if has_base(a, bid) {
        let i = choose|i: int| 0 <= i < a.len() && base_of(a[i].id) == bid;
        assert(base_of((a + b)[i].id) == bid);
    }
    if has_base(b, bid) {
        let i = choose|i: int| 0 <= i < b.len() && base_of(b[i].id) == bid;
        assert(base_of((a + b)[i + a.len()].id) == bid);
    }
}

/// A record with a given id carries, in particular, that id's base.
pub proof fn lemma_has_qid_implies_has_base(s: Seq<QuestSummary>, id: Seq<char>)
    requires
        has_qid(s, id),
    ensures
        has_base(s, base_of(id)),
{
    let i = choose|i: int| 0 <= i < s.len() && s[i].id == id;
    assert(base_of(s[i].id) == base_of(id));
}

/// Deduplication keeps exactly the ids of its input.
pub proof fn lemma_dedupe_same_ids(s: Seq<QuestSummary>, id: Seq<char>)
    ensures
        has_qid(dedupe_ids(s), id) == has_qid(s, id),
    decreases s.len(),
{
    if s.len() > 0 {
        lemma_dedupe_same_ids(s.drop_last(), id);
        lemma_has_qid_unsnoc(s, id);
        let rest = dedupe_ids(s.drop_last());
        if !has_qid(rest, s.last().id) {
            lemma_has_qid_unsnoc(rest.push(s.last()), id);
            assert(rest.push(s.last()).drop_last() =~= rest);
        }
    }
}

/// Deduplication keeps exactly the base ids of its input.
pub proof fn lemma_dedupe_same_bases(s: Seq<QuestSummary>, b: Seq<char>)
    ensures
        has_base(dedupe_ids(s), b) == has_base(s, b),
    decreases s.len(),
{
    if s.len() > 0 {
        lemma_dedupe_same_bases(s.drop_last(), b);
        lemma_has_base_unsnoc(s, b);
        let rest = dedupe_ids(s.drop_last());
        if has_qid(rest, s.last().id) {
            // the dropped record's base survives through the record that
            // already carries its id
            if base_of(s.last().id) == b {
                lemma_has_qid_implies_has_base(rest, s.last().id);
            }
        } else {
            lemma_has_base_unsnoc(rest.push(s.last()), b);
            assert(rest.push(s.last()).drop_last() =~= rest);
        }
    }
}

/// Deduplication leaves no two records sharing an id.
pub proof fn lemma_dedupe_unique(s: Seq<QuestSummary>)
    ensures
        unique_ids(dedupe_ids(s)),
    decreases s.len(),
{
    if s.len() > 0 {
        lemma_dedupe_unique(s.drop_last());
        let rest = dedupe_ids(s.drop_last());
        if !has_qid(rest, s.last().id) {
            let out = rest.push(s.last());
            assert forall|i: int, j: int| 0 <= i < j < out.len() implies out[i].id
                != out[j].id by {
                if j == out.len() - 1 {
                    assert(out[i] == rest[i]);
                    if out[i].id == s.last().id {
                        assert(has_qid(rest, s.last().id));
                    }
                }
            }
        }
    }
}

/// A collection already free of duplicate ids deduplicates to itself.
pub proof fn lemma_dedupe_of_unique(s: Seq<QuestSummary>)
    requires
        unique_ids(s),
    ensures
        dedupe_ids(s) == s,
    decreases s.len(),
{
    if s.len() > 0 {
        assert(unique_ids(s.drop_last())) by {
            assert forall|i: int, j: int| 0 <= i < j < s.drop_last().len() implies s
                .drop_last()[i].id != s.drop_last()[j].id by {
                assert(s[i].id != s[j].id);
            }
        }
        lemma_dedupe_of_unique(s.drop_last());
        if has_qid(s.drop_last(), s.last().id) {
            let i = choose|i: int|
                0 <= i < s.drop_last().len() && s.drop_last()[i].id == s.last().id;
            assert(s[i].id == s[s.len() - 1].id);
            assert(false);
        }
        assert(s.drop_last().push(s.last()) =~= s);
    }
}

/// Merging by key is idempotent: deduplicating an already-deduplicated
/// collection yields the same collection.
pub proof fn lemma_merge_by_key_idempotent(s: Seq<QuestSummary>)
    ensures
        dedupe_ids(dedupe_ids(s)) == dedupe_ids(s),
{
    lemma_dedupe_unique(s);
    lemma_dedupe_of_unique(dedupe_ids(s));
}

/// Filtering with a predicate that holds nowhere yields the empty sequence.
pub proof fn lemma_filter_all_false<A>(s: Seq<A>, pred: spec_fn(A) -> bool)
    requires
        forall|i: int| 0 <= i < s.len() ==> !pred(s[i]),
    ensures
        s.filter(pred) == Seq::<A>::empty(),
    decreases s.len(),
{
    reveal_with_fuel(Seq::filter, 2);
    if s.len() > 0 {
        assert(forall|i: int| 0 <= i < s.drop_last().len() ==> !pred(s.drop_last()[i]));
        lemma_filter_all_false(s.drop_last(), pred);
        assert(!pred(s.last()));
    }
}

/// Every element of a filtered sequence is an element of the original.
pub proof fn lemma_filter_subset<A>(s: Seq<A>, pred: spec_fn(A) -> bool, i: int)
    requires
        0 <= i < s.filter(pred).len(),
    ensures
        exists|j: int| 0 <= j < s.len() && s[j] == s.filter(pred)[i],
    decreases s.len(),
{
    reveal_with_fuel(Seq::filter, 2);
    if s.len() > 0 {
        let sub = s.drop_last().filter(pred);
        if i < sub.len() {
            lemma_filter_subset(s.drop_last(), pred, i);
            let j = choose|j: int|
                0 <= j < s.drop_last().len() && s.drop_last()[j] == sub[i];
            assert(s[j] == s.filter(pred)[i]);
        } else {
            assert(s[s.len() - 1] == s.filter(pred)[i]);
        }
    }
}

/// One step of a filtering loop: extending the prefix by one element extends
/// the filtered prefix exactly when the element passes.
pub proof fn lemma_filter_take_step<A>(s: Seq<A>, pred: spec_fn(A) -> bool, i: int)
    requires
        0 <= i < s.len(),
    ensures
        s.take(i + 1).filter(pred) == if pred(s[i]) {
            s.take(i).filter(pred).push(s[i])
        } else {
            s.take(i).filter(pred)
        },
{
    reveal_with_fuel(Seq::filter, 2);
    assert(s.take(i + 1).drop_last() =~= s.take(i));
    assert(s.take(i + 1).last() == s[i]);
}

/// Whether some record of `records` carries exactly the id `id`.
pub fn contains_id(records: &Vec<StoredQuest>, id: &String) -> (r: bool)
    ensures
        r == has_qid(records.deep_view(), id@),
{
    let n = records.len();
    let mut i: usize = 0;
    while i < n
        invariant
            n == records.len(),
            0 <= i <= n,
            forall|j: int| 0 <= j < i ==> records.deep_view()[j].id != id@,
        decreases n - i,
    {
        if records[i].id == *id {
            assert(records.deep_view()[i as int].id == id@);
            return true;
        }
        i += 1;
    }
    false
}

/// Whether some record of `records` has base id `base`, under any region
/// prefix.
pub fn contains_base(records: &Vec<StoredQuest>, base: &str) -> (r: bool)
    ensures
        r == has_base(records.deep_view(), base@),
{
    let n = records.len();
    let mut i: usize = 0;
    while i < n
        invariant
            n == records.len(),
            0 <= i <= n,
            forall|j: int| 0 <= j < i ==> base_of(records.deep_view()[j].id) != base@,
        decreases n - i,
    {
        let rb = crate::keys::base_id_of(records[i].id.as_str());
        if crate::keys::str_eq(rb.as_str(), base) {
            assert(base_of(records.deep_view()[i as int].id) == base@);
            return true;
        }
        i += 1;
    }
    false
}

/// Returns the candidates whose full id does not appear in the known set,
/// in candidate order.
pub fn find_new_quests(
    all_quests: &Vec<StoredQuest>,
    stored_quests: &Vec<StoredQuest>,
) -> (res: Vec<StoredQuest>)
    ensures
        res.deep_view() == new_quests(all_quests.deep_view(), stored_quests.deep_view()),
{
    let ghost cdv = all_quests.deep_view();
    let ghost kdv = stored_quests.deep_view();
    let ghost pred = |q: QuestSummary| !has_qid(kdv, q.id);
    let n = all_quests.len();
    let mut res: Vec<StoredQuest> = Vec::new();
    let mut i: usize = 0;
    proof {
        assert(res.deep_view() =~= cdv.take(0).filter(pred));
    }
    while i < n
        invariant
            n == all_quests.len(),
            0 <= i <= n,
            cdv == all_quests.deep_view(),
            kdv == stored_quests.deep_view(),
            pred == (|q: QuestSummary| !has_qid(kdv, q.id)),
            res.deep_view() == cdv.take(i as int).filter(pred),
        decreases n - i,
    {
        let ghost before = res.deep_view();
        if !contains_id(stored_quests, &all_quests[i].id) {
            res.push(all_quests[i].clone());
            proof {
                assert(res.deep_view() =~= before.push(cdv[i as int]));
            }
        }
        proof {
            lemma_filter_take_step(cdv, pred, i as int);
            assert(cdv[i as int] == all_quests[i as int].deep_view());
        }
        i += 1;
    }
    proof {
        assert(cdv.take(n as int) =~= cdv);
    }
    res
}

/// First-seen-wins merge by full id: keeps the first occurrence of each id,
/// in first-occurrence order, and guarantees the result's ids are unique.
pub fn dedupe_by_key(items: &Vec<StoredQuest>) -> (res: Vec<StoredQuest>)
    ensures
        res.deep_view() == dedupe_ids(items.deep_view()),
        unique_ids(res.deep_view()),
{
    let ghost idv = items.deep_view();
    let n = items.len();
    let mut res: Vec<StoredQuest> = Vec::new();
    let mut i: usize = 0;
    proof {
        assert(res.deep_view() =~= dedupe_ids(idv.take(0)));
    }
    while i < n
        invariant
            n == items.len(),
            0 <= i <= n,
            idv == items.deep_view(),
            res.deep_view() == dedupe_ids(idv.take(i as int)),
        decreases n - i,
    {
        let ghost before = res.deep_view();
        if !contains_id(&res, &items[i].id) {
            res.push(items[i].clone());
            proof {
                assert(res.deep_view() =~= before.push(idv[i as int]));
            }
        }
        proof {
            assert(idv.take(i + 1).drop_last() =~= idv.take(i as int));
            assert(idv.take(i + 1).last() == idv[i as int]);
            assert(idv[i as int] == items[i as int].deep_view());
        }
        i += 1;
    }
    proof {
        assert(idv.take(n as int) =~= idv);
        lemma_dedupe_unique(idv);
    }
    res
}

/// Returns the summaries of the quests of a batch that pass the reward
/// filter, as store records, in batch order.  `all` passes everything,
/// `orbs` and `decor` pass matching reward types, and any other filter value
/// yields an empty result.
pub fn filter_quests(quests: &Vec<Quest>, filter: &str) -> (res: Vec<StoredQuest>)
    ensures
        res.deep_view() == filtered(quests@, filter@),
{
    let ghost s = summaries(quests@);
    let ghost fv = filter@;
    let ghost pred = |q: QuestSummary| passes_filter(q, fv);
    let f_all = crate::keys::str_eq(filter, "all");
    let f_orbs = crate::keys::str_eq(filter, "orbs");
    let f_decor = crate::keys::str_eq(filter, "decor");
    let n = quests.len();
    let mut res: Vec<StoredQuest> = Vec::new();
    let mut i: usize = 0;
    proof {
        assert(res.deep_view() =~= s.take(0).filter(pred));
    }
    while i < n
        invariant
            n == quests.len(),
            0 <= i <= n,
            s == summaries(quests@),
            fv == filter@,
            pred == (|q: QuestSummary| passes_filter(q, fv)),
            f_all == (fv == "all"@),
            f_orbs == (fv == "orbs"@),
            f_decor == (fv == "decor"@),
            res.deep_view() == s.take(i as int).filter(pred),
        decreases n - i,
    {
        let ghost before = res.deep_view();
        let sq = StoredQuest::from_quest(&quests[i]);
        proof {
            assert(s[i as int] == summary_of(quests@[i as int]));
        }
        let passes = if f_all {
            true
        } else if f_orbs {
            crate::keys::str_eq(sq.reward_type.as_str(), "orbs")
        } else if f_decor {
            crate::keys::str_eq(sq.reward_type.as_str(), "decor")
        } else {
            false
        };
        assert(passes == passes_filter(s[i as int], fv));
        if passes {
            res.push(sq);
            proof {
                assert(res.deep_view() =~= before.push(s[i as int]));
            }
        }
        proof {
            lemma_filter_take_step(s, pred, i as int);
        }
        i += 1;
    }
    proof {
        assert(s.take(n as int) =~= s);
    }
    res
}

} // verus!
