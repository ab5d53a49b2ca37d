//! Per-locale scan planning.
//!
//! One scan cycle walks an ordered list of locales.  For each locale the
//! runtime fetches the raw quest batch and hands it here: `plan_locale`
//! decides which records are genuinely new for that locale (reward filter,
//! region re-keying, known-id and cross-region suppression, seed-only
//! policy) and which fetched payloads are owed to the notification sinks.
//! The runtime then dispatches, commits the new records to the store, and
//! accumulates the candidates for the end-of-cycle reconciliation pass,
//! pacing itself between locales with `pacing_delay`.

use vstd::prelude::*;

use crate::dedupe::{
    filtered, lemma_filter_take_step, new_quests, without_known_bases, contains_base,
    find_new_quests, filter_quests, has_qid, merged, lemma_has_qid_concat,
    lemma_dedupe_same_ids,
};
use crate::keys::{base_of, base_id_of, compose_id, str_eq};
use crate::quest::{Quest, QuestSummary, StoredQuest};

verus! {

/// The summary of a record after its id is namespaced under a region.
pub open spec fn prefix_summary(q: QuestSummary, region: Seq<char>) -> QuestSummary {
    QuestSummary {
        id: region + seq![':'] + q.id,
        name: q.name,
        reward: q.reward,
        reward_type: q.reward_type,
        expires_at: q.expires_at,
        game_name: q.game_name,
    }
}

/// A record batch re-keyed under a region, in batch order.
pub open spec fn prefixed(s: Seq<QuestSummary>, region: Seq<char>) -> Seq<QuestSummary> {
    s.map_values(|q: QuestSummary| prefix_summary(q, region))
}

/// Re-keying a record under a region leaves its base id unchanged.
pub proof fn lemma_base_of_prefixed_summary(q: QuestSummary, region: Seq<char>)
    ensures
        base_of(prefix_summary(q, region).id) == base_of(q.id),
{
    crate::keys::lemma_base_of_prefixed(region, q.id);
}

/// The candidates one locale contributes to a cycle: the fetched batch
/// reduced to store records, reward-filtered, and re-keyed as
/// `"<locale>:<base-id>"`.
pub open spec fn locale_candidates(
    fetched: Seq<Quest>,
    filter: Seq<char>,
    locale: Seq<char>,
) -> Seq<QuestSummary> {
    prefixed(filtered(fetched, filter), locale)
}

/// The records one locale scan reports as genuinely new: candidates whose
/// full id is absent from the known set and whose base id appears nowhere in
/// it under any region tag.  A seed-only cycle reports nothing new.
pub open spec fn locale_new(
    fetched: Seq<Quest>,
    filter: Seq<char>,
    locale: Seq<char>,
    known: Seq<QuestSummary>,
    seed_only: bool,
) -> Seq<QuestSummary> {
    if seed_only {
        Seq::<QuestSummary>::empty()
    } else {
        without_known_bases(
            new_quests(locale_candidates(fetched, filter, locale), known),
            known,
        )
    }
}

/// Whether some new record's base id resolves to the upstream quest id
/// `qid`.
pub open spec fn resolves(news: Seq<QuestSummary>, qid: Seq<char>) -> bool {
    exists|k: int| 0 <= k < news.len() && base_of(news[k].id) == qid
}

/// The positions, in batch order, of the quests of `qs` whose id some new
/// record resolves to.  These are the payloads owed to the sinks.
pub open spec fn resolve_indices(news: Seq<QuestSummary>, qs: Seq<Quest>) -> Seq<usize>
    decreases qs.len(),
{
    if qs.len() == 0 {
        Seq::<usize>::empty()
    } else {
        let rest = resolve_indices(news, qs.drop_last());
        if resolves(news, qs.last().config.id@) {
            rest.push((qs.len() - 1) as usize)
        } else {
            rest
        }
    }
}

/// The payload selection is exact: every selected position lies within the
/// batch and its quest id is resolved by some new record's base id, the
/// positions are strictly increasing, and every batch position whose quest
/// id is resolved is selected.
pub proof fn lemma_resolve_indices_exact(news: Seq<QuestSummary>, qs: Seq<Quest>)
    requires
        qs.len() <= usize::MAX,
    ensures
        forall|a: int|
            0 <= a < resolve_indices(news, qs).len() ==> (#[trigger] resolve_indices(
                news,
                qs,
            )[a]) < qs.len() && resolves(
                news,
                qs[resolve_indices(news, qs)[a] as int].config.id@,
            ),
        forall|a: int, b: int|
            0 <= a < b < resolve_indices(news, qs).len() ==> (#[trigger] resolve_indices(
                news,
                qs,
            )[a]) < (#[trigger] resolve_indices(news, qs)[b]),
        forall|i: int|
            0 <= i < qs.len() && resolves(news, (#[trigger] qs[i]).config.id@)
                ==> resolve_indices(news, qs).contains(i as usize),
    decreases qs.len(),
{
    if qs.len() > 0 {
        lemma_resolve_indices_exact(news, qs.drop_last());
        let r = resolve_indices(news, qs);
        let rest = resolve_indices(news, qs.drop_last());
        let n = qs.len() as int;
        if resolves(news, qs.last().config.id@) {
            assert(r == rest.push((n - 1) as usize));
            assert forall|i: int|
                0 <= i < n && resolves(news, (#[trigger] qs[i]).config.id@) implies r
                .contains(i as usize) by {
                if i < n - 1 {
                    assert(qs.drop_last()[i] == qs[i]);
                    assert(rest.contains(i as usize));
                    let a = choose|a: int| 0 <= a < rest.len() && rest[a] == i as usize;
                    assert(r[a] == i as usize);
                } else {
                    assert(r[r.len() - 1] == i as usize);
                }
            }
        } else {
            assert(r == rest);
            assert forall|i: int|
                0 <= i < n && resolves(news, (#[trigger] qs[i]).config.id@) implies r
                .contains(i as usize) by {
                if i < n - 1 {
                    assert(qs.drop_last()[i] == qs[i]);
                    assert(rest.contains(i as usize));
                }
            }
        }
        assert forall|a: int| 0 <= a < r.len() implies (#[trigger] r[a]) < qs.len()
            && resolves(news, qs[r[a] as int].config.id@) by {
            if a < rest.len() {
                assert(r[a] == rest[a]);
                assert(rest[a] < qs.drop_last().len());
                assert(qs.drop_last()[rest[a] as int] == qs[rest[a] as int]);
            } else {
                assert(r[a] == (n - 1) as usize);
                assert(r[a] as int == n - 1);
                assert(qs[n - 1] == qs.last());
            }
        }
    }
}

/// With no new records, no payload is owed.
pub proof fn lemma_resolve_indices_empty(news: Seq<QuestSummary>, qs: Seq<Quest>)
    requires
        news.len() == 0,
    ensures
        resolve_indices(news, qs) == Seq::<usize>::empty(),
    decreases qs.len(),
{
    if qs.len() > 0 {
        lemma_resolve_indices_empty(news, qs.drop_last());
    }
}

/// Re-keys each record's id as `"<region>:<base-id>"`, leaving every other
/// field unchanged.
pub fn apply_region(records: &Vec<StoredQuest>, region: &str) -> (res: Vec<StoredQuest>)
    ensures
        res.deep_view() == prefixed(records.deep_view(), region@),
{
    let ghost rdv = records.deep_view();
    let n = records.len();
    let mut res: Vec<StoredQuest> = Vec::new();
    let mut i: usize = 0;
    while i < n
        invariant
            n == records.len(),
            0 <= i <= n,
            rdv == records.deep_view(),
            res.deep_view().len() == i,
            forall|j: int| 0 <= j < i ==> res.deep_view()[j] == prefix_summary(
                rdv[j],
                region@,
            ),
        decreases n - i,
    {
        let sq = &records[i];
        let keyed = StoredQuest {
            id: compose_id(region, sq.id.as_str()),
            name: sq.name.clone(),
            reward: sq.reward.clone(),
            reward_type: sq.reward_type.clone(),
            expires_at: sq.expires_at.clone(),
            game_name: sq.game_name.clone(),
        };
        let ghost before = res.deep_view();
        res.push(keyed);
        proof {
            assert forall|j: int| 0 <= j < i + 1 implies res.deep_view()[j]
                == prefix_summary(rdv[j], region@) by {
                if j < i {
                    assert(res.deep_view()[j] == before[j]);
                } else {
                    assert(res.deep_view()[j] =~= prefix_summary(rdv[j], region@));
                }
            }
        }
        i += 1;
    }
    proof {
        assert(res.deep_view() =~= prefixed(rdv, region@));
    }
    res
}

/// Drops every candidate whose base id already appears in the known set
/// under any region tag.  This is what prevents a quest already notified
/// under one locale from re-triggering under another.
pub fn suppress_cross_region(
    candidates: &Vec<StoredQuest>,
    known: &Vec<StoredQuest>,
) -> (res: Vec<StoredQuest>)
    ensures
        res.deep_view() == without_known_bases(candidates.deep_view(), known.deep_view()),
{
    let ghost cdv = candidates.deep_view();
    let ghost kdv = known.deep_view();
    let ghost pred = |q: QuestSummary| !crate::dedupe::has_base(kdv, base_of(q.id));
    let n = candidates.len();
    let mut res: Vec<StoredQuest> = Vec::new();
    let mut i: usize = 0;
    proof {
        assert(res.deep_view() =~= cdv.take(0).filter(pred));
    }
    while i < n
        invariant
            n == candidates.len(),
            0 <= i <= n,
            cdv == candidates.deep_view(),
            kdv == known.deep_view(),
            pred == (|q: QuestSummary| !crate::dedupe::has_base(kdv, base_of(q.id))),
            res.deep_view() == cdv.take(i as int).filter(pred),
        decreases n - i,
    {
        let ghost before = res.deep_view();
        let base = base_id_of(candidates[i].id.as_str());
        if !contains_base(known, base.as_str()) {
            res.push(candidates[i].clone());
            proof {
                assert(res.deep_view() =~= before.push(cdv[i as int]));
            }
        }
        proof {
            assert(cdv[i as int] == candidates[i as int].deep_view());
            lemma_filter_take_step(cdv, pred, i as int);
        }
        i += 1;
    }
    proof {
        assert(cdv.take(n as int) =~= cdv);
    }
    res
}

/// Whether some new record's base id resolves to the quest id `qid`.
fn matches_new_base(news: &Vec<StoredQuest>, qid: &String) -> (r: bool)
    ensures
        r == resolves(news.deep_view(), qid@),
{
    let n = news.len();
    let mut k: usize = 0;
    while k < n
        invariant
            n == news.len(),
            0 <= k <= n,
            forall|j: int| 0 <= j < k ==> base_of(news.deep_view()[j].id) != qid@,
        decreases n - k,
    {
        let base = base_id_of(news[k].id.as_str());
        if str_eq(base.as_str(), qid.as_str()) {
            assert(base_of(news.deep_view()[k as int].id) == qid@);
            return true;
        }
        k += 1;
    }
    false
}

/// Returns the positions of the quests of `quests` that some new record
/// resolves to, matched by base id against the quest's own id, in batch
/// order.
pub fn resolve_payloads(news: &Vec<StoredQuest>, quests: &Vec<Quest>) -> (idx: Vec<usize>)
    ensures
        idx@ == resolve_indices(news.deep_view(), quests@),
{
    let ghost ndv = news.deep_view();
    let n = quests.len();
    let mut idx: Vec<usize> = Vec::new();
    let mut i: usize = 0;
    proof {
        assert(idx@ =~= resolve_indices(ndv, quests@.take(0)));
    }
    while i < n
        invariant
            n == quests.len(),
            0 <= i <= n,
            ndv == news.deep_view(),
            idx@ == resolve_indices(ndv, quests@.take(i as int)),
        decreases n - i,
    {
        if matches_new_base(news, &quests[i].config.id) {
            idx.push(i);
        }
        proof {
            assert(quests@.take(i + 1).drop_last() =~= quests@.take(i as int));
            assert(quests@.take(i + 1).last() == quests@[i as int]);
        }
        i += 1;
    }
    proof {
        assert(quests@.take(n as int) =~= quests@);
    }
    idx
}

/// What one locale scan decided: the candidates to accumulate for the
/// end-of-cycle pass, the records to merge and persist, and the positions in
/// the fetched batch of the payloads owed to the sinks.
pub struct LocalePlan {
    pub candidates: Vec<StoredQuest>,
    pub new_records: Vec<StoredQuest>,
    pub notify_indices: Vec<usize>,
}

/// Decides one locale's scan against a snapshot of the known set.
///
/// The candidates are always reported, so a seed-only cycle still
/// accumulates them for the final pass and the end-of-cycle merge; but a
/// seed-only cycle reports no new records and owes no notification.
pub fn plan_locale(
    fetched: &Vec<Quest>,
    known: &Vec<StoredQuest>,
    locale: &str,
    filter: &str,
    seed_only: bool,
) -> (p: LocalePlan)
    ensures
        p.candidates.deep_view() == locale_candidates(fetched@, filter@, locale@),
        p.new_records.deep_view() == locale_new(
            fetched@,
            filter@,
            locale@,
            known.deep_view(),
            seed_only,
        ),
        p.notify_indices@ == resolve_indices(p.new_records.deep_view(), fetched@),
        seed_only ==> p.new_records@.len() == 0 && p.notify_indices@.len() == 0,
{
    let records = filter_quests(fetched, filter);
    let candidates = apply_region(&records, locale);
    let new_records = if seed_only {
        Vec::new()
    } else {
        let fresh = find_new_quests(&candidates, known);
        suppress_cross_region(&fresh, known)
    };
    let notify_indices = resolve_payloads(&new_records, fetched);
    proof {
        if seed_only {
            assert(new_records.deep_view() =~= Seq::<QuestSummary>::empty());
            lemma_resolve_indices_empty(new_records.deep_view(), fetched@);
        }
    }
    LocalePlan { candidates, new_records, notify_indices }
}

/// The seed-only policy: a cycle that starts from an empty store with
/// notifications on first run disabled stays silent — no locale reports a
/// new record and no payload is owed to any sink — yet committing the
/// accumulated candidates still leaves every candidate id present in the
/// store, so the first run becomes the silent baseline snapshot.
pub proof fn lemma_seed_only_cycle(
    fetched: Seq<Quest>,
    filter: Seq<char>,
    locale: Seq<char>,
    known: Seq<QuestSummary>,
)
    ensures
        locale_new(fetched, filter, locale, known, true) == Seq::<QuestSummary>::empty(),
        resolve_indices(locale_new(fetched, filter, locale, known, true), fetched) == Seq::<
            usize,
        >::empty(),
        forall|i: int|
            0 <= i < locale_candidates(fetched, filter, locale).len() ==> has_qid(
                merged(known, locale_candidates(fetched, filter, locale)),
                locale_candidates(fetched, filter, locale)[i].id,
            ),
{
    lemma_resolve_indices_empty(locale_new(fetched, filter, locale, known, true), fetched);
    let c = locale_candidates(fetched, filter, locale);
    assert forall|i: int| 0 <= i < c.len() implies has_qid(merged(known, c), c[i].id) by {
        assert(has_qid(c, c[i].id));
        lemma_has_qid_concat(known, c, c[i].id);
        lemma_dedupe_same_ids(known + c, c[i].id);
    }
}

/// Relies on rand::random: draws one byte from the thread-local generator.
#[verifier::external_body]
fn random_byte() -> u8 {
    rand::random::<u8>()
}

/// The pacing delay a given jitter byte maps to: the 60-second floor plus
/// the byte reduced modulo 11, covering 60 to 70 seconds inclusive.
pub fn pacing_delay_secs(jitter: u8) -> (d: u64)
    ensures
        d == 60 + (jitter % 11) as u64,
        60 <= d <= 70,
{
    60 + (jitter % 11) as u64
}

/// Draws the randomized pacing delay inserted before every locale but the
/// first: a random byte reduced to the integers 60 to 70 seconds.
pub fn pacing_delay() -> (d: u64)
    ensures
        60 <= d <= 70,
{
    pacing_delay_secs(random_byte())
}

} // verus!
