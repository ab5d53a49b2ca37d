//! Ingest-relay decision logic.
//!
//! A collector accepts batches `{region, quests, source}` forwarded by agent
//! processes and applies the same dedupe/notify/persist contract as the scan
//! loop, under concurrent access.  The HTTP endpoint itself is runtime glue;
//! this module decides authentication, which forwarded quests are new, which
//! payloads are owed to the sinks, and how the store and the response change
//! when a batch is committed.  The runtime must hold the store's lock across
//! one whole plan-notify-commit sequence: the proof functions at the bottom
//! state what that serialization buys.

use vstd::prelude::*;

use crate::dedupe::{
    has_base, has_qid, lemma_dedupe_of_unique, lemma_dedupe_same_bases, lemma_dedupe_unique,
    lemma_filter_all_false, lemma_filter_subset, lemma_has_base_concat,
    lemma_has_qid_implies_has_base, merged, new_quests, without_known_bases,
};
use crate::errors::StorageError;
use crate::keys::{base_of, str_eq};
use crate::quest::{summaries, Quest, QuestSummary, StoredQuest};
use crate::scan::{
    apply_region, prefix_summary, prefixed, resolve_indices, resolve_payloads,
    suppress_cross_region, lemma_base_of_prefixed_summary,
};
use crate::store::{commit_records, QuestStore, StorageBackend};

verus! {

/// The response an accepted ingest request is answered with.
#[derive(Debug, Clone, Copy, PartialEq, Eq, Structural)]
pub struct IngestResponse {
    /// How many forwarded records were genuinely new.
    pub accepted: usize,
    /// By how much the stored set grew when the batch was merged.
    pub deduped: usize,
}

/// Whether a request carrying `header` as its authorization value passes
/// the exact-equality bearer check against the configured secret.  With no
/// configured secret every request passes.
pub open spec fn auth_ok(expected: Option<Seq<char>>, header: Option<Seq<char>>) -> bool {
    match expected {
        None => true,
        Some(t) => header matches Some(h) && h == "Bearer "@ + t,
    }
}

/// Decides the bearer-token check: the header must be exactly `"Bearer "`
/// followed by the configured secret.  No state may be touched when this
/// returns false.
pub fn check_bearer_token(expected: &Option<String>, header: &Option<String>) -> (ok: bool)
    ensures
        ok == auth_ok(expected.deep_view(), header.deep_view()),
{
    match expected {
        None => true,
        Some(t) => match header {
            None => false,
            Some(h) => {
                proof {
                    reveal_strlit("Bearer ");
                }
                let n = h.as_str().unicode_len();
                if n < 7 {
                    false
                } else {
                    let pre = h.as_str().substring_char(0, 7);
                    if !str_eq(pre, "Bearer ") {
                        proof {
                            if h@ == "Bearer "@ + t@ {
                                assert(pre@ =~= "Bearer "@);
                            }
                        }
                        false
                    } else {
                        let rest = h.as_str().substring_char(7, n);
                        let r = str_eq(rest, t.as_str());
                        proof {
                            assert(h@ =~= h@.subrange(0, 7) + h@.subrange(7, n as int));
                            if !r && h@ == "Bearer "@ + t@ {
                                assert(rest@ =~= t@);
                            }
                        }
                        r
                    }
                }
            },
        },
    }
}

/// The records an ingest of `incoming` under `region` reports as new against
/// the known set: region-keyed records whose full id is absent from the
/// known set and whose base id appears nowhere in it.
pub open spec fn ingest_new(
    known: Seq<QuestSummary>,
    incoming: Seq<QuestSummary>,
    region: Seq<char>,
) -> Seq<QuestSummary> {
    without_known_bases(new_quests(prefixed(incoming, region), known), known)
}

/// Reduces a forwarded batch to store records, in batch order.
pub fn stored_of_batch(quests: &Vec<Quest>) -> (res: Vec<StoredQuest>)
    ensures
        res.deep_view() == summaries(quests@),
{
    let n = quests.len();
    let mut res: Vec<StoredQuest> = Vec::new();
    let mut i: usize = 0;
    while i < n
        invariant
            n == quests.len(),
            0 <= i <= n,
            res.deep_view().len() == i,
            forall|j: int| 0 <= j < i ==> res.deep_view()[j] == summaries(quests@)[j],
        decreases n - i,
    {
        let ghost before = res.deep_view();
        res.push(StoredQuest::from_quest(&quests[i]));
        proof {
            assert forall|j: int| 0 <= j < i + 1 implies res.deep_view()[j] == summaries(
                quests@,
            )[j] by {
                if j < i {
                    assert(res.deep_view()[j] == before[j]);
                } else {
                    assert(res.deep_view()[j] == crate::quest::summary_of(quests@[j]));
                }
            }
        }
        i += 1;
    }
    proof {
        assert(res.deep_view() =~= summaries(quests@));
    }
    res
}

/// What one ingest request decided: the records to merge and persist, and
/// the positions in the forwarded batch of the payloads owed to the sinks.
pub struct IngestPlan {
    pub new_records: Vec<StoredQuest>,
    pub notify_indices: Vec<usize>,
}

/// Decides one ingest batch against a snapshot of the known set: re-keys
/// each forwarded quest under the batch's region, keeps those absent from
/// the known set, and suppresses any whose base id is already known under
/// any region.
pub fn plan_ingest(known: &Vec<StoredQuest>, region: &str, quests: &Vec<Quest>) -> (p:
    IngestPlan)
    ensures
        p.new_records.deep_view() == ingest_new(
            known.deep_view(),
            summaries(quests@),
            region@,
        ),
        p.notify_indices@ == resolve_indices(p.new_records.deep_view(), quests@),
{
    let records = stored_of_batch(quests);
    let keyed = apply_region(&records, region);
    let fresh = crate::dedupe::find_new_quests(&keyed, known);
    let new_records = suppress_cross_region(&fresh, known);
    let notify_indices = resolve_payloads(&new_records, quests);
    IngestPlan { new_records, notify_indices }
}

/// Commits a planned ingest: merges the new records into the store and
/// reports how many were accepted and by how much the stored set grew.
/// Fails exactly when the store's backend is unknown, leaving the store
/// unchanged.
pub fn commit_ingest(store: &mut QuestStore, new_records: &Vec<StoredQuest>) -> (r: Result<
    IngestResponse,
    StorageError,
>)
    ensures
        final(store).backend == old(store).backend,
        final(store).backend_name == old(store).backend_name,
        final(store).path == old(store).path,
        r is Ok <==> old(store).backend != StorageBackend::Unknown,
        r matches Ok(resp) ==> final(store)@ == merged(
            old(store)@,
            new_records.deep_view(),
        ) && resp.accepted == new_records@.len() && resp.deduped == (
        if final(store)@.len() >= old(store)@.len() {
            final(store)@.len() - old(store)@.len()
        } else {
            0
        }),
        r matches Err(e) ==> final(store)@ == old(store)@ && e.spec_backend_name() == old(
            store,
        ).backend_name@,
{
    let before = store.contents.len();
    match commit_records(store, new_records) {
        Ok(()) => {
            let after = store.contents.len();
            Ok(
                IngestResponse {
                    accepted: new_records.len(),
                    deduped: if after >= before {
                        after - before
                    } else {
                        0
                    },
                },
            )
        },
        Err(e) => Err(e),
    }
}

/// Once one ingest of a batch has been merged, a second ingest of the same
/// batch finds nothing new, whatever region tag either carried.  With the
/// two regions equal this is idempotent re-ingest; with them different it is
/// the serialized form of two agents racing on the same underlying quests:
/// only the first dispatches notifications.
pub proof fn lemma_second_ingest_finds_nothing(
    known: Seq<QuestSummary>,
    incoming: Seq<QuestSummary>,
    r1: Seq<char>,
    r2: Seq<char>,
)
    ensures
        ingest_new(merged(known, ingest_new(known, incoming, r1)), incoming, r2) == Seq::<
            QuestSummary,
        >::empty(),
{
    let n1 = ingest_new(known, incoming, r1);
    let k1 = merged(known, n1);
    let p1 = prefixed(incoming, r1);
    let p2 = prefixed(incoming, r2);
    let pa1 = |q: QuestSummary| !has_qid(known, q.id);
    let pb1 = |q: QuestSummary| !has_base(known, base_of(q.id));
    let pa2 = |q: QuestSummary| !has_qid(k1, q.id);
    let pb2 = |q: QuestSummary| !has_base(k1, base_of(q.id));

    // every incoming base id ends up present in the merged set
    assert forall|i: int| 0 <= i < incoming.len() implies has_base(
        k1,
        base_of(incoming[i].id),
    ) by {
        let b = base_of(incoming[i].id);
        lemma_base_of_prefixed_summary(incoming[i], r1);
        if has_base(known, b) {
            lemma_has_base_concat(known, n1, b);
            lemma_dedupe_same_bases(known + n1, b);
        } else {
            // the r1-keyed record passed both filters of the first ingest
            assert(p1[i] == prefix_summary(incoming[i], r1));
            assert(base_of(p1[i].id) == b);
            if has_qid(known, p1[i].id) {
                lemma_has_qid_implies_has_base(known, p1[i].id);
            }
            assert(pa1(p1[i]));
            p1.lemma_filter_contains(pa1, i);
            let m1 = p1.filter(pa1);
            let j = choose|j: int| 0 <= j < m1.len() && m1[j] == p1[i];
            assert(pb1(m1[j]));
            m1.lemma_filter_contains(pb1, j);
            assert(n1.contains(p1[i]));
            let t = choose|t: int| 0 <= t < n1.len() && n1[t] == p1[i];
            assert(base_of(n1[t].id) == b);
            assert(has_base(n1, b));
            lemma_has_base_concat(known, n1, b);
            lemma_dedupe_same_bases(known + n1, b);
        }
    }

    // so nothing of the re-keyed second batch survives the base suppression
    let m2 = p2.filter(pa2);
    assert forall|t: int| 0 <= t < m2.len() implies !pb2(m2[t]) by {
        lemma_filter_subset(p2, pa2, t);
        let j = choose|j: int| 0 <= j < p2.len() && p2[j] == m2[t];
        assert(p2[j] == prefix_summary(incoming[j], r2));
        lemma_base_of_prefixed_summary(incoming[j], r2);
        assert(base_of(m2[t].id) == base_of(incoming[j].id));
    }
    lemma_filter_all_false(m2, pb2);
}

/// Idempotent re-ingest: after a batch is ingested and merged, ingesting the
/// same batch under the same region accepts nothing and leaves the stored
/// set exactly as it was.
pub proof fn lemma_reingest_idempotent(
    known: Seq<QuestSummary>,
    incoming: Seq<QuestSummary>,
    region: Seq<char>,
)
    ensures
        ({
            let n1 = ingest_new(known, incoming, region);
            let k1 = merged(known, n1);
            let n2 = ingest_new(k1, incoming, region);
            n2.len() == 0 && merged(k1, n2) == k1
        }),
{
    let n1 = ingest_new(known, incoming, region);
    let k1 = merged(known, n1);
    let n2 = ingest_new(k1, incoming, region);
    lemma_second_ingest_finds_nothing(known, incoming, region, region);
    assert(k1 + n2 =~= k1);
    lemma_dedupe_unique(known + n1);
    lemma_dedupe_of_unique(k1);
}

} // verus!
