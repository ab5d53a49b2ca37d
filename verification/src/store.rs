//! The persistent known-quest store.
//!
//! The store owns the authoritative deduplicated set of known quests for one
//! process.  It is the single shared mutable resource between the locale scan
//! loop and the ingest endpoint, so every load-merge-save sequence must be
//! applied under one exclusive borrow of the store; the surrounding runtime
//! serializes those sequences with a lock.  Durability is layered on the
//! outside: after each successful save the runtime may mirror the contents to
//! a backing file, and it seeds the store from that file at startup by saving
//! the file's records into a freshly initialized store.

use vstd::prelude::*;

use crate::dedupe::{dedupe_by_key, merged};
use crate::errors::StorageError;
use crate::quest::{QuestSummary, StoredQuest};

verus! {

/// The storage backend a store was initialized with.  `Memory` and `Json`
/// both keep the authoritative set in memory; `Json` additionally asks the
/// runtime to mirror every saved set to a JSON file.  Any other identifier is
/// `Unknown`: loads yield nothing and saves fail.
#[derive(Debug, Clone, Copy, PartialEq, Eq, Structural)]
pub enum StorageBackend {
    Memory,
    Json,
    Unknown,
}

/// The backend an identifier string selects.
pub open spec fn backend_of(name: Seq<char>) -> StorageBackend {
    if name == "memory"@ {
        StorageBackend::Memory
    } else if name == "json"@ {
        StorageBackend::Json
    } else {
        StorageBackend::Unknown
    }
}

/// The known-quest store.  Its abstract value is the sequence of record
/// summaries it currently holds.
pub struct QuestStore {
    pub backend: StorageBackend,
    pub backend_name: String,
    pub path: String,
    pub contents: Vec<StoredQuest>,
}

impl View for QuestStore {
    type V = Seq<QuestSummary>;

    open spec fn view(&self) -> Seq<QuestSummary> {
        self.contents.deep_view()
    }
}

fn clone_records(records: &Vec<StoredQuest>) -> (res: Vec<StoredQuest>)
    ensures
        res@ == records@,
{
    let n = records.len();
    let mut res: Vec<StoredQuest> = Vec::new();
    let mut i: usize = 0;
    proof {
        assert(res@ =~= records@.take(0));
    }
    while i < n
        invariant
            n == records.len(),
            0 <= i <= n,
            res@ == records@.take(i as int),
        decreases n - i,
    {
        res.push(records[i].clone());
        proof {
            assert(res@ =~= records@.take(i + 1));
        }
        i += 1;
    }
    proof {
        assert(records@.take(n as int) =~= records@);
    }
    res
}

/// Initializes a store for the given backend identifier and path.  The store
/// starts empty; the runtime seeds it from the backing resource, if any.
pub fn init_storage(storage_type: &str, storage_path: &str) -> (s: QuestStore)
    ensures
        s@ == Seq::<QuestSummary>::empty(),
        s.backend == backend_of(storage_type@),
        s.backend_name@ == storage_type@,
        s.path@ == storage_path@,
{
    let backend = if crate::keys::str_eq(storage_type, "memory") {
        StorageBackend::Memory
    } else if crate::keys::str_eq(storage_type, "json") {
        StorageBackend::Json
    } else {
        StorageBackend::Unknown
    };
    let s = QuestStore {
        backend,
        backend_name: storage_type.to_owned(),
        path: storage_path.to_owned(),
        contents: Vec::new(),
    };
    proof {
        assert(s@ =~= Seq::<QuestSummary>::empty());
    }
    s
}

/// Loads the stored quest set.  A store with an unknown backend yields the
/// empty set rather than an error, so a misconfigured or first-run deployment
/// is indistinguishable from an empty store at this layer.
pub fn load_stored_quests(store: &QuestStore) -> (res: Vec<StoredQuest>)
    ensures
        store.backend != StorageBackend::Unknown ==> res.deep_view() == store@,
        store.backend == StorageBackend::Unknown ==> res.deep_view() == Seq::<
            QuestSummary,
        >::empty(),
{
    match store.backend {
        StorageBackend::Unknown => {
            let res: Vec<StoredQuest> = Vec::new();
            proof {
                assert(res.deep_view() =~= Seq::<QuestSummary>::empty());
            }
            res
        },
        _ => clone_records(&store.contents),
    }
}

/// Replaces the stored set with `quests`.  Fails exactly when the store's
/// backend identifier is unknown, and then leaves the store unchanged: a
/// save is all-or-nothing, a concurrent load never observes a partial write.
pub fn save_quests(store: &mut QuestStore, quests: &Vec<StoredQuest>) -> (r: Result<
    (),
    StorageError,
>)
    ensures
        final(store).backend == old(store).backend,
        final(store).backend_name == old(store).backend_name,
        final(store).path == old(store).path,
        r is Ok <==> old(store).backend != StorageBackend::Unknown,
        r is Ok ==> final(store)@ == quests.deep_view(),
        r matches Err(e) ==> final(store)@ == old(store)@ && e.spec_backend_name() == old(
            store,
        ).backend_name@,
{
    match store.backend {
        StorageBackend::Unknown => Err(
            StorageError::UnknownBackend(store.backend_name.clone()),
        ),
        _ => {
            store.contents = clone_records(quests);
            Ok(())
        },
    }
}

/// Merges `records` into the stored set under one exclusive borrow: the
/// current set is read, the records are appended, the result is deduplicated
/// by id first-seen-wins, and the merged set replaces the stored one.  Fails
/// exactly when the backend is unknown, leaving the store unchanged.
pub fn commit_records(store: &mut QuestStore, records: &Vec<StoredQuest>) -> (r: Result<
    (),
    StorageError,
>)
    ensures
        final(store).backend == old(store).backend,
        final(store).backend_name == old(store).backend_name,
        final(store).path == old(store).path,
        r is Ok <==> old(store).backend != StorageBackend::Unknown,
        r is Ok ==> final(store)@ == merged(old(store)@, records.deep_view()),
        r matches Err(e) ==> final(store)@ == old(store)@ && e.spec_backend_name() == old(
            store,
        ).backend_name@,
{
    let mut all = clone_records(&store.contents);
    let mut extra = clone_records(records);
    all.append(&mut extra);
    let merged_records = dedupe_by_key(&all);
    proof {
        assert(all.deep_view() =~= old(store)@ + records.deep_view());
    }
    save_quests(store, &merged_records)
}

} // verus!
