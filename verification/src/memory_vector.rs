//! Which long-term memory vectors a sync removes, keeps and embeds again.
use vstd::prelude::*;
use crate::seqs::{count, first_index, lemma_first_index};
use crate::text::str_eq;
use crate::weixin_prune::keep;

verus! {

/// What the vector store keeps beside each vector, and what a record would
/// be stored with now: when the two are equal the vector is up to date.
#[derive(Clone, Debug)]
pub struct StoredVectorMetadata {
    pub revision: i64,
    pub updated_at_millis: String,
    pub content_hash: String,
    pub embedding_model: String,
    pub dimensions: i64,
    pub status: String,
    pub scope: String,
    pub kind: String,
    pub layer: String,
    pub sensitivity: String,
}

/// A memory id with its metadata: a row of the store, or a record to index.
#[derive(Clone, Debug)]
pub struct VectorEntry {
    pub memory_id: String,
    pub metadata: StoredVectorMetadata,
}

/// What one sync does to one database.
#[derive(Clone, Debug)]
pub struct VectorSyncPlan {
    /// The stored ids that no record to index has any more, in stored order.
    pub removed_ids: Vec<String>,
    /// The positions of the records to embed and store, in order.
    pub to_index: Vec<usize>,
    /// How many records to index are stored with the same metadata already.
    pub unchanged: usize,
    /// How many records were not eligible for indexing.
    pub excluded: usize,
}

pub open spec fn same_metadata(a: StoredVectorMetadata, b: StoredVectorMetadata) -> bool {
    &&& a.revision == b.revision
    &&& a.updated_at_millis@ == b.updated_at_millis@
    &&& a.content_hash@ == b.content_hash@
    &&& a.embedding_model@ == b.embedding_model@
    &&& a.dimensions == b.dimensions
    &&& a.status@ == b.status@
    &&& a.scope@ == b.scope@
    &&& a.kind@ == b.kind@
    &&& a.layer@ == b.layer@
    &&& a.sensitivity@ == b.sensitivity@
}

pub open spec fn has_id(id: Seq<char>) -> spec_fn(VectorEntry) -> bool {
    |e: VectorEntry| e.memory_id@ == id
}

/// Whether some record to index has the id.
pub open spec fn wanted(eligible: Seq<VectorEntry>, id: Seq<char>) -> bool {
    exists|i: int| 0 <= i < eligible.len() && #[trigger] eligible[i].memory_id@ == id
}

pub open spec fn unwanted(eligible: Seq<VectorEntry>) -> spec_fn(VectorEntry) -> bool {
    |e: VectorEntry| !wanted(eligible, e.memory_id@)
}

/// Whether the store holds the record's id with the record's metadata.
pub open spec fn stored_same(existing: Seq<VectorEntry>, record: VectorEntry) -> bool {
    let j = first_index(existing, has_id(record.memory_id@));
    j >= 0 && same_metadata(existing[j].metadata, record.metadata)
}

pub open spec fn up_to_date(existing: Seq<VectorEntry>) -> spec_fn(VectorEntry) -> bool {
    |e: VectorEntry| stored_same(existing, e)
}

/// The positions, below `n`, of the records whose vector must be made anew.
pub open spec fn changed_positions(existing: Seq<VectorEntry>, eligible: Seq<VectorEntry>, n: nat) -> Seq<usize>
    decreases n,
{
    if n == 0 {
        Seq::empty()
    } else {
        let prev = changed_positions(existing, eligible, (n - 1) as nat);
        if stored_same(existing, eligible[n - 1]) {
            prev
        } else {
            prev.push((n - 1) as usize)
        }
    }
}

pub open spec fn entry_ids(entries: Seq<VectorEntry>) -> Seq<Seq<char>> {
    entries.map_values(|e: VectorEntry| e.memory_id@)
}

pub open spec fn string_views(ids: Seq<String>) -> Seq<Seq<char>> {
    ids.map_values(|s: String| s@)
}

fn metadata_equal(a: &StoredVectorMetadata, b: &StoredVectorMetadata) -> (r: bool)
    ensures
        r == same_metadata(*a, *b),
{
    a.revision == b.revision && a.dimensions == b.dimensions && str_eq(
        &a.updated_at_millis,
        &b.updated_at_millis,
    ) && str_eq(&a.content_hash, &b.content_hash) && str_eq(&a.embedding_model, &b.embedding_model)
        && str_eq(&a.status, &b.status) && str_eq(&a.scope, &b.scope) && str_eq(&a.kind, &b.kind)
        && str_eq(&a.layer, &b.layer) && str_eq(&a.sensitivity, &b.sensitivity)
}

/// Whether some record to index has the id.
fn is_wanted(eligible: &Vec<VectorEntry>, id: &str) -> (r: bool)
    ensures
        r == wanted(eligible@, id@),
{
    let mut i: usize = 0;
    while i < eligible.len()
        invariant
            i <= eligible@.len(),
            forall|j: int| 0 <= j < i ==> #[trigger] eligible@[j].memory_id@ != id@,
        decreases eligible@.len() - i,
    {
        if str_eq(&eligible[i].memory_id, id) {
            return true;
        }
        i = i + 1;
    }
    false
}

/// Whether the store holds the record's id with the record's metadata.
fn is_stored_same(existing: &Vec<VectorEntry>, record: &VectorEntry) -> (r: bool)
    ensures
        r == stored_same(existing@, *record),
{
    let ghost p = has_id(record.memory_id@);
    proof {
        lemma_first_index(existing@, p);
    }
    let mut j: usize = 0;
    while j < existing.len()
        invariant
            j <= existing@.len(),
            p == has_id(record.memory_id@),
            forall|k: int| 0 <= k < j ==> !p(#[trigger] existing@[k]),
        decreases existing@.len() - j,
    {
        if str_eq(&existing[j].memory_id, &record.memory_id) {
            proof {
                crate::seqs::lemma_first_index_at(existing@, p, j as int);
            }
            return metadata_equal(&existing[j].metadata, &record.metadata);
        }
        j = j + 1;
    }
    proof {
        crate::seqs::lemma_first_index_none(existing@, p);
    }
    false
}

/// Decides one sync of a vector database: the stored ids that no eligible
/// record has any more are removed; an eligible record stored with the same
/// metadata is left as it is; every other eligible record is embedded and
/// stored. `record_count` records were offered, of which `eligible` passed
/// the indexing rules; the others count as excluded.
pub fn plan_vector_sync(
    existing: &Vec<VectorEntry>,
    eligible: &Vec<VectorEntry>,
    record_count: usize,
) -> (r: VectorSyncPlan)
    ensures
        string_views(r.removed_ids@) == entry_ids(keep(existing@, unwanted(eligible@))),
        r.to_index@ == changed_positions(existing@, eligible@, eligible@.len()),
        r.unchanged == count(eligible@, up_to_date(existing@)),
        r.excluded == (if record_count >= eligible@.len() {
            record_count - eligible@.len()
        } else {
            0
        }),
        r.unchanged + r.to_index@.len() == eligible@.len(),
{
    let mut removed_ids: Vec<String> = Vec::new();
    let mut i: usize = 0;
    while i < existing.len()
        invariant
            i <= existing@.len(),
            string_views(removed_ids@) == entry_ids(keep(existing@.take(i as int), unwanted(eligible@))),
        decreases existing@.len() - i,
    {
        let ghost before = removed_ids@;
        let ghost kept = keep(existing@.take(i as int), unwanted(eligible@));
        proof {
            assert(existing@.take(i + 1).drop_last() =~= existing@.take(i as int));
            assert(existing@.take(i + 1).last() == existing@[i as int]);
        }
        if !is_wanted(eligible, &existing[i].memory_id) {
            let id = existing[i].memory_id.clone();
            assert(id@ == existing@[i as int].memory_id@);
            removed_ids.push(id);
            proof {
                assert(keep(existing@.take(i + 1), unwanted(eligible@)) == kept.push(existing@[i as int]));
                assert(string_views(removed_ids@) =~= string_views(before).push(id@));
                assert(entry_ids(kept.push(existing@[i as int])) =~= entry_ids(kept).push(id@));
            }
        } else {
            proof {
                assert(keep(existing@.take(i + 1), unwanted(eligible@)) == kept);
            }
        }
        i = i + 1;
    }
    assert(existing@.take(i as int) =~= existing@);

    let mut to_index: Vec<usize> = Vec::new();
    let mut unchanged: usize = 0;
    let mut k: usize = 0;
    while k < eligible.len()
        invariant
            k <= eligible@.len(),
            to_index@ == changed_positions(existing@, eligible@, k as nat),
            unchanged == count(eligible@.take(k as int), up_to_date(existing@)),
            unchanged + to_index@.len() == k,
        decreases eligible@.len() - k,
    {
        proof {
            assert(eligible@.take(k + 1).drop_last() =~= eligible@.take(k as int));
        }
        if is_stored_same(existing, &eligible[k]) {
            unchanged = unchanged + 1;
        } else {
            to_index.push(k);
        }
        k = k + 1;
    }
    assert(eligible@.take(k as int) =~= eligible@);
    VectorSyncPlan {
        removed_ids,
        to_index,
        unchanged,
        excluded: record_count.saturating_sub(eligible.len()),
    }
}

proof fn lemma_changed_positions_below(existing: Seq<VectorEntry>, eligible: Seq<VectorEntry>, n: nat)
    requires
        n <= usize::MAX,
    ensures
        forall|i: int|
            0 <= i < changed_positions(existing, eligible, n).len() ==> #[trigger] changed_positions(
                existing,
                eligible,
                n,
            )[i] < n,
    decreases n,
{
    if n > 0 {
        lemma_changed_positions_below(existing, eligible, (n - 1) as nat);
        let prev = changed_positions(existing, eligible, (n - 1) as nat);
        let cur = changed_positions(existing, eligible, n);
        assert forall|i: int| 0 <= i < cur.len() implies #[trigger] cur[i] < n by {
            if i < prev.len() {
                assert(cur[i] == prev[i]);
            } else {
                assert(cur[i] == (n - 1) as usize);
            }
        }
    }
}

proof fn lemma_changed_positions_hold(existing: Seq<VectorEntry>, eligible: Seq<VectorEntry>, n: nat, k: int)
    requires
        0 <= k < n <= eligible.len(),
        n <= usize::MAX,
    ensures
        changed_positions(existing, eligible, n).contains(k as usize) <==> !stored_same(
            existing,
            eligible[k],
        ),
    decreases n,
{
    let prev = changed_positions(existing, eligible, (n - 1) as nat);
    lemma_changed_positions_below(existing, eligible, (n - 1) as nat);
    if k < n - 1 {
        lemma_changed_positions_hold(existing, eligible, (n - 1) as nat, k);
        if !stored_same(existing, eligible[n - 1]) {
            let now = prev.push((n - 1) as usize);
            if now.contains(k as usize) {
                let i = choose|i: int| 0 <= i < now.len() && now[i] == k as usize;
                if i < prev.len() {
                    assert(prev[i] == k as usize);
                }
            }
            if prev.contains(k as usize) {
                let i = choose|i: int| 0 <= i < prev.len() && prev[i] == k as usize;
                assert(now[i] == k as usize);
            }
        }
    } else {
        if prev.contains(k as usize) {
            let i = choose|i: int| 0 <= i < prev.len() && prev[i] == k as usize;
            assert(prev[i] < n - 1);
        }
        if !stored_same(existing, eligible[k]) {
            assert(prev.push(k as usize)[prev.len() as int] == k as usize);
        }
    }
}

/// A record to index is left as stored only when the store holds its id
/// with every piece of metadata equal to the record's: revision, update
/// time, content hash, model, dimensions, status, scope, kind, layer and
/// sensitivity. So a record whose stored vectors all differ from it in
/// status (an archived memory still stored as active) is embedded and
/// stored again.
pub proof fn lemma_kept_vectors_match_in_every_field(
    existing: Seq<VectorEntry>,
    eligible: Seq<VectorEntry>,
    k: int,
)
    requires
        0 <= k < eligible.len(),
        eligible.len() <= usize::MAX,
    ensures
        !changed_positions(existing, eligible, eligible.len()).contains(k as usize) ==> exists|j: int|
            0 <= j < existing.len() && #[trigger] existing[j].memory_id@ == eligible[k].memory_id@
                && existing[j].metadata.revision == eligible[k].metadata.revision
                && existing[j].metadata.updated_at_millis@ == eligible[k].metadata.updated_at_millis@
                && existing[j].metadata.content_hash@ == eligible[k].metadata.content_hash@
                && existing[j].metadata.embedding_model@ == eligible[k].metadata.embedding_model@
                && existing[j].metadata.dimensions == eligible[k].metadata.dimensions
                && existing[j].metadata.status@ == eligible[k].metadata.status@
                && existing[j].metadata.scope@ == eligible[k].metadata.scope@
                && existing[j].metadata.kind@ == eligible[k].metadata.kind@
                && existing[j].metadata.layer@ == eligible[k].metadata.layer@
                && existing[j].metadata.sensitivity@ == eligible[k].metadata.sensitivity@,
        (forall|j: int|
            0 <= j < existing.len() && #[trigger] existing[j].memory_id@ == eligible[k].memory_id@
                ==> existing[j].metadata.status@ != eligible[k].metadata.status@) ==> changed_positions(
            existing,
            eligible,
            eligible.len(),
        ).contains(k as usize),
{
    lemma_changed_positions_hold(existing, eligible, eligible.len(), k);
    let p = has_id(eligible[k].memory_id@);
    lemma_first_index(existing, p);
    let j = first_index(existing, p);
    if j >= 0 {
        assert(existing[j].memory_id@ == eligible[k].memory_id@);
    }
}

} // verus!
