use vstd::prelude::*;
use crate::seqs::{any, count, first_index, lemma_count_push, lemma_first_index};

use crate::weixin_queue::{pair_request_id, pair_request_text};
use crate::weixin_prune::{by_creation, prune_latency_traces, prune_terminal_receipts, pruned_receipts};
use crate::weixin_snapshot::{active_pair_for, has_active_pair_request, has_pending_inbound, has_receipt, live_pending_for, not_terminal_pending, receipt_for, SnapshotView, WeixinStateSnapshot};
use crate::weixin_store::FileWeixinStateStore;
use crate::weixin_types::{clone_opt_string, WeixinConnectionStateRecord, WeixinCursorRecord, WeixinInboundBatchCommit, WeixinInboundBatchCommitResult, WeixinInboundCommitItem, WeixinInboundReceiptRecord, WeixinLatencyTraceRecord, WeixinPairRequest, WeixinPairRequestCommitItem, WeixinPairRequestState, WeixinPendingInbound, WeixinPendingInboundState, WeixinReceiptState, WeixinStateError, WEIXIN_LATENCY_TRACE_LIMIT, WEIXIN_PENDING_INBOUND_LIMIT, WEIXIN_STATE_SCHEMA_VERSION};

verus! {

// ---------------------------------------------------------------------------
// Records created for an accepted inbound item
// ---------------------------------------------------------------------------
pub open spec fn new_receipt(item: WeixinInboundCommitItem, now: u64) -> WeixinInboundReceiptRecord {
    WeixinInboundReceiptRecord {
        schema_version: WEIXIN_STATE_SCHEMA_VERSION,
        message_id_hash: item.message_id_hash,
        peer_id_hash: item.peer_id_hash,
        accepted_at_millis: now,
        state: WeixinReceiptState::Ready,
        created_at_millis: now,
        updated_at_millis: now,
        transitioned_at_millis: now,
    }
}

pub open spec fn new_pending(
    item: WeixinInboundCommitItem,
    account_id: String,
    now: u64,
) -> WeixinPendingInbound {
    WeixinPendingInbound {
        schema_version: WEIXIN_STATE_SCHEMA_VERSION,
        item_id: item.item_id,
        account_id,
        message_id_hash: item.message_id_hash,
        peer_id_hash: item.peer_id_hash,
        direct_message_key: item.direct_message_key,
        encrypted_payload_ref: item.encrypted_payload_ref,
        payload_kind: item.payload_kind,
        encrypted_payload: Some(item.encrypted_payload),
        turn_session_id: None,
        parent_session_id: None,
        dispatch_retry_count: 0,
        next_retry_at_millis: None,
        last_dispatch_error: None,
        lease_owner: None,
        lease_token: None,
        lease_started_at_millis: None,
        lease_expires_at_millis: None,
        state: WeixinPendingInboundState::Ready,
        terminal_reason: None,
        created_at_millis: now,
        updated_at_millis: now,
        transitioned_at_millis: now,
    }
}

pub open spec fn new_trace(
    item: WeixinInboundCommitItem,
    poll_started: Option<u64>,
    poll_completed: Option<u64>,
    now: u64,
) -> WeixinLatencyTraceRecord {
    WeixinLatencyTraceRecord {
        schema_version: WEIXIN_STATE_SCHEMA_VERSION,
        item_id: item.item_id,
        message_id_hash: item.message_id_hash,
        peer_id_hash: item.peer_id_hash,
        direct_message_key: item.direct_message_key,
        session_id: None,
        poll_started_at_millis: poll_started,
        poll_completed_at_millis: poll_completed,
        inbound_committed_at_millis: Some(now),
        dispatch_claimed_at_millis: None,
        runtime_started_at_millis: None,
        runtime_completed_at_millis: None,
        spool_written_at_millis: None,
        turn_completed_at_millis: None,
        delivery_started_at_millis: None,
        delivery_completed_at_millis: None,
        delivery_segment_count: 0,
        delivery_attempt_count: 0,
        delivery_success_count: 0,
        terminal_status: None,
        terminal_reason: None,
        delivery_status: None,
        error_label: None,
        created_at_millis: now,
        updated_at_millis: now,
    }
}

/// The lists an inbound batch writes to, while its items are taken in turn.
pub struct InboundAcceptance {
    pub receipts: Seq<WeixinInboundReceiptRecord>,
    pub pending: Seq<WeixinPendingInbound>,
    pub traces: Seq<WeixinLatencyTraceRecord>,
    pub accepted_ids: Seq<String>,
    pub duplicates: nat,
}

/// An item is a duplicate when its message already has a receipt or a live
/// pending item, counting the items accepted before it in the same batch.
pub open spec fn is_duplicate(
    receipts: Seq<WeixinInboundReceiptRecord>,
    pending: Seq<WeixinPendingInbound>,
    item: WeixinInboundCommitItem,
) -> bool {
    any(receipts, receipt_for(item.message_id_hash@, item.peer_id_hash@)) || any(
        pending,
        live_pending_for(item.message_id_hash@, item.peer_id_hash@),
    )
}

/// The lists after the items are taken in order: a duplicate is counted, any
/// other item gets a receipt, a ready pending item and a latency trace.
pub open spec fn accept_items(
    start: InboundAcceptance,
    items: Seq<WeixinInboundCommitItem>,
    account_id: String,
    poll_started: Option<u64>,
    poll_completed: Option<u64>,
    now: u64,
) -> InboundAcceptance
    decreases items.len(),
{
    if items.len() == 0 {
        start
    } else {
        let prev = accept_items(
            start,
            items.drop_last(),
            account_id,
            poll_started,
            poll_completed,
            now,
        );
        let item = items.last();
        if is_duplicate(prev.receipts, prev.pending, item) {
            InboundAcceptance { duplicates: prev.duplicates + 1, ..prev }
        } else {
            InboundAcceptance {
                receipts: prev.receipts.push(new_receipt(item, now)),
                pending: prev.pending.push(new_pending(item, account_id, now)),
                traces: prev.traces.push(new_trace(item, poll_started, poll_completed, now)),
                accepted_ids: prev.accepted_ids.push(item.item_id),
                duplicates: prev.duplicates,
            }
        }
    }
}

pub open spec fn new_pair(
    item: WeixinPairRequestCommitItem,
    request_id: String,
    account_id: String,
    now: u64,
) -> WeixinPairRequest {
    WeixinPairRequest {
        schema_version: WEIXIN_STATE_SCHEMA_VERSION,
        request_id,
        account_id,
        peer_id_hash: item.peer_id_hash,
        state: WeixinPairRequestState::Pending,
        expires_at_millis: item.expires_at_millis,
        created_at_millis: now,
        updated_at_millis: now,
        transitioned_at_millis: now,
    }
}

/// The pair requests after the batch's requests are taken in order, and how
/// many were added: a peer that already has an active request gets no other.
/// The `i`-th request is recorded under `ids[i]`.
pub open spec fn add_pairs(
    pairs: Seq<WeixinPairRequest>,
    items: Seq<WeixinPairRequestCommitItem>,
    ids: Seq<String>,
    account_id: String,
    now: u64,
) -> (Seq<WeixinPairRequest>, nat)
    decreases items.len(),
{
    if items.len() == 0 {
        (pairs, 0)
    } else {
        let (prev, n) = add_pairs(pairs, items.drop_last(), ids, account_id, now);
        let item = items.last();
        if any(prev, active_pair_for(item.peer_id_hash@, now)) {
            (prev, n)
        } else {
            (prev.push(new_pair(item, ids[items.len() - 1], account_id, now)), n + 1)
        }
    }
}

pub open spec fn cursor_from(source: Seq<char>) -> spec_fn(WeixinCursorRecord) -> bool {
    |c: WeixinCursorRecord| c.source@ == source
}

/// The cursors after storing `buf` for `source`: the existing cursor of that
/// source is updated, or a new one is added.
pub open spec fn cursor_upserted(
    cursors: Seq<WeixinCursorRecord>,
    account_id: String,
    source: String,
    buf: String,
    now: u64,
) -> Seq<WeixinCursorRecord> {
    let j = first_index(cursors, cursor_from(source@));
    if j >= 0 {
        cursors.update(
            j,
            WeixinCursorRecord {
                get_updates_buf: Some(buf),
                updated_at_millis: now,
                transitioned_at_millis: now,
                ..cursors[j]
            },
        )
    } else {
        cursors.push(
            WeixinCursorRecord {
                schema_version: WEIXIN_STATE_SCHEMA_VERSION,
                account_id,
                get_updates_buf: Some(buf),
                source,
                created_at_millis: now,
                updated_at_millis: now,
                transitioned_at_millis: now,
            },
        )
    }
}

/// The latency traces kept: all of them up to the limit, else the newest.
pub open spec fn trimmed_traces(t: Seq<WeixinLatencyTraceRecord>) -> Seq<WeixinLatencyTraceRecord> {
    if t.len() <= WEIXIN_LATENCY_TRACE_LIMIT {
        t
    } else {
        by_creation(t).skip(t.len() - WEIXIN_LATENCY_TRACE_LIMIT)
    }
}

/// How the inbound lists stand after a batch is accepted into `s`, whose
/// receipts have been pruned first.
pub open spec fn batch_acceptance(s: SnapshotView, commit: WeixinInboundBatchCommit) -> InboundAcceptance {
    accept_items(
        InboundAcceptance {
            receipts: pruned_receipts(s.inbound_receipts, commit.now_millis),
            pending: s.pending_inbound,
            traces: s.latency_traces,
            accepted_ids: Seq::empty(),
            duplicates: 0,
        },
        commit.accepted@,
        commit.account_id,
        commit.poll_started_at_millis,
        commit.poll_completed_at_millis,
        commit.now_millis,
    )
}

/// The snapshot after a batch is committed.
pub open spec fn batch_committed(
    s: SnapshotView,
    commit: WeixinInboundBatchCommit,
    ids: Seq<String>,
) -> SnapshotView {
    let acc = batch_acceptance(s, commit);
    SnapshotView {
        inbound_receipts: acc.receipts,
        pending_inbound: acc.pending,
        latency_traces: trimmed_traces(acc.traces),
        pair_requests: add_pairs(
            s.pair_requests,
            commit.pair_requests@,
            ids,
            commit.account_id,
            commit.now_millis,
        ).0,
        cursors: match commit.next_get_updates_buf {
            Some(buf) => cursor_upserted(
                s.cursors,
                commit.account_id,
                commit.cursor_source,
                buf,
                commit.now_millis,
            ),
            None => s.cursors,
        },
        connection_state: match commit.connection_state {
            Some(c) => c,
            None => WeixinConnectionStateRecord::Ready,
        },
        last_redacted_error: commit.last_redacted_error,
        updated_at_millis: commit.now_millis,
        transitioned_at_millis: commit.now_millis,
        ..s
    }
}

proof fn lemma_accept_step(
    start: InboundAcceptance,
    items: Seq<WeixinInboundCommitItem>,
    account_id: String,
    ps: Option<u64>,
    pc: Option<u64>,
    now: u64,
    i: int,
)
    requires
        0 <= i < items.len(),
    ensures
        ({
            let prev = accept_items(start, items.take(i), account_id, ps, pc, now);
            let item = items[i];
            accept_items(start, items.take(i + 1), account_id, ps, pc, now) == if is_duplicate(
                prev.receipts,
                prev.pending,
                item,
            ) {
                InboundAcceptance { duplicates: prev.duplicates + 1, ..prev }
            } else {
                InboundAcceptance {
                    receipts: prev.receipts.push(new_receipt(item, now)),
                    pending: prev.pending.push(new_pending(item, account_id, now)),
                    traces: prev.traces.push(new_trace(item, ps, pc, now)),
                    accepted_ids: prev.accepted_ids.push(item.item_id),
                    duplicates: prev.duplicates,
                }
            }
        }),
{
    assert(items.take(i + 1).drop_last() =~= items.take(i));
}

proof fn lemma_pairs_step(
    pairs: Seq<WeixinPairRequest>,
    items: Seq<WeixinPairRequestCommitItem>,
    ids: Seq<String>,
    account_id: String,
    now: u64,
    i: int,
)
    requires
        0 <= i < items.len(),
    ensures
        ({
            let (prev, n) = add_pairs(pairs, items.take(i), ids, account_id, now);
            add_pairs(pairs, items.take(i + 1), ids, account_id, now) == if any(
                prev,
                active_pair_for(items[i].peer_id_hash@, now),
            ) {
                (prev, n)
            } else {
                (prev.push(new_pair(items[i], ids[i], account_id, now)), n + 1)
            }
        }),
{
    assert(items.take(i + 1).drop_last() =~= items.take(i));
}

fn find_cursor(cursors: &Vec<WeixinCursorRecord>, source: &String) -> (r: Option<usize>)
    ensures
        match r {
            Some(j) => j as int == first_index(cursors@, cursor_from(source@)) && j < cursors@.len(),
            None => first_index(cursors@, cursor_from(source@)) == -1,
        },
{
    proof {
        lemma_first_index(cursors@, cursor_from(source@));
    }
    let mut j: usize = 0;
    while j < cursors.len()
        invariant
            j <= cursors.len(),
            forall|k: int| 0 <= k < j ==> !(cursor_from(source@))(#[trigger] cursors@[k]),
        decreases cursors.len() - j,
    {
        if cursors[j].source == *source {
            proof {
                crate::seqs::lemma_first_index_at(cursors@, cursor_from(source@), j as int);
            }
            return Some(j);
        }
        j = j + 1;
    }
    proof {
        crate::seqs::lemma_first_index_none(cursors@, cursor_from(source@));
    }
    None
}

/// Stores the update cursor of `source`.
pub fn upsert_cursor(
    snapshot: &mut WeixinStateSnapshot,
    account_id: &String,
    source: &String,
    get_updates_buf: String,
    now_millis: u64,
)
    ensures
        final(snapshot)@ == (SnapshotView {
            cursors: cursor_upserted(
                old(snapshot)@.cursors,
                *account_id,
                *source,
                get_updates_buf,
                now_millis,
            ),
            ..old(snapshot)@
        }),
{
    match find_cursor(&snapshot.cursors, source) {
        Some(j) => {
            snapshot.cursors[j].get_updates_buf = Some(get_updates_buf);
            snapshot.cursors[j].updated_at_millis = now_millis;
            snapshot.cursors[j].transitioned_at_millis = now_millis;
            assert(snapshot.cursors@ =~= cursor_upserted(
                old(snapshot)@.cursors,
                *account_id,
                *source,
                get_updates_buf,
                now_millis,
            ));
        },
        None => {
            snapshot.cursors.push(
                WeixinCursorRecord {
                    schema_version: WEIXIN_STATE_SCHEMA_VERSION,
                    account_id: account_id.clone(),
                    get_updates_buf: Some(get_updates_buf),
                    source: source.clone(),
                    created_at_millis: now_millis,
                    updated_at_millis: now_millis,
                    transitioned_at_millis: now_millis,
                },
            );
        },
    }
}

fn accept_inbound_item(
    snapshot: &mut WeixinStateSnapshot,
    item: &WeixinInboundCommitItem,
    account_id: &String,
    poll_started: Option<u64>,
    poll_completed: Option<u64>,
    now: u64,
)
    ensures
        final(snapshot)@ == (SnapshotView {
            inbound_receipts: old(snapshot)@.inbound_receipts.push(new_receipt(*item, now)),
            pending_inbound: old(snapshot)@.pending_inbound.push(
                new_pending(*item, *account_id, now),
            ),
            latency_traces: old(snapshot)@.latency_traces.push(
                new_trace(*item, poll_started, poll_completed, now),
            ),
            ..old(snapshot)@
        }),
{
    snapshot.inbound_receipts.push(
        WeixinInboundReceiptRecord {
            schema_version: WEIXIN_STATE_SCHEMA_VERSION,
            message_id_hash: item.message_id_hash.clone(),
            peer_id_hash: item.peer_id_hash.clone(),
            accepted_at_millis: now,
            state: WeixinReceiptState::Ready,
            created_at_millis: now,
            updated_at_millis: now,
            transitioned_at_millis: now,
        },
    );
    snapshot.pending_inbound.push(
        WeixinPendingInbound {
            schema_version: WEIXIN_STATE_SCHEMA_VERSION,
            item_id: item.item_id.clone(),
            account_id: account_id.clone(),
            message_id_hash: item.message_id_hash.clone(),
            peer_id_hash: item.peer_id_hash.clone(),
            direct_message_key: item.direct_message_key.clone(),
            encrypted_payload_ref: item.encrypted_payload_ref.clone(),
            payload_kind: clone_opt_string(&item.payload_kind),
            encrypted_payload: Some(item.encrypted_payload.clone()),
            turn_session_id: None,
            parent_session_id: None,
            dispatch_retry_count: 0,
            next_retry_at_millis: None,
            last_dispatch_error: None,
            lease_owner: None,
            lease_token: None,
            lease_started_at_millis: None,
            lease_expires_at_millis: None,
            state: WeixinPendingInboundState::Ready,
            terminal_reason: None,
            created_at_millis: now,
            updated_at_millis: now,
            transitioned_at_millis: now,
        },
    );
    snapshot.latency_traces.push(
        WeixinLatencyTraceRecord {
            schema_version: WEIXIN_STATE_SCHEMA_VERSION,
            item_id: item.item_id.clone(),
            message_id_hash: item.message_id_hash.clone(),
            peer_id_hash: item.peer_id_hash.clone(),
            direct_message_key: item.direct_message_key.clone(),
            session_id: None,
            poll_started_at_millis: poll_started,
            poll_completed_at_millis: poll_completed,
            inbound_committed_at_millis: Some(now),
            dispatch_claimed_at_millis: None,
            runtime_started_at_millis: None,
            runtime_completed_at_millis: None,
            spool_written_at_millis: None,
            turn_completed_at_millis: None,
            delivery_started_at_millis: None,
            delivery_completed_at_millis: None,
            delivery_segment_count: 0,
            delivery_attempt_count: 0,
            delivery_success_count: 0,
            terminal_status: None,
            terminal_reason: None,
            delivery_status: None,
            error_label: None,
            created_at_millis: now,
            updated_at_millis: now,
        },
    );
}

/// What one commit of an inbound batch does to the snapshot and returns,
/// with the `i`-th recorded pair request under `ids[i]`.
pub open spec fn inbound_batch_outcome(
    old_snapshot: WeixinStateSnapshot,
    new_snapshot: WeixinStateSnapshot,
    commit: WeixinInboundBatchCommit,
    r: Result<WeixinInboundBatchCommitResult, WeixinStateError>,
    ids: Seq<String>,
) -> bool
{
    let live = count(old_snapshot@.pending_inbound, not_terminal_pending());
    match r {
        Err(e) => live + commit.accepted@.len() > WEIXIN_PENDING_INBOUND_LIMIT
            && e == WeixinStateError::PendingInboundQueueFull {
            limit: WEIXIN_PENDING_INBOUND_LIMIT,
        } && new_snapshot == old_snapshot,
        Ok(res) => {
            let acc = batch_acceptance(old_snapshot@, commit);
            &&& live + commit.accepted@.len() <= WEIXIN_PENDING_INBOUND_LIMIT
            &&& new_snapshot@ == batch_committed(
                old_snapshot@,
                commit,
                ids,
            )
            &&& res.accepted_count == acc.accepted_ids.len()
            &&& res.accepted_item_ids@ == acc.accepted_ids
            &&& res.duplicate_count == acc.duplicates
            &&& res.pair_request_count == add_pairs(
                old_snapshot@.pair_requests,
                commit.pair_requests@,
                ids,
                commit.account_id,
                commit.now_millis,
            ).1
            &&& res.receipt_count == acc.receipts.len()
            &&& res.pending_inbound_count == count(
                acc.pending,
                not_terminal_pending(),
            )
            &&& res.pending_inbound_count == live + res.accepted_count
            &&& res.pending_inbound_count <= WEIXIN_PENDING_INBOUND_LIMIT
        },
    }
}

/// `ids` are the pair request ids that `hashes` give, one for one.
pub open spec fn pair_ids_for(ids: Seq<String>, hashes: Seq<u64>) -> bool {
    &&& ids.len() == hashes.len()
    &&& forall|i: int| 0 <= i < ids.len() ==> #[trigger] ids[i]@ == pair_request_text(hashes[i])
}

/// The pair request ids for the hashes, in order.
pub fn pair_request_ids(hashes: &Vec<u64>) -> (r: Vec<String>)
    ensures
        pair_ids_for(r@, hashes@),
{
    let mut ids: Vec<String> = Vec::new();
    let mut i: usize = 0;
    while i < hashes.len()
        invariant
            i <= hashes@.len(),
            ids@.len() == i,
            forall|j: int| 0 <= j < i ==> #[trigger] ids@[j]@ == pair_request_text(hashes@[j]),
        decreases hashes@.len() - i,
    {
        ids.push(pair_request_id(hashes[i]));
        i = i + 1;
    }
    ids
}

impl FileWeixinStateStore {
    /// Commits one poll's worth of inbound messages: prunes old receipts,
    /// refuses the batch when the live queue would exceed its limit, accepts
    /// each new message once (a receipt, a ready pending item and a latency
    /// trace), records pair requests for peers without an active one (the
    /// `i`-th under the id that `pair_request_hashes[i]` gives), stores the
    /// cursor and the connection health, and keeps the newest latency traces.
    pub fn commit_inbound_batch(
        &self,
        snapshot: &mut WeixinStateSnapshot,
        commit: WeixinInboundBatchCommit,
        pair_request_hashes: Vec<u64>,
    ) -> (r: Result<WeixinInboundBatchCommitResult, WeixinStateError>)
        requires
            pair_request_hashes@.len() == commit.pair_requests@.len(),
        ensures
            exists|ids: Seq<String>|
                #![trigger pair_ids_for(ids, pair_request_hashes@)]
                pair_ids_for(ids, pair_request_hashes@) && inbound_batch_outcome(
                    *old(snapshot),
                    *final(snapshot),
                    commit,
                    r,
                    ids,
                ),
    {
        let ids = pair_request_ids(&pair_request_hashes);
        let ghost id_seq = ids@;
        let r = self.commit_under_ids(snapshot, commit, ids);
        assert(pair_ids_for(id_seq, pair_request_hashes@));
        r
    }

    fn commit_under_ids(
        &self,
        snapshot: &mut WeixinStateSnapshot,
        commit: WeixinInboundBatchCommit,
        pair_request_ids: Vec<String>,
    ) -> (r: Result<WeixinInboundBatchCommitResult, WeixinStateError>)
        requires
            pair_request_ids@.len() == commit.pair_requests@.len(),
        ensures
            inbound_batch_outcome(*old(snapshot), *final(snapshot), commit, r, pair_request_ids@),
    {
        let active_pending = snapshot.pending_inbound_count();
        if active_pending.saturating_add(commit.accepted.len()) > WEIXIN_PENDING_INBOUND_LIMIT {
            return Err(
                WeixinStateError::PendingInboundQueueFull { limit: WEIXIN_PENDING_INBOUND_LIMIT },
            );
        }
        let ghost s0 = snapshot@;
        let now = commit.now_millis;
        prune_terminal_receipts(snapshot, now);
        let ghost base = snapshot@;
        let ghost start = InboundAcceptance {
            receipts: base.inbound_receipts,
            pending: base.pending_inbound,
            traces: base.latency_traces,
            accepted_ids: Seq::empty(),
            duplicates: 0,
        };
        let ghost items = commit.accepted@;
        let mut accepted_item_ids: Vec<String> = Vec::new();
        let mut duplicate_count: usize = 0;
        let mut i: usize = 0;
        assert(items.take(0) =~= Seq::<WeixinInboundCommitItem>::empty());
        while i < commit.accepted.len()
            invariant
                items == commit.accepted@,
                i <= items.len(),
                active_pending == count(base.pending_inbound, not_terminal_pending()),
                active_pending + items.len() <= WEIXIN_PENDING_INBOUND_LIMIT,
                accept_items(
                    start,
                    items.take(i as int),
                    commit.account_id,
                    commit.poll_started_at_millis,
                    commit.poll_completed_at_millis,
                    now,
                ) == (InboundAcceptance {
                    receipts: snapshot@.inbound_receipts,
                    pending: snapshot@.pending_inbound,
                    traces: snapshot@.latency_traces,
                    accepted_ids: accepted_item_ids@,
                    duplicates: duplicate_count as nat,
                }),
                snapshot@ == (SnapshotView {
                    inbound_receipts: snapshot@.inbound_receipts,
                    pending_inbound: snapshot@.pending_inbound,
                    latency_traces: snapshot@.latency_traces,
                    ..base
                }),
                count(snapshot@.pending_inbound, not_terminal_pending()) == active_pending
                    + accepted_item_ids@.len(),
                accepted_item_ids@.len() + duplicate_count == i,
            decreases items.len() - i,
        {
            proof {
                lemma_accept_step(
                    start,
                    items,
                    commit.account_id,
                    commit.poll_started_at_millis,
                    commit.poll_completed_at_millis,
                    now,
                    i as int,
                );
            }
            let item = &commit.accepted[i];
            let dup_receipt = has_receipt(snapshot, &item.message_id_hash, &item.peer_id_hash);
            let dup_pending = has_pending_inbound(
                snapshot,
                &item.message_id_hash,
                &item.peer_id_hash,
            );
            if dup_receipt || dup_pending {
                duplicate_count = duplicate_count + 1;
            } else {
                proof {
                    lemma_count_push(
                        snapshot@.pending_inbound,
                        not_terminal_pending(),
                        new_pending(*item, commit.account_id, now),
                    );
                }
                accept_inbound_item(
                    snapshot,
                    item,
                    &commit.account_id,
                    commit.poll_started_at_millis,
                    commit.poll_completed_at_millis,
                    now,
                );
                accepted_item_ids.push(item.item_id.clone());
            }
            i = i + 1;
        }
        assert(items.take(i as int) =~= items);
        let ghost acc = batch_acceptance(s0, commit);
        assert(acc == accept_items(
            start,
            items,
            commit.account_id,
            commit.poll_started_at_millis,
            commit.poll_completed_at_millis,
            now,
        ));

        let ghost pitems = commit.pair_requests@;
        let ghost ids = pair_request_ids@;
        let ghost pstart = snapshot@.pair_requests;
        let ghost mid = snapshot@;
        let mut pair_request_count: usize = 0;
        let mut k: usize = 0;
        assert(pitems.take(0) =~= Seq::<WeixinPairRequestCommitItem>::empty());
        while k < commit.pair_requests.len()
            invariant
                pitems == commit.pair_requests@,
                ids == pair_request_ids@,
                ids.len() == pitems.len(),
                k <= pitems.len(),
                add_pairs(pstart, pitems.take(k as int), ids, commit.account_id, now) == (
                snapshot@.pair_requests,
                pair_request_count as nat,
                ),
                pair_request_count <= k,
                snapshot@ == (SnapshotView { pair_requests: snapshot@.pair_requests, ..mid }),
            decreases pitems.len() - k,
        {
            proof {
                lemma_pairs_step(pstart, pitems, ids, commit.account_id, now, k as int);
            }
            let request = &commit.pair_requests[k];
            if !has_active_pair_request(snapshot, &request.peer_id_hash, now) {
                snapshot.pair_requests.push(
                    WeixinPairRequest {
                        schema_version: WEIXIN_STATE_SCHEMA_VERSION,
                        request_id: pair_request_ids[k].clone(),
                        account_id: commit.account_id.clone(),
                        peer_id_hash: request.peer_id_hash.clone(),
                        state: WeixinPairRequestState::Pending,
                        expires_at_millis: request.expires_at_millis,
                        created_at_millis: now,
                        updated_at_millis: now,
                        transitioned_at_millis: now,
                    },
                );
                pair_request_count = pair_request_count + 1;
            }
            k = k + 1;
        }
        assert(pitems.take(k as int) =~= pitems);

        let ghost before_cursor = snapshot@;
        match &commit.next_get_updates_buf {
            Some(cursor) => {
                upsert_cursor(snapshot, &commit.account_id, &commit.cursor_source, cursor.clone(), now);
            },
            None => {},
        }
        snapshot.connection_state = match commit.connection_state {
            Some(c) => c,
            None => WeixinConnectionStateRecord::Ready,
        };
        snapshot.last_redacted_error = commit.last_redacted_error;
        snapshot.updated_at_millis = now;
        snapshot.transitioned_at_millis = now;
        let ghost pre_trim = snapshot@;
        prune_latency_traces(snapshot);
        let receipt_count = snapshot.inbound_receipts.len();
        let pending_inbound_count = snapshot.pending_inbound_count();
        Ok(
            WeixinInboundBatchCommitResult {
                accepted_count: accepted_item_ids.len(),
                accepted_item_ids,
                duplicate_count,
                pair_request_count,
                receipt_count,
                pending_inbound_count,
            },
        )
    }
}

} // verus!
