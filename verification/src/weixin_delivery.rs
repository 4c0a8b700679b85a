use vstd::prelude::*;
use crate::seqs::{any, first_index, lemma_first_index, lemma_first_index_at, lemma_first_index_none};
use crate::text::{has_prefix, owned, starts_with};
use crate::weixin_snapshot::{SnapshotView, WeixinStateSnapshot};
use crate::weixin_store::{invalid_record, invalid_transition, FileWeixinStateStore};
use crate::weixin_trace::{
    delivery_attempted, delivery_deferred, delivery_finished, opt_is, sat_inc, spooled,
    traces_updated, trace_delivery_attempted, trace_delivery_deferred, trace_delivery_finished,
    trace_spooled,
};
use crate::weixin_types::{
    clone_opt_string, WeixinDeliveryManifest, WeixinDeliveryManifestCommitItem,
    WeixinDeliveryManifestState, WeixinDeliveryRecord, WeixinDeliveryState, WeixinPendingDeliveryCommitItem,
    WeixinPendingDeliveryMetadata, WeixinRemoteControlCommitItem, WeixinRemoteControlRequestRecord,
    WeixinRemoteControlState, WeixinStateError, WEIXIN_STATE_SCHEMA_VERSION,
};
use crate::weixin_validate::{
    delivery_item_refusal, is_label_ok, refusal_matches, label_ok, opt_is_sensitive, opt_sensitive,
    remote_item_ok, validate_delivery_commit_item, validate_remote_control_commit_item,
};

verus! {

// ---------------------------------------------------------------------------
// Finding deliveries and requests
// ---------------------------------------------------------------------------
pub open spec fn delivery_with_id(id: Seq<char>) -> spec_fn(WeixinPendingDeliveryMetadata) -> bool {
    |d: WeixinPendingDeliveryMetadata| d.delivery_id@ == id
}

pub open spec fn live_delivery(id: Seq<char>) -> spec_fn(WeixinPendingDeliveryMetadata) -> bool {
    |d: WeixinPendingDeliveryMetadata| d.delivery_id@ == id && !d.state.terminal()
}

pub open spec fn record_with_id(id: Seq<char>) -> spec_fn(WeixinDeliveryRecord) -> bool {
    |d: WeixinDeliveryRecord| d.delivery_id@ == id
}

pub open spec fn request_with_id(id: Seq<char>) -> spec_fn(WeixinRemoteControlRequestRecord) -> bool {
    |r: WeixinRemoteControlRequestRecord| r.request_id@ == id
}

pub open spec fn request_of(id: Seq<char>, account_id: Seq<char>) -> spec_fn(
    WeixinRemoteControlRequestRecord,
) -> bool {
    |r: WeixinRemoteControlRequestRecord| r.request_id@ == id && r.account_id@ == account_id
}

/// Position of the first pending delivery with this id.
pub fn find_delivery(items: &Vec<WeixinPendingDeliveryMetadata>, id: &String) -> (r: Option<usize>)
    ensures
        match r {
            Some(i) => i as int == first_index(items@, delivery_with_id(id@)) && i < items@.len(),
            None => first_index(items@, delivery_with_id(id@)) == -1,
        },
{
    proof {
        lemma_first_index(items@, delivery_with_id(id@));
    }
    let mut i: usize = 0;
    while i < items.len()
        invariant
            i <= items.len(),
            forall|j: int| 0 <= j < i ==> !(delivery_with_id(id@))(#[trigger] items@[j]),
        decreases items.len() - i,
    {
        if items[i].delivery_id == *id {
            proof {
                lemma_first_index_at(items@, delivery_with_id(id@), i as int);
            }
            return Some(i);
        }
        i = i + 1;
    }
    proof {
        lemma_first_index_none(items@, delivery_with_id(id@));
    }
    None
}

/// Position of the first non-terminal pending delivery with this id.
pub fn find_live_delivery(items: &Vec<WeixinPendingDeliveryMetadata>, id: &str) -> (r: Option<
    usize,
>)
    ensures
        match r {
            Some(i) => i as int == first_index(items@, live_delivery(id@)) && i < items@.len(),
            None => first_index(items@, live_delivery(id@)) == -1,
        },
{
    proof {
        lemma_first_index(items@, live_delivery(id@));
    }
    let key = owned(id);
    let mut i: usize = 0;
    while i < items.len()
        invariant
            i <= items.len(),
            key@ == id@,
            forall|j: int| 0 <= j < i ==> !(live_delivery(id@))(#[trigger] items@[j]),
        decreases items.len() - i,
    {
        if items[i].delivery_id == key && !items[i].state.is_terminal() {
            proof {
                lemma_first_index_at(items@, live_delivery(id@), i as int);
            }
            return Some(i);
        }
        i = i + 1;
    }
    proof {
        lemma_first_index_none(items@, live_delivery(id@));
    }
    None
}

/// Whether a terminal delivery record with this id exists.
pub fn has_delivery_record(records: &Vec<WeixinDeliveryRecord>, id: &String) -> (r: bool)
    ensures
        r == any(records@, record_with_id(id@)),
{
    let mut i: usize = 0;
    while i < records.len()
        invariant
            i <= records.len(),
            forall|j: int| 0 <= j < i ==> !(record_with_id(id@))(#[trigger] records@[j]),
        decreases records.len() - i,
    {
        if records[i].delivery_id == *id {
            assert((record_with_id(id@))(records@[i as int]));
            return true;
        }
        i = i + 1;
    }
    false
}

// ---------------------------------------------------------------------------
// Queued deliveries
// ---------------------------------------------------------------------------
/// `d` is the pending delivery made from `item` for `account_id` at `now`.
pub open spec fn is_new_delivery(
    d: WeixinPendingDeliveryMetadata,
    account_id: Seq<char>,
    item: WeixinPendingDeliveryCommitItem,
    now: u64,
) -> bool {
    d == (WeixinPendingDeliveryMetadata {
        schema_version: WEIXIN_STATE_SCHEMA_VERSION,
        account_id: d.account_id,
        delivery_id: item.delivery_id,
        peer_id_hash: item.peer_id_hash,
        direct_message_key: item.direct_message_key,
        item_id: item.item_id,
        session_id: item.session_id,
        message_hash: item.message_hash,
        segment_index: item.segment_index,
        total_segments: item.total_segments,
        wait_for_turn_completion: item.wait_for_turn_completion,
        encrypted_payload: Some(item.encrypted_payload),
        state: WeixinDeliveryState::Pending,
        retry_count: 0,
        last_status: None,
        last_redacted_error: None,
        next_retry_at_millis: None,
        created_at_millis: now,
        updated_at_millis: now,
        transitioned_at_millis: now,
    }) && d.account_id@ == account_id
}

fn make_delivery(account_id: &str, item: &WeixinPendingDeliveryCommitItem, now: u64) -> (d:
    WeixinPendingDeliveryMetadata)
    ensures
        is_new_delivery(d, account_id@, *item, now),
{
    WeixinPendingDeliveryMetadata {
        schema_version: WEIXIN_STATE_SCHEMA_VERSION,
        account_id: owned(account_id),
        delivery_id: item.delivery_id.clone(),
        peer_id_hash: item.peer_id_hash.clone(),
        direct_message_key: item.direct_message_key.clone(),
        item_id: item.item_id.clone(),
        session_id: item.session_id.clone(),
        message_hash: item.message_hash.clone(),
        segment_index: item.segment_index,
        total_segments: item.total_segments,
        wait_for_turn_completion: item.wait_for_turn_completion,
        encrypted_payload: Some(item.encrypted_payload.clone()),
        state: WeixinDeliveryState::Pending,
        retry_count: 0,
        last_status: None,
        last_redacted_error: None,
        next_retry_at_millis: None,
        created_at_millis: now,
        updated_at_millis: now,
        transitioned_at_millis: now,
    }
}

/// The pending delivery `d` after it starts running at `now`.
pub open spec fn started(d: WeixinPendingDeliveryMetadata, now: u64) -> WeixinPendingDeliveryMetadata {
    WeixinPendingDeliveryMetadata {
        state: WeixinDeliveryState::Running,
        updated_at_millis: now,
        transitioned_at_millis: now,
        ..d
    }
}

/// `e` is `d` put back in the queue with a retry time, after a failed attempt
/// labelled `label`.
pub open spec fn is_deferred(
    d: WeixinPendingDeliveryMetadata,
    e: WeixinPendingDeliveryMetadata,
    label: Seq<char>,
    next_retry: u64,
    now: u64,
) -> bool {
    e == (WeixinPendingDeliveryMetadata {
        state: WeixinDeliveryState::Pending,
        retry_count: sat_inc(d.retry_count),
        last_status: e.last_status,
        last_redacted_error: e.last_redacted_error,
        next_retry_at_millis: Some(next_retry),
        updated_at_millis: now,
        transitioned_at_millis: now,
        ..d
    }) && opt_is(e.last_status, "deferred"@) && opt_is(e.last_redacted_error, label)
}

/// What queuing one outbound segment does: an invalid segment is refused,
/// a queued id gives back its delivery, a finished id is refused, and a new
/// one is queued.
pub open spec fn delivery_enqueue_outcome(
    old_s: WeixinStateSnapshot,
    new_s: WeixinStateSnapshot,
    r: Result<WeixinPendingDeliveryMetadata, WeixinStateError>,
    account_id: Seq<char>,
    item: WeixinPendingDeliveryCommitItem,
    now_millis: u64,
) -> bool
{
    let pend = old_s@.pending_deliveries;
    let j = first_index(pend, delivery_with_id(item.delivery_id@));
    match delivery_item_refusal(account_id, item) {
        Some(reason) => invalid_record(r, reason) && new_s == old_s,
        None => if j >= 0 {
            r == Ok::<WeixinPendingDeliveryMetadata, WeixinStateError>(pend[j])
                && new_s == old_s
        } else if any(old_s@.deliveries, record_with_id(item.delivery_id@)) {
            invalid_record(r, "delivery id already reached terminal state"@)
                && new_s == old_s
        } else {
            r matches Ok(d) && is_new_delivery(d, account_id, item, now_millis)
                && new_s@ == (SnapshotView {
                pending_deliveries: pend.push(d),
                updated_at_millis: now_millis,
                ..old_s@
            })
        },
    }
}

impl FileWeixinStateStore {
    /// Queues one outbound segment; an id already queued gives back the queued
    /// delivery, and an id that already finished is refused.
    pub fn enqueue_pending_delivery(
        &self,
        snapshot: &mut WeixinStateSnapshot,
        account_id: &str,
        item: WeixinPendingDeliveryCommitItem,
        now_millis: u64,
    ) -> (r: Result<WeixinPendingDeliveryMetadata, WeixinStateError>)
        ensures
            delivery_enqueue_outcome(*old(snapshot), *final(snapshot), r, account_id@, item, now_millis),

    {
        if let Err(e) = validate_delivery_commit_item(account_id, &item) {
            return Err(e);
        }
        if let Some(j) = find_delivery(&snapshot.pending_deliveries, &item.delivery_id) {
            return Ok(snapshot.pending_deliveries[j].clone());
        }
        if has_delivery_record(&snapshot.deliveries, &item.delivery_id) {
            return Err(
                WeixinStateError::InvalidRecord {
                    reason: "delivery id already reached terminal state",
                },
            );
        }
        let delivery = make_delivery(account_id, &item, now_millis);
        let out = delivery.clone();
        snapshot.pending_deliveries.push(delivery);
        snapshot.updated_at_millis = now_millis;
        Ok(out)
    }

    /// Marks a queued delivery of this account as running and counts the
    /// attempt on the latency trace of its item.
    pub fn mark_pending_delivery_running(
        &self,
        snapshot: &mut WeixinStateSnapshot,
        account_id: &str,
        delivery_id: &str,
        now_millis: u64,
    ) -> (r: Result<WeixinPendingDeliveryMetadata, WeixinStateError>)
        ensures
            ({
                let pend = old(snapshot)@.pending_deliveries;
                let j = first_index(pend, live_delivery(delivery_id@));
                if j < 0 {
                    (r matches Err(WeixinStateError::DeliveryNotFound { delivery_id: got })
                        && got@ == delivery_id@) && *final(snapshot) == *old(snapshot)
                } else if pend[j].account_id@ != account_id@ || pend[j].state
                    != WeixinDeliveryState::Pending {
                    invalid_transition(r, pend[j].state.name(), "running"@) && *final(snapshot)
                        == *old(snapshot)
                } else {
                    let d = started(pend[j], now_millis);
                    &&& r == Ok::<WeixinPendingDeliveryMetadata, WeixinStateError>(d)
                    &&& final(snapshot)@.pending_deliveries == pend.update(j, d)
                    &&& final(snapshot)@.updated_at_millis == now_millis
                    &&& traces_updated(
                        old(snapshot)@.latency_traces,
                        final(snapshot)@.latency_traces,
                        d.item_id@,
                        now_millis,
                        delivery_attempted(now_millis),
                    )
                    &&& final(snapshot)@ == (SnapshotView {
                        pending_deliveries: final(snapshot)@.pending_deliveries,
                        latency_traces: final(snapshot)@.latency_traces,
                        updated_at_millis: now_millis,
                        ..old(snapshot)@
                    })
                }
            }),
    {
        let j = match find_live_delivery(&snapshot.pending_deliveries, delivery_id) {
            Some(j) => j,
            None => {
                return Err(WeixinStateError::DeliveryNotFound { delivery_id: owned(delivery_id) });
            },
        };
        if snapshot.pending_deliveries[j].account_id != owned(account_id)
            || snapshot.pending_deliveries[j].state != WeixinDeliveryState::Pending {
            return Err(
                WeixinStateError::InvalidTransition {
                    from: snapshot.pending_deliveries[j].state.as_str(),
                    to: WeixinDeliveryState::Running.as_str(),
                },
            );
        }
        snapshot.pending_deliveries[j].state = WeixinDeliveryState::Running;
        snapshot.pending_deliveries[j].updated_at_millis = now_millis;
        snapshot.pending_deliveries[j].transitioned_at_millis = now_millis;
        let updated = snapshot.pending_deliveries[j].clone();
        assert(snapshot.pending_deliveries@ =~= old(snapshot)@.pending_deliveries.update(
            j as int,
            updated,
        ));
        let ghost mid = snapshot@;
        trace_delivery_attempted(snapshot, updated.item_id.as_str(), now_millis);
        snapshot.updated_at_millis = now_millis;
        Ok(updated)
    }

    /// Puts a queued delivery back for a later retry after a failed attempt.
    pub fn record_pending_delivery_deferred(
        &self,
        snapshot: &mut WeixinStateSnapshot,
        account_id: &str,
        delivery_id: &str,
        error_label: &str,
        next_retry_at_millis: u64,
        now_millis: u64,
    ) -> (r: Result<WeixinPendingDeliveryMetadata, WeixinStateError>)
        ensures
            ({
                let pend = old(snapshot)@.pending_deliveries;
                let j = first_index(pend, live_delivery(delivery_id@));
                if !label_ok(error_label@) {
                    invalid_record(r, "delivery error failed validation"@) && *final(snapshot)
                        == *old(snapshot)
                } else if j < 0 {
                    (r matches Err(WeixinStateError::DeliveryNotFound { delivery_id: got })
                        && got@ == delivery_id@) && *final(snapshot) == *old(snapshot)
                } else {
                    r matches Ok(d) && is_deferred(
                        pend[j],
                        d,
                        error_label@,
                        next_retry_at_millis,
                        now_millis,
                    ) && final(snapshot)@.pending_deliveries == pend.update(j, d) && traces_updated(
                        old(snapshot)@.latency_traces,
                        final(snapshot)@.latency_traces,
                        d.item_id@,
                        now_millis,
                        delivery_deferred(now_millis, error_label@),
                    ) && final(snapshot)@ == (SnapshotView {
                        pending_deliveries: final(snapshot)@.pending_deliveries,
                        latency_traces: final(snapshot)@.latency_traces,
                        updated_at_millis: now_millis,
                        ..old(snapshot)@
                    })
                }
            }),
    {
        if !is_label_ok(error_label) {
            return Err(WeixinStateError::InvalidRecord { reason: "delivery error failed validation" });
        }
        let j = match find_live_delivery(&snapshot.pending_deliveries, delivery_id) {
            Some(j) => j,
            None => {
                return Err(WeixinStateError::DeliveryNotFound { delivery_id: owned(delivery_id) });
            },
        };
        snapshot.pending_deliveries[j].state = WeixinDeliveryState::Pending;
        snapshot.pending_deliveries[j].retry_count = snapshot.pending_deliveries[j].retry_count.saturating_add(
            1,
        );
        snapshot.pending_deliveries[j].last_status = Some(owned("deferred"));
        snapshot.pending_deliveries[j].last_redacted_error = Some(owned(error_label));
        snapshot.pending_deliveries[j].next_retry_at_millis = Some(next_retry_at_millis);
        snapshot.pending_deliveries[j].updated_at_millis = now_millis;
        snapshot.pending_deliveries[j].transitioned_at_millis = now_millis;
        let updated = snapshot.pending_deliveries[j].clone();
        assert(snapshot.pending_deliveries@ =~= old(snapshot)@.pending_deliveries.update(
            j as int,
            updated,
        ));
        trace_delivery_deferred(snapshot, updated.item_id.as_str(), error_label, now_millis);
        snapshot.updated_at_millis = now_millis;
        Ok(updated)
    }
}

// ---------------------------------------------------------------------------
// Remote control requests
// ---------------------------------------------------------------------------
/// `q` is the pending request made from `item` for `account_id` at `now`.
pub open spec fn is_new_request(
    q: WeixinRemoteControlRequestRecord,
    account_id: Seq<char>,
    item: WeixinRemoteControlCommitItem,
    now: u64,
) -> bool {
    q == (WeixinRemoteControlRequestRecord {
        schema_version: WEIXIN_STATE_SCHEMA_VERSION,
        request_id: item.request_id,
        account_id: q.account_id,
        peer_id_hash: item.peer_id_hash,
        direct_message_key: item.direct_message_key,
        item_id: item.item_id,
        session_id: item.session_id,
        purpose: item.purpose,
        state: WeixinRemoteControlState::Pending,
        action: item.action,
        reason: item.reason,
        cwd_label: item.cwd_label,
        last_status: None,
        expires_at_millis: item.expires_at_millis,
        created_at_millis: now,
        updated_at_millis: now,
        transitioned_at_millis: now,
    }) && q.account_id@ == account_id
}

fn find_request(items: &Vec<WeixinRemoteControlRequestRecord>, id: &String) -> (r: Option<usize>)
    ensures
        match r {
            Some(i) => i as int == first_index(items@, request_with_id(id@)) && i < items@.len(),
            None => first_index(items@, request_with_id(id@)) == -1,
        },
{
    proof {
        lemma_first_index(items@, request_with_id(id@));
    }
    let mut i: usize = 0;
    while i < items.len()
        invariant
            i <= items.len(),
            forall|j: int| 0 <= j < i ==> !(request_with_id(id@))(#[trigger] items@[j]),
        decreases items.len() - i,
    {
        if items[i].request_id == *id {
            proof {
                lemma_first_index_at(items@, request_with_id(id@), i as int);
            }
            return Some(i);
        }
        i = i + 1;
    }
    proof {
        lemma_first_index_none(items@, request_with_id(id@));
    }
    None
}

fn find_request_of(items: &Vec<WeixinRemoteControlRequestRecord>, id: &str, account_id: &str) -> (r:
    Option<usize>)
    ensures
        match r {
            Some(i) => i as int == first_index(items@, request_of(id@, account_id@)) && i
                < items@.len(),
            None => first_index(items@, request_of(id@, account_id@)) == -1,
        },
{
    proof {
        lemma_first_index(items@, request_of(id@, account_id@));
    }
    let key = owned(id);
    let account = owned(account_id);
    let mut i: usize = 0;
    while i < items.len()
        invariant
            i <= items.len(),
            key@ == id@,
            account@ == account_id@,
            forall|j: int| 0 <= j < i ==> !(request_of(id@, account_id@))(#[trigger] items@[j]),
        decreases items.len() - i,
    {
        if items[i].request_id == key && items[i].account_id == account {
            proof {
                lemma_first_index_at(items@, request_of(id@, account_id@), i as int);
            }
            return Some(i);
        }
        i = i + 1;
    }
    proof {
        lemma_first_index_none(items@, request_of(id@, account_id@));
    }
    None
}

/// What recording a remote control request does: an invalid request is
/// refused, a recorded id gives back its request, and a new one is added.
pub open spec fn remote_record_outcome(
    old_s: WeixinStateSnapshot,
    new_s: WeixinStateSnapshot,
    r: Result<WeixinRemoteControlRequestRecord, WeixinStateError>,
    account_id: Seq<char>,
    item: WeixinRemoteControlCommitItem,
    now_millis: u64,
) -> bool
{
    let reqs = old_s@.remote_control_requests;
    let j = first_index(reqs, request_with_id(item.request_id@));
    if !remote_item_ok(account_id, item) {
        invalid_record(r, "remote control commit failed validation"@)
            && new_s == old_s
    } else if j >= 0 {
        r == Ok::<WeixinRemoteControlRequestRecord, WeixinStateError>(reqs[j])
            && new_s == old_s
    } else {
        r matches Ok(q) && is_new_request(q, account_id, item, now_millis)
            && new_s@ == (SnapshotView {
            remote_control_requests: reqs.push(q),
            updated_at_millis: now_millis,
            ..old_s@
        })
    }
}

/// What settling a remote control request does: only a pending request of
/// the account is settled, once, to a state other than pending.
pub open spec fn remote_transition_outcome(
    old_s: WeixinStateSnapshot,
    new_s: WeixinStateSnapshot,
    r: Result<WeixinRemoteControlRequestRecord, WeixinStateError>,
    account_id: Seq<char>,
    request_id: Seq<char>,
    target: WeixinRemoteControlState,
    last_status: Option<String>,
    now_millis: u64,
) -> bool
{
    let reqs = old_s@.remote_control_requests;
    let j = first_index(reqs, request_of(request_id, account_id));
    if target == WeixinRemoteControlState::Pending {
        invalid_transition(r, "pending"@, "pending"@) && new_s
            == old_s
    } else if opt_sensitive(last_status) {
        invalid_record(r, "remote control status failed validation"@)
            && new_s == old_s
    } else if j < 0 {
        (r matches Err(
            WeixinStateError::RemoteControlRequestNotFound { request_id: got },
        ) && got@ == request_id) && new_s == old_s
    } else if reqs[j].state != WeixinRemoteControlState::Pending {
        invalid_transition(r, reqs[j].state.name(), target.name()) && new_s
            == old_s
    } else {
        let q = WeixinRemoteControlRequestRecord {
            state: target,
            last_status,
            updated_at_millis: now_millis,
            transitioned_at_millis: now_millis,
            ..reqs[j]
        };
        r == Ok::<WeixinRemoteControlRequestRecord, WeixinStateError>(q)
            && new_s@ == (SnapshotView {
            remote_control_requests: reqs.update(j, q),
            updated_at_millis: now_millis,
            transitioned_at_millis: now_millis,
            ..old_s@
        })
    }
}

impl FileWeixinStateStore {
    /// Records a remote control request waiting for the peer's answer; a
    /// request id already recorded gives back the recorded request.
    pub fn record_remote_control_request(
        &self,
        snapshot: &mut WeixinStateSnapshot,
        account_id: &str,
        item: WeixinRemoteControlCommitItem,
        now_millis: u64,
    ) -> (r: Result<WeixinRemoteControlRequestRecord, WeixinStateError>)
        ensures
            remote_record_outcome(*old(snapshot), *final(snapshot), r, account_id@, item, now_millis),

    {
        if let Err(e) = validate_remote_control_commit_item(account_id, &item) {
            return Err(e);
        }
        if let Some(j) = find_request(&snapshot.remote_control_requests, &item.request_id) {
            return Ok(snapshot.remote_control_requests[j].clone());
        }
        let record = WeixinRemoteControlRequestRecord {
            schema_version: WEIXIN_STATE_SCHEMA_VERSION,
            request_id: item.request_id,
            account_id: owned(account_id),
            peer_id_hash: item.peer_id_hash,
            direct_message_key: item.direct_message_key,
            item_id: item.item_id,
            session_id: item.session_id,
            purpose: item.purpose,
            state: WeixinRemoteControlState::Pending,
            action: item.action,
            reason: item.reason,
            cwd_label: item.cwd_label,
            last_status: None,
            expires_at_millis: item.expires_at_millis,
            created_at_millis: now_millis,
            updated_at_millis: now_millis,
            transitioned_at_millis: now_millis,
        };
        let out = record.clone();
        snapshot.remote_control_requests.push(record);
        snapshot.updated_at_millis = now_millis;
        Ok(out)
    }

    /// Settles a pending remote control request of this account.
    pub fn transition_remote_control_request(
        &self,
        snapshot: &mut WeixinStateSnapshot,
        account_id: &str,
        request_id: &str,
        target: WeixinRemoteControlState,
        last_status: Option<String>,
        now_millis: u64,
    ) -> (r: Result<WeixinRemoteControlRequestRecord, WeixinStateError>)
        ensures
            remote_transition_outcome(*old(snapshot), *final(snapshot), r, account_id@, request_id@, target, last_status, now_millis),

    {
        if target == WeixinRemoteControlState::Pending {
            return Err(
                WeixinStateError::InvalidTransition {
                    from: WeixinRemoteControlState::Pending.as_str(),
                    to: target.as_str(),
                },
            );
        }
        if opt_is_sensitive(&last_status) {
            return Err(
                WeixinStateError::InvalidRecord { reason: "remote control status failed validation" },
            );
        }
        let j = match find_request_of(&snapshot.remote_control_requests, request_id, account_id) {
            Some(j) => j,
            None => {
                return Err(
                    WeixinStateError::RemoteControlRequestNotFound { request_id: owned(request_id) },
                );
            },
        };
        if snapshot.remote_control_requests[j].state != WeixinRemoteControlState::Pending {
            return Err(
                WeixinStateError::InvalidTransition {
                    from: snapshot.remote_control_requests[j].state.as_str(),
                    to: target.as_str(),
                },
            );
        }
        snapshot.remote_control_requests[j].state = target;
        snapshot.remote_control_requests[j].last_status = last_status;
        snapshot.remote_control_requests[j].updated_at_millis = now_millis;
        snapshot.remote_control_requests[j].transitioned_at_millis = now_millis;
        let updated = snapshot.remote_control_requests[j].clone();
        assert(snapshot.remote_control_requests@ =~= old(snapshot)@.remote_control_requests.update(
            j as int,
            updated,
        ));
        snapshot.updated_at_millis = now_millis;
        snapshot.transitioned_at_millis = now_millis;
        Ok(updated)
    }
}

// ---------------------------------------------------------------------------
// Segmented replies
// ---------------------------------------------------------------------------
/// The manifest lists one id per segment, each a delivery id.
pub open spec fn manifest_ok(manifest: WeixinDeliveryManifestCommitItem, n: nat) -> bool {
    &&& n > 0
    &&& manifest.total_segments != 0
    &&& manifest.delivery_ids@.len() == n
    &&& forall|i: int|
        0 <= i < manifest.delivery_ids@.len() ==> has_prefix(
            #[trigger] manifest.delivery_ids@[i]@,
            "delivery#"@,
        )
}

pub open spec fn lists_id(ids: Seq<String>, id: Seq<char>) -> bool {
    exists|k: int| 0 <= k < ids.len() && (#[trigger] ids[k])@ == id
}

/// The segment belongs to the reply that the manifest describes.
pub open spec fn matches_manifest(
    manifest: WeixinDeliveryManifestCommitItem,
    item: WeixinPendingDeliveryCommitItem,
) -> bool {
    &&& item.message_hash@ == manifest.message_hash@
    &&& item.item_id@ == manifest.item_id@
    &&& item.session_id@ == manifest.session_id@
    &&& item.total_segments == manifest.total_segments
    &&& lists_id(manifest.delivery_ids@, item.delivery_id@)
}

/// Why a segment of a batch is refused, if it is.
pub open spec fn batch_item_refusal(
    account_id: Seq<char>,
    manifest: WeixinDeliveryManifestCommitItem,
    item: WeixinPendingDeliveryCommitItem,
) -> Option<Seq<char>> {
    match delivery_item_refusal(account_id, item) {
        Some(reason) => Some(reason),
        None => if matches_manifest(manifest, item) {
            None
        } else {
            Some("delivery manifest item mismatch"@)
        },
    }
}

pub open spec fn refused_in(
    account_id: Seq<char>,
    manifest: WeixinDeliveryManifestCommitItem,
) -> spec_fn(WeixinPendingDeliveryCommitItem) -> bool {
    |item: WeixinPendingDeliveryCommitItem| batch_item_refusal(account_id, manifest, item) is Some
}

pub open spec fn manifest_for(message_hash: Seq<char>) -> spec_fn(WeixinDeliveryManifest) -> bool {
    |m: WeixinDeliveryManifest| m.message_hash@ == message_hash
}

/// The queued deliveries listed by `ids`, in that order, skipping ids that
/// are no longer queued.
pub open spec fn queued_of(ids: Seq<String>, pending: Seq<WeixinPendingDeliveryMetadata>) -> Seq<
    WeixinPendingDeliveryMetadata,
>
    decreases ids.len(),
{
    if ids.len() == 0 {
        Seq::empty()
    } else {
        let prev = queued_of(ids.drop_last(), pending);
        let j = first_index(pending, delivery_with_id(ids.last()@));
        if j >= 0 {
            prev.push(pending[j])
        } else {
            prev
        }
    }
}

/// A segment whose id is already queued or finished.
pub open spec fn id_taken(
    pending: Seq<WeixinPendingDeliveryMetadata>,
    records: Seq<WeixinDeliveryRecord>,
) -> spec_fn(WeixinPendingDeliveryCommitItem) -> bool {
    |item: WeixinPendingDeliveryCommitItem|
        any(pending, delivery_with_id(item.delivery_id@)) || any(
            records,
            record_with_id(item.delivery_id@),
        )
}

/// `m` is the manifest recorded for a new segmented reply.
pub open spec fn is_new_manifest(
    m: WeixinDeliveryManifest,
    account_id: Seq<char>,
    manifest: WeixinDeliveryManifestCommitItem,
    now: u64,
) -> bool {
    m == (WeixinDeliveryManifest {
        schema_version: WEIXIN_STATE_SCHEMA_VERSION,
        message_hash: manifest.message_hash,
        account_id: m.account_id,
        item_id: manifest.item_id,
        session_id: manifest.session_id,
        total_segments: manifest.total_segments,
        delivery_ids: manifest.delivery_ids,
        state: WeixinDeliveryManifestState::Pending,
        created_at_millis: now,
        updated_at_millis: now,
    }) && m.account_id@ == account_id
}

fn manifest_is_ok(manifest: &WeixinDeliveryManifestCommitItem, n: usize) -> (r: bool)
    ensures
        r == manifest_ok(*manifest, n as nat),
{
    if n == 0 || manifest.total_segments == 0 || manifest.delivery_ids.len() != n {
        return false;
    }
    let mut i: usize = 0;
    while i < manifest.delivery_ids.len()
        invariant
            i <= manifest.delivery_ids@.len(),
            forall|k: int| 0 <= k < i ==> has_prefix(#[trigger] manifest.delivery_ids@[k]@, "delivery#"@),
        decreases manifest.delivery_ids.len() - i,
    {
        if !starts_with(manifest.delivery_ids[i].as_str(), "delivery#") {
            return false;
        }
        i = i + 1;
    }
    true
}

fn lists_delivery_id(ids: &Vec<String>, id: &String) -> (r: bool)
    ensures
        r == lists_id(ids@, id@),
{
    let mut k: usize = 0;
    while k < ids.len()
        invariant
            k <= ids.len(),
            forall|j: int| 0 <= j < k ==> (#[trigger] ids@[j])@ != id@,
        decreases ids.len() - k,
    {
        if ids[k] == *id {
            return true;
        }
        k = k + 1;
    }
    false
}

fn check_batch_item(
    account_id: &str,
    manifest: &WeixinDeliveryManifestCommitItem,
    item: &WeixinPendingDeliveryCommitItem,
) -> (r: Result<(), WeixinStateError>)
    ensures
        refusal_matches(r, batch_item_refusal(account_id@, *manifest, *item)),
{
    if let Err(e) = validate_delivery_commit_item(account_id, item) {
        return Err(e);
    }
    if item.message_hash != manifest.message_hash || item.item_id != manifest.item_id
        || item.session_id != manifest.session_id || item.total_segments != manifest.total_segments
        || !lists_delivery_id(&manifest.delivery_ids, &item.delivery_id) {
        return Err(WeixinStateError::InvalidRecord { reason: "delivery manifest item mismatch" });
    }
    Ok(())
}

fn find_manifest(manifests: &Vec<WeixinDeliveryManifest>, message_hash: &String) -> (r: Option<
    usize,
>)
    ensures
        match r {
            Some(i) => i as int == first_index(manifests@, manifest_for(message_hash@)) && i
                < manifests@.len(),
            None => first_index(manifests@, manifest_for(message_hash@)) == -1,
        },
{
    proof {
        lemma_first_index(manifests@, manifest_for(message_hash@));
    }
    let mut i: usize = 0;
    while i < manifests.len()
        invariant
            i <= manifests.len(),
            forall|j: int| 0 <= j < i ==> !(manifest_for(message_hash@))(#[trigger] manifests@[j]),
        decreases manifests.len() - i,
    {
        if manifests[i].message_hash == *message_hash {
            proof {
                lemma_first_index_at(manifests@, manifest_for(message_hash@), i as int);
            }
            return Some(i);
        }
        i = i + 1;
    }
    proof {
        lemma_first_index_none(manifests@, manifest_for(message_hash@));
    }
    None
}

fn collect_queued(ids: &Vec<String>, pending: &Vec<WeixinPendingDeliveryMetadata>) -> (r: Vec<
    WeixinPendingDeliveryMetadata,
>)
    ensures
        r@ == queued_of(ids@, pending@),
{
    let mut out: Vec<WeixinPendingDeliveryMetadata> = Vec::new();
    let mut k: usize = 0;
    while k < ids.len()
        invariant
            k <= ids.len(),
            out@ == queued_of(ids@.take(k as int), pending@),
        decreases ids.len() - k,
    {
        assert(ids@.take(k + 1).drop_last() =~= ids@.take(k as int));
        if let Some(j) = find_delivery(pending, &ids[k]) {
            out.push(pending[j].clone());
        }
        k = k + 1;
    }
    assert(ids@.take(k as int) =~= ids@);
    out
}

impl FileWeixinStateStore {
    /// Queues every segment of one reply together with its manifest. A reply
    /// whose manifest is already recorded gives back its queued segments; a
    /// segment id that is already queued or finished refuses the batch.
    #[verifier::loop_isolation(false)]
    pub fn enqueue_pending_delivery_batch(
        &self,
        snapshot: &mut WeixinStateSnapshot,
        account_id: &str,
        manifest: WeixinDeliveryManifestCommitItem,
        items: Vec<WeixinPendingDeliveryCommitItem>,
        now_millis: u64,
    ) -> (r: Result<Vec<WeixinPendingDeliveryMetadata>, WeixinStateError>)
        ensures
            ({
                let s = old(snapshot)@;
                let f = first_index(items@, refused_in(account_id@, manifest));
                let e = first_index(s.delivery_manifests, manifest_for(manifest.message_hash@));
                if !manifest_ok(manifest, items@.len()) {
                    invalid_record(r, "delivery manifest failed validation"@) && *final(snapshot)
                        == *old(snapshot)
                } else if f >= 0 {
                    invalid_record(
                        r,
                        batch_item_refusal(account_id@, manifest, items@[f])->Some_0,
                    ) && *final(snapshot) == *old(snapshot)
                } else if e >= 0 {
                    (r matches Ok(v) && v@ == queued_of(
                        s.delivery_manifests[e].delivery_ids@,
                        s.pending_deliveries,
                    )) && *final(snapshot) == *old(snapshot)
                } else if any(items@, id_taken(s.pending_deliveries, s.deliveries)) {
                    invalid_record(r, "delivery id already exists"@) && *final(snapshot)
                        == *old(snapshot)
                } else {
                    let t = final(snapshot)@;
                    r matches Ok(v) && v@.len() == items@.len() && (forall|i: int|
                        0 <= i < items@.len() ==> is_new_delivery(
                            #[trigger] v@[i],
                            account_id@,
                            items@[i],
                            now_millis,
                        )) && t.pending_deliveries == s.pending_deliveries + v@
                        && t.delivery_manifests.len() == s.delivery_manifests.len() + 1
                        && t.delivery_manifests.drop_last() == s.delivery_manifests
                        && is_new_manifest(
                        t.delivery_manifests.last(),
                        account_id@,
                        manifest,
                        now_millis,
                    ) && traces_updated(
                        s.latency_traces,
                        t.latency_traces,
                        manifest.item_id@,
                        now_millis,
                        spooled(now_millis, manifest.session_id@, manifest.total_segments),
                    ) && t == (SnapshotView {
                        pending_deliveries: t.pending_deliveries,
                        delivery_manifests: t.delivery_manifests,
                        latency_traces: t.latency_traces,
                        updated_at_millis: now_millis,
                        ..s
                    })
                }
            }),
    {
        if !manifest_is_ok(&manifest, items.len()) {
            return Err(
                WeixinStateError::InvalidRecord { reason: "delivery manifest failed validation" },
            );
        }
        let mut i: usize = 0;
        proof {
            lemma_first_index(items@, refused_in(account_id@, manifest));
        }
        while i < items.len()
            invariant
                i <= items@.len(),
                forall|k: int| 0 <= k < i ==> !(refused_in(account_id@, manifest))(
                    #[trigger] items@[k],
                ),
            decreases items.len() - i,
        {
            if let Err(e) = check_batch_item(account_id, &manifest, &items[i]) {
                proof {
                    lemma_first_index_at(items@, refused_in(account_id@, manifest), i as int);
                }
                return Err(e);
            }
            i = i + 1;
        }
        proof {
            lemma_first_index_none(items@, refused_in(account_id@, manifest));
        }
        if let Some(e) = find_manifest(&snapshot.delivery_manifests, &manifest.message_hash) {
            let existing = collect_queued(
                &snapshot.delivery_manifests[e].delivery_ids,
                &snapshot.pending_deliveries,
            );
            return Ok(existing);
        }
        let ghost taken = id_taken(snapshot@.pending_deliveries, snapshot@.deliveries);
        let mut pending: Vec<WeixinPendingDeliveryMetadata> = Vec::new();
        let mut k: usize = 0;
        while k < items.len()
            invariant
                k <= items@.len(),
                taken == id_taken(snapshot@.pending_deliveries, snapshot@.deliveries),
                forall|j: int| 0 <= j < k ==> !taken(#[trigger] items@[j]),
                pending@.len() == k,
                forall|j: int|
                    0 <= j < k ==> is_new_delivery(
                        #[trigger] pending@[j],
                        account_id@,
                        items@[j],
                        now_millis,
                    ),
            decreases items.len() - k,
        {
            let taken_now = find_delivery(&snapshot.pending_deliveries, &items[k].delivery_id).is_some()
                || has_delivery_record(&snapshot.deliveries, &items[k].delivery_id);
            proof {
                lemma_first_index(
                    snapshot@.pending_deliveries,
                    delivery_with_id(items@[k as int].delivery_id@),
                );
            }
            if taken_now {
                assert(taken(items@[k as int]));
                return Err(WeixinStateError::InvalidRecord { reason: "delivery id already exists" });
            }
            pending.push(make_delivery(account_id, &items[k], now_millis));
            k = k + 1;
        }
        let item_id = manifest.item_id.clone();
        let session_id = manifest.session_id.clone();
        let total_segments = manifest.total_segments;
        snapshot.delivery_manifests.push(
            WeixinDeliveryManifest {
                schema_version: WEIXIN_STATE_SCHEMA_VERSION,
                message_hash: manifest.message_hash,
                account_id: owned(account_id),
                item_id: manifest.item_id,
                session_id: manifest.session_id,
                total_segments: manifest.total_segments,
                delivery_ids: manifest.delivery_ids,
                state: WeixinDeliveryManifestState::Pending,
                created_at_millis: now_millis,
                updated_at_millis: now_millis,
            },
        );
        let ghost queued = snapshot@.pending_deliveries;
        let ghost with_manifest = snapshot@;
        let mut q: usize = 0;
        while q < pending.len()
            invariant
                q <= pending@.len(),
                snapshot@ == (SnapshotView {
                    pending_deliveries: snapshot@.pending_deliveries,
                    ..with_manifest
                }),
                snapshot@.pending_deliveries == queued + pending@.take(q as int),
            decreases pending.len() - q,
        {
            snapshot.pending_deliveries.push(pending[q].clone());
            assert(queued + pending@.take(q + 1) =~= (queued + pending@.take(q as int)).push(
                pending@[q as int],
            ));
            q = q + 1;
        }
        assert(pending@.take(q as int) =~= pending@);
        trace_spooled(snapshot, item_id.as_str(), session_id.as_str(), total_segments, now_millis);
        snapshot.updated_at_millis = now_millis;
        assert(snapshot@.delivery_manifests.drop_last() =~= old(snapshot)@.delivery_manifests);
        Ok(pending)
    }
}

// ---------------------------------------------------------------------------
// Finishing a delivery
// ---------------------------------------------------------------------------
pub open spec fn live_delivery_of(id: Seq<char>, account_id: Seq<char>) -> spec_fn(
    WeixinPendingDeliveryMetadata,
) -> bool {
    |d: WeixinPendingDeliveryMetadata|
        d.delivery_id@ == id && d.account_id@ == account_id && !d.state.terminal()
}

/// How one delivery of a manifest stands: 0 still waiting (queued, unknown
/// to the records, or recorded as pending or running), 1 outcome unknown,
/// 2 failed, cancelled or expired, 3 succeeded.
pub open spec fn delivery_standing(
    id: Seq<char>,
    pending: Seq<WeixinPendingDeliveryMetadata>,
    records: Seq<WeixinDeliveryRecord>,
) -> int {
    if any(pending, delivery_with_id(id)) {
        0
    } else {
        let k = first_index(records, record_with_id(id));
        if k < 0 {
            0
        } else {
            match records[k].state {
                WeixinDeliveryState::Succeeded => 3,
                WeixinDeliveryState::Unknown => 1,
                WeixinDeliveryState::Failed | WeixinDeliveryState::Cancelled
                | WeixinDeliveryState::Expired => 2,
                _ => 0,
            }
        }
    }
}

pub open spec fn some_standing(
    ids: Seq<String>,
    pending: Seq<WeixinPendingDeliveryMetadata>,
    records: Seq<WeixinDeliveryRecord>,
    v: int,
) -> bool {
    exists|i: int| 0 <= i < ids.len() && delivery_standing((#[trigger] ids[i])@, pending, records) == v
}

/// The state of a manifest: waiting while any delivery waits, else unknown
/// while any outcome is unknown, else failed while any failed, else
/// succeeded.
pub open spec fn manifest_state(
    ids: Seq<String>,
    pending: Seq<WeixinPendingDeliveryMetadata>,
    records: Seq<WeixinDeliveryRecord>,
) -> WeixinDeliveryManifestState {
    if some_standing(ids, pending, records, 0) {
        WeixinDeliveryManifestState::Pending
    } else if some_standing(ids, pending, records, 1) {
        WeixinDeliveryManifestState::Unknown
    } else if some_standing(ids, pending, records, 2) {
        WeixinDeliveryManifestState::Failed
    } else {
        WeixinDeliveryManifestState::Succeeded
    }
}

/// Every manifest with its state recomputed and stamped with `stamp`.
pub open spec fn refreshed_manifests(
    ms: Seq<WeixinDeliveryManifest>,
    pending: Seq<WeixinPendingDeliveryMetadata>,
    records: Seq<WeixinDeliveryRecord>,
    stamp: u64,
) -> Seq<WeixinDeliveryManifest> {
    Seq::new(
        ms.len(),
        |i: int|
            WeixinDeliveryManifest {
                state: manifest_state(ms[i].delivery_ids@, pending, records),
                updated_at_millis: stamp,
                ..ms[i]
            },
    )
}

fn find_record(records: &Vec<WeixinDeliveryRecord>, id: &String) -> (r: Option<usize>)
    ensures
        match r {
            Some(i) => i as int == first_index(records@, record_with_id(id@)) && i < records@.len(),
            None => first_index(records@, record_with_id(id@)) == -1,
        },
{
    proof {
        lemma_first_index(records@, record_with_id(id@));
    }
    let mut i: usize = 0;
    while i < records.len()
        invariant
            i <= records.len(),
            forall|j: int| 0 <= j < i ==> !(record_with_id(id@))(#[trigger] records@[j]),
        decreases records.len() - i,
    {
        if records[i].delivery_id == *id {
            proof {
                lemma_first_index_at(records@, record_with_id(id@), i as int);
            }
            return Some(i);
        }
        i = i + 1;
    }
    proof {
        lemma_first_index_none(records@, record_with_id(id@));
    }
    None
}

fn standing_of(
    id: &String,
    pending: &Vec<WeixinPendingDeliveryMetadata>,
    records: &Vec<WeixinDeliveryRecord>,
) -> (r: u8)
    ensures
        r == delivery_standing(id@, pending@, records@),
{
    proof {
        lemma_first_index(pending@, delivery_with_id(id@));
    }
    if find_delivery(pending, id).is_some() {
        return 0;
    }
    match find_record(records, id) {
        None => 0,
        Some(k) => match records[k].state {
            WeixinDeliveryState::Succeeded => 3,
            WeixinDeliveryState::Unknown => 1,
            WeixinDeliveryState::Failed | WeixinDeliveryState::Cancelled
            | WeixinDeliveryState::Expired => 2,
            _ => 0,
        },
    }
}

fn state_of_manifest(
    ids: &Vec<String>,
    pending: &Vec<WeixinPendingDeliveryMetadata>,
    records: &Vec<WeixinDeliveryRecord>,
) -> (r: WeixinDeliveryManifestState)
    ensures
        r == manifest_state(ids@, pending@, records@),
{
    let mut has_pending = false;
    let mut has_unknown = false;
    let mut has_failed = false;
    let mut i: usize = 0;
    while i < ids.len()
        invariant
            i <= ids.len(),
            has_pending == some_standing(ids@.take(i as int), pending@, records@, 0),
            has_unknown == some_standing(ids@.take(i as int), pending@, records@, 1),
            has_failed == some_standing(ids@.take(i as int), pending@, records@, 2),
        decreases ids.len() - i,
    {
        let st = standing_of(&ids[i], pending, records);
        proof {
            let t = ids@.take(i as int);
            let t1 = ids@.take(i + 1);
            assert(t1[i as int] == ids@[i as int]);
            assert forall|v: int| #![auto]
                some_standing(t1, pending@, records@, v) == (some_standing(
                    t,
                    pending@,
                    records@,
                    v,
                ) || st == v) by {
                if some_standing(t, pending@, records@, v) {
                    let w = choose|w: int|
                        0 <= w < t.len() && delivery_standing(
                            (#[trigger] t[w])@,
                            pending@,
                            records@,
                        ) == v;
                    assert(t1[w] == t[w]);
                }
                if some_standing(t1, pending@, records@, v) {
                    let w = choose|w: int|
                        0 <= w < t1.len() && delivery_standing(
                            (#[trigger] t1[w])@,
                            pending@,
                            records@,
                        ) == v;
                    if w < i {
                        assert(t[w] == t1[w]);
                    }
                }
            }
        }
        if st == 0 {
            has_pending = true;
        } else if st == 1 {
            has_unknown = true;
        } else if st == 2 {
            has_failed = true;
        }
        i = i + 1;
    }
    assert(ids@.take(i as int) =~= ids@);
    if has_pending {
        WeixinDeliveryManifestState::Pending
    } else if has_unknown {
        WeixinDeliveryManifestState::Unknown
    } else if has_failed {
        WeixinDeliveryManifestState::Failed
    } else {
        WeixinDeliveryManifestState::Succeeded
    }
}

/// Recomputes the state of every manifest from its deliveries and stamps it
/// with the snapshot's last update time.
pub fn refresh_delivery_manifest_states(snapshot: &mut WeixinStateSnapshot)
    ensures
        final(snapshot)@ == (SnapshotView {
            delivery_manifests: refreshed_manifests(
                old(snapshot)@.delivery_manifests,
                old(snapshot)@.pending_deliveries,
                old(snapshot)@.deliveries,
                old(snapshot)@.updated_at_millis,
            ),
            ..old(snapshot)@
        }),
{
    let stamp = snapshot.updated_at_millis;
    let ghost target = refreshed_manifests(
        old(snapshot)@.delivery_manifests,
        old(snapshot)@.pending_deliveries,
        old(snapshot)@.deliveries,
        stamp,
    );
    let mut m: usize = 0;
    while m < snapshot.delivery_manifests.len()
        invariant
            m <= snapshot.delivery_manifests@.len(),
            stamp == old(snapshot)@.updated_at_millis,
            target == refreshed_manifests(
                old(snapshot)@.delivery_manifests,
                old(snapshot)@.pending_deliveries,
                old(snapshot)@.deliveries,
                stamp,
            ),
            snapshot@ == (SnapshotView {
                delivery_manifests: snapshot@.delivery_manifests,
                ..old(snapshot)@
            }),
            snapshot@.delivery_manifests.len() == target.len(),
            forall|j: int| 0 <= j < m ==> snapshot@.delivery_manifests[j] == target[j],
            forall|j: int|
                m <= j < target.len() ==> snapshot@.delivery_manifests[j] == old(
                    snapshot,
                )@.delivery_manifests[j],
        decreases snapshot.delivery_manifests.len() - m,
    {
        let st = state_of_manifest(
            &snapshot.delivery_manifests[m].delivery_ids,
            &snapshot.pending_deliveries,
            &snapshot.deliveries,
        );
        let ghost before = snapshot@.delivery_manifests;
        snapshot.delivery_manifests[m].state = st;
        snapshot.delivery_manifests[m].updated_at_millis = stamp;
        assert(snapshot@.delivery_manifests =~= before.update(m as int, target[m as int]));
        m = m + 1;
    }
    assert(snapshot@.delivery_manifests =~= target);
}

/// The record of a finished delivery.
pub open spec fn finished_record(
    d: WeixinPendingDeliveryMetadata,
    target: WeixinDeliveryState,
    error: Option<String>,
    now: u64,
) -> WeixinDeliveryRecord {
    WeixinDeliveryRecord {
        schema_version: WEIXIN_STATE_SCHEMA_VERSION,
        delivery_id: d.delivery_id,
        state: target,
        last_redacted_error: error,
        created_at_millis: d.created_at_millis,
        updated_at_millis: now,
        transitioned_at_millis: now,
    }
}

fn find_live_delivery_of(
    items: &Vec<WeixinPendingDeliveryMetadata>,
    id: &str,
    account_id: &str,
) -> (r: Option<usize>)
    ensures
        match r {
            Some(i) => i as int == first_index(items@, live_delivery_of(id@, account_id@)) && i
                < items@.len(),
            None => first_index(items@, live_delivery_of(id@, account_id@)) == -1,
        },
{
    proof {
        lemma_first_index(items@, live_delivery_of(id@, account_id@));
    }
    let key = owned(id);
    let account = owned(account_id);
    let mut i: usize = 0;
    while i < items.len()
        invariant
            i <= items.len(),
            key@ == id@,
            account@ == account_id@,
            forall|j: int| 0 <= j < i ==> !(live_delivery_of(id@, account_id@))(#[trigger] items@[j]),
        decreases items.len() - i,
    {
        if items[i].delivery_id == key && items[i].account_id == account
            && !items[i].state.is_terminal() {
            proof {
                lemma_first_index_at(items@, live_delivery_of(id@, account_id@), i as int);
            }
            return Some(i);
        }
        i = i + 1;
    }
    proof {
        lemma_first_index_none(items@, live_delivery_of(id@, account_id@));
    }
    None
}

impl FileWeixinStateStore {
    /// Moves a queued delivery of this account to the finished records with a
    /// terminal state, refreshes the manifests and the latency trace.
    pub fn complete_pending_delivery(
        &self,
        snapshot: &mut WeixinStateSnapshot,
        account_id: &str,
        delivery_id: &str,
        target: WeixinDeliveryState,
        last_status: Option<String>,
        last_redacted_error: Option<String>,
        now_millis: u64,
    ) -> (r: Result<WeixinDeliveryRecord, WeixinStateError>)
        ensures
            ({
                let s = old(snapshot)@;
                let j = first_index(s.pending_deliveries, live_delivery_of(delivery_id@, account_id@));
                if !target.terminal() {
                    invalid_record(r, "delivery terminal state is required"@) && *final(snapshot)
                        == *old(snapshot)
                } else if opt_sensitive(last_status) || opt_sensitive(last_redacted_error) {
                    invalid_record(r, "delivery status failed validation"@) && *final(snapshot)
                        == *old(snapshot)
                } else if j < 0 {
                    (r matches Err(WeixinStateError::DeliveryNotFound { delivery_id: got })
                        && got@ == delivery_id@) && *final(snapshot) == *old(snapshot)
                } else {
                    let d = s.pending_deliveries[j];
                    let rec = finished_record(d, target, last_redacted_error, now_millis);
                    let pend = s.pending_deliveries.remove(j);
                    let recs = s.deliveries.push(rec);
                    let t = final(snapshot)@;
                    &&& r == Ok::<WeixinDeliveryRecord, WeixinStateError>(rec)
                    &&& t.pending_deliveries == pend
                    &&& t.deliveries == recs
                    &&& t.delivery_manifests == refreshed_manifests(
                        s.delivery_manifests,
                        pend,
                        recs,
                        s.updated_at_millis,
                    )
                    &&& traces_updated(
                        s.latency_traces,
                        t.latency_traces,
                        d.item_id@,
                        now_millis,
                        delivery_finished(now_millis, target, last_redacted_error),
                    )
                    &&& t == (SnapshotView {
                        pending_deliveries: pend,
                        deliveries: recs,
                        delivery_manifests: t.delivery_manifests,
                        latency_traces: t.latency_traces,
                        updated_at_millis: now_millis,
                        transitioned_at_millis: now_millis,
                        ..s
                    })
                }
            }),
    {
        if !target.is_terminal() {
            return Err(
                WeixinStateError::InvalidRecord { reason: "delivery terminal state is required" },
            );
        }
        if opt_is_sensitive(&last_status) || opt_is_sensitive(&last_redacted_error) {
            return Err(WeixinStateError::InvalidRecord { reason: "delivery status failed validation" });
        }
        let index = match find_live_delivery_of(&snapshot.pending_deliveries, delivery_id, account_id) {
            Some(j) => j,
            None => {
                return Err(WeixinStateError::DeliveryNotFound { delivery_id: owned(delivery_id) });
            },
        };
        let pending = snapshot.pending_deliveries.remove(index);
        let record = WeixinDeliveryRecord {
            schema_version: WEIXIN_STATE_SCHEMA_VERSION,
            delivery_id: pending.delivery_id,
            state: target,
            last_redacted_error: clone_opt_string(&last_redacted_error),
            created_at_millis: pending.created_at_millis,
            updated_at_millis: now_millis,
            transitioned_at_millis: now_millis,
        };
        snapshot.deliveries.push(record.clone());
        refresh_delivery_manifest_states(snapshot);
        trace_delivery_finished(
            snapshot,
            pending.item_id.as_str(),
            target,
            last_redacted_error,
            now_millis,
        );
        snapshot.updated_at_millis = now_millis;
        snapshot.transitioned_at_millis = now_millis;
        Ok(record)
    }
}

} // verus!
