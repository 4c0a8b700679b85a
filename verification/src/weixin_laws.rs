use vstd::prelude::*;
use crate::weixin_commit::{accept_items, batch_acceptance, InboundAcceptance};
use crate::weixin_prune::{lemma_pruning_keeps_recent_receipts, pruned_receipts, terminal_receipt};
use crate::weixin_types::{WeixinInboundBatchCommit, WEIXIN_TERMINAL_RECEIPT_LIMIT, WEIXIN_TERMINAL_RECEIPT_TTL_MILLIS};
use crate::seqs::{first_index, lemma_first_index, lemma_first_index_at};
use crate::weixin_delivery::{delivery_enqueue_outcome, delivery_with_id, remote_record_outcome, remote_transition_outcome, request_of, request_with_id};
use crate::weixin_snapshot::{live_pending, SnapshotView, WeixinStateSnapshot};
use crate::weixin_prune::keep;
use crate::weixin_queue::ready_at;
use crate::weixin_store::{claim_outcome, invalid_record, turn_session_outcome};
use crate::weixin_trace::opt_is;
use crate::weixin_types::{WeixinInboundCommitItem, WeixinInboundReceiptRecord, WeixinPendingDeliveryCommitItem, WeixinPendingDeliveryMetadata, WeixinPendingInbound, WeixinPendingInboundState, WeixinRemoteControlCommitItem, WeixinRemoteControlRequestRecord, WeixinRemoteControlState, WeixinStateError};
use crate::weixin_validate::label_ok;

verus! {

/// How far an inbound item has come: accepted, ready, running, finished.
pub open spec fn progress(s: WeixinPendingInboundState) -> int {
    match s {
        WeixinPendingInboundState::Accepted => 0,
        WeixinPendingInboundState::Ready => 1,
        WeixinPendingInboundState::Running => 2,
        _ => 3,
    }
}

/// An inbound item only moves forward: every allowed transition leads to a
/// later stage, so no state is revisited and a finished item never changes
/// again.
pub proof fn lemma_inbound_lifecycle_moves_forward(s: WeixinPendingInboundState, t: WeixinPendingInboundState)
    ensures
        s.allows(t) ==> progress(s) < progress(t),
        s.terminal() ==> !s.allows(t),
        t.terminal() <==> progress(t) == 3,
{
}

/// Two receipts are for the same message when message and peer hashes agree.
pub open spec fn same_message(a: WeixinInboundReceiptRecord, b: WeixinInboundReceiptRecord) -> bool {
    a.message_id_hash@ == b.message_id_hash@ && a.peer_id_hash@ == b.peer_id_hash@
}

/// Taking a batch of inbound items never touches the receipts already kept,
/// and every receipt it adds is for a message that no earlier receipt (kept
/// before the batch, or added for an earlier item of it) stands for: each
/// message is accepted at most once.
pub proof fn lemma_batch_accepts_each_message_once(
    start: InboundAcceptance,
    items: Seq<WeixinInboundCommitItem>,
    account_id: String,
    poll_started: Option<u64>,
    poll_completed: Option<u64>,
    now: u64,
)
    ensures
        ({
            let r = accept_items(start, items, account_id, poll_started, poll_completed, now).receipts;
            &&& start.receipts.len() <= r.len()
            &&& r.take(start.receipts.len() as int) == start.receipts
            &&& forall|j: int, k: int|
                start.receipts.len() <= j < r.len() && 0 <= k < j ==> !same_message(
                    #[trigger] r[k],
                    #[trigger] r[j],
                )
        }),
    decreases items.len(),
{
    if items.len() > 0 {
        let rest = items.drop_last();
        lemma_batch_accepts_each_message_once(start, rest, account_id, poll_started, poll_completed, now);
        let prev = accept_items(start, rest, account_id, poll_started, poll_completed, now);
        let r = accept_items(start, items, account_id, poll_started, poll_completed, now).receipts;
        let n = start.receipts.len() as int;
        if r.len() != prev.receipts.len() {
            assert(r.take(n) =~= prev.receipts.take(n));
            assert forall|j: int, k: int|
                start.receipts.len() <= j < r.len() && 0 <= k < j implies !same_message(
                    #[trigger] r[k],
                    #[trigger] r[j],
                ) by {
                if j == prev.receipts.len() {
                    assert(r[k] == prev.receipts[k]);
                }
            }
        }
    }
}

/// Recording the same remote control request twice is harmless: once the
/// first call recorded (or found) it, the second gives back the same request
/// and changes nothing.
pub proof fn lemma_remote_control_record_replays(
    s0: WeixinStateSnapshot,
    s1: WeixinStateSnapshot,
    s2: WeixinStateSnapshot,
    r1: Result<WeixinRemoteControlRequestRecord, WeixinStateError>,
    r2: Result<WeixinRemoteControlRequestRecord, WeixinStateError>,
    account_id: Seq<char>,
    item: WeixinRemoteControlCommitItem,
    first_now: u64,
    second_now: u64,
)
    requires
        remote_record_outcome(s0, s1, r1, account_id, item, first_now),
        r1 is Ok,
        remote_record_outcome(s1, s2, r2, account_id, item, second_now),
    ensures
        r2 == r1,
        s2 == s1,
{
    let p = request_with_id(item.request_id@);
    let reqs0 = s0@.remote_control_requests;
    lemma_first_index(reqs0, p);
    if first_index(reqs0, p) < 0 {
        let reqs1 = s1@.remote_control_requests;
        assert(forall|k: int| 0 <= k < reqs0.len() ==> reqs1[k] == reqs0[k]);
        lemma_first_index_at(reqs1, p, reqs0.len() as int);
    }
}

/// Queuing the same outbound segment twice is harmless: once the first call
/// queued (or found) it, the second gives back the same delivery and changes
/// nothing.
pub proof fn lemma_delivery_enqueue_replays(
    s0: WeixinStateSnapshot,
    s1: WeixinStateSnapshot,
    s2: WeixinStateSnapshot,
    r1: Result<WeixinPendingDeliveryMetadata, WeixinStateError>,
    r2: Result<WeixinPendingDeliveryMetadata, WeixinStateError>,
    account_id: Seq<char>,
    item: WeixinPendingDeliveryCommitItem,
    first_now: u64,
    second_now: u64,
)
    requires
        delivery_enqueue_outcome(s0, s1, r1, account_id, item, first_now),
        r1 is Ok,
        delivery_enqueue_outcome(s1, s2, r2, account_id, item, second_now),
    ensures
        r2 == r1,
        s2 == s1,
{
    let p = delivery_with_id(item.delivery_id@);
    let pend0 = s0@.pending_deliveries;
    lemma_first_index(pend0, p);
    if first_index(pend0, p) < 0 {
        let pend1 = s1@.pending_deliveries;
        assert(forall|k: int| 0 <= k < pend0.len() ==> pend1[k] == pend0[k]);
        lemma_first_index_at(pend1, p, pend0.len() as int);
    }
}

/// A remote control request leaves the pending state at most once: after a
/// successful transition, any later transition of the same request of the
/// same account is refused and changes nothing.
pub proof fn lemma_remote_control_settles_once(
    s0: WeixinStateSnapshot,
    s1: WeixinStateSnapshot,
    s2: WeixinStateSnapshot,
    r1: Result<WeixinRemoteControlRequestRecord, WeixinStateError>,
    r2: Result<WeixinRemoteControlRequestRecord, WeixinStateError>,
    account_id: Seq<char>,
    request_id: Seq<char>,
    first_target: WeixinRemoteControlState,
    second_target: WeixinRemoteControlState,
    first_status: Option<String>,
    second_status: Option<String>,
    first_now: u64,
    second_now: u64,
)
    requires
        remote_transition_outcome(s0, s1, r1, account_id, request_id, first_target, first_status, first_now),
        r1 is Ok,
        remote_transition_outcome(s1, s2, r2, account_id, request_id, second_target, second_status, second_now),
    ensures
        r2 is Err,
        s2 == s1,
{
    let p = request_of(request_id, account_id);
    let reqs0 = s0@.remote_control_requests;
    lemma_first_index(reqs0, p);
    let j = first_index(reqs0, p);
    let reqs1 = s1@.remote_control_requests;
    assert(forall|k: int| 0 <= k < j ==> reqs1[k] == reqs0[k]);
    lemma_first_index_at(reqs1, p, j);
}

/// A ready inbound item's turn session is written once: after it was bound,
/// binding the same id again is confirmed, with the binding kept, and binding
/// another valid id is refused and changes nothing.
pub proof fn lemma_turn_session_is_write_once(
    s0: WeixinStateSnapshot,
    s1: WeixinStateSnapshot,
    s2: WeixinStateSnapshot,
    r1: Result<WeixinPendingInbound, WeixinStateError>,
    r2: Result<WeixinPendingInbound, WeixinStateError>,
    item_id: Seq<char>,
    first_session: Seq<char>,
    second_session: Seq<char>,
    first_now: u64,
    second_now: u64,
)
    requires
        turn_session_outcome(s0, s1, r1, item_id, first_session, first_now),
        r1 is Ok,
        turn_session_outcome(s1, s2, r2, item_id, second_session, second_now),
        label_ok(second_session),
    ensures
        second_session == first_session ==> (r2 matches Ok(q) && opt_is(q.turn_session_id, first_session)),
        second_session != first_session ==> invalid_record(r2, "pending inbound turn session id mismatch"@)
            && s2 == s1,
{
    let p = live_pending(item_id);
    let pend0 = s0@.pending_inbound;
    lemma_first_index(pend0, p);
    let i = first_index(pend0, p);
    let pend1 = s1@.pending_inbound;
    assert(forall|k: int| 0 <= k < i ==> pend1[k] == pend0[k]);
    assert(p(pend1[i]));
    lemma_first_index_at(pend1, p, i);
}

proof fn lemma_keep_only_matches<T>(s: Seq<T>, p: spec_fn(T) -> bool, x: T)
    requires
        keep(s, p).contains(x),
    ensures
        p(x),
    decreases s.len(),
{
    if s.len() > 0 {
        let k = keep(s.drop_last(), p);
        if p(s.last()) && x != s.last() {
            assert(k.contains(x)) by {
                let i = choose|i: int| 0 <= i < keep(s, p).len() && keep(s, p)[i] == x;
                assert(i < k.len());
                assert(k[i] == x);
            }
        }
        if !p(s.last()) || x != s.last() {
            lemma_keep_only_matches(s.drop_last(), p, x);
        }
    }
}

/// A claimed inbound item waits for its lease: it stays in the queue, and
/// no listing of ready items taken before the lease expires holds it.
pub proof fn lemma_claimed_item_waits_for_its_lease(
    s0: WeixinStateSnapshot,
    s1: WeixinStateSnapshot,
    r: Result<WeixinPendingInbound, WeixinStateError>,
    item_id: Seq<char>,
    owner: Seq<char>,
    token: Seq<char>,
    expires: u64,
    now: u64,
    t: u64,
)
    requires
        claim_outcome(s0, s1, r, item_id, owner, token, expires, now),
        r is Ok,
        t < expires,
    ensures
        r matches Ok(q) && s1@.pending_inbound.contains(q) && !keep(
            s1@.pending_inbound,
            ready_at(t),
        ).contains(q),
{
    let pend0 = s0@.pending_inbound;
    lemma_first_index(pend0, live_pending(item_id));
    let i = first_index(pend0, live_pending(item_id));
    let q = r->Ok_0;
    assert(s1@.pending_inbound[i] == q);
    if keep(s1@.pending_inbound, ready_at(t)).contains(q) {
        lemma_keep_only_matches(s1@.pending_inbound, ready_at(t), q);
    }
}

/// A message already answered recently is not accepted again: when the
/// snapshot holds a receipt for it that is not terminal, or terminal for no
/// longer than the retention period (with at most the limit of terminal
/// receipts), that receipt is still there after a later batch, and no
/// receipt the batch adds is for the same message and peer.
pub proof fn lemma_recent_receipt_blocks_reacceptance(
    s: SnapshotView,
    commit: WeixinInboundBatchCommit,
    r: WeixinInboundReceiptRecord,
)
    requires
        s.inbound_receipts.contains(r),
        crate::seqs::count(s.inbound_receipts, terminal_receipt()) <= WEIXIN_TERMINAL_RECEIPT_LIMIT,
        !r.state.terminal() || r.transitioned_at_millis >= commit.now_millis || commit.now_millis
            - r.transitioned_at_millis <= WEIXIN_TERMINAL_RECEIPT_TTL_MILLIS,
    ensures
        ({
            let after = batch_acceptance(s, commit).receipts;
            let kept = pruned_receipts(s.inbound_receipts, commit.now_millis);
            &&& after.contains(r)
            &&& forall|j: int| kept.len() <= j < after.len() ==> !same_message(r, #[trigger] after[j])
        }),
{
    let kept = pruned_receipts(s.inbound_receipts, commit.now_millis);
    lemma_pruning_keeps_recent_receipts(s.inbound_receipts, commit.now_millis, r);
    let start = InboundAcceptance {
        receipts: kept,
        pending: s.pending_inbound,
        traces: s.latency_traces,
        accepted_ids: Seq::empty(),
        duplicates: 0,
    };
    lemma_batch_accepts_each_message_once(
        start,
        commit.accepted@,
        commit.account_id,
        commit.poll_started_at_millis,
        commit.poll_completed_at_millis,
        commit.now_millis,
    );
    let after = batch_acceptance(s, commit).receipts;
    let k = choose|k: int| 0 <= k < kept.len() && kept[k] == r;
    assert(after.take(kept.len() as int)[k] == r);
    assert(after[k] == r);
}

} // verus!
