use vstd::prelude::*;
use crate::seqs::{any, count, first_index, lemma_count_bound, lemma_count_take, lemma_first_index, lemma_first_index_at, lemma_first_index_none};
use crate::text::owned;
use crate::weixin_types::{
    WeixinConnectionStateRecord, WeixinConversationBinding, WeixinCredentialReferenceRecord,
    WeixinCursorRecord, WeixinDeliveryManifest, WeixinDeliveryRecord, WeixinInboundReceiptRecord,
    WeixinLatencyTraceRecord, WeixinPairRequest, WeixinPairRequestState,
    WeixinPendingDeliveryMetadata, WeixinPendingInbound, WeixinRemoteControlRequestRecord,
    WeixinRemoteControlState, WeixinReplyContextReference, WEIXIN_STATE_SCHEMA_VERSION,
};

verus! {

#[derive(Debug)]
pub struct WeixinStateSnapshot {
    pub schema_version: u32,
    pub account_id: String,
    pub workspace_id: String,
    pub endpoint: String,
    pub connection_state: WeixinConnectionStateRecord,
    pub credential: Option<WeixinCredentialReferenceRecord>,
    pub cursors: Vec<WeixinCursorRecord>,
    pub inbound_receipts: Vec<WeixinInboundReceiptRecord>,
    pub deliveries: Vec<WeixinDeliveryRecord>,
    pub conversation_bindings: Vec<WeixinConversationBinding>,
    pub reply_contexts: Vec<WeixinReplyContextReference>,
    pub delivery_manifests: Vec<WeixinDeliveryManifest>,
    pub pending_deliveries: Vec<WeixinPendingDeliveryMetadata>,
    pub remote_control_requests: Vec<WeixinRemoteControlRequestRecord>,
    pub pair_requests: Vec<WeixinPairRequest>,
    pub pending_inbound: Vec<WeixinPendingInbound>,
    pub latency_traces: Vec<WeixinLatencyTraceRecord>,
    pub last_redacted_error: Option<String>,
    pub created_at_millis: u64,
    pub updated_at_millis: u64,
    pub transitioned_at_millis: u64,
}

/// A snapshot with its record lists taken as sequences.
pub struct SnapshotView {
    pub schema_version: u32,
    pub account_id: String,
    pub workspace_id: String,
    pub endpoint: String,
    pub connection_state: WeixinConnectionStateRecord,
    pub credential: Option<WeixinCredentialReferenceRecord>,
    pub cursors: Seq<WeixinCursorRecord>,
    pub inbound_receipts: Seq<WeixinInboundReceiptRecord>,
    pub deliveries: Seq<WeixinDeliveryRecord>,
    pub conversation_bindings: Seq<WeixinConversationBinding>,
    pub reply_contexts: Seq<WeixinReplyContextReference>,
    pub delivery_manifests: Seq<WeixinDeliveryManifest>,
    pub pending_deliveries: Seq<WeixinPendingDeliveryMetadata>,
    pub remote_control_requests: Seq<WeixinRemoteControlRequestRecord>,
    pub pair_requests: Seq<WeixinPairRequest>,
    pub pending_inbound: Seq<WeixinPendingInbound>,
    pub latency_traces: Seq<WeixinLatencyTraceRecord>,
    pub last_redacted_error: Option<String>,
    pub created_at_millis: u64,
    pub updated_at_millis: u64,
    pub transitioned_at_millis: u64,
}

impl View for WeixinStateSnapshot {
    type V = SnapshotView;

    open spec fn view(&self) -> SnapshotView {
        SnapshotView {
            schema_version: self.schema_version,
            account_id: self.account_id,
            workspace_id: self.workspace_id,
            endpoint: self.endpoint,
            connection_state: self.connection_state,
            credential: self.credential,
            cursors: self.cursors@,
            inbound_receipts: self.inbound_receipts@,
            deliveries: self.deliveries@,
            conversation_bindings: self.conversation_bindings@,
            reply_contexts: self.reply_contexts@,
            delivery_manifests: self.delivery_manifests@,
            pending_deliveries: self.pending_deliveries@,
            remote_control_requests: self.remote_control_requests@,
            pair_requests: self.pair_requests@,
            pending_inbound: self.pending_inbound@,
            latency_traces: self.latency_traces@,
            last_redacted_error: self.last_redacted_error,
            created_at_millis: self.created_at_millis,
            updated_at_millis: self.updated_at_millis,
            transitioned_at_millis: self.transitioned_at_millis,
        }
    }
}

// ---------------------------------------------------------------------------
// Record predicates
// ---------------------------------------------------------------------------
pub open spec fn live_pending(item_id: Seq<char>) -> spec_fn(WeixinPendingInbound) -> bool {
    |p: WeixinPendingInbound| p.item_id@ == item_id && !p.state.terminal()
}

pub open spec fn not_terminal_pending() -> spec_fn(WeixinPendingInbound) -> bool {
    |p: WeixinPendingInbound| !p.state.terminal()
}

pub open spec fn not_terminal_delivery() -> spec_fn(WeixinPendingDeliveryMetadata) -> bool {
    |d: WeixinPendingDeliveryMetadata| !d.state.terminal()
}

pub open spec fn pending_pair() -> spec_fn(WeixinPairRequest) -> bool {
    |r: WeixinPairRequest| r.state == WeixinPairRequestState::Pending
}

pub open spec fn open_remote_control(now_millis: u64) -> spec_fn(
    WeixinRemoteControlRequestRecord,
) -> bool {
    |r: WeixinRemoteControlRequestRecord|
        r.state == WeixinRemoteControlState::Pending && r.expires_at_millis > now_millis
}

pub open spec fn receipt_for(message_id_hash: Seq<char>, peer_id_hash: Seq<char>) -> spec_fn(
    WeixinInboundReceiptRecord,
) -> bool {
    |r: WeixinInboundReceiptRecord|
        r.message_id_hash@ == message_id_hash && r.peer_id_hash@ == peer_id_hash
}

pub open spec fn live_pending_for(message_id_hash: Seq<char>, peer_id_hash: Seq<char>) -> spec_fn(
    WeixinPendingInbound,
) -> bool {
    |p: WeixinPendingInbound|
        p.message_id_hash@ == message_id_hash && p.peer_id_hash@ == peer_id_hash
            && !p.state.terminal()
}

pub open spec fn active_pair_for(peer_id_hash: Seq<char>, now_millis: u64) -> spec_fn(
    WeixinPairRequest,
) -> bool {
    |r: WeixinPairRequest|
        r.peer_id_hash@ == peer_id_hash && (r.state == WeixinPairRequestState::Pending || r.state
            == WeixinPairRequestState::Approved) && r.expires_at_millis > now_millis
}

pub open spec fn trace_for(item_id: Seq<char>) -> spec_fn(WeixinLatencyTraceRecord) -> bool {
    |t: WeixinLatencyTraceRecord| t.item_id@ == item_id
}

impl WeixinStateSnapshot {
    /// A fresh, unconfigured snapshot for an account.
    pub fn new(account_id: &str, workspace_id: &str, endpoint: &str, now_millis: u64) -> (r: Self)
        ensures
            r.schema_version == WEIXIN_STATE_SCHEMA_VERSION,
            r.account_id@ == account_id@,
            r.workspace_id@ == workspace_id@,
            r.endpoint@ == endpoint@,
            r.connection_state == WeixinConnectionStateRecord::NotConfigured,
            r.credential is None,
            r.cursors@.len() == 0,
            r.inbound_receipts@.len() == 0,
            r.deliveries@.len() == 0,
            r.conversation_bindings@.len() == 0,
            r.reply_contexts@.len() == 0,
            r.delivery_manifests@.len() == 0,
            r.pending_deliveries@.len() == 0,
            r.remote_control_requests@.len() == 0,
            r.pair_requests@.len() == 0,
            r.pending_inbound@.len() == 0,
            r.latency_traces@.len() == 0,
            r.last_redacted_error is None,
            r.created_at_millis == now_millis,
            r.updated_at_millis == now_millis,
            r.transitioned_at_millis == now_millis,
    {
        WeixinStateSnapshot {
            schema_version: WEIXIN_STATE_SCHEMA_VERSION,
            account_id: owned(account_id),
            workspace_id: owned(workspace_id),
            endpoint: owned(endpoint),
            connection_state: WeixinConnectionStateRecord::NotConfigured,
            credential: None,
            cursors: Vec::new(),
            inbound_receipts: Vec::new(),
            deliveries: Vec::new(),
            conversation_bindings: Vec::new(),
            reply_contexts: Vec::new(),
            delivery_manifests: Vec::new(),
            pending_deliveries: Vec::new(),
            remote_control_requests: Vec::new(),
            pair_requests: Vec::new(),
            pending_inbound: Vec::new(),
            latency_traces: Vec::new(),
            last_redacted_error: None,
            created_at_millis: now_millis,
            updated_at_millis: now_millis,
            transitioned_at_millis: now_millis,
        }
    }

    /// Inbound items that have not reached a terminal state.
    pub fn pending_inbound_count(&self) -> (r: usize)
        ensures
            r == count(self.pending_inbound@, not_terminal_pending()),
    {
        let mut n: usize = 0;
        let mut i: usize = 0;
        while i < self.pending_inbound.len()
            invariant
                i <= self.pending_inbound.len(),
                n == count(self.pending_inbound@.take(i as int), not_terminal_pending()),
            decreases self.pending_inbound.len() - i,
        {
            proof {
                lemma_count_take(self.pending_inbound@, not_terminal_pending(), i as int);
                lemma_count_bound(self.pending_inbound@.take(i as int), not_terminal_pending());
            }
            if !self.pending_inbound[i].state.is_terminal() {
                n = n + 1;
            }
            i = i + 1;
        }
        assert(self.pending_inbound@.take(i as int) =~= self.pending_inbound@);
        n
    }

    /// Deliveries that have not reached a terminal state.
    pub fn pending_delivery_count(&self) -> (r: usize)
        ensures
            r == count(self.pending_deliveries@, not_terminal_delivery()),
    {
        let mut n: usize = 0;
        let mut i: usize = 0;
        while i < self.pending_deliveries.len()
            invariant
                i <= self.pending_deliveries.len(),
                n == count(self.pending_deliveries@.take(i as int), not_terminal_delivery()),
            decreases self.pending_deliveries.len() - i,
        {
            proof {
                lemma_count_take(self.pending_deliveries@, not_terminal_delivery(), i as int);
                lemma_count_bound(self.pending_deliveries@.take(i as int), not_terminal_delivery());
            }
            if !self.pending_deliveries[i].state.is_terminal() {
                n = n + 1;
            }
            i = i + 1;
        }
        assert(self.pending_deliveries@.take(i as int) =~= self.pending_deliveries@);
        n
    }

    /// Pending remote control requests, whatever their expiry.
    pub fn pending_remote_control_count(&self) -> (r: usize)
        ensures
            r == count(self.remote_control_requests@, open_remote_control(u64::MAX)),
    {
        self.pending_remote_control_count_at(u64::MAX)
    }

    /// Pending remote control requests that expire after `now_millis`.
    pub fn pending_remote_control_count_at(&self, now_millis: u64) -> (r: usize)
        ensures
            r == count(self.remote_control_requests@, open_remote_control(now_millis)),
    {
        let mut n: usize = 0;
        let mut i: usize = 0;
        while i < self.remote_control_requests.len()
            invariant
                i <= self.remote_control_requests.len(),
                n == count(
                    self.remote_control_requests@.take(i as int),
                    open_remote_control(now_millis),
                ),
            decreases self.remote_control_requests.len() - i,
        {
            proof {
                lemma_count_take(
                    self.remote_control_requests@,
                    open_remote_control(now_millis),
                    i as int,
                );
                lemma_count_bound(
                    self.remote_control_requests@.take(i as int),
                    open_remote_control(now_millis),
                );
            }
            let r = &self.remote_control_requests[i];
            if r.state == WeixinRemoteControlState::Pending && r.expires_at_millis > now_millis {
                n = n + 1;
            }
            i = i + 1;
        }
        assert(self.remote_control_requests@.take(i as int) =~= self.remote_control_requests@);
        n
    }

    /// Pair requests still waiting for a decision.
    pub fn pair_request_count(&self) -> (r: usize)
        ensures
            r == count(self.pair_requests@, pending_pair()),
    {
        let mut n: usize = 0;
        let mut i: usize = 0;
        while i < self.pair_requests.len()
            invariant
                i <= self.pair_requests.len(),
                n == count(self.pair_requests@.take(i as int), pending_pair()),
            decreases self.pair_requests.len() - i,
        {
            proof {
                lemma_count_take(self.pair_requests@, pending_pair(), i as int);
                lemma_count_bound(self.pair_requests@.take(i as int), pending_pair());
            }
            if self.pair_requests[i].state == WeixinPairRequestState::Pending {
                n = n + 1;
            }
            i = i + 1;
        }
        assert(self.pair_requests@.take(i as int) =~= self.pair_requests@);
        n
    }
}

// ---------------------------------------------------------------------------
// Lookups
// ---------------------------------------------------------------------------
/// Position of the first live (non-terminal) pending inbound item with `item_id`.
pub fn find_live_pending(items: &Vec<WeixinPendingInbound>, item_id: &str) -> (r: Option<usize>)
    ensures
        match r {
            Some(i) => i as int == first_index(items@, live_pending(item_id@)),
            None => first_index(items@, live_pending(item_id@)) == -1,
        },
{
    let key = owned(item_id);
    let mut i: usize = 0;
    while i < items.len()
        invariant
            i <= items.len(),
            key@ == item_id@,
            forall|j: int| 0 <= j < i ==> !(live_pending(item_id@))(#[trigger] items@[j]),
        decreases items.len() - i,
    {
        if items[i].item_id == key && !items[i].state.is_terminal() {
            proof {
                lemma_first_index_at(items@, live_pending(item_id@), i as int);
            }
            return Some(i);
        }
        i = i + 1;
    }
    proof {
        lemma_first_index_none(items@, live_pending(item_id@));
    }
    None
}

/// Position of the first receipt for a message and peer.
pub fn find_receipt(
    receipts: &Vec<WeixinInboundReceiptRecord>,
    message_id_hash: &String,
    peer_id_hash: &String,
) -> (r: Option<usize>)
    ensures
        match r {
            Some(i) => i as int == first_index(
                receipts@,
                receipt_for(message_id_hash@, peer_id_hash@),
            ),
            None => first_index(receipts@, receipt_for(message_id_hash@, peer_id_hash@)) == -1,
        },
{
    let mut i: usize = 0;
    while i < receipts.len()
        invariant
            i <= receipts.len(),
            forall|j: int|
                0 <= j < i ==> !(receipt_for(message_id_hash@, peer_id_hash@))(
                    #[trigger] receipts@[j],
                ),
        decreases receipts.len() - i,
    {
        if receipts[i].message_id_hash == *message_id_hash && receipts[i].peer_id_hash
            == *peer_id_hash {
            proof {
                lemma_first_index_at(
                    receipts@,
                    receipt_for(message_id_hash@, peer_id_hash@),
                    i as int,
                );
            }
            return Some(i);
        }
        i = i + 1;
    }
    proof {
        lemma_first_index_none(receipts@, receipt_for(message_id_hash@, peer_id_hash@));
    }
    None
}

/// Position of the first latency trace for `item_id`.
pub fn find_trace(traces: &Vec<WeixinLatencyTraceRecord>, item_id: &String) -> (r: Option<usize>)
    ensures
        match r {
            Some(i) => i as int == first_index(traces@, trace_for(item_id@)),
            None => first_index(traces@, trace_for(item_id@)) == -1,
        },
{
    let mut i: usize = 0;
    while i < traces.len()
        invariant
            i <= traces.len(),
            forall|j: int| 0 <= j < i ==> !(trace_for(item_id@))(#[trigger] traces@[j]),
        decreases traces.len() - i,
    {
        if traces[i].item_id == *item_id {
            proof {
                lemma_first_index_at(traces@, trace_for(item_id@), i as int);
            }
            return Some(i);
        }
        i = i + 1;
    }
    proof {
        lemma_first_index_none(traces@, trace_for(item_id@));
    }
    None
}

/// Whether a receipt for this message and peer is already recorded.
pub fn has_receipt(snapshot: &WeixinStateSnapshot, message_id_hash: &String, peer_id_hash: &String) -> (r:
    bool)
    ensures
        r == any(snapshot.inbound_receipts@, receipt_for(message_id_hash@, peer_id_hash@)),
{
    let f = find_receipt(&snapshot.inbound_receipts, message_id_hash, peer_id_hash);
    proof {
        lemma_first_index(
            snapshot.inbound_receipts@,
            receipt_for(message_id_hash@, peer_id_hash@),
        );
    }
    f.is_some()
}

/// Whether a live pending inbound item exists for this message and peer.
pub fn has_pending_inbound(
    snapshot: &WeixinStateSnapshot,
    message_id_hash: &String,
    peer_id_hash: &String,
) -> (r: bool)
    ensures
        r == any(snapshot.pending_inbound@, live_pending_for(message_id_hash@, peer_id_hash@)),
{
    let items = &snapshot.pending_inbound;
    let mut i: usize = 0;
    while i < items.len()
        invariant
            items == &snapshot.pending_inbound,
            i <= items.len(),
            forall|j: int|
                0 <= j < i ==> !(live_pending_for(message_id_hash@, peer_id_hash@))(
                    #[trigger] items@[j],
                ),
        decreases items.len() - i,
    {
        if items[i].message_id_hash == *message_id_hash && items[i].peer_id_hash == *peer_id_hash
            && !items[i].state.is_terminal() {
            assert((live_pending_for(message_id_hash@, peer_id_hash@))(items@[i as int]));
            return true;
        }
        i = i + 1;
    }
    false
}

/// Whether the peer already has a pending or approved pair request that has not expired.
pub fn has_active_pair_request(
    snapshot: &WeixinStateSnapshot,
    peer_id_hash: &String,
    now_millis: u64,
) -> (r: bool)
    ensures
        r == any(snapshot.pair_requests@, active_pair_for(peer_id_hash@, now_millis)),
{
    let items = &snapshot.pair_requests;
    let mut i: usize = 0;
    while i < items.len()
        invariant
            items == &snapshot.pair_requests,
            i <= items.len(),
            forall|j: int|
                0 <= j < i ==> !(active_pair_for(peer_id_hash@, now_millis))(#[trigger] items@[j]),
        decreases items.len() - i,
    {
        let r = &items[i];
        if r.peer_id_hash == *peer_id_hash && (r.state == WeixinPairRequestState::Pending
            || r.state == WeixinPairRequestState::Approved) && r.expires_at_millis > now_millis {
            assert((active_pair_for(peer_id_hash@, now_millis))(items@[i as int]));
            return true;
        }
        i = i + 1;
    }
    false
}

} // verus!
