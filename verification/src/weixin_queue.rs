use vstd::prelude::*;
use crate::seqs::{any, first_index, lemma_first_index, lemma_first_index_at, lemma_first_index_none};
use crate::fingerprint::{hex_fixed, push_hex_fixed};
use crate::text::{has_prefix, owned};
use crate::weixin_prune::keep;
use crate::weixin_snapshot::{find_live_pending, live_pending, SnapshotView, WeixinStateSnapshot};
use crate::weixin_store::FileWeixinStateStore;

use crate::weixin_types::{WeixinConnectionStateRecord, WeixinCredentialReferenceRecord, WeixinDeliveryState, WeixinPairRequest, WeixinPairRequestState, WeixinPendingDeliveryMetadata, WeixinPendingInbound, WeixinPendingInboundState, WeixinStateError, WEIXIN_STATE_SCHEMA_VERSION};

verus! {

/// The text of a pair request's id: `pair-` and the hash in sixteen lower
/// case hexadecimal digits.
pub open spec fn pair_request_text(hash: u64) -> Seq<char> {
    "pair-"@ + hex_fixed(hash as nat, 16)
}

/// The id under which a pair request with the given hash is recorded; it
/// starts with `pair-`, as the snapshot's validation asks of every pair
/// request.
pub fn pair_request_id(hash: u64) -> (r: String)
    ensures
        r@ == pair_request_text(hash),
        has_prefix(r@, "pair-"@),
{
    let mut id = owned("pair-");
    push_hex_fixed(&mut id, hash, 16);
    assert(id@.subrange(0, "pair-"@.len() as int) =~= "pair-"@);
    id
}

/// The first `n` elements, or all of them when there are fewer.
pub open spec fn take_at_most<T>(s: Seq<T>, n: nat) -> Seq<T> {
    s.take(if s.len() < n {
        s.len() as int
    } else {
        n as int
    })
}

proof fn lemma_keep_len<T>(s: Seq<T>, p: spec_fn(T) -> bool)
    ensures
        keep(s, p).len() <= s.len(),
    decreases s.len(),
{
    if s.len() > 0 {
        lemma_keep_len(s.drop_last(), p);
    }
}

proof fn lemma_keep_step<T>(s: Seq<T>, p: spec_fn(T) -> bool, i: int)
    requires
        0 <= i < s.len(),
    ensures
        keep(s.take(i + 1), p) == if p(s[i]) {
            keep(s.take(i), p).push(s[i])
        } else {
            keep(s.take(i), p)
        },
{
    assert(s.take(i + 1).drop_last() =~= s.take(i));
}

/// Once `n` elements are kept, looking further only adds elements after them.
proof fn lemma_keep_prefix<T>(s: Seq<T>, p: spec_fn(T) -> bool, i: int)
    requires
        0 <= i <= s.len(),
    ensures
        keep(s, p).len() >= keep(s.take(i), p).len(),
        keep(s, p).take(keep(s.take(i), p).len() as int) == keep(s.take(i), p),
    decreases s.len() - i,
{
    if i < s.len() {
        lemma_keep_prefix(s, p, i + 1);
        lemma_keep_step(s, p, i);
        let a = keep(s.take(i), p);
        let b = keep(s.take(i + 1), p);
        assert(b.take(a.len() as int) =~= a);
        assert(keep(s, p).take(a.len() as int) =~= keep(s, p).take(b.len() as int).take(
            a.len() as int,
        ));
    } else {
        assert(s.take(i) =~= s);
        assert(keep(s, p).take(keep(s, p).len() as int) =~= keep(s, p));
    }
}

/// A ready inbound item whose retry time, if any, has come.
pub open spec fn ready_at(now: u64) -> spec_fn(WeixinPendingInbound) -> bool {
    |p: WeixinPendingInbound|
        p.state == WeixinPendingInboundState::Ready && (p.next_retry_at_millis matches Some(t)
            ==> t <= now)
}

/// The item ids of inbound items that have not ended.
pub open spec fn active_item(items: Seq<WeixinPendingInbound>, item_id: Seq<char>) -> bool {
    any(items, |p: WeixinPendingInbound| p.item_id@ == item_id && !p.state.terminal())
}

/// A pending delivery that may be sent now.
pub open spec fn deliverable(items: Seq<WeixinPendingInbound>, now: u64) -> spec_fn(
    WeixinPendingDeliveryMetadata,
) -> bool {
    |d: WeixinPendingDeliveryMetadata|
        d.state == WeixinDeliveryState::Pending && (!d.wait_for_turn_completion || !active_item(
            items,
            d.item_id@,
        )) && (d.next_retry_at_millis matches Some(t) ==> t <= now)
}

fn is_active_item(items: &Vec<WeixinPendingInbound>, item_id: &String) -> (r: bool)
    ensures
        r == active_item(items@, item_id@),
{
    let mut i: usize = 0;
    while i < items.len()
        invariant
            i <= items.len(),
            forall|j: int|
                0 <= j < i ==> !(#[trigger] items@[j].item_id@ == item_id@ && !items@[j].state.terminal()),
        decreases items.len() - i,
    {
        if items[i].item_id == *item_id && !items[i].state.is_terminal() {
            assert((|p: WeixinPendingInbound| p.item_id@ == item_id@ && !p.state.terminal())(items@[i as int]));
            return true;
        }
        i = i + 1;
    }
    assert forall|j: int| 0 <= j < items@.len() implies !(|p: WeixinPendingInbound|
        p.item_id@ == item_id@ && !p.state.terminal())(#[trigger] items@[j]) by {}
    false
}

impl FileWeixinStateStore {
    /// The live inbound item with this id, if any.
    pub fn load_pending_inbound(&self, snapshot: &WeixinStateSnapshot, item_id: &str) -> (r: Option<
        WeixinPendingInbound,
    >)
        ensures
            ({
                let i = first_index(snapshot@.pending_inbound, live_pending(item_id@));
                if i < 0 {
                    r is None
                } else {
                    r == Some(snapshot@.pending_inbound[i])
                }
            }),
    {
        match find_live_pending(&snapshot.pending_inbound, item_id) {
            None => None,
            Some(i) => {
                proof {
                    lemma_first_index(snapshot@.pending_inbound, live_pending(item_id@));
                }
                Some(snapshot.pending_inbound[i].clone())
            },
        }
    }

    /// Ready inbound items whose retry time has come, in queue order, at most
    /// `limit` of them.
    pub fn load_ready_pending_inbound(
        &self,
        snapshot: &WeixinStateSnapshot,
        now_millis: u64,
        limit: usize,
    ) -> (r: Vec<WeixinPendingInbound>)
        ensures
            r@ == take_at_most(keep(snapshot@.pending_inbound, ready_at(now_millis)), limit as nat),
    {
        let items = &snapshot.pending_inbound;
        let ghost s = items@;
        let ghost p = ready_at(now_millis);
        let mut out: Vec<WeixinPendingInbound> = Vec::new();
        let mut i: usize = 0;
        while i < items.len() && out.len() < limit
            invariant
                s == items@,
                p == ready_at(now_millis),
                i <= items.len(),
                out@ == keep(s.take(i as int), p),
                out@.len() <= limit,
            decreases items.len() - i,
        {
            proof {
                lemma_keep_step(s, p, i as int);
            }
            let ready = items[i].state == WeixinPendingInboundState::Ready && match items[i].next_retry_at_millis {
                Some(t) => t <= now_millis,
                None => true,
            };
            if ready {
                out.push(items[i].clone());
            }
            i = i + 1;
        }
        proof {
            lemma_keep_prefix(s, p, i as int);
            lemma_keep_len(s, p);
            if out@.len() < limit {
                assert(s.take(i as int) =~= s);
            }
        }
        out
    }

    /// Pending deliveries that may be sent now, in queue order, at most
    /// `limit` of them. A delivery that waits for its turn is held back while
    /// the turn's inbound item is still live.
    pub fn load_ready_pending_deliveries(
        &self,
        snapshot: &WeixinStateSnapshot,
        now_millis: u64,
        limit: usize,
    ) -> (r: Vec<WeixinPendingDeliveryMetadata>)
        ensures
            r@ == take_at_most(
                keep(snapshot@.pending_deliveries, deliverable(snapshot@.pending_inbound, now_millis)),
                limit as nat,
            ),
    {
        let items = &snapshot.pending_deliveries;
        let ghost s = items@;
        let ghost p = deliverable(snapshot@.pending_inbound, now_millis);
        let mut out: Vec<WeixinPendingDeliveryMetadata> = Vec::new();
        let mut i: usize = 0;
        while i < items.len() && out.len() < limit
            invariant
                s == items@,
                p == deliverable(snapshot@.pending_inbound, now_millis),
                i <= items.len(),
                out@ == keep(s.take(i as int), p),
                out@.len() <= limit,
            decreases items.len() - i,
        {
            proof {
                lemma_keep_step(s, p, i as int);
            }
            let d = &items[i];
            let ok = d.state == WeixinDeliveryState::Pending && (!d.wait_for_turn_completion
                || !is_active_item(&snapshot.pending_inbound, &d.item_id)) && match d.next_retry_at_millis {
                Some(t) => t <= now_millis,
                None => true,
            };
            if ok {
                out.push(d.clone());
            }
            i = i + 1;
        }
        proof {
            lemma_keep_prefix(s, p, i as int);
            lemma_keep_len(s, p);
            if out@.len() < limit {
                assert(s.take(i as int) =~= s);
            }
        }
        out
    }

    /// The snapshot of an account after (re)configuring it: the loaded state,
    /// or a fresh one, marked ready with the given workspace, endpoint and
    /// credential.
    pub fn upsert_account_state(
        &self,
        loaded: Option<WeixinStateSnapshot>,
        account_id: &str,
        workspace_id: &str,
        endpoint: &str,
        credential: Option<WeixinCredentialReferenceRecord>,
        now_millis: u64,
    ) -> (r: WeixinStateSnapshot)
        ensures
            r.workspace_id@ == workspace_id@,
            r.endpoint@ == endpoint@,
            r.credential == credential,
            r.connection_state == WeixinConnectionStateRecord::Ready,
            r.updated_at_millis == now_millis,
            r.transitioned_at_millis == now_millis,
            match loaded {
                Some(s) => r@ == (SnapshotView {
                    workspace_id: r.workspace_id,
                    endpoint: r.endpoint,
                    credential,
                    connection_state: WeixinConnectionStateRecord::Ready,
                    updated_at_millis: now_millis,
                    transitioned_at_millis: now_millis,
                    ..s@
                }),
                None => {
                    r.schema_version == WEIXIN_STATE_SCHEMA_VERSION && r.account_id@ == account_id@
                        && r.cursors@.len() == 0 && r.inbound_receipts@.len() == 0
                        && r.deliveries@.len() == 0 && r.conversation_bindings@.len() == 0
                        && r.reply_contexts@.len() == 0 && r.delivery_manifests@.len() == 0
                        && r.pending_deliveries@.len() == 0 && r.remote_control_requests@.len() == 0
                        && r.pair_requests@.len() == 0 && r.pending_inbound@.len() == 0
                        && r.latency_traces@.len() == 0 && r.last_redacted_error is None
                        && r.created_at_millis == now_millis
                },
            },
    {
        let mut snapshot = match loaded {
            Some(s) => s,
            None => WeixinStateSnapshot::new(account_id, workspace_id, endpoint, now_millis),
        };
        snapshot.workspace_id = owned(workspace_id);
        snapshot.endpoint = owned(endpoint);
        snapshot.credential = credential;
        snapshot.connection_state = WeixinConnectionStateRecord::Ready;
        snapshot.updated_at_millis = now_millis;
        snapshot.transitioned_at_millis = now_millis;
        snapshot
    }

    /// Records a new pending pair request from a peer, under the id that
    /// `request_hash` gives.
    pub fn add_pair_request(
        &self,
        snapshot: &mut WeixinStateSnapshot,
        account_id: &str,
        peer_id_hash: &str,
        expires_at_millis: u64,
        now_millis: u64,
        request_hash: u64,
    ) -> (r: WeixinPairRequest)
        ensures
            r.schema_version == WEIXIN_STATE_SCHEMA_VERSION,
            r.request_id@ == pair_request_text(request_hash),
            r.account_id@ == account_id@,
            r.peer_id_hash@ == peer_id_hash@,
            r.state == WeixinPairRequestState::Pending,
            r.expires_at_millis == expires_at_millis,
            r.created_at_millis == now_millis,
            r.updated_at_millis == now_millis,
            r.transitioned_at_millis == now_millis,
            final(snapshot)@ == (SnapshotView {
                pair_requests: old(snapshot)@.pair_requests.push(r),
                updated_at_millis: now_millis,
                ..old(snapshot)@
            }),
    {
        let request = WeixinPairRequest {
            schema_version: WEIXIN_STATE_SCHEMA_VERSION,
            request_id: pair_request_id(request_hash),
            account_id: owned(account_id),
            peer_id_hash: owned(peer_id_hash),
            state: WeixinPairRequestState::Pending,
            expires_at_millis,
            created_at_millis: now_millis,
            updated_at_millis: now_millis,
            transitioned_at_millis: now_millis,
        };
        let out = request.clone();
        snapshot.pair_requests.push(request);
        snapshot.updated_at_millis = now_millis;
        out
    }

    /// Approves a pending pair request.
    pub fn approve_pair_request(
        &self,
        snapshot: &mut WeixinStateSnapshot,
        account_id: &str,
        request_id: &str,
        now_millis: u64,
    ) -> (r: Result<WeixinPairRequest, WeixinStateError>)
        ensures
            pair_outcome(*old(snapshot), *final(snapshot), r, account_id@, request_id@, now_millis, WeixinPairRequestState::Approved),
    {
        self.transition_pair_request(snapshot, account_id, request_id, now_millis, WeixinPairRequestState::Approved)
    }

    /// Denies a pending pair request.
    pub fn deny_pair_request(
        &self,
        snapshot: &mut WeixinStateSnapshot,
        account_id: &str,
        request_id: &str,
        now_millis: u64,
    ) -> (r: Result<WeixinPairRequest, WeixinStateError>)
        ensures
            pair_outcome(*old(snapshot), *final(snapshot), r, account_id@, request_id@, now_millis, WeixinPairRequestState::Denied),
    {
        self.transition_pair_request(snapshot, account_id, request_id, now_millis, WeixinPairRequestState::Denied)
    }

    /// Decides a pending pair request; a request past its expiry is marked
    /// expired instead, and that change is kept although an error is returned.
    pub fn transition_pair_request(
        &self,
        snapshot: &mut WeixinStateSnapshot,
        account_id: &str,
        request_id: &str,
        now_millis: u64,
        target: WeixinPairRequestState,
    ) -> (r: Result<WeixinPairRequest, WeixinStateError>)
        ensures
            pair_outcome(*old(snapshot), *final(snapshot), r, account_id@, request_id@, now_millis, target),
    {
        let key = owned(request_id);
        let ghost pred = pair_with_id(request_id@);
        let mut j: usize = 0;
        while j < snapshot.pair_requests.len()
            invariant
                key@ == request_id@,
                pred == pair_with_id(request_id@),
                j <= snapshot.pair_requests.len(),
                forall|k: int| 0 <= k < j ==> !pred(#[trigger] snapshot.pair_requests@[k]),
            ensures
                j <= snapshot.pair_requests.len(),
                forall|k: int| 0 <= k < j ==> !pred(#[trigger] snapshot.pair_requests@[k]),
                j < snapshot.pair_requests.len() ==> pred(snapshot.pair_requests@[j as int]),
            decreases snapshot.pair_requests.len() - j,
        {
            if snapshot.pair_requests[j].request_id == key {
                break;
            }
            j = j + 1;
        }
        if j == snapshot.pair_requests.len() {
            proof {
                lemma_first_index_none(snapshot.pair_requests@, pred);
            }
            return Err(WeixinStateError::PairRequestNotFound { request_id: key });
        }
        proof {
            lemma_first_index_at(snapshot.pair_requests@, pred, j as int);
        }
        if snapshot.pair_requests[j].account_id != owned(account_id) {
            return Err(WeixinStateError::PairRequestAccountMismatch);
        }
        if snapshot.pair_requests[j].state != WeixinPairRequestState::Pending {
            return Err(WeixinStateError::PairRequestConsumed { request_id: key });
        }
        if snapshot.pair_requests[j].expires_at_millis <= now_millis {
            snapshot.pair_requests[j].state = WeixinPairRequestState::Expired;
            snapshot.pair_requests[j].updated_at_millis = now_millis;
            snapshot.pair_requests[j].transitioned_at_millis = now_millis;
            let expired = snapshot.pair_requests[j].clone();
            assert(snapshot.pair_requests@ =~= old(snapshot).pair_requests@.update(j as int, expired));
            snapshot.updated_at_millis = now_millis;
            return Err(WeixinStateError::PairRequestExpired { request_id: expired.request_id });
        }
        snapshot.pair_requests[j].state = target;
        snapshot.pair_requests[j].updated_at_millis = now_millis;
        snapshot.pair_requests[j].transitioned_at_millis = now_millis;
        let updated = snapshot.pair_requests[j].clone();
        assert(snapshot.pair_requests@ =~= old(snapshot).pair_requests@.update(j as int, updated));
        snapshot.updated_at_millis = now_millis;
        Ok(updated)
    }
}

pub open spec fn pair_with_id(request_id: Seq<char>) -> spec_fn(WeixinPairRequest) -> bool {
    |r: WeixinPairRequest| r.request_id@ == request_id
}

/// What deciding a pair request does and answers.
pub open spec fn pair_outcome(
    old: WeixinStateSnapshot,
    new: WeixinStateSnapshot,
    r: Result<WeixinPairRequest, WeixinStateError>,
    account_id: Seq<char>,
    request_id: Seq<char>,
    now: u64,
    target: WeixinPairRequestState,
) -> bool {
    let ps = old@.pair_requests;
    let j = first_index(ps, pair_with_id(request_id));
    if j < 0 {
        (r matches Err(WeixinStateError::PairRequestNotFound { request_id: got }) && got@ == request_id)
            && new == old
    } else if ps[j].account_id@ != account_id {
        r matches Err(WeixinStateError::PairRequestAccountMismatch) && new == old
    } else if ps[j].state != WeixinPairRequestState::Pending {
        (r matches Err(WeixinStateError::PairRequestConsumed { request_id: got }) && got@ == request_id)
            && new == old
    } else {
        let stamped = |s: WeixinPairRequestState| WeixinPairRequest {
            state: s,
            updated_at_millis: now,
            transitioned_at_millis: now,
            ..ps[j]
        };
        if ps[j].expires_at_millis <= now {
            (r matches Err(WeixinStateError::PairRequestExpired { request_id: got }) && got
                == ps[j].request_id) && new@ == (SnapshotView {
                pair_requests: ps.update(j, stamped(WeixinPairRequestState::Expired)),
                updated_at_millis: now,
                ..old@
            })
        } else {
            r == Ok::<WeixinPairRequest, WeixinStateError>(stamped(target)) && new@ == (SnapshotView {
                pair_requests: ps.update(j, stamped(target)),
                updated_at_millis: now,
                ..old@
            })
        }
    }
}

} // verus!
