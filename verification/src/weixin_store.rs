use vstd::prelude::*;
use crate::seqs::{first_index, lemma_first_index};
use crate::text::{chars_of, has_prefix, is_ascii_alnum, owned, push_char, starts_with};
use crate::weixin_snapshot::{find_live_pending, find_receipt, live_pending, receipt_for, WeixinStateSnapshot};
use crate::weixin_types::{WeixinConversationBinding, WeixinRuntimeTurnBeginRequest, WeixinConnectionStateRecord, WeixinInboundReceiptRecord, WeixinPendingInbound, WeixinPendingInboundState, WeixinReceiptState, WeixinStateError, WeixinAccountLockInfo, WeixinAccountLockState, WEIXIN_STATE_SCHEMA_VERSION};
use crate::weixin_trace::{opt_is, sat_inc, traces_updated};
use crate::weixin_validate::{contains_sensitive_marker, is_label_ok, label_ok, sensitive};

verus! {

/// Where the state files of one workspace live, and where account locks live.
/// Paths are joined with `/`.
pub struct FileWeixinStateStore {
    pub root: String,
    pub lock_root: String,
}

// ---------------------------------------------------------------------------
// Paths
// ---------------------------------------------------------------------------
pub open spec fn safe_char(c: char) -> char {
    if is_ascii_alnum(c) || c == '-' || c == '_' {
        c
    } else {
        '-'
    }
}

/// Every character that is not an ASCII letter, digit, `-` or `_` becomes `-`.
pub open spec fn safe_component(s: Seq<char>) -> Seq<char> {
    Seq::new(s.len(), |i: int| safe_char(s[i]))
}

pub fn safe_file_component(value: &str) -> (r: String)
    ensures
        r@ == safe_component(value@),
{
    let cs = chars_of(value);
    let mut out = String::new();
    let mut i: usize = 0;
    while i < cs.len()
        invariant
            i <= cs.len(),
            cs@ == value@,
            out@ == safe_component(value@).take(i as int),
        decreases cs.len() - i,
    {
        let c = cs[i];
        let d = if ('0' <= c && c <= '9') || ('a' <= c && c <= 'z') || ('A' <= c && c <= 'Z')
            || c == '-' || c == '_' {
            c
        } else {
            '-'
        };
        push_char(&mut out, d);
        assert(safe_component(value@).take(i as int).push(d) =~= safe_component(value@).take(
            i + 1,
        ));
        i = i + 1;
    }
    assert(safe_component(value@).take(i as int) =~= safe_component(value@));
    out
}

/// `base` joined with a relative `name`.
pub open spec fn joined(base: Seq<char>, name: Seq<char>) -> Seq<char> {
    if base.len() == 0 {
        name
    } else if base.last() == '/' {
        base + name
    } else {
        base + seq!['/'] + name
    }
}

pub fn join_path(base: &str, name: &str) -> (r: String)
    ensures
        r@ == joined(base@, name@),
{
    let b = chars_of(base);
    let mut out = owned(base);
    if b.len() > 0 && b[b.len() - 1] != '/' {
        push_char(&mut out, '/');
    }
    crate::text::push_str(&mut out, name);
    proof {
        if b.len() == 0 {
            assert(out@ =~= name@);
        } else if b@.last() == '/' {
        } else {
            assert(base@.push('/') + name@ =~= base@ + seq!['/'] + name@);
        }
    }
    out
}

impl FileWeixinStateStore {
    /// A store whose state lives under `.yunxi/weixin/state` in the workspace
    /// and whose account locks live under `lock_root`.
    pub fn for_workspace_with_lock_root(workspace: &str, lock_root: String) -> (r: Self)
        ensures
            r.root@ == joined(workspace@, ".yunxi/weixin/state"@),
            r.lock_root == lock_root,
    {
        FileWeixinStateStore { root: join_path(workspace, ".yunxi/weixin/state"), lock_root }
    }

    /// The state file of an account.
    pub fn state_path_for(&self, account_id: &str) -> (r: String)
        ensures
            r@ == joined(self.root@, safe_component(account_id@) + ".json"@),
    {
        let mut name = safe_file_component(account_id);
        crate::text::push_str(&mut name, ".json");
        join_path(self.root.as_str(), name.as_str())
    }

    /// The lock file of an account.
    pub fn lock_path_for(&self, account_id: &str) -> (r: String)
        ensures
            r@ == joined(self.lock_root@, safe_component(account_id@) + ".lock.json"@),
    {
        let mut name = safe_file_component(account_id);
        crate::text::push_str(&mut name, ".lock.json");
        join_path(self.lock_root.as_str(), name.as_str())
    }
}

// ---------------------------------------------------------------------------
// Shared shapes of the results
// ---------------------------------------------------------------------------

/// `q` is `p` with its runtime lease released.
pub open spec fn lease_released(q: WeixinPendingInbound) -> bool {
    q.lease_owner is None && q.lease_token is None && q.lease_started_at_millis is None
        && q.lease_expires_at_millis is None
}


pub open spec fn not_found(r: Result<WeixinPendingInbound, WeixinStateError>, item_id: Seq<char>) -> bool {
    r matches Err(WeixinStateError::PendingInboundNotFound { item_id: got }) && got@ == item_id
}

pub open spec fn invalid_record<T>(r: Result<T, WeixinStateError>, reason: Seq<char>) -> bool {
    r matches Err(WeixinStateError::InvalidRecord { reason: got }) && got@ == reason
}

pub open spec fn invalid_transition<T>(
    r: Result<T, WeixinStateError>,
    from: Seq<char>,
    to: Seq<char>,
) -> bool {
    r matches Err(WeixinStateError::InvalidTransition { from: f, to: t }) && f@ == from && t@ == to
}

/// The receipt list after marking the receipt of `(message, peer)` with
/// `state` at `now`, the transition time being touched when `transitioned`.
pub open spec fn receipts_marked(
    old: Seq<WeixinInboundReceiptRecord>,
    message_id_hash: Seq<char>,
    peer_id_hash: Seq<char>,
    state: WeixinReceiptState,
    now: u64,
    transitioned: bool,
) -> Seq<WeixinInboundReceiptRecord> {
    let k = first_index(old, receipt_for(message_id_hash, peer_id_hash));
    if k < 0 {
        old
    } else {
        old.update(
            k,
            WeixinInboundReceiptRecord {
                state,
                updated_at_millis: now,
                transitioned_at_millis: if transitioned {
                    now
                } else {
                    old[k].transitioned_at_millis
                },
                ..old[k]
            },
        )
    }
}

fn mark_receipt(
    snapshot: &mut WeixinStateSnapshot,
    message_id_hash: &String,
    peer_id_hash: &String,
    state: WeixinReceiptState,
    now: u64,
    transitioned: bool,
)
    ensures
        final(snapshot)@ == (crate::weixin_snapshot::SnapshotView {
            inbound_receipts: receipts_marked(
                old(snapshot)@.inbound_receipts,
                message_id_hash@,
                peer_id_hash@,
                state,
                now,
                transitioned,
            ),
            ..old(snapshot)@
        }),
{
    let f = find_receipt(&snapshot.inbound_receipts, message_id_hash, peer_id_hash);
    if let Some(k) = f {
        proof {
            lemma_first_index(
                old(snapshot).inbound_receipts@,
                receipt_for(message_id_hash@, peer_id_hash@),
            );
        }
        snapshot.inbound_receipts[k].state = state;
        snapshot.inbound_receipts[k].updated_at_millis = now;
        if transitioned {
            snapshot.inbound_receipts[k].transitioned_at_millis = now;
        }
        assert(snapshot.inbound_receipts@ =~= receipts_marked(
            old(snapshot)@.inbound_receipts,
            message_id_hash@,
            peer_id_hash@,
            state,
            now,
            transitioned,
        ));
    }
}

/// What binding a turn session to a ready inbound item does: the id is
/// written once, a repeated id is confirmed and another one refused.
pub open spec fn turn_session_outcome(
    old_s: WeixinStateSnapshot,
    new_s: WeixinStateSnapshot,
    r: Result<WeixinPendingInbound, WeixinStateError>,
    item_id: Seq<char>,
    turn_session_id: Seq<char>,
    now_millis: u64,
) -> bool
{
    let pend = old_s@.pending_inbound;
    let i = first_index(pend, live_pending(item_id));
    if !label_ok(turn_session_id) {
        invalid_record(r, "pending inbound turn session id failed validation"@)
            && new_s == old_s
    } else if i < 0 {
        not_found(r, item_id) && new_s == old_s
    } else if pend[i].state != WeixinPendingInboundState::Ready {
        invalid_transition(r, pend[i].state.name(), "ready"@) && new_s
            == old_s
    } else if pend[i].turn_session_id matches Some(e) && e@ != turn_session_id {
        invalid_record(r, "pending inbound turn session id mismatch"@) && new_s == old_s
    } else {
        r matches Ok(q) && q == (WeixinPendingInbound {
            turn_session_id: q.turn_session_id,
            updated_at_millis: now_millis,
            ..pend[i]
        }) && opt_is(q.turn_session_id, turn_session_id) && (pend[i].turn_session_id
            is Some ==> q.turn_session_id == pend[i].turn_session_id) && new_s@ == (crate::weixin_snapshot::SnapshotView {
            pending_inbound: pend.update(i, q),
            updated_at_millis: now_millis,
            ..old_s@
        })
    }
}

impl FileWeixinStateStore {
    /// Binds the runtime turn session of a ready inbound item, or confirms the
    /// binding it already has.
    pub fn remember_pending_runtime_turn_session(
        &self,
        snapshot: &mut WeixinStateSnapshot,
        item_id: &str,
        turn_session_id: &str,
        now_millis: u64,
    ) -> (r: Result<WeixinPendingInbound, WeixinStateError>)
        ensures
            turn_session_outcome(*old(snapshot), *final(snapshot), r, item_id@, turn_session_id@, now_millis),

    {
        if !is_label_ok(turn_session_id) {
            return Err(
                WeixinStateError::InvalidRecord {
                    reason: "pending inbound turn session id failed validation",
                },
            );
        }
        let found = find_live_pending(&snapshot.pending_inbound, item_id);
        let i = match found {
            None => {
                return Err(WeixinStateError::PendingInboundNotFound { item_id: owned(item_id) });
            },
            Some(i) => i,
        };
        proof {
            lemma_first_index(old(snapshot).pending_inbound@, live_pending(item_id@));
        }
        if snapshot.pending_inbound[i].state != WeixinPendingInboundState::Ready {
            return Err(
                WeixinStateError::InvalidTransition {
                    from: snapshot.pending_inbound[i].state.as_str(),
                    to: WeixinPendingInboundState::Ready.as_str(),
                },
            );
        }
        let wanted = owned(turn_session_id);
        match &snapshot.pending_inbound[i].turn_session_id {
            Some(existing) => {
                if *existing != wanted {
                    return Err(
                        WeixinStateError::InvalidRecord {
                            reason: "pending inbound turn session id mismatch",
                        },
                    );
                }
            },
            None => {
                snapshot.pending_inbound[i].turn_session_id = Some(wanted);
            },
        }
        snapshot.pending_inbound[i].updated_at_millis = now_millis;
        let updated = snapshot.pending_inbound[i].clone();
        snapshot.updated_at_millis = now_millis;
        assert(snapshot.pending_inbound@ =~= old(snapshot).pending_inbound@.update(i as int, updated));
        Ok(updated)
    }
}


/// The pending item after a deferred dispatch: one more retry, due at
/// `next`, with `label` as the last error and no lease.
pub open spec fn dispatch_deferred(p: WeixinPendingInbound, q: WeixinPendingInbound, label: Seq<char>, next: u64, now: u64) -> bool {
    q == (WeixinPendingInbound {
        dispatch_retry_count: sat_inc(p.dispatch_retry_count),
        next_retry_at_millis: Some(next),
        last_dispatch_error: q.last_dispatch_error,
        lease_owner: None,
        lease_token: None,
        lease_started_at_millis: None,
        lease_expires_at_millis: None,
        updated_at_millis: now,
        transitioned_at_millis: now,
        ..p
    }) && opt_is(q.last_dispatch_error, label)
}

/// The pending item after a runtime lease is granted.
pub open spec fn dispatch_claimed_item(p: WeixinPendingInbound, q: WeixinPendingInbound, owner: Seq<char>, token: Seq<char>, expires: u64, now: u64) -> bool {
    q == (WeixinPendingInbound {
        next_retry_at_millis: Some(expires),
        last_dispatch_error: q.last_dispatch_error,
        lease_owner: q.lease_owner,
        lease_token: q.lease_token,
        lease_started_at_millis: Some(now),
        lease_expires_at_millis: Some(expires),
        updated_at_millis: now,
        ..p
    }) && opt_is(q.last_dispatch_error, "runtime_dispatch_inflight"@) && opt_is(q.lease_owner, owner)
        && opt_is(q.lease_token, token)
}

/// A lease owner and attempt token that may be stored.
pub open spec fn lease_ok(owner: Seq<char>, token: Seq<char>, expires: u64, now: u64) -> bool {
    has_prefix(owner, "lease#"@) && !sensitive(owner) && has_prefix(token, "attempt#"@) && !sensitive(token)
        && expires > now
}

impl FileWeixinStateStore {
    /// Puts a ready inbound item back for a later dispatch attempt.
    pub fn record_pending_runtime_dispatch_deferred(
        &self,
        snapshot: &mut WeixinStateSnapshot,
        item_id: &str,
        error_label: &str,
        next_retry_at_millis: u64,
        now_millis: u64,
    ) -> (r: Result<WeixinPendingInbound, WeixinStateError>)
        ensures
            ({
                let pend = old(snapshot)@.pending_inbound;
                let i = first_index(pend, live_pending(item_id@));
                if !label_ok(error_label@) {
                    invalid_record(r, "pending inbound dispatch error failed validation"@)
                        && *final(snapshot) == *old(snapshot)
                } else if i < 0 {
                    not_found(r, item_id@) && *final(snapshot) == *old(snapshot)
                } else if pend[i].state != WeixinPendingInboundState::Ready {
                    invalid_transition(r, pend[i].state.name(), "ready"@) && *final(snapshot) == *old(snapshot)
                } else {
                    r matches Ok(q) && dispatch_deferred(pend[i], q, error_label@, next_retry_at_millis, now_millis)
                        && final(snapshot)@ == (crate::weixin_snapshot::SnapshotView {
                        pending_inbound: pend.update(i, q),
                        inbound_receipts: receipts_marked(
                            old(snapshot)@.inbound_receipts,
                            q.message_id_hash@,
                            q.peer_id_hash@,
                            WeixinReceiptState::Ready,
                            now_millis,
                            false,
                        ),
                        latency_traces: final(snapshot)@.latency_traces,
                        updated_at_millis: now_millis,
                        transitioned_at_millis: now_millis,
                        ..old(snapshot)@
                    }) && traces_updated(
                        old(snapshot)@.latency_traces,
                        final(snapshot)@.latency_traces,
                        item_id@,
                        now_millis,
                        crate::weixin_trace::error_labelled(error_label@),
                    )
                }
            }),
    {
        if !is_label_ok(error_label) {
            return Err(
                WeixinStateError::InvalidRecord {
                    reason: "pending inbound dispatch error failed validation",
                },
            );
        }
        let found = find_live_pending(&snapshot.pending_inbound, item_id);
        let i = match found {
            None => {
                return Err(WeixinStateError::PendingInboundNotFound { item_id: owned(item_id) });
            },
            Some(i) => i,
        };
        proof {
            lemma_first_index(old(snapshot).pending_inbound@, live_pending(item_id@));
        }
        if snapshot.pending_inbound[i].state != WeixinPendingInboundState::Ready {
            return Err(
                WeixinStateError::InvalidTransition {
                    from: snapshot.pending_inbound[i].state.as_str(),
                    to: WeixinPendingInboundState::Ready.as_str(),
                },
            );
        }
        snapshot.pending_inbound[i].dispatch_retry_count = snapshot.pending_inbound[i].dispatch_retry_count.saturating_add(1);
        snapshot.pending_inbound[i].next_retry_at_millis = Some(next_retry_at_millis);
        snapshot.pending_inbound[i].last_dispatch_error = Some(owned(error_label));
        snapshot.pending_inbound[i].lease_owner = None;
        snapshot.pending_inbound[i].lease_token = None;
        snapshot.pending_inbound[i].lease_started_at_millis = None;
        snapshot.pending_inbound[i].lease_expires_at_millis = None;
        snapshot.pending_inbound[i].updated_at_millis = now_millis;
        snapshot.pending_inbound[i].transitioned_at_millis = now_millis;
        let updated = snapshot.pending_inbound[i].clone();
        assert(snapshot.pending_inbound@ =~= old(snapshot).pending_inbound@.update(i as int, updated));
        let message_id_hash = updated.message_id_hash.clone();
        let peer_id_hash = updated.peer_id_hash.clone();
        mark_receipt(snapshot, &message_id_hash, &peer_id_hash, WeixinReceiptState::Ready, now_millis, false);
        crate::weixin_trace::trace_set_error_label(snapshot, item_id, error_label, now_millis);
        snapshot.updated_at_millis = now_millis;
        snapshot.transitioned_at_millis = now_millis;
        Ok(updated)
    }

    /// The legacy form of a dispatch claim, with the fixed legacy lease.
    pub fn record_pending_runtime_dispatch_inflight(
        &self,
        snapshot: &mut WeixinStateSnapshot,
        item_id: &str,
        next_retry_at_millis: u64,
        now_millis: u64,
    ) -> (r: Result<WeixinPendingInbound, WeixinStateError>)
        ensures
            claim_outcome(*old(snapshot), *final(snapshot), r, item_id@, "lease#legacy"@, "attempt#legacy"@, next_retry_at_millis, now_millis),
    {
        self.claim_pending_runtime_dispatch(snapshot, item_id, "lease#legacy", "attempt#legacy", next_retry_at_millis, now_millis)
    }

    /// Grants a runtime lease on a ready inbound item.
    pub fn claim_pending_runtime_dispatch(
        &self,
        snapshot: &mut WeixinStateSnapshot,
        item_id: &str,
        lease_owner: &str,
        lease_token: &str,
        lease_expires_at_millis: u64,
        now_millis: u64,
    ) -> (r: Result<WeixinPendingInbound, WeixinStateError>)
        ensures
            claim_outcome(*old(snapshot), *final(snapshot), r, item_id@, lease_owner@, lease_token@, lease_expires_at_millis, now_millis),
    {
        if !starts_with(lease_owner, "lease#") || contains_sensitive_marker(lease_owner)
            || !starts_with(lease_token, "attempt#") || contains_sensitive_marker(lease_token)
            || lease_expires_at_millis <= now_millis {
            return Err(WeixinStateError::InvalidRecord { reason: "runtime lease failed validation" });
        }
        let found = find_live_pending(&snapshot.pending_inbound, item_id);
        let i = match found {
            None => {
                return Err(WeixinStateError::PendingInboundNotFound { item_id: owned(item_id) });
            },
            Some(i) => i,
        };
        proof {
            lemma_first_index(old(snapshot).pending_inbound@, live_pending(item_id@));
        }
        if snapshot.pending_inbound[i].state != WeixinPendingInboundState::Ready {
            return Err(
                WeixinStateError::InvalidTransition {
                    from: snapshot.pending_inbound[i].state.as_str(),
                    to: WeixinPendingInboundState::Ready.as_str(),
                },
            );
        }
        snapshot.pending_inbound[i].next_retry_at_millis = Some(lease_expires_at_millis);
        snapshot.pending_inbound[i].last_dispatch_error = Some(owned("runtime_dispatch_inflight"));
        snapshot.pending_inbound[i].lease_owner = Some(owned(lease_owner));
        snapshot.pending_inbound[i].lease_token = Some(owned(lease_token));
        snapshot.pending_inbound[i].lease_started_at_millis = Some(now_millis);
        snapshot.pending_inbound[i].lease_expires_at_millis = Some(lease_expires_at_millis);
        snapshot.pending_inbound[i].updated_at_millis = now_millis;
        let updated = snapshot.pending_inbound[i].clone();
        assert(snapshot.pending_inbound@ =~= old(snapshot).pending_inbound@.update(i as int, updated));
        crate::weixin_trace::trace_dispatch_claimed(snapshot, item_id, now_millis);
        snapshot.updated_at_millis = now_millis;
        Ok(updated)
    }
}

/// What a dispatch claim does to a snapshot and what it answers.
pub open spec fn claim_outcome(
    old: WeixinStateSnapshot,
    new: WeixinStateSnapshot,
    r: Result<WeixinPendingInbound, WeixinStateError>,
    item_id: Seq<char>,
    owner: Seq<char>,
    token: Seq<char>,
    expires: u64,
    now: u64,
) -> bool {
    let pend = old@.pending_inbound;
    let i = first_index(pend, live_pending(item_id));
    if !lease_ok(owner, token, expires, now) {
        invalid_record(r, "runtime lease failed validation"@) && new == old
    } else if i < 0 {
        not_found(r, item_id) && new == old
    } else if pend[i].state != WeixinPendingInboundState::Ready {
        invalid_transition(r, pend[i].state.name(), "ready"@) && new == old
    } else {
        r matches Ok(q) && dispatch_claimed_item(pend[i], q, owner, token, expires, now)
            && new@ == (crate::weixin_snapshot::SnapshotView {
            pending_inbound: pend.update(i, q),
            latency_traces: new@.latency_traces,
            updated_at_millis: now,
            ..old@
        }) && traces_updated(old@.latency_traces, new@.latency_traces, item_id, now, crate::weixin_trace::dispatch_claimed(now))
    }
}


/// A running item whose lease has expired and is held by another owner.
pub open spec fn stale_lease(active: Seq<char>, now: u64) -> spec_fn(WeixinPendingInbound) -> bool {
    |p: WeixinPendingInbound|
        p.state == WeixinPendingInboundState::Running && (p.lease_expires_at_millis matches Some(e)
            && e <= now) && (p.lease_owner matches Some(o) && o@ != active)
}

/// `q` is `p` returned to the ready queue after its lease was lost.
pub open spec fn returned_to_ready(p: WeixinPendingInbound, q: WeixinPendingInbound, label: Seq<char>, now: u64) -> bool {
    q == (WeixinPendingInbound {
        state: WeixinPendingInboundState::Ready,
        dispatch_retry_count: sat_inc(p.dispatch_retry_count),
        next_retry_at_millis: Some(now),
        last_dispatch_error: q.last_dispatch_error,
        lease_owner: None,
        lease_token: None,
        lease_started_at_millis: None,
        lease_expires_at_millis: None,
        updated_at_millis: now,
        transitioned_at_millis: now,
        ..p
    }) && opt_is(q.last_dispatch_error, label)
}

fn is_stale_lease(p: &WeixinPendingInbound, active: &String, now: u64) -> (r: bool)
    ensures
        r == (stale_lease(active@, now))(*p),
{
    if p.state != WeixinPendingInboundState::Running {
        return false;
    }
    let expired = match p.lease_expires_at_millis {
        Some(e) => e <= now,
        None => false,
    };
    let other = match &p.lease_owner {
        Some(o) => *o != *active,
        None => false,
    };
    expired && other
}

impl FileWeixinStateStore {
    /// Returns every running item whose lease expired under another owner to
    /// the ready queue, and says how many were returned.
    pub fn recover_stale_pending_runtime_turns(
        &self,
        snapshot: &mut WeixinStateSnapshot,
        active_lease_owner: &str,
        now_millis: u64,
    ) -> (r: usize)
        ensures
            r == crate::seqs::count(old(snapshot)@.pending_inbound, stale_lease(active_lease_owner@, now_millis)),
            r == 0 ==> final(snapshot)@ == old(snapshot)@,
            r > 0 ==> final(snapshot)@ == (crate::weixin_snapshot::SnapshotView {
                pending_inbound: final(snapshot)@.pending_inbound,
                updated_at_millis: now_millis,
                transitioned_at_millis: now_millis,
                ..old(snapshot)@
            }),
            final(snapshot)@.pending_inbound.len() == old(snapshot)@.pending_inbound.len(),
            forall|j: int| 0 <= j < old(snapshot)@.pending_inbound.len() ==> {
                let p = #[trigger] old(snapshot)@.pending_inbound[j];
                let q = final(snapshot)@.pending_inbound[j];
                if (stale_lease(active_lease_owner@, now_millis))(p) {
                    returned_to_ready(p, q, "runtime_lease_expired"@, now_millis)
                } else {
                    q == p
                }
            },
    {
        let active = owned(active_lease_owner);
        let ghost pred = stale_lease(active_lease_owner@, now_millis);
        let mut recovered: usize = 0;
        let mut i: usize = 0;
        while i < snapshot.pending_inbound.len()
            invariant
                active@ == active_lease_owner@,
                pred == stale_lease(active_lease_owner@, now_millis),
                i <= snapshot.pending_inbound.len(),
                snapshot.pending_inbound.len() == old(snapshot).pending_inbound.len(),
                recovered == crate::seqs::count(old(snapshot)@.pending_inbound.take(i as int), pred),
                snapshot@ == (crate::weixin_snapshot::SnapshotView {
                    pending_inbound: snapshot@.pending_inbound,
                    ..old(snapshot)@
                }),
                forall|j: int| i <= j < snapshot.pending_inbound.len() ==> #[trigger] snapshot@.pending_inbound[j] == old(snapshot)@.pending_inbound[j],
                forall|j: int| 0 <= j < i ==> {
                    let p = #[trigger] old(snapshot)@.pending_inbound[j];
                    let q = snapshot@.pending_inbound[j];
                    if pred(p) {
                        returned_to_ready(p, q, "runtime_lease_expired"@, now_millis)
                    } else {
                        q == p
                    }
                },
            decreases snapshot.pending_inbound.len() - i,
        {
            proof {
                crate::seqs::lemma_count_take(old(snapshot)@.pending_inbound, pred, i as int);
                crate::seqs::lemma_count_bound(old(snapshot)@.pending_inbound.take(i as int), pred);
            }
            if is_stale_lease(&snapshot.pending_inbound[i], &active, now_millis) {
                snapshot.pending_inbound[i].state = WeixinPendingInboundState::Ready;
                snapshot.pending_inbound[i].dispatch_retry_count = snapshot.pending_inbound[i].dispatch_retry_count.saturating_add(1);
                snapshot.pending_inbound[i].next_retry_at_millis = Some(now_millis);
                snapshot.pending_inbound[i].last_dispatch_error = Some(owned("runtime_lease_expired"));
                snapshot.pending_inbound[i].lease_owner = None;
                snapshot.pending_inbound[i].lease_token = None;
                snapshot.pending_inbound[i].lease_started_at_millis = None;
                snapshot.pending_inbound[i].lease_expires_at_millis = None;
                snapshot.pending_inbound[i].updated_at_millis = now_millis;
                snapshot.pending_inbound[i].transitioned_at_millis = now_millis;
                recovered = recovered + 1;
            }
            i = i + 1;
        }
        assert(old(snapshot)@.pending_inbound.take(i as int) =~= old(snapshot)@.pending_inbound);
        if recovered > 0 {
            snapshot.updated_at_millis = now_millis;
            snapshot.transitioned_at_millis = now_millis;
        } else {
            proof {
                crate::seqs::lemma_count_zero(old(snapshot)@.pending_inbound, pred);
            }
            assert(snapshot.pending_inbound@ =~= old(snapshot).pending_inbound@);
        }
        recovered
    }
}


impl FileWeixinStateStore {
    /// Returns an inbound item to the ready queue after the runtime that holds
    /// its lease gave it up; answers `None` when the item is not held by that
    /// owner.
    pub fn recover_pending_runtime_dispatch_for_owner(
        &self,
        snapshot: &mut WeixinStateSnapshot,
        account_id: &str,
        item_id: &str,
        lease_owner: &str,
        error_label: &str,
        now_millis: u64,
    ) -> (r: Result<Option<WeixinPendingInbound>, WeixinStateError>)
        ensures
            ({
                let pend = old(snapshot)@.pending_inbound;
                let i = first_index(pend, live_pending(item_id@));
                if !(has_prefix(lease_owner@, "lease#"@) && !sensitive(lease_owner@) && label_ok(error_label@)) {
                    invalid_record(r, "runtime lease recovery failed validation"@) && *final(snapshot) == *old(snapshot)
                } else if i < 0 || pend[i].account_id@ != account_id@ || !opt_is(pend[i].lease_owner, lease_owner@)
                    || !(pend[i].state == WeixinPendingInboundState::Ready || pend[i].state == WeixinPendingInboundState::Running) {
                    r == Ok::<Option<WeixinPendingInbound>, WeixinStateError>(None) && *final(snapshot) == *old(snapshot)
                } else {
                    r matches Ok(Some(q)) && returned_to_ready(pend[i], q, error_label@, now_millis)
                        && final(snapshot)@ == (crate::weixin_snapshot::SnapshotView {
                        pending_inbound: pend.update(i, q),
                        inbound_receipts: receipts_marked(
                            old(snapshot)@.inbound_receipts,
                            q.message_id_hash@,
                            q.peer_id_hash@,
                            WeixinReceiptState::Ready,
                            now_millis,
                            true,
                        ),
                        latency_traces: final(snapshot)@.latency_traces,
                        updated_at_millis: now_millis,
                        transitioned_at_millis: now_millis,
                        ..old(snapshot)@
                    }) && traces_updated(
                        old(snapshot)@.latency_traces,
                        final(snapshot)@.latency_traces,
                        item_id@,
                        now_millis,
                        crate::weixin_trace::error_labelled(error_label@),
                    )
                }
            }),
    {
        if !starts_with(lease_owner, "lease#") || contains_sensitive_marker(lease_owner)
            || !is_label_ok(error_label) {
            return Err(
                WeixinStateError::InvalidRecord { reason: "runtime lease recovery failed validation" },
            );
        }
        let found = find_live_pending(&snapshot.pending_inbound, item_id);
        let i = match found {
            None => {
                return Ok(None);
            },
            Some(i) => i,
        };
        proof {
            lemma_first_index(old(snapshot).pending_inbound@, live_pending(item_id@));
        }
        let account = owned(account_id);
        let owner = owned(lease_owner);
        let holds = match &snapshot.pending_inbound[i].lease_owner {
            Some(o) => *o == owner,
            None => false,
        };
        if snapshot.pending_inbound[i].account_id != account || !holds {
            return Ok(None);
        }
        if !(snapshot.pending_inbound[i].state == WeixinPendingInboundState::Ready
            || snapshot.pending_inbound[i].state == WeixinPendingInboundState::Running) {
            return Ok(None);
        }
        snapshot.pending_inbound[i].state = WeixinPendingInboundState::Ready;
        snapshot.pending_inbound[i].dispatch_retry_count = snapshot.pending_inbound[i].dispatch_retry_count.saturating_add(1);
        snapshot.pending_inbound[i].next_retry_at_millis = Some(now_millis);
        snapshot.pending_inbound[i].last_dispatch_error = Some(owned(error_label));
        snapshot.pending_inbound[i].lease_owner = None;
        snapshot.pending_inbound[i].lease_token = None;
        snapshot.pending_inbound[i].lease_started_at_millis = None;
        snapshot.pending_inbound[i].lease_expires_at_millis = None;
        snapshot.pending_inbound[i].updated_at_millis = now_millis;
        snapshot.pending_inbound[i].transitioned_at_millis = now_millis;
        let updated = snapshot.pending_inbound[i].clone();
        assert(snapshot.pending_inbound@ =~= old(snapshot).pending_inbound@.update(i as int, updated));
        let message_id_hash = updated.message_id_hash.clone();
        let peer_id_hash = updated.peer_id_hash.clone();
        mark_receipt(snapshot, &message_id_hash, &peer_id_hash, WeixinReceiptState::Ready, now_millis, true);
        crate::weixin_trace::trace_set_error_label(snapshot, item_id, error_label, now_millis);
        snapshot.updated_at_millis = now_millis;
        snapshot.transitioned_at_millis = now_millis;
        Ok(Some(updated))
    }

    /// Records that the agent finished its work for an inbound item.
    pub fn record_pending_runtime_agent_completed(
        &self,
        snapshot: &mut WeixinStateSnapshot,
        item_id: &str,
        now_millis: u64,
    )
        ensures
            final(snapshot)@ == (crate::weixin_snapshot::SnapshotView {
                latency_traces: final(snapshot)@.latency_traces,
                updated_at_millis: now_millis,
                ..old(snapshot)@
            }),
            traces_updated(
                old(snapshot)@.latency_traces,
                final(snapshot)@.latency_traces,
                item_id@,
                now_millis,
                crate::weixin_trace::runtime_completed(now_millis),
            ),
    {
        crate::weixin_trace::trace_runtime_completed(snapshot, item_id, now_millis);
        snapshot.updated_at_millis = now_millis;
    }

    /// Records the connection health seen by the poller and prunes old
    /// terminal receipts.
    pub fn record_poll_health(
        &self,
        snapshot: &mut WeixinStateSnapshot,
        connection_state: WeixinConnectionStateRecord,
        last_redacted_error: Option<String>,
        now_millis: u64,
    )
        ensures
            final(snapshot)@ == (crate::weixin_snapshot::SnapshotView {
                connection_state,
                last_redacted_error,
                updated_at_millis: now_millis,
                transitioned_at_millis: now_millis,
                inbound_receipts: crate::weixin_prune::pruned_receipts(old(snapshot)@.inbound_receipts, now_millis),
                ..old(snapshot)@
            }),
    {
        snapshot.connection_state = connection_state;
        snapshot.last_redacted_error = last_redacted_error;
        snapshot.updated_at_millis = now_millis;
        snapshot.transitioned_at_millis = now_millis;
        crate::weixin_prune::prune_terminal_receipts(snapshot, now_millis);
    }
}


/// The receipt state that mirrors a terminal pending state.
pub open spec fn receipt_state_for(t: WeixinPendingInboundState) -> WeixinReceiptState {
    match t {
        WeixinPendingInboundState::Succeeded => WeixinReceiptState::Succeeded,
        WeixinPendingInboundState::Failed => WeixinReceiptState::Failed,
        WeixinPendingInboundState::Cancelled => WeixinReceiptState::Cancelled,
        WeixinPendingInboundState::Expired => WeixinReceiptState::Expired,
        WeixinPendingInboundState::Unknown => WeixinReceiptState::Unknown,
        WeixinPendingInboundState::Accepted => WeixinReceiptState::Accepted,
        WeixinPendingInboundState::Ready => WeixinReceiptState::Ready,
        WeixinPendingInboundState::Running => WeixinReceiptState::Running,
    }
}

fn receipt_state_of(t: WeixinPendingInboundState) -> (r: WeixinReceiptState)
    ensures
        r == receipt_state_for(t),
{
    match t {
        WeixinPendingInboundState::Succeeded => WeixinReceiptState::Succeeded,
        WeixinPendingInboundState::Failed => WeixinReceiptState::Failed,
        WeixinPendingInboundState::Cancelled => WeixinReceiptState::Cancelled,
        WeixinPendingInboundState::Expired => WeixinReceiptState::Expired,
        WeixinPendingInboundState::Unknown => WeixinReceiptState::Unknown,
        WeixinPendingInboundState::Accepted => WeixinReceiptState::Accepted,
        WeixinPendingInboundState::Ready => WeixinReceiptState::Ready,
        WeixinPendingInboundState::Running => WeixinReceiptState::Running,
    }
}

impl FileWeixinStateStore {
    /// Ends the runtime turn of an inbound item in a terminal state.
    pub fn complete_pending_runtime_turn(
        &self,
        snapshot: &mut WeixinStateSnapshot,
        item_id: &str,
        target: WeixinPendingInboundState,
        terminal_reason: Option<String>,
        now_millis: u64,
    ) -> (r: Result<WeixinPendingInbound, WeixinStateError>)
        ensures
            ({
                let pend = old(snapshot)@.pending_inbound;
                let i = first_index(pend, live_pending(item_id@));
                if !target.terminal() {
                    invalid_record(r, "pending inbound terminal state is required"@) && *final(snapshot) == *old(snapshot)
                } else if crate::weixin_validate::opt_sensitive(terminal_reason) {
                    invalid_record(r, "pending inbound terminal reason is unsafe"@) && *final(snapshot) == *old(snapshot)
                } else if i < 0 {
                    not_found(r, item_id@) && *final(snapshot) == *old(snapshot)
                } else if !pend[i].state.allows(target) {
                    invalid_transition(r, pend[i].state.name(), target.name()) && *final(snapshot) == *old(snapshot)
                } else {
                    r matches Ok(q) && q == (WeixinPendingInbound {
                        state: target,
                        updated_at_millis: now_millis,
                        transitioned_at_millis: now_millis,
                        terminal_reason,
                        lease_owner: None,
                        lease_token: None,
                        lease_started_at_millis: None,
                        lease_expires_at_millis: None,
                        ..pend[i]
                    }) && final(snapshot)@ == (crate::weixin_snapshot::SnapshotView {
                        pending_inbound: pend.update(i, q),
                        conversation_bindings: crate::weixin_binding::bindings_completed(
                            old(snapshot)@.conversation_bindings,
                            q,
                            target,
                            now_millis,
                        ),
                        inbound_receipts: receipts_marked(
                            old(snapshot)@.inbound_receipts,
                            q.message_id_hash@,
                            q.peer_id_hash@,
                            receipt_state_for(target),
                            now_millis,
                            true,
                        ),
                        latency_traces: final(snapshot)@.latency_traces,
                        updated_at_millis: now_millis,
                        transitioned_at_millis: now_millis,
                        ..old(snapshot)@
                    }) && traces_updated(
                        old(snapshot)@.latency_traces,
                        final(snapshot)@.latency_traces,
                        item_id@,
                        now_millis,
                        crate::weixin_trace::turn_completed(now_millis, target, terminal_reason),
                    )
                }
            }),
    {
        if !target.is_terminal() {
            return Err(
                WeixinStateError::InvalidRecord { reason: "pending inbound terminal state is required" },
            );
        }
        let unsafe_reason = match &terminal_reason {
            Some(t) => contains_sensitive_marker(t.as_str()),
            None => false,
        };
        if unsafe_reason {
            return Err(
                WeixinStateError::InvalidRecord { reason: "pending inbound terminal reason is unsafe" },
            );
        }
        let found = find_live_pending(&snapshot.pending_inbound, item_id);
        let i = match found {
            None => {
                return Err(WeixinStateError::PendingInboundNotFound { item_id: owned(item_id) });
            },
            Some(i) => i,
        };
        proof {
            lemma_first_index(old(snapshot).pending_inbound@, live_pending(item_id@));
        }
        if !snapshot.pending_inbound[i].state.can_transition_to(target) {
            return Err(
                WeixinStateError::InvalidTransition {
                    from: snapshot.pending_inbound[i].state.as_str(),
                    to: target.as_str(),
                },
            );
        }
        let trace_reason = crate::weixin_types::clone_opt_string(&terminal_reason);
        snapshot.pending_inbound[i].state = target;
        snapshot.pending_inbound[i].updated_at_millis = now_millis;
        snapshot.pending_inbound[i].transitioned_at_millis = now_millis;
        snapshot.pending_inbound[i].terminal_reason = terminal_reason;
        snapshot.pending_inbound[i].lease_owner = None;
        snapshot.pending_inbound[i].lease_token = None;
        snapshot.pending_inbound[i].lease_started_at_millis = None;
        snapshot.pending_inbound[i].lease_expires_at_millis = None;
        let updated = snapshot.pending_inbound[i].clone();
        assert(snapshot.pending_inbound@ =~= old(snapshot).pending_inbound@.update(i as int, updated));
        crate::weixin_binding::complete_conversation_binding_for_pending(snapshot, &updated, target, now_millis);
        let message_id_hash = updated.message_id_hash.clone();
        let peer_id_hash = updated.peer_id_hash.clone();
        mark_receipt(snapshot, &message_id_hash, &peer_id_hash, receipt_state_of(target), now_millis, true);
        crate::weixin_trace::trace_turn_completed(snapshot, item_id, target, trace_reason, now_millis);
        snapshot.updated_at_millis = now_millis;
        snapshot.transitioned_at_millis = now_millis;
        Ok(updated)
    }
}


/// The request fields a turn may start with.
pub open spec fn begin_request_ok(q: WeixinRuntimeTurnBeginRequest) -> bool {
    label_ok(q.source_label@) && label_ok(q.candidate_session_id@) && crate::weixin_validate::redacted(
        "account"@,
        q.account_id@,
    ) && has_prefix(q.peer_id_hash@, "peer#"@) && has_prefix(q.message_id_hash@, "message#"@)
        && has_prefix(q.direct_message_key@, "dm#"@) && crate::weixin_validate::redacted(
        "workspace"@,
        q.workspace_id@,
    )
}

/// What starting a runtime turn does to a snapshot and what it answers.
pub open spec fn begin_outcome(
    old: WeixinStateSnapshot,
    new: WeixinStateSnapshot,
    r: Result<WeixinConversationBinding, WeixinStateError>,
    q: WeixinRuntimeTurnBeginRequest,
) -> bool {
    let pend = old@.pending_inbound;
    let i = first_index(pend, live_pending(q.item_id@));
    let parent = crate::weixin_binding::parent_of(
        old@.conversation_bindings,
        q.account_id@,
        q.peer_id_hash@,
        q.direct_message_key@,
    );
    if !begin_request_ok(q) {
        invalid_record(r, "conversation binding request failed validation"@) && new == old
    } else if i < 0 {
        (r matches Err(WeixinStateError::PendingInboundNotFound { item_id }) && item_id@ == q.item_id@)
            && new == old
    } else if pend[i].account_id@ != q.account_id@ || pend[i].peer_id_hash@ != q.peer_id_hash@
        || pend[i].message_id_hash@ != q.message_id_hash@ {
        invalid_record(r, "pending inbound binding mismatch"@) && new == old
    } else if pend[i].direct_message_key@.len() != 0 && pend[i].direct_message_key@
        != q.direct_message_key@ {
        invalid_record(r, "pending inbound direct message key mismatch"@) && new == old
    } else if pend[i].turn_session_id matches Some(t) && t@ != q.candidate_session_id@ {
        invalid_record(r, "pending inbound turn session id mismatch"@) && new == old
    } else if !pend[i].state.allows(WeixinPendingInboundState::Running) {
        invalid_transition(r, pend[i].state.name(), "running"@) && new == old
    } else if !crate::weixin_binding::binding_input_ok(
        old,
        q.account_id@,
        q.peer_id_hash@,
        q.direct_message_key@,
        q.workspace_id@,
        q.candidate_session_id@,
        parent,
        q.source_label@,
    ) {
        invalid_record(r, "conversation binding failed validation"@) && new == old
    } else {
        let p = new@.pending_inbound[i];
        let bs = old@.conversation_bindings;
        let k = first_index(
            bs,
            crate::weixin_binding::binding_for(q.account_id@, q.peer_id_hash@, q.direct_message_key@),
        );
        new@ == (crate::weixin_snapshot::SnapshotView {
            pending_inbound: pend.update(i, p),
            inbound_receipts: receipts_marked(
                old@.inbound_receipts,
                q.message_id_hash@,
                q.peer_id_hash@,
                WeixinReceiptState::Running,
                q.now_millis,
                true,
            ),
            conversation_bindings: new@.conversation_bindings,
            latency_traces: new@.latency_traces,
            updated_at_millis: q.now_millis,
            transitioned_at_millis: q.now_millis,
            ..old@
        }) && p == (WeixinPendingInbound {
            direct_message_key: p.direct_message_key,
            turn_session_id: p.turn_session_id,
            parent_session_id: parent,
            next_retry_at_millis: None,
            last_dispatch_error: None,
            state: WeixinPendingInboundState::Running,
            updated_at_millis: q.now_millis,
            transitioned_at_millis: q.now_millis,
            ..pend[i]
        }) && p.direct_message_key@ == q.direct_message_key@ && opt_is(
            p.turn_session_id,
            q.candidate_session_id@,
        ) && (r matches Ok(c) && if k >= 0 {
            crate::weixin_binding::binding_moved(
                bs[k],
                c,
                q.workspace_id@,
                q.candidate_session_id@,
                parent,
                q.source_label@,
                q.now_millis,
            ) && new@.conversation_bindings == bs.update(k, c)
        } else {
            crate::weixin_binding::binding_created(
                c,
                q.account_id@,
                q.peer_id_hash@,
                q.direct_message_key@,
                q.workspace_id@,
                q.candidate_session_id@,
                parent,
                q.source_label@,
                q.now_millis,
            ) && new@.conversation_bindings == bs.push(c)
        }) && traces_updated(
            old@.latency_traces,
            new@.latency_traces,
            q.item_id@,
            q.now_millis,
            crate::weixin_trace::runtime_started(q.now_millis, q.candidate_session_id@),
        )
    }
}

impl FileWeixinStateStore {
    /// Starts the runtime turn of a ready inbound item and binds its
    /// conversation to the turn's session.
    pub fn begin_pending_runtime_turn(
        &self,
        snapshot: &mut WeixinStateSnapshot,
        request: WeixinRuntimeTurnBeginRequest,
    ) -> (r: Result<WeixinConversationBinding, WeixinStateError>)
        ensures
            begin_outcome(*old(snapshot), *final(snapshot), r, request),
    {
        if !is_label_ok(request.source_label.as_str()) || !is_label_ok(request.candidate_session_id.as_str())
            || !crate::weixin_validate::looks_redacted("account", request.account_id.as_str())
            || !starts_with(request.peer_id_hash.as_str(), "peer#")
            || !starts_with(request.message_id_hash.as_str(), "message#")
            || !starts_with(request.direct_message_key.as_str(), "dm#")
            || !crate::weixin_validate::looks_redacted("workspace", request.workspace_id.as_str()) {
            return Err(
                WeixinStateError::InvalidRecord {
                    reason: "conversation binding request failed validation",
                },
            );
        }
        let parent = crate::weixin_binding::conversation_binding_parent_session_id(
            snapshot,
            request.account_id.as_str(),
            request.peer_id_hash.as_str(),
            request.direct_message_key.as_str(),
        );
        let found = find_live_pending(&snapshot.pending_inbound, request.item_id.as_str());
        let i = match found {
            None => {
                return Err(WeixinStateError::PendingInboundNotFound { item_id: request.item_id.clone() });
            },
            Some(i) => i,
        };
        proof {
            lemma_first_index(old(snapshot).pending_inbound@, live_pending(request.item_id@));
        }
        if snapshot.pending_inbound[i].account_id != request.account_id
            || snapshot.pending_inbound[i].peer_id_hash != request.peer_id_hash
            || snapshot.pending_inbound[i].message_id_hash != request.message_id_hash {
            return Err(WeixinStateError::InvalidRecord { reason: "pending inbound binding mismatch" });
        }
        let dm_empty = chars_of(snapshot.pending_inbound[i].direct_message_key.as_str()).len() == 0;
        if !dm_empty && snapshot.pending_inbound[i].direct_message_key != request.direct_message_key {
            return Err(
                WeixinStateError::InvalidRecord { reason: "pending inbound direct message key mismatch" },
            );
        }
        let turn_mismatch = match &snapshot.pending_inbound[i].turn_session_id {
            Some(t) => *t != request.candidate_session_id,
            None => false,
        };
        if turn_mismatch {
            return Err(
                WeixinStateError::InvalidRecord { reason: "pending inbound turn session id mismatch" },
            );
        }
        if !snapshot.pending_inbound[i].state.can_transition_to(WeixinPendingInboundState::Running) {
            return Err(
                WeixinStateError::InvalidTransition {
                    from: snapshot.pending_inbound[i].state.as_str(),
                    to: WeixinPendingInboundState::Running.as_str(),
                },
            );
        }
        let parent_ok = match &parent {
            Some(ps) => is_label_ok(ps.as_str()),
            None => true,
        };
        if !(crate::weixin_validate::looks_redacted("account", request.account_id.as_str())
            && snapshot.account_id == request.account_id && starts_with(request.peer_id_hash.as_str(), "peer#")
            && starts_with(request.direct_message_key.as_str(), "dm#")
            && snapshot.workspace_id == request.workspace_id
            && crate::weixin_validate::looks_redacted("workspace", request.workspace_id.as_str())
            && is_label_ok(request.candidate_session_id.as_str()) && parent_ok
            && is_label_ok(request.source_label.as_str())) {
            return Err(
                WeixinStateError::InvalidRecord { reason: "conversation binding failed validation" },
            );
        }
        if dm_empty {
            snapshot.pending_inbound[i].direct_message_key = request.direct_message_key.clone();
        }
        snapshot.pending_inbound[i].turn_session_id = Some(request.candidate_session_id.clone());
        snapshot.pending_inbound[i].parent_session_id = crate::weixin_types::clone_opt_string(&parent);
        snapshot.pending_inbound[i].next_retry_at_millis = None;
        snapshot.pending_inbound[i].last_dispatch_error = None;
        snapshot.pending_inbound[i].state = WeixinPendingInboundState::Running;
        snapshot.pending_inbound[i].updated_at_millis = request.now_millis;
        snapshot.pending_inbound[i].transitioned_at_millis = request.now_millis;
        let ghost p = snapshot.pending_inbound@[i as int];
        assert(snapshot.pending_inbound@ =~= old(snapshot).pending_inbound@.update(i as int, p));
        mark_receipt(
            snapshot,
            &request.message_id_hash,
            &request.peer_id_hash,
            WeixinReceiptState::Running,
            request.now_millis,
            true,
        );
        let binding = crate::weixin_binding::upsert_conversation_binding(
            snapshot,
            request.account_id.as_str(),
            request.peer_id_hash.as_str(),
            request.direct_message_key.as_str(),
            request.workspace_id.as_str(),
            request.candidate_session_id.as_str(),
            &parent,
            request.source_label.as_str(),
            request.now_millis,
        );
        crate::weixin_trace::trace_runtime_started(
            snapshot,
            request.item_id.as_str(),
            request.candidate_session_id.as_str(),
            request.now_millis,
        );
        snapshot.updated_at_millis = request.now_millis;
        snapshot.transitioned_at_millis = request.now_millis;
        binding
    }
}


// ---------------------------------------------------------------------------
// Account locks
// ---------------------------------------------------------------------------
/// What an account's lock file records about the process holding it.
#[derive(Debug)]
pub struct WeixinLockRecord {
    pub schema_version: u32,
    pub lock_id: String,
    pub account_id: String,
    pub workspace_id: String,
    pub pid: u32,
    pub created_at_millis: u64,
    pub updated_at_millis: u64,
}

impl WeixinLockRecord {
    /// A lock taken now by process `pid` under the opaque `lock_id`.
    pub fn new(account_id: &str, workspace_id: &str, pid: u32, lock_id: String, now_millis: u64) -> (r: Self)
        ensures
            r.schema_version == WEIXIN_STATE_SCHEMA_VERSION,
            r.lock_id == lock_id,
            r.account_id@ == account_id@,
            r.workspace_id@ == workspace_id@,
            r.pid == pid,
            r.created_at_millis == now_millis,
            r.updated_at_millis == now_millis,
    {
        WeixinLockRecord {
            schema_version: WEIXIN_STATE_SCHEMA_VERSION,
            lock_id,
            account_id: owned(account_id),
            workspace_id: owned(workspace_id),
            pid,
            created_at_millis: now_millis,
            updated_at_millis: now_millis,
        }
    }
}

impl FileWeixinStateStore {
    /// The state of an account's lock: free without a lock file, else held
    /// by the recorded process, active while that process is alive and
    /// stale once it is gone.
    pub fn lock_state(&self, record: Option<&WeixinLockRecord>, process_alive: bool) -> (r:
        WeixinAccountLockInfo)
        ensures
            match record {
                None => r.state == WeixinAccountLockState::Free && r.pid is None
                    && r.workspace_id is None && r.created_at_millis is None,
                Some(rec) => {
                    &&& r.state == if process_alive {
                        WeixinAccountLockState::Active
                    } else {
                        WeixinAccountLockState::Stale
                    }
                    &&& r.pid == Some(rec.pid)
                    &&& r.workspace_id matches Some(w) && w@ == rec.workspace_id@
                    &&& r.created_at_millis == Some(rec.created_at_millis)
                },
            },
    {
        match record {
            None => WeixinAccountLockInfo::free(),
            Some(rec) => WeixinAccountLockInfo {
                state: if process_alive {
                    WeixinAccountLockState::Active
                } else {
                    WeixinAccountLockState::Stale
                },
                pid: Some(rec.pid),
                workspace_id: Some(rec.workspace_id.clone()),
                created_at_millis: Some(rec.created_at_millis),
            },
        }
    }
}

/// A held account lock.
#[derive(Debug)]
pub struct WeixinAccountLock {
    path: String,
    lock_id: String,
    released: bool,
}

impl WeixinAccountLock {
    pub closed spec fn path_view(&self) -> Seq<char> {
        self.path@
    }

    pub closed spec fn lock_id_view(&self) -> Seq<char> {
        self.lock_id@
    }

    pub closed spec fn is_released(&self) -> bool {
        self.released
    }

    /// The lock written at `path` under `lock_id`.
    pub fn new(path: String, lock_id: String) -> (r: Self)
        ensures
            r.path_view() == path@,
            r.lock_id_view() == lock_id@,
            !r.is_released(),
    {
        WeixinAccountLock { path, lock_id, released: false }
    }

    /// The lock file's path.
    pub fn path(&self) -> (r: &str)
        ensures
            r@ == self.path_view(),
    {
        self.path.as_str()
    }

    /// Releases the lock, given the id that the lock file holds now (none
    /// when it is gone or unreadable).  Answers whether the file is to be
    /// removed: only on the first release, and only while the file still
    /// holds this lock, so that a lock taken over since is left alone.
    pub fn release(&mut self, current_lock_id: Option<&str>) -> (remove: bool)
        ensures
            remove == (!old(self).is_released() && (current_lock_id matches Some(id) && id@
                == old(self).lock_id_view())),
            final(self).is_released(),
            final(self).path_view() == old(self).path_view(),
            final(self).lock_id_view() == old(self).lock_id_view(),
    {
        if self.released {
            return false;
        }
        let remove = match current_lock_id {
            Some(id) => crate::text::str_eq(id, self.lock_id.as_str()),
            None => false,
        };
        self.released = true;
        remove
    }
}

} // verus!
