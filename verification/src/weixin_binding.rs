use vstd::prelude::*;
use crate::seqs::{first_index, lemma_first_index_at, lemma_first_index_none};
use crate::text::{chars_of, has_prefix, owned, starts_with};
use crate::weixin_snapshot::{SnapshotView, WeixinStateSnapshot};
use crate::weixin_trace::opt_is;
use crate::weixin_types::{clone_opt_string, WeixinConversationBinding, WeixinPendingInbound, WeixinPendingInboundState, WeixinStateError, WEIXIN_STATE_SCHEMA_VERSION};
use crate::weixin_validate::{is_label_ok, label_ok, looks_redacted, redacted};

verus! {

/// The binding of a direct conversation.
pub open spec fn binding_for(a: Seq<char>, p: Seq<char>, d: Seq<char>) -> spec_fn(
    WeixinConversationBinding,
) -> bool {
    |b: WeixinConversationBinding|
        b.account_id@ == a && b.peer_id_hash@ == p && b.direct_message_key@ == d
}

/// The binding of a direct conversation whose active session is `turn`.
pub open spec fn active_binding_for(
    a: Seq<char>,
    p: Seq<char>,
    d: Seq<char>,
    turn: Seq<char>,
) -> spec_fn(WeixinConversationBinding) -> bool {
    |b: WeixinConversationBinding|
        b.account_id@ == a && b.peer_id_hash@ == p && b.direct_message_key@ == d && opt_is(
            b.active_session_id,
            turn,
        )
}

/// The session a new turn continues from: the last completed session of the
/// conversation, else its active one, else its recorded session when that is
/// not empty.
pub open spec fn parent_session(b: WeixinConversationBinding) -> Option<String> {
    if b.last_completed_session_id is Some {
        b.last_completed_session_id
    } else if b.active_session_id is Some {
        b.active_session_id
    } else if b.session_id@.len() > 0 {
        Some(b.session_id)
    } else {
        None
    }
}

pub open spec fn parent_of(s: Seq<WeixinConversationBinding>, a: Seq<char>, p: Seq<char>, d: Seq<char>) -> Option<
    String,
> {
    let k = first_index(s, binding_for(a, p, d));
    if k < 0 {
        None
    } else {
        parent_session(s[k])
    }
}

fn find_binding(bindings: &Vec<WeixinConversationBinding>, a: &str, p: &str, d: &str) -> (r: Option<
    usize,
>)
    ensures
        match r {
            Some(k) => k as int == first_index(bindings@, binding_for(a@, p@, d@)) && k
                < bindings.len(),
            None => first_index(bindings@, binding_for(a@, p@, d@)) == -1,
        },
{
    let a2 = owned(a);
    let p2 = owned(p);
    let d2 = owned(d);
    let mut i: usize = 0;
    while i < bindings.len()
        invariant
            i <= bindings.len(),
            a2@ == a@,
            p2@ == p@,
            d2@ == d@,
            forall|j: int| 0 <= j < i ==> !(binding_for(a@, p@, d@))(#[trigger] bindings@[j]),
        decreases bindings.len() - i,
    {
        if bindings[i].account_id == a2 && bindings[i].peer_id_hash == p2
            && bindings[i].direct_message_key == d2 {
            proof {
                lemma_first_index_at(bindings@, binding_for(a@, p@, d@), i as int);
            }
            return Some(i);
        }
        i = i + 1;
    }
    proof {
        lemma_first_index_none(bindings@, binding_for(a@, p@, d@));
    }
    None
}

/// The session a new turn of this conversation continues from, if any.
pub fn conversation_binding_parent_session_id(
    snapshot: &WeixinStateSnapshot,
    account_id: &str,
    peer_id_hash: &str,
    direct_message_key: &str,
) -> (r: Option<String>)
    ensures
        r == parent_of(snapshot@.conversation_bindings, account_id@, peer_id_hash@, direct_message_key@),
{
    match find_binding(&snapshot.conversation_bindings, account_id, peer_id_hash, direct_message_key) {
        None => None,
        Some(k) => {
            let b = &snapshot.conversation_bindings[k];
            if b.last_completed_session_id.is_some() {
                clone_opt_string(&b.last_completed_session_id)
            } else if b.active_session_id.is_some() {
                clone_opt_string(&b.active_session_id)
            } else {
                let cs = chars_of(b.session_id.as_str());
                if cs.len() > 0 {
                    Some(b.session_id.clone())
                } else {
                    None
                }
            }
        },
    }
}

/// The inputs a binding may be written with.
pub open spec fn binding_input_ok(
    s: WeixinStateSnapshot,
    a: Seq<char>,
    p: Seq<char>,
    d: Seq<char>,
    w: Seq<char>,
    turn: Seq<char>,
    parent: Option<String>,
    source: Seq<char>,
) -> bool {
    redacted("account"@, a) && s.account_id@ == a && has_prefix(p, "peer#"@) && has_prefix(
        d,
        "dm#"@,
    ) && s.workspace_id@ == w && redacted("workspace"@, w) && label_ok(turn) && (parent matches Some(
        ps,
    ) ==> label_ok(ps@)) && label_ok(source)
}

/// An existing binding moved to a new active turn.
pub open spec fn binding_moved(
    b: WeixinConversationBinding,
    c: WeixinConversationBinding,
    w: Seq<char>,
    turn: Seq<char>,
    parent: Option<String>,
    source: Seq<char>,
    now: u64,
) -> bool {
    c == (WeixinConversationBinding {
        root_session_id: if b.root_session_id is Some {
            b.root_session_id
        } else if b.last_completed_session_id is Some {
            b.last_completed_session_id
        } else {
            Some(b.session_id)
        },
        active_session_id: c.active_session_id,
        workspace_id: c.workspace_id,
        session_id: c.session_id,
        source_label: c.source_label,
        last_activity_millis: now,
        updated_at_millis: now,
        transitioned_at_millis: now,
        last_completed_session_id: if b.last_completed_session_id is None {
            parent
        } else {
            b.last_completed_session_id
        },
        ..b
    }) && opt_is(c.active_session_id, turn) && c.workspace_id@ == w && c.session_id@ == turn
        && c.source_label@ == source
}

/// A binding created for a conversation's first turn.
pub open spec fn binding_created(
    c: WeixinConversationBinding,
    a: Seq<char>,
    p: Seq<char>,
    d: Seq<char>,
    w: Seq<char>,
    turn: Seq<char>,
    parent: Option<String>,
    source: Seq<char>,
    now: u64,
) -> bool {
    c.schema_version == WEIXIN_STATE_SCHEMA_VERSION && c.account_id@ == a && c.peer_id_hash@ == p
        && c.direct_message_key@ == d && c.workspace_id@ == w && opt_is(c.root_session_id, turn)
        && opt_is(c.active_session_id, turn) && c.last_completed_session_id == parent
        && c.session_id@ == turn && c.source_label@ == source && c.created_at_millis == now
        && c.last_activity_millis == now && c.updated_at_millis == now && c.transitioned_at_millis
        == now
}

/// What binding a conversation to a new turn does.
pub open spec fn upsert_outcome(
    old: WeixinStateSnapshot,
    new: WeixinStateSnapshot,
    r: Result<WeixinConversationBinding, WeixinStateError>,
    a: Seq<char>,
    p: Seq<char>,
    d: Seq<char>,
    w: Seq<char>,
    turn: Seq<char>,
    parent: Option<String>,
    source: Seq<char>,
    now: u64,
) -> bool {
    let bs = old@.conversation_bindings;
    let k = first_index(bs, binding_for(a, p, d));
    if !binding_input_ok(old, a, p, d, w, turn, parent, source) {
        (r matches Err(WeixinStateError::InvalidRecord { reason }) && reason@
            == "conversation binding failed validation"@) && new == old
    } else if k >= 0 {
        r matches Ok(c) && binding_moved(bs[k], c, w, turn, parent, source, now) && new@ == (
        SnapshotView { conversation_bindings: bs.update(k, c), ..old@ })
    } else {
        r matches Ok(c) && binding_created(c, a, p, d, w, turn, parent, source, now) && new@ == (
        SnapshotView { conversation_bindings: bs.push(c), ..old@ })
    }
}

fn binding_inputs_valid(
    snapshot: &WeixinStateSnapshot,
    account_id: &str,
    peer_id_hash: &str,
    direct_message_key: &str,
    workspace_id: &str,
    turn_session_id: &str,
    parent_session_id: &Option<String>,
    source_label: &str,
) -> (ok: bool)
    ensures
        ok == binding_input_ok(
            *snapshot,
            account_id@,
            peer_id_hash@,
            direct_message_key@,
            workspace_id@,
            turn_session_id@,
            *parent_session_id,
            source_label@,
        ),
{
    let parent_ok = match parent_session_id {
        Some(ps) => is_label_ok(ps.as_str()),
        None => true,
    };
    looks_redacted("account", account_id) && snapshot.account_id == owned(account_id) && starts_with(
        peer_id_hash,
        "peer#",
    ) && starts_with(direct_message_key, "dm#") && snapshot.workspace_id == owned(workspace_id)
        && looks_redacted("workspace", workspace_id) && is_label_ok(turn_session_id) && parent_ok
        && is_label_ok(source_label)
}

/// Points the conversation's binding at a new turn, creating the binding on
/// the first turn.
pub fn upsert_conversation_binding(
    snapshot: &mut WeixinStateSnapshot,
    account_id: &str,
    peer_id_hash: &str,
    direct_message_key: &str,
    workspace_id: &str,
    turn_session_id: &str,
    parent_session_id: &Option<String>,
    source_label: &str,
    now_millis: u64,
) -> (r: Result<WeixinConversationBinding, WeixinStateError>)
    ensures
        upsert_outcome(
            *old(snapshot),
            *final(snapshot),
            r,
            account_id@,
            peer_id_hash@,
            direct_message_key@,
            workspace_id@,
            turn_session_id@,
            *parent_session_id,
            source_label@,
            now_millis,
        ),
{
    if !binding_inputs_valid(
        snapshot,
        account_id,
        peer_id_hash,
        direct_message_key,
        workspace_id,
        turn_session_id,
        parent_session_id,
        source_label,
    ) {
        return Err(WeixinStateError::InvalidRecord { reason: "conversation binding failed validation" });
    }
    match find_binding(&snapshot.conversation_bindings, account_id, peer_id_hash, direct_message_key) {
        Some(k) => {
            let root = if snapshot.conversation_bindings[k].root_session_id.is_some() {
                clone_opt_string(&snapshot.conversation_bindings[k].root_session_id)
            } else if snapshot.conversation_bindings[k].last_completed_session_id.is_some() {
                clone_opt_string(&snapshot.conversation_bindings[k].last_completed_session_id)
            } else {
                Some(snapshot.conversation_bindings[k].session_id.clone())
            };
            snapshot.conversation_bindings[k].root_session_id = root;
            snapshot.conversation_bindings[k].active_session_id = Some(owned(turn_session_id));
            snapshot.conversation_bindings[k].workspace_id = owned(workspace_id);
            snapshot.conversation_bindings[k].session_id = owned(turn_session_id);
            snapshot.conversation_bindings[k].source_label = owned(source_label);
            snapshot.conversation_bindings[k].last_activity_millis = now_millis;
            snapshot.conversation_bindings[k].updated_at_millis = now_millis;
            snapshot.conversation_bindings[k].transitioned_at_millis = now_millis;
            if snapshot.conversation_bindings[k].last_completed_session_id.is_none() {
                snapshot.conversation_bindings[k].last_completed_session_id = clone_opt_string(
                    parent_session_id,
                );
            }
            let updated = snapshot.conversation_bindings[k].clone();
            assert(snapshot.conversation_bindings@ =~= old(snapshot).conversation_bindings@.update(
                k as int,
                updated,
            ));
            Ok(updated)
        },
        None => {
            let binding = WeixinConversationBinding {
                schema_version: WEIXIN_STATE_SCHEMA_VERSION,
                account_id: owned(account_id),
                peer_id_hash: owned(peer_id_hash),
                direct_message_key: owned(direct_message_key),
                workspace_id: owned(workspace_id),
                root_session_id: Some(owned(turn_session_id)),
                active_session_id: Some(owned(turn_session_id)),
                last_completed_session_id: clone_opt_string(parent_session_id),
                session_id: owned(turn_session_id),
                source_label: owned(source_label),
                created_at_millis: now_millis,
                last_activity_millis: now_millis,
                updated_at_millis: now_millis,
                transitioned_at_millis: now_millis,
            };
            let out = binding.clone();
            snapshot.conversation_bindings.push(binding);
            Ok(out)
        },
    }
}

/// The bindings after the turn a pending item was waiting for ends: on
/// success the turn becomes the completed and active session, otherwise the
/// conversation falls back to the turn's parent session when it has one.
pub open spec fn bindings_completed(
    bs: Seq<WeixinConversationBinding>,
    pending: WeixinPendingInbound,
    target: WeixinPendingInboundState,
    now: u64,
) -> Seq<WeixinConversationBinding> {
    match pending.turn_session_id {
        None => bs,
        Some(turn) => {
            let k = first_index(
                bs,
                active_binding_for(
                    pending.account_id@,
                    pending.peer_id_hash@,
                    pending.direct_message_key@,
                    turn@,
                ),
            );
            if k < 0 {
                bs
            } else {
                let b = bs[k];
                bs.update(
                    k,
                    WeixinConversationBinding {
                        root_session_id: if b.root_session_id is None {
                            Some(turn)
                        } else {
                            b.root_session_id
                        },
                        last_completed_session_id: if target == WeixinPendingInboundState::Succeeded {
                            Some(turn)
                        } else {
                            b.last_completed_session_id
                        },
                        active_session_id: if target == WeixinPendingInboundState::Succeeded {
                            Some(turn)
                        } else if pending.parent_session_id is Some {
                            pending.parent_session_id
                        } else {
                            b.active_session_id
                        },
                        session_id: if target == WeixinPendingInboundState::Succeeded {
                            turn
                        } else if pending.parent_session_id is Some {
                            pending.parent_session_id->0
                        } else {
                            b.session_id
                        },
                        last_activity_millis: now,
                        updated_at_millis: now,
                        transitioned_at_millis: now,
                        ..b
                    },
                )
            }
        },
    }
}

fn find_active_binding(
    bindings: &Vec<WeixinConversationBinding>,
    pending: &WeixinPendingInbound,
    turn: &String,
) -> (r: Option<usize>)
    ensures
        match r {
            Some(k) => k as int == first_index(
                bindings@,
                active_binding_for(
                    pending.account_id@,
                    pending.peer_id_hash@,
                    pending.direct_message_key@,
                    turn@,
                ),
            ) && k < bindings.len(),
            None => first_index(
                bindings@,
                active_binding_for(
                    pending.account_id@,
                    pending.peer_id_hash@,
                    pending.direct_message_key@,
                    turn@,
                ),
            ) == -1,
        },
{
    let mut i: usize = 0;
    while i < bindings.len()
        invariant
            i <= bindings.len(),
            forall|j: int|
                0 <= j < i ==> !(active_binding_for(
                    pending.account_id@,
                    pending.peer_id_hash@,
                    pending.direct_message_key@,
                    turn@,
                ))(#[trigger] bindings@[j]),
        decreases bindings.len() - i,
    {
        let b = &bindings[i];
        let active_matches = match &b.active_session_id {
            Some(a) => *a == *turn,
            None => false,
        };
        if b.account_id == pending.account_id && b.peer_id_hash == pending.peer_id_hash
            && b.direct_message_key == pending.direct_message_key && active_matches {
            proof {
                lemma_first_index_at(
                    bindings@,
                    active_binding_for(
                        pending.account_id@,
                        pending.peer_id_hash@,
                        pending.direct_message_key@,
                        turn@,
                    ),
                    i as int,
                );
            }
            return Some(i);
        }
        i = i + 1;
    }
    proof {
        lemma_first_index_none(
            bindings@,
            active_binding_for(
                pending.account_id@,
                pending.peer_id_hash@,
                pending.direct_message_key@,
                turn@,
            ),
        );
    }
    None
}

/// Updates the conversation's binding when the turn it is waiting for ends.
pub fn complete_conversation_binding_for_pending(
    snapshot: &mut WeixinStateSnapshot,
    pending: &WeixinPendingInbound,
    target: WeixinPendingInboundState,
    now_millis: u64,
)
    ensures
        final(snapshot)@ == (SnapshotView {
            conversation_bindings: bindings_completed(
                old(snapshot)@.conversation_bindings,
                *pending,
                target,
                now_millis,
            ),
            ..old(snapshot)@
        }),
{
    let turn = match &pending.turn_session_id {
        None => {
            return;
        },
        Some(t) => t.clone(),
    };
    let ghost pred = active_binding_for(
        pending.account_id@,
        pending.peer_id_hash@,
        pending.direct_message_key@,
        turn@,
    );
    let k = match find_active_binding(&snapshot.conversation_bindings, pending, &turn) {
        None => {
            return;
        },
        Some(k) => k,
    };
    if snapshot.conversation_bindings[k].root_session_id.is_none() {
        snapshot.conversation_bindings[k].root_session_id = Some(turn.clone());
    }
    if target == WeixinPendingInboundState::Succeeded {
        snapshot.conversation_bindings[k].last_completed_session_id = Some(turn.clone());
        snapshot.conversation_bindings[k].active_session_id = Some(turn.clone());
        snapshot.conversation_bindings[k].session_id = turn;
    } else if let Some(parent) = &pending.parent_session_id {
        snapshot.conversation_bindings[k].active_session_id = Some(parent.clone());
        snapshot.conversation_bindings[k].session_id = parent.clone();
    }
    snapshot.conversation_bindings[k].last_activity_millis = now_millis;
    snapshot.conversation_bindings[k].updated_at_millis = now_millis;
    snapshot.conversation_bindings[k].transitioned_at_millis = now_millis;
    assert(snapshot.conversation_bindings@ =~= bindings_completed(
        old(snapshot)@.conversation_bindings,
        *pending,
        target,
        now_millis,
    ));
}

} // verus!
