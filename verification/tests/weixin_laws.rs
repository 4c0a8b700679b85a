use yunxi_agent::weixin_snapshot::WeixinStateSnapshot;
use yunxi_agent::weixin_store::FileWeixinStateStore;
use yunxi_agent::weixin_types::{
    WeixinConnectionStateRecord, WeixinEncryptedPayload, WeixinInboundBatchCommit,
    WeixinInboundCommitItem, WeixinPendingDeliveryCommitItem, WeixinRemoteControlCommitItem,
    WeixinRemoteControlPurposeRecord, WeixinRemoteControlState, WeixinStateError,
};

const ACCOUNT: &str = "account#0a1b2c3d";

fn store() -> FileWeixinStateStore {
    FileWeixinStateStore::for_workspace_with_lock_root("workspace", "locks".to_string())
}

fn snapshot() -> WeixinStateSnapshot {
    WeixinStateSnapshot::new(ACCOUNT, "workspace#00ff00ff", "https://ilink.example", 100)
}

fn payload() -> WeixinEncryptedPayload {
    WeixinEncryptedPayload {
        algorithm: "chacha20-poly1305".to_string(),
        algorithm_version: 1,
        aad_version: 1,
        nonce: "AAAAAAAAAAAAAAAA".to_string(),
        ciphertext: "AQID".to_string(),
    }
}

fn remote_item() -> WeixinRemoteControlCommitItem {
    WeixinRemoteControlCommitItem {
        request_id: "wxctl#00000001".to_string(),
        peer_id_hash: "peer#12345678".to_string(),
        direct_message_key: "dm#12345678".to_string(),
        item_id: "item#00000001".to_string(),
        session_id: "session-1".to_string(),
        purpose: WeixinRemoteControlPurposeRecord::Approval,
        action: "approve".to_string(),
        reason: "shell command".to_string(),
        cwd_label: None,
        expires_at_millis: 10_000,
    }
}

fn delivery_item() -> WeixinPendingDeliveryCommitItem {
    WeixinPendingDeliveryCommitItem {
        delivery_id: "delivery#00000001".to_string(),
        peer_id_hash: "peer#12345678".to_string(),
        direct_message_key: "dm#12345678".to_string(),
        item_id: "item#00000001".to_string(),
        session_id: "session-1".to_string(),
        message_hash: "reply#00000001".to_string(),
        segment_index: 0,
        total_segments: 1,
        wait_for_turn_completion: false,
        encrypted_payload: payload(),
    }
}

fn with_ready_item(store: &FileWeixinStateStore) -> WeixinStateSnapshot {
    let mut state = snapshot();
    let item = WeixinInboundCommitItem {
        item_id: "item#00000001".to_string(),
        message_id_hash: "message#00000001".to_string(),
        peer_id_hash: "peer#12345678".to_string(),
        direct_message_key: "dm#12345678".to_string(),
        encrypted_payload_ref: "payload-1".to_string(),
        encrypted_payload: payload(),
        payload_kind: None,
    };
    let commit = WeixinInboundBatchCommit {
        account_id: ACCOUNT.to_string(),
        cursor_source: "get_updates".to_string(),
        next_get_updates_buf: None,
        poll_started_at_millis: Some(195),
        poll_completed_at_millis: Some(200),
        accepted: vec![item],
        pair_requests: Vec::new(),
        connection_state: Some(WeixinConnectionStateRecord::Ready),
        last_redacted_error: None,
        now_millis: 200,
    };
    store.commit_inbound_batch(&mut state, commit, Vec::new()).unwrap();
    state
}

#[test]
fn recording_a_remote_control_request_twice_gives_back_the_first() {
    let store = store();
    let mut state = snapshot();
    let first = store.record_remote_control_request(&mut state, ACCOUNT, remote_item(), 200).unwrap();
    let second = store.record_remote_control_request(&mut state, ACCOUNT, remote_item(), 900).unwrap();
    assert_eq!(second.request_id, first.request_id);
    assert_eq!(second.created_at_millis, 200);
    assert_eq!(second.updated_at_millis, first.updated_at_millis);
    assert_eq!(second.state, WeixinRemoteControlState::Pending);
    assert_eq!(state.remote_control_requests.len(), 1);
}

#[test]
fn a_remote_control_request_is_settled_only_once() {
    let store = store();
    let mut state = snapshot();
    store.record_remote_control_request(&mut state, ACCOUNT, remote_item(), 200).unwrap();
    let settled = store
        .transition_remote_control_request(
            &mut state,
            ACCOUNT,
            "wxctl#00000001",
            WeixinRemoteControlState::Consumed,
            Some("approved".to_string()),
            300,
        )
        .unwrap();
    assert_eq!(settled.state, WeixinRemoteControlState::Consumed);
    let again = store.transition_remote_control_request(
        &mut state,
        ACCOUNT,
        "wxctl#00000001",
        WeixinRemoteControlState::Rejected,
        None,
        400,
    );
    assert!(matches!(again, Err(WeixinStateError::InvalidTransition { .. })));
    assert_eq!(state.remote_control_requests[0].state, WeixinRemoteControlState::Consumed);
}

#[test]
fn queuing_a_delivery_twice_gives_back_the_first() {
    let store = store();
    let mut state = snapshot();
    let first = store.enqueue_pending_delivery(&mut state, ACCOUNT, delivery_item(), 200).unwrap();
    let second = store.enqueue_pending_delivery(&mut state, ACCOUNT, delivery_item(), 700).unwrap();
    assert_eq!(second.delivery_id, first.delivery_id);
    assert_eq!(second.created_at_millis, 200);
    assert_eq!(second.updated_at_millis, first.updated_at_millis);
    assert_eq!(state.pending_deliveries.len(), 1);
}

#[test]
fn a_turn_session_is_written_once() {
    let store = store();
    let mut state = with_ready_item(&store);
    let bound = store
        .remember_pending_runtime_turn_session(&mut state, "item#00000001", "turn-1", 300)
        .unwrap();
    assert_eq!(bound.turn_session_id.as_deref(), Some("turn-1"));
    let confirmed = store
        .remember_pending_runtime_turn_session(&mut state, "item#00000001", "turn-1", 310)
        .unwrap();
    assert_eq!(confirmed.turn_session_id.as_deref(), Some("turn-1"));
    let refused =
        store.remember_pending_runtime_turn_session(&mut state, "item#00000001", "turn-2", 320);
    assert!(matches!(
        refused,
        Err(WeixinStateError::InvalidRecord { reason: "pending inbound turn session id mismatch" })
    ));
}

#[test]
fn a_claimed_item_is_not_ready_until_its_lease_expires() {
    let store = store();
    let mut state = with_ready_item(&store);
    assert_eq!(store.load_ready_pending_inbound(&state, 300, 10).len(), 1);
    store
        .claim_pending_runtime_dispatch(
            &mut state,
            "item#00000001",
            "lease#worker-1",
            "attempt#1",
            5_000,
            300,
        )
        .unwrap();
    assert!(store.load_ready_pending_inbound(&state, 4_999, 10).is_empty());
    assert_eq!(store.load_ready_pending_inbound(&state, 5_000, 10).len(), 1);
}
