use yunxi_agent::json_value::{JsonNumber, JsonValue};
use yunxi_agent::weixin_queue::pair_request_id;
use yunxi_agent::weixin_snapshot::WeixinStateSnapshot;
use yunxi_agent::weixin_store::FileWeixinStateStore;
use yunxi_agent::weixin_types::{
    WeixinConnectionStateRecord, WeixinEncryptedPayload, WeixinInboundBatchCommit,
    WeixinInboundCommitItem, WeixinPairRequestCommitItem, WeixinPairRequestState,
    WeixinStateError, WeixinStateMigration,
};
use yunxi_agent::weixin_validate::{
    looks_redacted, validate_encrypted_payload, validate_snapshot,
};

const ACCOUNT: &str = "account#0a1b2c3d";

fn store() -> FileWeixinStateStore {
    FileWeixinStateStore::for_workspace_with_lock_root("workspace", "locks".to_string())
}

fn snapshot() -> WeixinStateSnapshot {
    WeixinStateSnapshot::new(ACCOUNT, "workspace#00ff00ff", "https://ilink.example", 100)
}

fn payload(nonce: &str, ciphertext: &str) -> WeixinEncryptedPayload {
    WeixinEncryptedPayload {
        algorithm: "chacha20-poly1305".to_string(),
        algorithm_version: 1,
        aad_version: 1,
        nonce: nonce.to_string(),
        ciphertext: ciphertext.to_string(),
    }
}

fn inbound(n: u32) -> WeixinInboundCommitItem {
    WeixinInboundCommitItem {
        item_id: format!("item#0000000{n}"),
        message_id_hash: format!("message#0000000{n}"),
        peer_id_hash: "peer#12345678".to_string(),
        direct_message_key: "dm#12345678".to_string(),
        encrypted_payload_ref: format!("payload-{n}"),
        encrypted_payload: payload("AAAAAAAAAAAAAAAA", "AQID"),
        payload_kind: None,
    }
}

fn commit(accepted: Vec<WeixinInboundCommitItem>, now: u64) -> WeixinInboundBatchCommit {
    WeixinInboundBatchCommit {
        account_id: ACCOUNT.to_string(),
        cursor_source: "get_updates".to_string(),
        next_get_updates_buf: Some("cursor-1".to_string()),
        poll_started_at_millis: Some(now - 5),
        poll_completed_at_millis: Some(now),
        accepted,
        pair_requests: Vec::new(),
        connection_state: Some(WeixinConnectionStateRecord::Ready),
        last_redacted_error: None,
        now_millis: now,
    }
}

fn reason(error: WeixinStateError) -> &'static str {
    match error {
        WeixinStateError::InvalidRecord { reason } => reason,
        other => panic!("unexpected error {other:?}"),
    }
}

#[test]
fn redacted_identifiers_need_prefix_and_eight_hex_digits() {
    assert!(looks_redacted("account", "account#0a1b2c3d"));
    assert!(!looks_redacted("account", "account#0a1b2c3"));
    assert!(!looks_redacted("account", "account#0a1b2c3g"));
    assert!(!looks_redacted("account", "peer#0a1b2c3d"));
}

#[test]
fn fresh_snapshot_validates_and_bad_fields_are_named() {
    assert!(validate_snapshot(&snapshot()).is_ok());

    let raw_account = WeixinStateSnapshot::new("wxid_plain", "workspace#00ff00ff", "e", 1);
    assert_eq!(reason(validate_snapshot(&raw_account).unwrap_err()), "account id must be redacted");

    let raw_workspace = WeixinStateSnapshot::new(ACCOUNT, "C:/work", "e", 1);
    assert_eq!(
        reason(validate_snapshot(&raw_workspace).unwrap_err()),
        "workspace id must be redacted"
    );

    let no_endpoint = WeixinStateSnapshot::new(ACCOUNT, "workspace#00ff00ff", "  ", 1);
    assert_eq!(reason(validate_snapshot(&no_endpoint).unwrap_err()), "endpoint is empty");
}

#[test]
fn encrypted_payload_rules_are_checked_in_order() {
    assert!(validate_encrypted_payload(&payload("AAAAAAAAAAAAAAAA", "AQID")).is_ok());
    let mut wrong_algorithm = payload("AAAAAAAAAAAAAAAA", "AQID");
    wrong_algorithm.algorithm = "aes".to_string();
    assert_eq!(
        reason(validate_encrypted_payload(&wrong_algorithm).unwrap_err()),
        "pending inbound encrypted payload algorithm is unsupported"
    );
    assert_eq!(
        reason(validate_encrypted_payload(&payload("token-AAAA", "AQID")).unwrap_err()),
        "pending inbound encrypted payload contains sensitive markers"
    );
    assert_eq!(
        reason(validate_encrypted_payload(&payload("***", "AQID")).unwrap_err()),
        "pending inbound encrypted payload nonce is invalid base64"
    );
    assert_eq!(
        reason(validate_encrypted_payload(&payload("AAAA", "AQID")).unwrap_err()),
        "pending inbound encrypted payload nonce length is invalid"
    );
    assert_eq!(
        reason(validate_encrypted_payload(&payload("AAAAAAAAAAAAAAAA", "A===")).unwrap_err()),
        "pending inbound encrypted payload ciphertext is invalid base64"
    );
    assert_eq!(
        reason(validate_encrypted_payload(&payload("AAAAAAAAAAAAAAAA", "")).unwrap_err()),
        "pending inbound encrypted payload ciphertext is empty"
    );
}

#[test]
fn inbound_batch_is_accepted_once_and_duplicates_are_counted() {
    let store = store();
    let mut state = snapshot();
    let first = store
        .commit_inbound_batch(&mut state, commit(vec![inbound(1), inbound(2)], 200), Vec::new())
        .unwrap();
    assert_eq!(first.accepted_count, 2);
    assert_eq!(first.duplicate_count, 0);
    assert_eq!(first.accepted_item_ids, vec!["item#00000001".to_string(), "item#00000002".to_string()]);
    assert_eq!(state.pending_inbound_count(), 2);
    assert_eq!(state.inbound_receipts.len(), 2);

    let again = store
        .commit_inbound_batch(&mut state, commit(vec![inbound(1)], 300), Vec::new())
        .unwrap();
    assert_eq!(again.accepted_count, 0);
    assert_eq!(again.duplicate_count, 1);
    assert_eq!(state.pending_inbound_count(), 2);
    if let Err(error) = validate_snapshot(&state) {
        panic!("{error:?}");
    }
}

#[test]
fn inbound_batch_records_pair_requests_for_new_peers() {
    let store = store();
    let mut state = snapshot();
    let mut batch = commit(Vec::new(), 200);
    batch.pair_requests = vec![WeixinPairRequestCommitItem {
        peer_id_hash: "peer#99999999".to_string(),
        expires_at_millis: 10_000,
    }];
    let result = store
        .commit_inbound_batch(&mut state, batch, vec![0x1])
        .unwrap();
    assert_eq!(result.pair_request_count, 1);
    assert_eq!(state.pair_request_count(), 1);
    assert_eq!(state.pair_requests[0].request_id, "pair-0000000000000001");

    let approved = store
        .approve_pair_request(&mut state, ACCOUNT, "pair-0000000000000001", 300)
        .unwrap();
    assert_eq!(approved.state, WeixinPairRequestState::Approved);
    assert!(matches!(
        store.deny_pair_request(&mut state, ACCOUNT, "pair-0000000000000001", 400),
        Err(WeixinStateError::PairRequestConsumed { .. })
    ));
    assert!(matches!(
        store.approve_pair_request(&mut state, ACCOUNT, "pair-404", 400),
        Err(WeixinStateError::PairRequestNotFound { .. })
    ));
}

#[test]
fn expired_pair_request_is_marked_expired() {
    let store = store();
    let mut state = snapshot();
    let request =
        store.add_pair_request(&mut state, ACCOUNT, "peer#12121212", 150, 100, 0xfedc_ba98_7654_3210);
    assert_eq!(request.request_id, "pair-fedcba9876543210");
    assert!(matches!(
        store.approve_pair_request(&mut state, ACCOUNT, &request.request_id, 200),
        Err(WeixinStateError::PairRequestExpired { .. })
    ));
    assert_eq!(state.pair_requests[0].state, WeixinPairRequestState::Expired);
}

#[test]
fn pair_request_ids_are_sixteen_hex_digits() {
    assert_eq!(pair_request_id(0), "pair-0000000000000000");
    assert_eq!(pair_request_id(0xabc), "pair-0000000000000abc");
    assert_eq!(pair_request_id(u64::MAX), "pair-ffffffffffffffff");
}

fn text(value: &str) -> JsonValue {
    JsonValue::Text(value.to_string())
}

fn num(value: u64) -> JsonValue {
    JsonValue::Number(JsonNumber::PosInt(value))
}

fn object(members: Vec<(&str, JsonValue)>) -> JsonValue {
    JsonValue::Object(members.into_iter().map(|(k, v)| (k.to_string(), v)).collect())
}

fn member<'a>(value: &'a JsonValue, key: &str) -> Option<&'a JsonValue> {
    match value {
        JsonValue::Object(members) => members.iter().find(|(k, _)| k == key).map(|(_, v)| v),
        _ => None,
    }
}

#[test]
fn current_and_future_schemas_are_kept_or_refused() {
    let current = object(vec![("schema_version", num(6)), ("account_id", text(ACCOUNT))]);
    let kept = WeixinStateMigration::migrate_value(current, 5).unwrap();
    assert_eq!(kept, object(vec![("schema_version", num(6)), ("account_id", text(ACCOUNT))]));

    let future = object(vec![("schema_version", num(7))]);
    assert!(matches!(
        WeixinStateMigration::migrate_value(future, 5),
        Err(WeixinStateError::FutureSchema { found: 7, supported: 6 })
    ));
    assert_eq!(
        reason(WeixinStateMigration::migrate_value(JsonValue::Array(Vec::new()), 5).unwrap_err()),
        "state root must be an object"
    );
}

#[test]
fn legacy_pending_inbound_without_payload_is_refused() {
    let legacy = object(vec![
        ("schema_version", num(3)),
        ("pending_inbound", JsonValue::Array(vec![object(vec![("encrypted_payload", JsonValue::Null)])])),
    ]);
    assert_eq!(
        reason(WeixinStateMigration::migrate_value(legacy, 5).unwrap_err()),
        "legacy pending inbound lacks encrypted payload"
    );
}

#[test]
fn old_state_is_brought_to_the_current_schema() {
    let old = object(vec![
        ("schema_version", num(4)),
        ("account_id", text(ACCOUNT)),
        ("session_bindings", JsonValue::Array(Vec::new())),
        ("conversation_bindings", JsonValue::Array(vec![object(vec![("session_id", text("s1"))])])),
        ("pending_deliveries", JsonValue::Array(vec![object(vec![("delivery_id", text("d1"))])])),
        ("created_at_millis", num(7)),
    ]);
    let migrated = WeixinStateMigration::migrate_value(old, 99).unwrap();
    assert_eq!(member(&migrated, "schema_version"), Some(&num(6)));
    assert_eq!(member(&migrated, "created_at_millis"), Some(&num(7)));
    assert_eq!(member(&migrated, "updated_at_millis"), Some(&num(99)));
    assert_eq!(member(&migrated, "connection_state"), Some(&text("not_configured")));
    assert_eq!(member(&migrated, "credential"), Some(&JsonValue::Null));
    assert_eq!(member(&migrated, "session_bindings"), None);
    assert_eq!(member(&migrated, "pair_requests"), Some(&JsonValue::Array(Vec::new())));
    assert_eq!(member(&migrated, "last_redacted_error"), Some(&JsonValue::Null));

    let binding = match member(&migrated, "conversation_bindings") {
        Some(JsonValue::Array(items)) => &items[0],
        other => panic!("bindings {other:?}"),
    };
    assert_eq!(member(binding, "root_session_id"), Some(&text("s1")));
    assert_eq!(member(binding, "last_completed_session_id"), Some(&text("s1")));
    assert_eq!(member(binding, "schema_version"), Some(&num(6)));

    let delivery = match member(&migrated, "pending_deliveries") {
        Some(JsonValue::Array(items)) => &items[0],
        other => panic!("deliveries {other:?}"),
    };
    assert_eq!(member(delivery, "account_id"), Some(&text(ACCOUNT)));
    assert_eq!(member(delivery, "session_id"), Some(&text("migrated-delivery-session")));
    assert_eq!(member(delivery, "total_segments"), Some(&num(1)));
    assert_eq!(member(delivery, "delivery_id"), Some(&text("d1")));
}
