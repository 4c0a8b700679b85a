use vstd::prelude::*;
use base64::Engine;
use crate::text::{chars_of, contains, contains_exec, has_prefix, has_prefix_exec, is_ascii_hexdigit, is_blank, is_blank_str, lower, lower_chars, starts_with};
use crate::weixin_snapshot::WeixinStateSnapshot;
use crate::weixin_types::{WeixinConversationBinding, WeixinDeliveryManifest, WeixinDeliveryRecord, WeixinEncryptedPayload, WeixinInboundReceiptRecord, WeixinLatencyTraceRecord, WeixinPairRequest, WeixinPendingDeliveryCommitItem, WeixinPendingDeliveryMetadata, WeixinPendingInbound, WeixinRemoteControlCommitItem, WeixinRemoteControlRequestRecord, WeixinStateError, WEIXIN_PAYLOAD_AAD_VERSION, WEIXIN_PAYLOAD_ALGORITHM_VERSION, WEIXIN_PAYLOAD_NONCE_LENGTH, WEIXIN_STATE_SCHEMA_VERSION};

verus! {

// ---------------------------------------------------------------------------
// Field rules
// ---------------------------------------------------------------------------
/// Whether a value, compared case-insensitively, mentions something that
/// must never be persisted (tokens, context, raw data, keys, secrets).
pub open spec fn sensitive(s: Seq<char>) -> bool {
    let l = lower(s);
    contains(l, "token"@) || contains(l, "context"@) || contains(l, "raw"@) || contains(
        l,
        "data_key"@,
    ) || contains(l, "data-key"@) || contains(l, "secret"@)
}

/// `prefix#` followed by exactly eight hexadecimal digits.
pub open spec fn redacted(prefix: Seq<char>, v: Seq<char>) -> bool {
    let head = prefix.push('#');
    has_prefix(v, head) && v.len() == head.len() + 8 && forall|i: int|
        head.len() <= i < v.len() ==> is_ascii_hexdigit(#[trigger] v[i])
}

/// A usable session or label: not blank and not sensitive.
pub open spec fn label_ok(s: Seq<char>) -> bool {
    !is_blank(s) && !sensitive(s)
}

pub open spec fn opt_sensitive(o: Option<String>) -> bool {
    o matches Some(s) && sensitive(s@)
}

pub open spec fn opt_bad_label(o: Option<String>) -> bool {
    o matches Some(s) && !label_ok(s@)
}

pub fn contains_sensitive_marker(value: &str) -> (r: bool)
    ensures
        r == sensitive(value@),
{
    let cs = chars_of(value);
    let l = lower_chars(&cs);
    let m1 = chars_of("token");
    let m2 = chars_of("context");
    let m3 = chars_of("raw");
    let m4 = chars_of("data_key");
    let m5 = chars_of("data-key");
    let m6 = chars_of("secret");
    contains_exec(&l, &m1) || contains_exec(&l, &m2) || contains_exec(&l, &m3) || contains_exec(
        &l,
        &m4,
    ) || contains_exec(&l, &m5) || contains_exec(&l, &m6)
}

#[verifier::loop_isolation(false)]
pub fn looks_redacted(prefix: &str, value: &str) -> (r: bool)
    ensures
        r == redacted(prefix@, value@),
{
    let mut head = chars_of(prefix);
    head.push('#');
    let v = chars_of(value);
    if !has_prefix_exec(&v, &head) {
        return false;
    }
    if v.len() - head.len() != 8 {
        return false;
    }
    let mut i = head.len();
    while i < v.len()
        invariant
            head.len() <= i <= v.len(),
            forall|k: int| head.len() <= k < i ==> is_ascii_hexdigit(#[trigger] v@[k]),
        decreases v.len() - i,
    {
        let c = v[i];
        if !(('0' <= c && c <= '9') || ('a' <= c && c <= 'f') || ('A' <= c && c <= 'F')) {
            assert(!is_ascii_hexdigit(v@[i as int]));
            return false;
        }
        i = i + 1;
    }
    true
}

/// Whether a string is a usable label: not blank and not sensitive.
pub fn is_label_ok(value: &str) -> (r: bool)
    ensures
        r == label_ok(value@),
{
    !is_blank_str(value) && !contains_sensitive_marker(value)
}

pub fn opt_is_sensitive(o: &Option<String>) -> (r: bool)
    ensures
        r == opt_sensitive(*o),
{
    match o {
        Some(s) => contains_sensitive_marker(s.as_str()),
        None => false,
    }
}

fn opt_is_bad_label(o: &Option<String>) -> (r: bool)
    ensures
        r == opt_bad_label(*o),
{
    match o {
        Some(s) => !is_label_ok(s.as_str()),
        None => false,
    }
}

// ---------------------------------------------------------------------------
// Encrypted payloads
// ---------------------------------------------------------------------------
/// What the `base64` crate's standard engine decodes from the characters of
/// `input` (`None` when the input is not valid padded base64).
pub uninterp spec fn standard_base64_decode(input: Seq<char>) -> Option<Seq<u8>>;

/// `base64::engine::general_purpose::STANDARD.decode`: the decoded bytes, or
/// `None` on a decode error.
#[verifier::external_body]
fn decode_standard_base64(input: &str) -> (r: Option<Vec<u8>>)
    ensures
        match r {
            Some(v) => standard_base64_decode(input@) == Some(v@),
            None => standard_base64_decode(input@) is None,
        },
{
    base64::engine::general_purpose::STANDARD.decode(input.as_bytes()).ok()
}

pub open spec fn decoded_refusal(nonce: Option<Seq<u8>>, ciphertext: Option<Seq<u8>>) -> Option<
    Seq<char>,
> {
    match nonce {
        None => Some("pending inbound encrypted payload nonce is invalid base64"@),
        Some(n) => if n.len() != WEIXIN_PAYLOAD_NONCE_LENGTH {
            Some("pending inbound encrypted payload nonce length is invalid"@)
        } else {
            match ciphertext {
                None => Some("pending inbound encrypted payload ciphertext is invalid base64"@),
                Some(c) => if c.len() == 0 {
                    Some("pending inbound encrypted payload ciphertext is empty"@)
                } else {
                    None
                },
            }
        },
    }
}

pub open spec fn opt_bytes(v: Option<Vec<u8>>) -> Option<Seq<u8>> {
    match v {
        Some(b) => Some(b@),
        None => None,
    }
}

pub open spec fn refusal_matches(r: Result<(), WeixinStateError>, m: Option<Seq<char>>) -> bool {
    match m {
        None => r is Ok,
        Some(reason) => r matches Err(WeixinStateError::InvalidRecord { reason: got }) && got@
            == reason,
    }
}

/// Checks the decoded nonce and ciphertext of an encrypted payload: the nonce
/// must decode to exactly twelve bytes and the ciphertext to at least one.
pub fn check_decoded_payload(nonce: Option<Vec<u8>>, ciphertext: Option<Vec<u8>>) -> (r: Result<
    (),
    WeixinStateError,
>)
    ensures
        refusal_matches(r, decoded_refusal(opt_bytes(nonce), opt_bytes(ciphertext))),
{
    match nonce {
        None => {
            return Err(
                WeixinStateError::InvalidRecord {
                    reason: "pending inbound encrypted payload nonce is invalid base64",
                },
            );
        },
        Some(n) => {
            if n.len() != WEIXIN_PAYLOAD_NONCE_LENGTH {
                return Err(
                    WeixinStateError::InvalidRecord {
                        reason: "pending inbound encrypted payload nonce length is invalid",
                    },
                );
            }
        },
    }
    match ciphertext {
        None => Err(
            WeixinStateError::InvalidRecord {
                reason: "pending inbound encrypted payload ciphertext is invalid base64",
            },
        ),
        Some(c) => {
            if c.len() == 0 {
                Err(
                    WeixinStateError::InvalidRecord {
                        reason: "pending inbound encrypted payload ciphertext is empty",
                    },
                )
            } else {
                Ok(())
            }
        },
    }
}

/// Why an encrypted payload is refused, if it is.
pub open spec fn payload_refusal(p: WeixinEncryptedPayload) -> Option<Seq<char>> {
    if p.algorithm@ != "chacha20-poly1305"@ {
        Some("pending inbound encrypted payload algorithm is unsupported"@)
    } else if p.algorithm_version != WEIXIN_PAYLOAD_ALGORITHM_VERSION {
        Some("pending inbound encrypted payload algorithm version is unsupported"@)
    } else if p.aad_version != WEIXIN_PAYLOAD_AAD_VERSION {
        Some("pending inbound encrypted payload aad version is unsupported"@)
    } else if sensitive(p.nonce@) || sensitive(p.ciphertext@) {
        Some("pending inbound encrypted payload contains sensitive markers"@)
    } else {
        decoded_refusal(standard_base64_decode(p.nonce@), standard_base64_decode(p.ciphertext@))
    }
}

pub fn validate_encrypted_payload(payload: &WeixinEncryptedPayload) -> (r: Result<
    (),
    WeixinStateError,
>)
    ensures
        refusal_matches(r, payload_refusal(*payload)),
{
    let alg = chars_of("chacha20-poly1305");
    let got = chars_of(payload.algorithm.as_str());
    if !crate::text::chars_equal(&got, &alg) {
        return Err(
            WeixinStateError::InvalidRecord {
                reason: "pending inbound encrypted payload algorithm is unsupported",
            },
        );
    }
    if payload.algorithm_version != WEIXIN_PAYLOAD_ALGORITHM_VERSION {
        return Err(
            WeixinStateError::InvalidRecord {
                reason: "pending inbound encrypted payload algorithm version is unsupported",
            },
        );
    }
    if payload.aad_version != WEIXIN_PAYLOAD_AAD_VERSION {
        return Err(
            WeixinStateError::InvalidRecord {
                reason: "pending inbound encrypted payload aad version is unsupported",
            },
        );
    }
    if contains_sensitive_marker(payload.nonce.as_str()) || contains_sensitive_marker(
        payload.ciphertext.as_str(),
    ) {
        return Err(
            WeixinStateError::InvalidRecord {
                reason: "pending inbound encrypted payload contains sensitive markers",
            },
        );
    }
    let nonce = decode_standard_base64(payload.nonce.as_str());
    let ciphertext = decode_standard_base64(payload.ciphertext.as_str());
    check_decoded_payload(nonce, ciphertext)
}

// ---------------------------------------------------------------------------
// Record rules
// ---------------------------------------------------------------------------
pub open spec fn pair_request_ok(r: WeixinPairRequest, account_id: Seq<char>) -> bool {
    r.schema_version == WEIXIN_STATE_SCHEMA_VERSION && r.account_id@ == account_id && has_prefix(
        r.peer_id_hash@,
        "peer#"@,
    ) && has_prefix(r.request_id@, "pair-"@)
}

pub open spec fn dm_key_ok(k: Seq<char>) -> bool {
    k.len() == 0 || has_prefix(k, "dm#"@)
}

pub open spec fn trace_ok(t: WeixinLatencyTraceRecord) -> bool {
    t.schema_version == WEIXIN_STATE_SCHEMA_VERSION && has_prefix(t.item_id@, "item#"@)
        && has_prefix(t.message_id_hash@, "message#"@) && has_prefix(t.peer_id_hash@, "peer#"@)
        && dm_key_ok(t.direct_message_key@) && !opt_bad_label(t.session_id) && !opt_bad_label(
        t.terminal_status,
    ) && !opt_bad_label(t.terminal_reason) && !opt_bad_label(t.delivery_status)
        && !opt_bad_label(t.error_label)
}

pub open spec fn receipt_ok(r: WeixinInboundReceiptRecord) -> bool {
    r.schema_version == WEIXIN_STATE_SCHEMA_VERSION && has_prefix(r.message_id_hash@, "message#"@)
        && has_prefix(r.peer_id_hash@, "peer#"@)
}

pub open spec fn delivery_record_ok(d: WeixinDeliveryRecord) -> bool {
    d.schema_version == WEIXIN_STATE_SCHEMA_VERSION && has_prefix(d.delivery_id@, "delivery#"@)
        && !opt_sensitive(d.last_redacted_error)
}

pub open spec fn all_delivery_ids(ids: Seq<String>) -> bool {
    forall|i: int| 0 <= i < ids.len() ==> has_prefix(#[trigger] ids[i]@, "delivery#"@)
}

pub open spec fn manifest_ok(m: WeixinDeliveryManifest, account_id: Seq<char>) -> bool {
    m.schema_version == WEIXIN_STATE_SCHEMA_VERSION && m.account_id@ == account_id && has_prefix(
        m.message_hash@,
        "reply#"@,
    ) && has_prefix(m.item_id@, "item#"@) && label_ok(m.session_id@) && m.total_segments != 0
        && m.delivery_ids@.len() == m.total_segments && all_delivery_ids(m.delivery_ids@)
}

pub open spec fn pending_delivery_fields_ok(
    d: WeixinPendingDeliveryMetadata,
    account_id: Seq<char>,
) -> bool {
    d.schema_version == WEIXIN_STATE_SCHEMA_VERSION && d.account_id@ == account_id && has_prefix(
        d.delivery_id@,
        "delivery#"@,
    ) && has_prefix(d.peer_id_hash@, "peer#"@) && has_prefix(d.direct_message_key@, "dm#"@)
        && has_prefix(d.item_id@, "item#"@) && label_ok(d.session_id@) && has_prefix(
        d.message_hash@,
        "reply#"@,
    ) && d.total_segments != 0 && d.segment_index < d.total_segments && !opt_sensitive(
        d.last_status,
    ) && !opt_sensitive(d.last_redacted_error)
}

pub open spec fn pending_delivery_refusal(
    d: WeixinPendingDeliveryMetadata,
    account_id: Seq<char>,
) -> Option<Seq<char>> {
    if !pending_delivery_fields_ok(d, account_id) {
        Some("pending delivery failed validation"@)
    } else {
        match d.encrypted_payload {
            None => Some("pending delivery encrypted payload is missing"@),
            Some(p) => payload_refusal(p),
        }
    }
}

pub open spec fn cwd_label_ok(o: Option<String>) -> bool {
    o matches Some(s) ==> has_prefix(s@, "cwd#"@)
}

pub open spec fn remote_control_ok(r: WeixinRemoteControlRequestRecord, account_id: Seq<char>) -> bool {
    r.schema_version == WEIXIN_STATE_SCHEMA_VERSION && r.account_id@ == account_id && has_prefix(
        r.request_id@,
        "wxctl#"@,
    ) && has_prefix(r.peer_id_hash@, "peer#"@) && has_prefix(r.direct_message_key@, "dm#"@)
        && has_prefix(r.item_id@, "item#"@) && label_ok(r.session_id@) && label_ok(r.action@)
        && !sensitive(r.reason@) && cwd_label_ok(r.cwd_label) && !opt_sensitive(r.last_status)
}

pub open spec fn binding_ok(
    b: WeixinConversationBinding,
    account_id: Seq<char>,
    workspace_id: Seq<char>,
) -> bool {
    b.schema_version == WEIXIN_STATE_SCHEMA_VERSION && b.account_id@ == account_id && has_prefix(
        b.peer_id_hash@,
        "peer#"@,
    ) && has_prefix(b.direct_message_key@, "dm#"@) && b.workspace_id@ == workspace_id && label_ok(
        b.session_id@,
    ) && !opt_bad_label(b.root_session_id) && !opt_bad_label(b.active_session_id)
        && !opt_bad_label(b.last_completed_session_id) && label_ok(b.source_label@)
}

pub open spec fn lease_owner_ok(o: Option<String>) -> bool {
    o matches Some(s) ==> has_prefix(s@, "lease#"@) && !sensitive(s@)
}

pub open spec fn lease_token_ok(o: Option<String>) -> bool {
    o matches Some(s) ==> has_prefix(s@, "attempt#"@) && !sensitive(s@)
}

pub open spec fn pending_inbound_fields_ok(p: WeixinPendingInbound, account_id: Seq<char>) -> bool {
    p.schema_version == WEIXIN_STATE_SCHEMA_VERSION && p.account_id@ == account_id && has_prefix(
        p.item_id@,
        "item#"@,
    ) && has_prefix(p.message_id_hash@, "message#"@) && has_prefix(p.peer_id_hash@, "peer#"@)
        && dm_key_ok(p.direct_message_key@) && label_ok(p.encrypted_payload_ref@)
        && !opt_sensitive(p.payload_kind) && !opt_bad_label(p.turn_session_id) && !opt_bad_label(
        p.parent_session_id,
    ) && !opt_sensitive(p.last_dispatch_error) && lease_owner_ok(p.lease_owner)
        && lease_token_ok(p.lease_token)
}

pub open spec fn pending_inbound_refusal(p: WeixinPendingInbound, account_id: Seq<char>) -> Option<
    Seq<char>,
> {
    if !pending_inbound_fields_ok(p, account_id) {
        Some("pending inbound failed validation"@)
    } else {
        match p.encrypted_payload {
            None => Some("pending inbound encrypted payload is missing"@),
            Some(q) => payload_refusal(q),
        }
    }
}

/// The refusal of the first element that has one.
pub open spec fn first_refusal<T>(s: Seq<T>, f: spec_fn(T) -> Option<Seq<char>>) -> Option<
    Seq<char>,
>
    decreases s.len(),
{
    if s.len() == 0 {
        None
    } else {
        match first_refusal(s.drop_last(), f) {
            Some(m) => Some(m),
            None => f(s.last()),
        }
    }
}

pub proof fn lemma_first_refusal_step<T>(s: Seq<T>, f: spec_fn(T) -> Option<Seq<char>>, i: int)
    requires
        0 <= i < s.len(),
        first_refusal(s.take(i), f) is None,
    ensures
        first_refusal(s.take(i + 1), f) == f(s[i]),
{
    assert(s.take(i + 1).drop_last() =~= s.take(i));
}

pub proof fn lemma_first_refusal_prefix<T>(s: Seq<T>, f: spec_fn(T) -> Option<Seq<char>>, k: int)
    requires
        0 <= k <= s.len(),
        first_refusal(s.take(k), f) is Some,
    ensures
        first_refusal(s, f) == first_refusal(s.take(k), f),
    decreases s.len() - k,
{
    if k < s.len() {
        assert(s.take(k + 1).drop_last() =~= s.take(k));
        lemma_first_refusal_prefix(s, f, k + 1);
    } else {
        assert(s.take(k) =~= s);
    }
}

/// When a prefix already has a refusal, the whole sequence has the same one.
pub proof fn lemma_first_refusal_prefix_opt<T>(s: Seq<T>, f: spec_fn(T) -> Option<Seq<char>>, k: int)
    requires
        0 <= k <= s.len(),
    ensures
        first_refusal(s.take(k), f) is Some ==> first_refusal(s, f) == first_refusal(s.take(k), f),
{
    if first_refusal(s.take(k), f) is Some {
        lemma_first_refusal_prefix(s, f, k);
    }
}

pub open spec fn when_bad(ok: bool, reason: Seq<char>) -> Option<Seq<char>> {
    if ok {
        None
    } else {
        Some(reason)
    }
}

pub open spec fn then_refusal(a: Option<Seq<char>>, b: Option<Seq<char>>) -> Option<Seq<char>> {
    if a is Some {
        a
    } else {
        b
    }
}

pub open spec fn pair_check(a: Seq<char>) -> spec_fn(WeixinPairRequest) -> Option<Seq<char>> {
    |r: WeixinPairRequest| when_bad(pair_request_ok(r, a), "pair request failed validation"@)
}

pub open spec fn trace_check() -> spec_fn(WeixinLatencyTraceRecord) -> Option<Seq<char>> {
    |t: WeixinLatencyTraceRecord| when_bad(trace_ok(t), "latency trace failed validation"@)
}

pub open spec fn receipt_check() -> spec_fn(WeixinInboundReceiptRecord) -> Option<Seq<char>> {
    |r: WeixinInboundReceiptRecord| when_bad(receipt_ok(r), "inbound receipt failed validation"@)
}

pub open spec fn delivery_check() -> spec_fn(WeixinDeliveryRecord) -> Option<Seq<char>> {
    |d: WeixinDeliveryRecord| when_bad(delivery_record_ok(d), "delivery record failed validation"@)
}

pub open spec fn manifest_check(a: Seq<char>) -> spec_fn(WeixinDeliveryManifest) -> Option<Seq<char>> {
    |m: WeixinDeliveryManifest| when_bad(manifest_ok(m, a), "delivery manifest failed validation"@)
}

pub open spec fn pending_delivery_check(a: Seq<char>) -> spec_fn(WeixinPendingDeliveryMetadata) -> Option<Seq<char>> {
    |d: WeixinPendingDeliveryMetadata| pending_delivery_refusal(d, a)
}

pub open spec fn remote_check(a: Seq<char>) -> spec_fn(WeixinRemoteControlRequestRecord) -> Option<Seq<char>> {
    |r: WeixinRemoteControlRequestRecord|
        when_bad(remote_control_ok(r, a), "remote control request failed validation"@)
}

pub open spec fn binding_check(a: Seq<char>, w: Seq<char>) -> spec_fn(WeixinConversationBinding) -> Option<Seq<char>> {
    |b: WeixinConversationBinding| when_bad(binding_ok(b, a, w), "conversation binding failed validation"@)
}

pub open spec fn pending_inbound_check(a: Seq<char>) -> spec_fn(WeixinPendingInbound) -> Option<Seq<char>> {
    |p: WeixinPendingInbound| pending_inbound_refusal(p, a)
}

/// Why a snapshot with the current schema version is refused, if it is: the
/// first rule broken, checked in a fixed order.
pub open spec fn snapshot_refusal(s: WeixinStateSnapshot) -> Option<Seq<char>> {
    let a = s.account_id@;
    let w = s.workspace_id@;
    then_refusal(
        when_bad(redacted("account"@, a), "account id must be redacted"@),
        then_refusal(
            when_bad(redacted("workspace"@, w), "workspace id must be redacted"@),
            then_refusal(
                when_bad(!is_blank(s.endpoint@), "endpoint is empty"@),
                then_refusal(
                    first_refusal(s.pair_requests@, pair_check(a)),
                    then_refusal(
                        first_refusal(s.latency_traces@, trace_check()),
                        then_refusal(
                            first_refusal(s.inbound_receipts@, receipt_check()),
                            then_refusal(
                                first_refusal(s.deliveries@, delivery_check()),
                                then_refusal(
                                    first_refusal(s.delivery_manifests@, manifest_check(a)),
                                    then_refusal(
                                        first_refusal(s.pending_deliveries@, pending_delivery_check(a)),
                                        then_refusal(
                                            first_refusal(s.remote_control_requests@, remote_check(a)),
                                            then_refusal(
                                                first_refusal(s.conversation_bindings@, binding_check(a, w)),
                                                first_refusal(s.pending_inbound@, pending_inbound_check(a)),
                                            ),
                                        ),
                                    ),
                                ),
                            ),
                        ),
                    ),
                ),
            ),
        ),
    )
}

/// Everything a snapshot must satisfy before it is written or after it is read.
pub open spec fn snapshot_valid(s: WeixinStateSnapshot) -> bool {
    s.schema_version == WEIXIN_STATE_SCHEMA_VERSION && snapshot_refusal(s) is None
}

// ---------------------------------------------------------------------------
// Executable checks, one per record kind
// ---------------------------------------------------------------------------
fn prefix_is(s: &String, p: &str) -> (r: bool)
    ensures
        r == has_prefix(s@, p@),
{
    starts_with(s.as_str(), p)
}

fn is_dm_key_ok(k: &String) -> (r: bool)
    ensures
        r == dm_key_ok(k@),
{
    let cs = chars_of(k.as_str());
    cs.len() == 0 || prefix_is(k, "dm#")
}

pub fn validate_latency_trace(trace: &WeixinLatencyTraceRecord) -> (r: Result<(), WeixinStateError>)
    ensures
        refusal_matches(r, when_bad(trace_ok(*trace), "latency trace failed validation"@)),
{
    if trace.schema_version != WEIXIN_STATE_SCHEMA_VERSION || !prefix_is(&trace.item_id, "item#")
        || !prefix_is(&trace.message_id_hash, "message#") || !prefix_is(
        &trace.peer_id_hash,
        "peer#",
    ) || !is_dm_key_ok(&trace.direct_message_key) || opt_is_bad_label(&trace.session_id)
        || opt_is_bad_label(&trace.terminal_status) || opt_is_bad_label(&trace.terminal_reason)
        || opt_is_bad_label(&trace.delivery_status) || opt_is_bad_label(&trace.error_label) {
        return Err(WeixinStateError::InvalidRecord { reason: "latency trace failed validation" });
    }
    Ok(())
}

fn is_pair_request_ok(r: &WeixinPairRequest, account_id: &String) -> (ok: bool)
    ensures
        ok == pair_request_ok(*r, account_id@),
{
    r.schema_version == WEIXIN_STATE_SCHEMA_VERSION && r.account_id == *account_id && prefix_is(
        &r.peer_id_hash,
        "peer#",
    ) && prefix_is(&r.request_id, "pair-")
}

fn is_receipt_ok(r: &WeixinInboundReceiptRecord) -> (ok: bool)
    ensures
        ok == receipt_ok(*r),
{
    r.schema_version == WEIXIN_STATE_SCHEMA_VERSION && prefix_is(&r.message_id_hash, "message#")
        && prefix_is(&r.peer_id_hash, "peer#")
}

fn is_delivery_record_ok(d: &WeixinDeliveryRecord) -> (ok: bool)
    ensures
        ok == delivery_record_ok(*d),
{
    d.schema_version == WEIXIN_STATE_SCHEMA_VERSION && prefix_is(&d.delivery_id, "delivery#")
        && !opt_is_sensitive(&d.last_redacted_error)
}

fn are_delivery_ids_ok(ids: &Vec<String>) -> (ok: bool)
    ensures
        ok == all_delivery_ids(ids@),
{
    let mut i: usize = 0;
    while i < ids.len()
        invariant
            i <= ids.len(),
            forall|k: int| 0 <= k < i ==> has_prefix(#[trigger] ids@[k]@, "delivery#"@),
        decreases ids.len() - i,
    {
        if !prefix_is(&ids[i], "delivery#") {
            return false;
        }
        i = i + 1;
    }
    true
}

fn is_manifest_ok(m: &WeixinDeliveryManifest, account_id: &String) -> (ok: bool)
    ensures
        ok == manifest_ok(*m, account_id@),
{
    m.schema_version == WEIXIN_STATE_SCHEMA_VERSION && m.account_id == *account_id && prefix_is(
        &m.message_hash,
        "reply#",
    ) && prefix_is(&m.item_id, "item#") && is_label_ok(m.session_id.as_str()) && m.total_segments
        != 0 && m.delivery_ids.len() as u64 == m.total_segments as u64 && are_delivery_ids_ok(
        &m.delivery_ids,
    )
}

fn check_pending_delivery(d: &WeixinPendingDeliveryMetadata, account_id: &String) -> (r: Result<
    (),
    WeixinStateError,
>)
    ensures
        refusal_matches(r, pending_delivery_refusal(*d, account_id@)),
{
    if !(d.schema_version == WEIXIN_STATE_SCHEMA_VERSION && d.account_id == *account_id
        && prefix_is(&d.delivery_id, "delivery#") && prefix_is(&d.peer_id_hash, "peer#")
        && prefix_is(&d.direct_message_key, "dm#") && prefix_is(&d.item_id, "item#")
        && is_label_ok(d.session_id.as_str()) && prefix_is(&d.message_hash, "reply#")
        && d.total_segments != 0 && d.segment_index < d.total_segments && !opt_is_sensitive(
        &d.last_status,
    ) && !opt_is_sensitive(&d.last_redacted_error)) {
        return Err(WeixinStateError::InvalidRecord { reason: "pending delivery failed validation" });
    }
    match &d.encrypted_payload {
        None => Err(
            WeixinStateError::InvalidRecord {
                reason: "pending delivery encrypted payload is missing",
            },
        ),
        Some(p) => validate_encrypted_payload(p),
    }
}

fn is_cwd_label_ok(o: &Option<String>) -> (ok: bool)
    ensures
        ok == cwd_label_ok(*o),
{
    match o {
        Some(s) => prefix_is(s, "cwd#"),
        None => true,
    }
}

fn is_remote_control_ok(r: &WeixinRemoteControlRequestRecord, account_id: &String) -> (ok: bool)
    ensures
        ok == remote_control_ok(*r, account_id@),
{
    r.schema_version == WEIXIN_STATE_SCHEMA_VERSION && r.account_id == *account_id && prefix_is(
        &r.request_id,
        "wxctl#",
    ) && prefix_is(&r.peer_id_hash, "peer#") && prefix_is(&r.direct_message_key, "dm#")
        && prefix_is(&r.item_id, "item#") && is_label_ok(r.session_id.as_str()) && is_label_ok(
        r.action.as_str(),
    ) && !contains_sensitive_marker(r.reason.as_str()) && is_cwd_label_ok(&r.cwd_label)
        && !opt_is_sensitive(&r.last_status)
}

fn is_binding_ok(b: &WeixinConversationBinding, account_id: &String, workspace_id: &String) -> (ok:
    bool)
    ensures
        ok == binding_ok(*b, account_id@, workspace_id@),
{
    b.schema_version == WEIXIN_STATE_SCHEMA_VERSION && b.account_id == *account_id && prefix_is(
        &b.peer_id_hash,
        "peer#",
    ) && prefix_is(&b.direct_message_key, "dm#") && b.workspace_id == *workspace_id
        && is_label_ok(b.session_id.as_str()) && !opt_is_bad_label(&b.root_session_id)
        && !opt_is_bad_label(&b.active_session_id) && !opt_is_bad_label(
        &b.last_completed_session_id,
    ) && is_label_ok(b.source_label.as_str())
}

fn is_lease_owner_ok(o: &Option<String>) -> (ok: bool)
    ensures
        ok == lease_owner_ok(*o),
{
    match o {
        Some(s) => prefix_is(s, "lease#") && !contains_sensitive_marker(s.as_str()),
        None => true,
    }
}

fn is_lease_token_ok(o: &Option<String>) -> (ok: bool)
    ensures
        ok == lease_token_ok(*o),
{
    match o {
        Some(s) => prefix_is(s, "attempt#") && !contains_sensitive_marker(s.as_str()),
        None => true,
    }
}

fn check_pending_inbound(p: &WeixinPendingInbound, account_id: &String) -> (r: Result<
    (),
    WeixinStateError,
>)
    ensures
        refusal_matches(r, pending_inbound_refusal(*p, account_id@)),
{
    if !(p.schema_version == WEIXIN_STATE_SCHEMA_VERSION && p.account_id == *account_id
        && prefix_is(&p.item_id, "item#") && prefix_is(&p.message_id_hash, "message#")
        && prefix_is(&p.peer_id_hash, "peer#") && is_dm_key_ok(&p.direct_message_key)
        && is_label_ok(p.encrypted_payload_ref.as_str()) && !opt_is_sensitive(&p.payload_kind)
        && !opt_is_bad_label(&p.turn_session_id) && !opt_is_bad_label(&p.parent_session_id)
        && !opt_is_sensitive(&p.last_dispatch_error) && is_lease_owner_ok(&p.lease_owner)
        && is_lease_token_ok(&p.lease_token)) {
        return Err(WeixinStateError::InvalidRecord { reason: "pending inbound failed validation" });
    }
    match &p.encrypted_payload {
        None => Err(
            WeixinStateError::InvalidRecord {
                reason: "pending inbound encrypted payload is missing",
            },
        ),
        Some(q) => validate_encrypted_payload(q),
    }
}

/// Checks a snapshot before it is persisted or after it is loaded.
#[verifier::loop_isolation(false)]
pub fn validate_snapshot(snapshot: &WeixinStateSnapshot) -> (r: Result<(), WeixinStateError>)
    ensures
        snapshot.schema_version != WEIXIN_STATE_SCHEMA_VERSION ==> (r matches Err(
            WeixinStateError::FutureSchema { found, supported },
        ) && found == snapshot.schema_version && supported == WEIXIN_STATE_SCHEMA_VERSION),
        snapshot.schema_version == WEIXIN_STATE_SCHEMA_VERSION ==> refusal_matches(
            r,
            snapshot_refusal(*snapshot),
        ),
        r is Ok <==> snapshot_valid(*snapshot),
{
    if snapshot.schema_version != WEIXIN_STATE_SCHEMA_VERSION {
        return Err(
            WeixinStateError::FutureSchema {
                found: snapshot.schema_version,
                supported: WEIXIN_STATE_SCHEMA_VERSION,
            },
        );
    }
    let a = &snapshot.account_id;
    let w = &snapshot.workspace_id;
    if !looks_redacted("account", a.as_str()) {
        return Err(WeixinStateError::InvalidRecord { reason: "account id must be redacted" });
    }
    if !looks_redacted("workspace", w.as_str()) {
        return Err(WeixinStateError::InvalidRecord { reason: "workspace id must be redacted" });
    }
    if is_blank_str(snapshot.endpoint.as_str()) {
        return Err(WeixinStateError::InvalidRecord { reason: "endpoint is empty" });
    }
    let ghost fa = pair_check(a@);
    let mut i: usize = 0;
    while i < snapshot.pair_requests.len()
        invariant
            i <= snapshot.pair_requests.len(),
            first_refusal(snapshot.pair_requests@.take(i as int), fa) is None,
        decreases snapshot.pair_requests.len() - i,
    {
        proof {
            lemma_first_refusal_step(snapshot.pair_requests@, fa, i as int);
            lemma_first_refusal_prefix_opt(snapshot.pair_requests@, fa, i + 1);
        }
        if !is_pair_request_ok(&snapshot.pair_requests[i], a) {
            return Err(WeixinStateError::InvalidRecord { reason: "pair request failed validation" });
        }
        i = i + 1;
    }
    assert(snapshot.pair_requests@.take(i as int) =~= snapshot.pair_requests@);
    let ghost fb = trace_check();
    let mut i: usize = 0;
    while i < snapshot.latency_traces.len()
        invariant
            i <= snapshot.latency_traces.len(),
            first_refusal(snapshot.latency_traces@.take(i as int), fb) is None,
        decreases snapshot.latency_traces.len() - i,
    {
        proof {
            lemma_first_refusal_step(snapshot.latency_traces@, fb, i as int);
            lemma_first_refusal_prefix_opt(snapshot.latency_traces@, fb, i + 1);
        }
        let c = validate_latency_trace(&snapshot.latency_traces[i]);
        if c.is_err() {
            return c;
        }
        i = i + 1;
    }
    assert(snapshot.latency_traces@.take(i as int) =~= snapshot.latency_traces@);
    let ghost fc = receipt_check();
    let mut i: usize = 0;
    while i < snapshot.inbound_receipts.len()
        invariant
            i <= snapshot.inbound_receipts.len(),
            first_refusal(snapshot.inbound_receipts@.take(i as int), fc) is None,
        decreases snapshot.inbound_receipts.len() - i,
    {
        proof {
            lemma_first_refusal_step(snapshot.inbound_receipts@, fc, i as int);
            lemma_first_refusal_prefix_opt(snapshot.inbound_receipts@, fc, i + 1);
        }
        if !is_receipt_ok(&snapshot.inbound_receipts[i]) {
            return Err(WeixinStateError::InvalidRecord { reason: "inbound receipt failed validation" });
        }
        i = i + 1;
    }
    assert(snapshot.inbound_receipts@.take(i as int) =~= snapshot.inbound_receipts@);
    let ghost fd = delivery_check();
    let mut i: usize = 0;
    while i < snapshot.deliveries.len()
        invariant
            i <= snapshot.deliveries.len(),
            first_refusal(snapshot.deliveries@.take(i as int), fd) is None,
        decreases snapshot.deliveries.len() - i,
    {
        proof {
            lemma_first_refusal_step(snapshot.deliveries@, fd, i as int);
            lemma_first_refusal_prefix_opt(snapshot.deliveries@, fd, i + 1);
        }
        if !is_delivery_record_ok(&snapshot.deliveries[i]) {
            return Err(WeixinStateError::InvalidRecord { reason: "delivery record failed validation" });
        }
        i = i + 1;
    }
    assert(snapshot.deliveries@.take(i as int) =~= snapshot.deliveries@);
    let ghost fe = manifest_check(a@);
    let mut i: usize = 0;
    while i < snapshot.delivery_manifests.len()
        invariant
            i <= snapshot.delivery_manifests.len(),
            first_refusal(snapshot.delivery_manifests@.take(i as int), fe) is None,
        decreases snapshot.delivery_manifests.len() - i,
    {
        proof {
            lemma_first_refusal_step(snapshot.delivery_manifests@, fe, i as int);
            lemma_first_refusal_prefix_opt(snapshot.delivery_manifests@, fe, i + 1);
        }
        if !is_manifest_ok(&snapshot.delivery_manifests[i], a) {
            return Err(
                WeixinStateError::InvalidRecord { reason: "delivery manifest failed validation" },
            );
        }
        i = i + 1;
    }
    assert(snapshot.delivery_manifests@.take(i as int) =~= snapshot.delivery_manifests@);
    let ghost ff = pending_delivery_check(a@);
    let mut i: usize = 0;
    while i < snapshot.pending_deliveries.len()
        invariant
            i <= snapshot.pending_deliveries.len(),
            first_refusal(snapshot.pending_deliveries@.take(i as int), ff) is None,
        decreases snapshot.pending_deliveries.len() - i,
    {
        proof {
            lemma_first_refusal_step(snapshot.pending_deliveries@, ff, i as int);
            lemma_first_refusal_prefix_opt(snapshot.pending_deliveries@, ff, i + 1);
        }
        let c = check_pending_delivery(&snapshot.pending_deliveries[i], a);
        if c.is_err() {
            return c;
        }
        i = i + 1;
    }
    assert(snapshot.pending_deliveries@.take(i as int) =~= snapshot.pending_deliveries@);
    let ghost fg = remote_check(a@);
    let mut i: usize = 0;
    while i < snapshot.remote_control_requests.len()
        invariant
            i <= snapshot.remote_control_requests.len(),
            first_refusal(snapshot.remote_control_requests@.take(i as int), fg) is None,
        decreases snapshot.remote_control_requests.len() - i,
    {
        proof {
            lemma_first_refusal_step(snapshot.remote_control_requests@, fg, i as int);
            lemma_first_refusal_prefix_opt(snapshot.remote_control_requests@, fg, i + 1);
        }
        if !is_remote_control_ok(&snapshot.remote_control_requests[i], a) {
            return Err(
                WeixinStateError::InvalidRecord {
                    reason: "remote control request failed validation",
                },
            );
        }
        i = i + 1;
    }
    assert(snapshot.remote_control_requests@.take(i as int) =~= snapshot.remote_control_requests@);
    let ghost fh = binding_check(a@, w@);
    let mut i: usize = 0;
    while i < snapshot.conversation_bindings.len()
        invariant
            i <= snapshot.conversation_bindings.len(),
            first_refusal(snapshot.conversation_bindings@.take(i as int), fh) is None,
        decreases snapshot.conversation_bindings.len() - i,
    {
        proof {
            lemma_first_refusal_step(snapshot.conversation_bindings@, fh, i as int);
            lemma_first_refusal_prefix_opt(snapshot.conversation_bindings@, fh, i + 1);
        }
        if !is_binding_ok(&snapshot.conversation_bindings[i], a, w) {
            return Err(
                WeixinStateError::InvalidRecord { reason: "conversation binding failed validation" },
            );
        }
        i = i + 1;
    }
    assert(snapshot.conversation_bindings@.take(i as int) =~= snapshot.conversation_bindings@);
    let ghost fi = pending_inbound_check(a@);
    let mut i: usize = 0;
    while i < snapshot.pending_inbound.len()
        invariant
            i <= snapshot.pending_inbound.len(),
            first_refusal(snapshot.pending_inbound@.take(i as int), fi) is None,
        decreases snapshot.pending_inbound.len() - i,
    {
        proof {
            lemma_first_refusal_step(snapshot.pending_inbound@, fi, i as int);
            lemma_first_refusal_prefix_opt(snapshot.pending_inbound@, fi, i + 1);
        }
        let c = check_pending_inbound(&snapshot.pending_inbound[i], a);
        if c.is_err() {
            return c;
        }
        i = i + 1;
    }
    assert(snapshot.pending_inbound@.take(i as int) =~= snapshot.pending_inbound@);
    Ok(())
}

// ---------------------------------------------------------------------------
// Commit item rules
// ---------------------------------------------------------------------------
pub open spec fn delivery_item_fields_ok(account_id: Seq<char>, item: WeixinPendingDeliveryCommitItem) -> bool {
    redacted("account"@, account_id) && has_prefix(item.delivery_id@, "delivery#"@) && has_prefix(
        item.peer_id_hash@,
        "peer#"@,
    ) && has_prefix(item.direct_message_key@, "dm#"@) && has_prefix(item.item_id@, "item#"@)
        && label_ok(item.session_id@) && has_prefix(item.message_hash@, "reply#"@)
        && item.total_segments != 0 && item.segment_index < item.total_segments
}

pub open spec fn delivery_item_refusal(account_id: Seq<char>, item: WeixinPendingDeliveryCommitItem) -> Option<
    Seq<char>,
> {
    if !delivery_item_fields_ok(account_id, item) {
        Some("pending delivery commit failed validation"@)
    } else {
        payload_refusal(item.encrypted_payload)
    }
}

pub fn validate_delivery_commit_item(account_id: &str, item: &WeixinPendingDeliveryCommitItem) -> (r:
    Result<(), WeixinStateError>)
    ensures
        refusal_matches(r, delivery_item_refusal(account_id@, *item)),
{
    if !looks_redacted("account", account_id) || !prefix_is(&item.delivery_id, "delivery#")
        || !prefix_is(&item.peer_id_hash, "peer#") || !prefix_is(&item.direct_message_key, "dm#")
        || !prefix_is(&item.item_id, "item#") || !is_label_ok(item.session_id.as_str())
        || !prefix_is(&item.message_hash, "reply#") || item.total_segments == 0
        || item.segment_index >= item.total_segments {
        return Err(
            WeixinStateError::InvalidRecord { reason: "pending delivery commit failed validation" },
        );
    }
    validate_encrypted_payload(&item.encrypted_payload)
}

pub open spec fn remote_item_ok(account_id: Seq<char>, item: WeixinRemoteControlCommitItem) -> bool {
    redacted("account"@, account_id) && has_prefix(item.request_id@, "wxctl#"@) && has_prefix(
        item.peer_id_hash@,
        "peer#"@,
    ) && has_prefix(item.direct_message_key@, "dm#"@) && has_prefix(item.item_id@, "item#"@)
        && label_ok(item.session_id@) && label_ok(item.action@) && !sensitive(item.reason@)
        && cwd_label_ok(item.cwd_label)
}

pub fn validate_remote_control_commit_item(
    account_id: &str,
    item: &WeixinRemoteControlCommitItem,
) -> (r: Result<(), WeixinStateError>)
    ensures
        refusal_matches(
            r,
            when_bad(remote_item_ok(account_id@, *item), "remote control commit failed validation"@),
        ),
{
    if !looks_redacted("account", account_id) || !prefix_is(&item.request_id, "wxctl#")
        || !prefix_is(&item.peer_id_hash, "peer#") || !prefix_is(&item.direct_message_key, "dm#")
        || !prefix_is(&item.item_id, "item#") || !is_label_ok(item.session_id.as_str())
        || !is_label_ok(item.action.as_str()) || contains_sensitive_marker(item.reason.as_str())
        || !is_cwd_label_ok(&item.cwd_label) {
        return Err(
            WeixinStateError::InvalidRecord { reason: "remote control commit failed validation" },
        );
    }
    Ok(())
}

} // verus!
