use vstd::prelude::*;

verus! {

pub const WEIXIN_STATE_SCHEMA_VERSION: u32 = 6;

pub const WEIXIN_PAYLOAD_ALGORITHM_VERSION: u32 = 1;

pub const WEIXIN_PAYLOAD_AAD_VERSION: u32 = 1;

pub const WEIXIN_PAYLOAD_NONCE_LENGTH: usize = 12;

pub const WEIXIN_PENDING_INBOUND_LIMIT: usize = 1024;

pub const WEIXIN_TERMINAL_RECEIPT_LIMIT: usize = 2048;

pub const WEIXIN_TERMINAL_RECEIPT_TTL_MILLIS: u64 = 604800000;

pub const WEIXIN_LATENCY_TRACE_LIMIT: usize = 128;

// ---------------------------------------------------------------------------
// State enums
// ---------------------------------------------------------------------------
#[derive(Clone, Copy, Debug, PartialEq, Eq, Structural)]
pub enum WeixinDeliveryManifestState {
    Pending,
    Succeeded,
    Failed,
    Unknown,
}

#[derive(Clone, Copy, Debug, PartialEq, Eq, Structural)]
pub enum WeixinRemoteControlPurposeRecord {
    Approval,
    UserInput,
    Cancellation,
}

#[derive(Clone, Copy, Debug, PartialEq, Eq, Structural)]
pub enum WeixinRemoteControlState {
    Pending,
    Consumed,
    Expired,
    Rejected,
    Cancelled,
}

impl WeixinRemoteControlState {
    pub open spec fn name(self) -> Seq<char> {
        match self {
            WeixinRemoteControlState::Pending => "pending"@,
            WeixinRemoteControlState::Consumed => "consumed"@,
            WeixinRemoteControlState::Expired => "expired"@,
            WeixinRemoteControlState::Rejected => "rejected"@,
            WeixinRemoteControlState::Cancelled => "cancelled"@,
        }
    }

    pub fn as_str(self) -> (r: &'static str)
        ensures
            r@ == self.name(),
    {
        match self {
            WeixinRemoteControlState::Pending => "pending",
            WeixinRemoteControlState::Consumed => "consumed",
            WeixinRemoteControlState::Expired => "expired",
            WeixinRemoteControlState::Rejected => "rejected",
            WeixinRemoteControlState::Cancelled => "cancelled",
        }
    }
}

#[derive(Clone, Copy, Debug, PartialEq, Eq, Structural)]
pub enum WeixinConnectionStateRecord {
    NotConfigured,
    Ready,
    Suspended,
    LoggedOut,
}

#[derive(Clone, Copy, Debug, PartialEq, Eq, Structural)]
pub enum WeixinReceiptState {
    Accepted,
    Ready,
    Running,
    Succeeded,
    Failed,
    Cancelled,
    Expired,
    Unknown,
}

impl WeixinReceiptState {
    pub open spec fn terminal(self) -> bool {
        matches!(
            self,
            WeixinReceiptState::Succeeded | WeixinReceiptState::Failed
                | WeixinReceiptState::Cancelled | WeixinReceiptState::Expired
                | WeixinReceiptState::Unknown
        )
    }

    pub fn is_terminal(self) -> (r: bool)
        ensures
            r == self.terminal(),
    {
        match self {
            WeixinReceiptState::Succeeded | WeixinReceiptState::Failed
            | WeixinReceiptState::Cancelled | WeixinReceiptState::Expired
            | WeixinReceiptState::Unknown => true,
            _ => false,
        }
    }
}

#[derive(Clone, Copy, Debug, PartialEq, Eq, Structural)]
pub enum WeixinDeliveryState {
    Pending,
    Running,
    Succeeded,
    Failed,
    Cancelled,
    Expired,
    Unknown,
}

impl WeixinDeliveryState {
    pub open spec fn name(self) -> Seq<char> {
        match self {
            WeixinDeliveryState::Pending => "pending"@,
            WeixinDeliveryState::Running => "running"@,
            WeixinDeliveryState::Succeeded => "succeeded"@,
            WeixinDeliveryState::Failed => "failed"@,
            WeixinDeliveryState::Cancelled => "cancelled"@,
            WeixinDeliveryState::Expired => "expired"@,
            WeixinDeliveryState::Unknown => "unknown"@,
        }
    }

    pub fn as_str(self) -> (r: &'static str)
        ensures
            r@ == self.name(),
    {
        match self {
            WeixinDeliveryState::Pending => "pending",
            WeixinDeliveryState::Running => "running",
            WeixinDeliveryState::Succeeded => "succeeded",
            WeixinDeliveryState::Failed => "failed",
            WeixinDeliveryState::Cancelled => "cancelled",
            WeixinDeliveryState::Expired => "expired",
            WeixinDeliveryState::Unknown => "unknown",
        }
    }

    pub open spec fn terminal(self) -> bool {
        matches!(
            self,
            WeixinDeliveryState::Succeeded | WeixinDeliveryState::Failed
                | WeixinDeliveryState::Cancelled | WeixinDeliveryState::Expired
                | WeixinDeliveryState::Unknown
        )
    }

    pub fn is_terminal(self) -> (r: bool)
        ensures
            r == self.terminal(),
    {
        match self {
            WeixinDeliveryState::Succeeded | WeixinDeliveryState::Failed
            | WeixinDeliveryState::Cancelled | WeixinDeliveryState::Expired
            | WeixinDeliveryState::Unknown => true,
            _ => false,
        }
    }
}

#[derive(Clone, Copy, Debug, PartialEq, Eq, Structural)]
pub enum WeixinPairRequestState {
    Pending,
    Approved,
    Denied,
    Expired,
}

#[derive(Clone, Copy, Debug, PartialEq, Eq, Structural)]
pub enum WeixinPendingInboundState {
    Accepted,
    Ready,
    Running,
    Succeeded,
    Failed,
    Cancelled,
    Expired,
    Unknown,
}

impl WeixinPendingInboundState {
    pub open spec fn name(self) -> Seq<char> {
        match self {
            WeixinPendingInboundState::Accepted => "accepted"@,
            WeixinPendingInboundState::Ready => "ready"@,
            WeixinPendingInboundState::Running => "running"@,
            WeixinPendingInboundState::Succeeded => "succeeded"@,
            WeixinPendingInboundState::Failed => "failed"@,
            WeixinPendingInboundState::Cancelled => "cancelled"@,
            WeixinPendingInboundState::Expired => "expired"@,
            WeixinPendingInboundState::Unknown => "unknown"@,
        }
    }

    pub fn as_str(self) -> (r: &'static str)
        ensures
            r@ == self.name(),
    {
        match self {
            WeixinPendingInboundState::Accepted => "accepted",
            WeixinPendingInboundState::Ready => "ready",
            WeixinPendingInboundState::Running => "running",
            WeixinPendingInboundState::Succeeded => "succeeded",
            WeixinPendingInboundState::Failed => "failed",
            WeixinPendingInboundState::Cancelled => "cancelled",
            WeixinPendingInboundState::Expired => "expired",
            WeixinPendingInboundState::Unknown => "unknown",
        }
    }

    pub open spec fn terminal(self) -> bool {
        matches!(
            self,
            WeixinPendingInboundState::Succeeded | WeixinPendingInboundState::Failed
                | WeixinPendingInboundState::Cancelled | WeixinPendingInboundState::Expired
                | WeixinPendingInboundState::Unknown
        )
    }

    pub fn is_terminal(self) -> (r: bool)
        ensures
            r == self.terminal(),
    {
        match self {
            WeixinPendingInboundState::Succeeded | WeixinPendingInboundState::Failed
            | WeixinPendingInboundState::Cancelled | WeixinPendingInboundState::Expired
            | WeixinPendingInboundState::Unknown => true,
            _ => false,
        }
    }

    /// The lifecycle: accepted, then ready, then running, then a terminal state;
    /// a ready item may also end without running.
    pub open spec fn allows(self, target: Self) -> bool {
        match (self, target) {
            (WeixinPendingInboundState::Accepted, WeixinPendingInboundState::Ready) => true,
            (WeixinPendingInboundState::Ready, WeixinPendingInboundState::Running) => true,
            (WeixinPendingInboundState::Ready, t) => t.terminal() && t
                != WeixinPendingInboundState::Succeeded,
            (WeixinPendingInboundState::Running, t) => t.terminal(),
            _ => false,
        }
    }

    pub fn can_transition_to(self, target: Self) -> (r: bool)
        ensures
            r == self.allows(target),
    {
        match (self, target) {
            (WeixinPendingInboundState::Accepted, WeixinPendingInboundState::Ready) => true,
            (WeixinPendingInboundState::Ready, WeixinPendingInboundState::Running) => true,
            (WeixinPendingInboundState::Ready, WeixinPendingInboundState::Failed) => true,
            (WeixinPendingInboundState::Ready, WeixinPendingInboundState::Cancelled) => true,
            (WeixinPendingInboundState::Ready, WeixinPendingInboundState::Expired) => true,
            (WeixinPendingInboundState::Ready, WeixinPendingInboundState::Unknown) => true,
            (WeixinPendingInboundState::Running, WeixinPendingInboundState::Succeeded) => true,
            (WeixinPendingInboundState::Running, WeixinPendingInboundState::Failed) => true,
            (WeixinPendingInboundState::Running, WeixinPendingInboundState::Cancelled) => true,
            (WeixinPendingInboundState::Running, WeixinPendingInboundState::Expired) => true,
            (WeixinPendingInboundState::Running, WeixinPendingInboundState::Unknown) => true,
            _ => false,
        }
    }
}

#[derive(Clone, Copy, Debug, PartialEq, Eq, Structural)]
pub enum WeixinAccountLockState {
    Free,
    Active,
    Stale,
}

impl WeixinAccountLockState {
    pub open spec fn name(self) -> Seq<char> {
        match self {
            WeixinAccountLockState::Free => "free"@,
            WeixinAccountLockState::Active => "active"@,
            WeixinAccountLockState::Stale => "stale"@,
        }
    }

    pub fn as_str(self) -> (r: &'static str)
        ensures
            r@ == self.name(),
    {
        match self {
            WeixinAccountLockState::Free => "free",
            WeixinAccountLockState::Active => "active",
            WeixinAccountLockState::Stale => "stale",
        }
    }
}

// ---------------------------------------------------------------------------
// Errors
// ---------------------------------------------------------------------------
/// Why a state operation was refused. File-system failures are reported by the
/// caller that performs the I/O and are not part of this type.
#[derive(Debug)]
pub enum WeixinStateError {
    InvalidJson { path: String },
    FutureSchema { found: u32, supported: u32 },
    InvalidRecord { reason: &'static str },
    InjectedFailure { operation: &'static str },
    StateNotFound { account_id: String },
    LockActive { account_id: String },
    LockAlreadyExists,
    PairRequestNotFound { request_id: String },
    PairRequestAccountMismatch,
    PairRequestConsumed { request_id: String },
    PairRequestExpired { request_id: String },
    InvalidTransition { from: &'static str, to: &'static str },
    PendingInboundQueueFull { limit: usize },
    PendingInboundNotFound { item_id: String },
    DeliveryNotFound { delivery_id: String },
    RemoteControlRequestNotFound { request_id: String },
}

// ---------------------------------------------------------------------------
// Records
// ---------------------------------------------------------------------------
#[derive(Debug)]
pub struct WeixinCredentialReferenceRecord {
    pub backend: String,
    pub token_target: String,
    pub data_key_target: String,
}

impl Clone for WeixinCredentialReferenceRecord {
    fn clone(&self) -> (r: Self)
        ensures
            r == *self,
    {
        WeixinCredentialReferenceRecord {
            backend: self.backend.clone(),
            token_target: self.token_target.clone(),
            data_key_target: self.data_key_target.clone(),
        }
    }
}

#[derive(Debug)]
pub struct WeixinCursorRecord {
    pub schema_version: u32,
    pub account_id: String,
    pub get_updates_buf: Option<String>,
    pub source: String,
    pub created_at_millis: u64,
    pub updated_at_millis: u64,
    pub transitioned_at_millis: u64,
}

impl Clone for WeixinCursorRecord {
    fn clone(&self) -> (r: Self)
        ensures
            r == *self,
    {
        WeixinCursorRecord {
            schema_version: self.schema_version,
            account_id: self.account_id.clone(),
            get_updates_buf: clone_opt_string(&self.get_updates_buf),
            source: self.source.clone(),
            created_at_millis: self.created_at_millis,
            updated_at_millis: self.updated_at_millis,
            transitioned_at_millis: self.transitioned_at_millis,
        }
    }
}

#[derive(Debug)]
pub struct WeixinInboundReceiptRecord {
    pub schema_version: u32,
    pub message_id_hash: String,
    pub peer_id_hash: String,
    pub accepted_at_millis: u64,
    pub state: WeixinReceiptState,
    pub created_at_millis: u64,
    pub updated_at_millis: u64,
    pub transitioned_at_millis: u64,
}

impl Clone for WeixinInboundReceiptRecord {
    fn clone(&self) -> (r: Self)
        ensures
            r == *self,
    {
        WeixinInboundReceiptRecord {
            schema_version: self.schema_version,
            message_id_hash: self.message_id_hash.clone(),
            peer_id_hash: self.peer_id_hash.clone(),
            accepted_at_millis: self.accepted_at_millis,
            state: self.state,
            created_at_millis: self.created_at_millis,
            updated_at_millis: self.updated_at_millis,
            transitioned_at_millis: self.transitioned_at_millis,
        }
    }
}

#[derive(Debug)]
pub struct WeixinDeliveryRecord {
    pub schema_version: u32,
    pub delivery_id: String,
    pub state: WeixinDeliveryState,
    pub last_redacted_error: Option<String>,
    pub created_at_millis: u64,
    pub updated_at_millis: u64,
    pub transitioned_at_millis: u64,
}

impl Clone for WeixinDeliveryRecord {
    fn clone(&self) -> (r: Self)
        ensures
            r == *self,
    {
        WeixinDeliveryRecord {
            schema_version: self.schema_version,
            delivery_id: self.delivery_id.clone(),
            state: self.state,
            last_redacted_error: clone_opt_string(&self.last_redacted_error),
            created_at_millis: self.created_at_millis,
            updated_at_millis: self.updated_at_millis,
            transitioned_at_millis: self.transitioned_at_millis,
        }
    }
}

#[derive(Debug)]
pub struct WeixinDeliveryManifest {
    pub schema_version: u32,
    pub message_hash: String,
    pub account_id: String,
    pub item_id: String,
    pub session_id: String,
    pub total_segments: u32,
    pub delivery_ids: Vec<String>,
    pub state: WeixinDeliveryManifestState,
    pub created_at_millis: u64,
    pub updated_at_millis: u64,
}

#[derive(Debug)]
pub struct WeixinConversationBinding {
    pub schema_version: u32,
    pub account_id: String,
    pub peer_id_hash: String,
    pub direct_message_key: String,
    pub workspace_id: String,
    pub root_session_id: Option<String>,
    pub active_session_id: Option<String>,
    pub last_completed_session_id: Option<String>,
    pub session_id: String,
    pub source_label: String,
    pub created_at_millis: u64,
    pub last_activity_millis: u64,
    pub updated_at_millis: u64,
    pub transitioned_at_millis: u64,
}

impl Clone for WeixinConversationBinding {
    fn clone(&self) -> (r: Self)
        ensures
            r == *self,
    {
        WeixinConversationBinding {
            schema_version: self.schema_version,
            account_id: self.account_id.clone(),
            peer_id_hash: self.peer_id_hash.clone(),
            direct_message_key: self.direct_message_key.clone(),
            workspace_id: self.workspace_id.clone(),
            root_session_id: clone_opt_string(&self.root_session_id),
            active_session_id: clone_opt_string(&self.active_session_id),
            last_completed_session_id: clone_opt_string(&self.last_completed_session_id),
            session_id: self.session_id.clone(),
            source_label: self.source_label.clone(),
            created_at_millis: self.created_at_millis,
            last_activity_millis: self.last_activity_millis,
            updated_at_millis: self.updated_at_millis,
            transitioned_at_millis: self.transitioned_at_millis,
        }
    }
}

#[derive(Debug)]
pub struct WeixinRuntimeTurnBeginRequest {
    pub account_id: String,
    pub peer_id_hash: String,
    pub message_id_hash: String,
    pub item_id: String,
    pub direct_message_key: String,
    pub workspace_id: String,
    pub candidate_session_id: String,
    pub source_label: String,
    pub now_millis: u64,
}

#[derive(Debug)]
pub struct WeixinReplyContextReference {
    pub schema_version: u32,
    pub reference_id: String,
    pub secret_target: String,
    pub purpose: String,
    pub expires_at_millis: u64,
    pub created_at_millis: u64,
    pub updated_at_millis: u64,
}

#[derive(Debug)]
pub struct WeixinEncryptedPayload {
    pub algorithm: String,
    pub algorithm_version: u32,
    pub aad_version: u32,
    pub nonce: String,
    pub ciphertext: String,
}

impl Clone for WeixinEncryptedPayload {
    fn clone(&self) -> (r: Self)
        ensures
            r == *self,
    {
        WeixinEncryptedPayload {
            algorithm: self.algorithm.clone(),
            algorithm_version: self.algorithm_version,
            aad_version: self.aad_version,
            nonce: self.nonce.clone(),
            ciphertext: self.ciphertext.clone(),
        }
    }
}

#[derive(Debug)]
pub struct WeixinPendingDeliveryMetadata {
    pub schema_version: u32,
    pub account_id: String,
    pub delivery_id: String,
    pub peer_id_hash: String,
    pub direct_message_key: String,
    pub item_id: String,
    pub session_id: String,
    pub message_hash: String,
    pub segment_index: u32,
    pub total_segments: u32,
    pub wait_for_turn_completion: bool,
    pub encrypted_payload: Option<WeixinEncryptedPayload>,
    pub state: WeixinDeliveryState,
    pub retry_count: u32,
    pub last_status: Option<String>,
    pub last_redacted_error: Option<String>,
    pub next_retry_at_millis: Option<u64>,
    pub created_at_millis: u64,
    pub updated_at_millis: u64,
    pub transitioned_at_millis: u64,
}

impl Clone for WeixinPendingDeliveryMetadata {
    fn clone(&self) -> (r: Self)
        ensures
            r == *self,
    {
        WeixinPendingDeliveryMetadata {
            schema_version: self.schema_version,
            account_id: self.account_id.clone(),
            delivery_id: self.delivery_id.clone(),
            peer_id_hash: self.peer_id_hash.clone(),
            direct_message_key: self.direct_message_key.clone(),
            item_id: self.item_id.clone(),
            session_id: self.session_id.clone(),
            message_hash: self.message_hash.clone(),
            segment_index: self.segment_index,
            total_segments: self.total_segments,
            wait_for_turn_completion: self.wait_for_turn_completion,
            encrypted_payload: match &self.encrypted_payload {
                Some(p) => Some(p.clone()),
                None => None,
            },
            state: self.state,
            retry_count: self.retry_count,
            last_status: clone_opt_string(&self.last_status),
            last_redacted_error: clone_opt_string(&self.last_redacted_error),
            next_retry_at_millis: self.next_retry_at_millis,
            created_at_millis: self.created_at_millis,
            updated_at_millis: self.updated_at_millis,
            transitioned_at_millis: self.transitioned_at_millis,
        }
    }
}

#[derive(Debug)]
pub struct WeixinRemoteControlRequestRecord {
    pub schema_version: u32,
    pub request_id: String,
    pub account_id: String,
    pub peer_id_hash: String,
    pub direct_message_key: String,
    pub item_id: String,
    pub session_id: String,
    pub purpose: WeixinRemoteControlPurposeRecord,
    pub state: WeixinRemoteControlState,
    pub action: String,
    pub reason: String,
    pub cwd_label: Option<String>,
    pub last_status: Option<String>,
    pub expires_at_millis: u64,
    pub created_at_millis: u64,
    pub updated_at_millis: u64,
    pub transitioned_at_millis: u64,
}

impl Clone for WeixinRemoteControlRequestRecord {
    fn clone(&self) -> (r: Self)
        ensures
            r == *self,
    {
        WeixinRemoteControlRequestRecord {
            schema_version: self.schema_version,
            request_id: self.request_id.clone(),
            account_id: self.account_id.clone(),
            peer_id_hash: self.peer_id_hash.clone(),
            direct_message_key: self.direct_message_key.clone(),
            item_id: self.item_id.clone(),
            session_id: self.session_id.clone(),
            purpose: self.purpose,
            state: self.state,
            action: self.action.clone(),
            reason: self.reason.clone(),
            cwd_label: clone_opt_string(&self.cwd_label),
            last_status: clone_opt_string(&self.last_status),
            expires_at_millis: self.expires_at_millis,
            created_at_millis: self.created_at_millis,
            updated_at_millis: self.updated_at_millis,
            transitioned_at_millis: self.transitioned_at_millis,
        }
    }
}

#[derive(Debug)]
pub struct WeixinPairRequest {
    pub schema_version: u32,
    pub request_id: String,
    pub account_id: String,
    pub peer_id_hash: String,
    pub state: WeixinPairRequestState,
    pub expires_at_millis: u64,
    pub created_at_millis: u64,
    pub updated_at_millis: u64,
    pub transitioned_at_millis: u64,
}

impl Clone for WeixinPairRequest {
    fn clone(&self) -> (r: Self)
        ensures
            r == *self,
    {
        WeixinPairRequest {
            schema_version: self.schema_version,
            request_id: self.request_id.clone(),
            account_id: self.account_id.clone(),
            peer_id_hash: self.peer_id_hash.clone(),
            state: self.state,
            expires_at_millis: self.expires_at_millis,
            created_at_millis: self.created_at_millis,
            updated_at_millis: self.updated_at_millis,
            transitioned_at_millis: self.transitioned_at_millis,
        }
    }
}

#[derive(Debug)]
pub struct WeixinPendingInbound {
    pub schema_version: u32,
    pub item_id: String,
    pub account_id: String,
    pub message_id_hash: String,
    pub peer_id_hash: String,
    pub direct_message_key: String,
    pub encrypted_payload_ref: String,
    pub payload_kind: Option<String>,
    pub encrypted_payload: Option<WeixinEncryptedPayload>,
    pub turn_session_id: Option<String>,
    pub parent_session_id: Option<String>,
    pub dispatch_retry_count: u32,
    pub next_retry_at_millis: Option<u64>,
    pub last_dispatch_error: Option<String>,
    pub lease_owner: Option<String>,
    pub lease_token: Option<String>,
    pub lease_started_at_millis: Option<u64>,
    pub lease_expires_at_millis: Option<u64>,
    pub state: WeixinPendingInboundState,
    pub terminal_reason: Option<String>,
    pub created_at_millis: u64,
    pub updated_at_millis: u64,
    pub transitioned_at_millis: u64,
}

impl Clone for WeixinPendingInbound {
    fn clone(&self) -> (r: Self)
        ensures
            r == *self,
    {
        WeixinPendingInbound {
            schema_version: self.schema_version,
            item_id: self.item_id.clone(),
            account_id: self.account_id.clone(),
            message_id_hash: self.message_id_hash.clone(),
            peer_id_hash: self.peer_id_hash.clone(),
            direct_message_key: self.direct_message_key.clone(),
            encrypted_payload_ref: self.encrypted_payload_ref.clone(),
            payload_kind: clone_opt_string(&self.payload_kind),
            encrypted_payload: match &self.encrypted_payload {
                Some(p) => Some(p.clone()),
                None => None,
            },
            turn_session_id: clone_opt_string(&self.turn_session_id),
            parent_session_id: clone_opt_string(&self.parent_session_id),
            dispatch_retry_count: self.dispatch_retry_count,
            next_retry_at_millis: self.next_retry_at_millis,
            last_dispatch_error: clone_opt_string(&self.last_dispatch_error),
            lease_owner: clone_opt_string(&self.lease_owner),
            lease_token: clone_opt_string(&self.lease_token),
            lease_started_at_millis: self.lease_started_at_millis,
            lease_expires_at_millis: self.lease_expires_at_millis,
            state: self.state,
            terminal_reason: clone_opt_string(&self.terminal_reason),
            created_at_millis: self.created_at_millis,
            updated_at_millis: self.updated_at_millis,
            transitioned_at_millis: self.transitioned_at_millis,
        }
    }
}

impl WeixinPendingInbound {
    /// Moves the item to `target` when the lifecycle allows it.
    pub fn transition(&mut self, target: WeixinPendingInboundState, now_millis: u64) -> (r: Result<
        (),
        WeixinStateError,
    >)
        ensures
            old(self).state.allows(target) ==> r is Ok && *final(self) == (WeixinPendingInbound {
                state: target,
                updated_at_millis: now_millis,
                transitioned_at_millis: now_millis,
                ..*old(self)
            }),
            !old(self).state.allows(target) ==> *final(self) == *old(self) && (r matches Err(
                WeixinStateError::InvalidTransition { from, to },
            ) && from@ == old(self).state.name() && to@ == target.name()),
    {
        if !self.state.can_transition_to(target) {
            return Err(
                WeixinStateError::InvalidTransition {
                    from: self.state.as_str(),
                    to: target.as_str(),
                },
            );
        }
        self.state = target;
        self.updated_at_millis = now_millis;
        self.transitioned_at_millis = now_millis;
        Ok(())
    }
}

#[derive(Debug)]
pub struct WeixinLatencyTraceRecord {
    pub schema_version: u32,
    pub item_id: String,
    pub message_id_hash: String,
    pub peer_id_hash: String,
    pub direct_message_key: String,
    pub session_id: Option<String>,
    pub poll_started_at_millis: Option<u64>,
    pub poll_completed_at_millis: Option<u64>,
    pub inbound_committed_at_millis: Option<u64>,
    pub dispatch_claimed_at_millis: Option<u64>,
    pub runtime_started_at_millis: Option<u64>,
    pub runtime_completed_at_millis: Option<u64>,
    pub spool_written_at_millis: Option<u64>,
    pub turn_completed_at_millis: Option<u64>,
    pub delivery_started_at_millis: Option<u64>,
    pub delivery_completed_at_millis: Option<u64>,
    pub delivery_segment_count: u32,
    pub delivery_attempt_count: u32,
    pub delivery_success_count: u32,
    pub terminal_status: Option<String>,
    pub terminal_reason: Option<String>,
    pub delivery_status: Option<String>,
    pub error_label: Option<String>,
    pub created_at_millis: u64,
    pub updated_at_millis: u64,
}

impl Clone for WeixinLatencyTraceRecord {
    fn clone(&self) -> (r: Self)
        ensures
            r == *self,
    {
        WeixinLatencyTraceRecord {
            schema_version: self.schema_version,
            item_id: self.item_id.clone(),
            message_id_hash: self.message_id_hash.clone(),
            peer_id_hash: self.peer_id_hash.clone(),
            direct_message_key: self.direct_message_key.clone(),
            session_id: clone_opt_string(&self.session_id),
            poll_started_at_millis: self.poll_started_at_millis,
            poll_completed_at_millis: self.poll_completed_at_millis,
            inbound_committed_at_millis: self.inbound_committed_at_millis,
            dispatch_claimed_at_millis: self.dispatch_claimed_at_millis,
            runtime_started_at_millis: self.runtime_started_at_millis,
            runtime_completed_at_millis: self.runtime_completed_at_millis,
            spool_written_at_millis: self.spool_written_at_millis,
            turn_completed_at_millis: self.turn_completed_at_millis,
            delivery_started_at_millis: self.delivery_started_at_millis,
            delivery_completed_at_millis: self.delivery_completed_at_millis,
            delivery_segment_count: self.delivery_segment_count,
            delivery_attempt_count: self.delivery_attempt_count,
            delivery_success_count: self.delivery_success_count,
            terminal_status: clone_opt_string(&self.terminal_status),
            terminal_reason: clone_opt_string(&self.terminal_reason),
            delivery_status: clone_opt_string(&self.delivery_status),
            error_label: clone_opt_string(&self.error_label),
            created_at_millis: self.created_at_millis,
            updated_at_millis: self.updated_at_millis,
        }
    }
}

/// The elapsed time from `start` to `end`, saturating at zero.
pub open spec fn span(start: Option<u64>, end: Option<u64>) -> Option<u64> {
    match (start, end) {
        (Some(s), Some(e)) => Some(if e >= s {
            (e - s) as u64
        } else {
            0
        }),
        _ => None,
    }
}

pub fn duration_millis(start: Option<u64>, end: Option<u64>) -> (r: Option<u64>)
    ensures
        r == span(start, end),
{
    match (start, end) {
        (Some(s), Some(e)) => Some(e.saturating_sub(s)),
        _ => None,
    }
}

pub open spec fn first_some(a: Option<u64>, b: Option<u64>) -> Option<u64> {
    if a is Some {
        a
    } else {
        b
    }
}

impl WeixinLatencyTraceRecord {
    /// From the earliest recorded start (poll start, then commit, then runtime
    /// start) to the latest recorded end.
    pub open spec fn total_span(&self) -> Option<u64> {
        let start = first_some(
            first_some(self.poll_started_at_millis, self.inbound_committed_at_millis),
            self.runtime_started_at_millis,
        );
        let end = first_some(
            first_some(
                first_some(
                    first_some(self.delivery_completed_at_millis, self.turn_completed_at_millis),
                    self.spool_written_at_millis,
                ),
                self.runtime_completed_at_millis,
            ),
            self.inbound_committed_at_millis,
        );
        span(start, end)
    }

    pub fn total_latency_millis(&self) -> (r: Option<u64>)
        ensures
            r == self.total_span(),
    {
        let start = match self.poll_started_at_millis {
            Some(v) => Some(v),
            None => match self.inbound_committed_at_millis {
                Some(v) => Some(v),
                None => self.runtime_started_at_millis,
            },
        };
        let end = match self.delivery_completed_at_millis {
            Some(v) => Some(v),
            None => match self.turn_completed_at_millis {
                Some(v) => Some(v),
                None => match self.spool_written_at_millis {
                    Some(v) => Some(v),
                    None => match self.runtime_completed_at_millis {
                        Some(v) => Some(v),
                        None => self.inbound_committed_at_millis,
                    },
                },
            },
        };
        duration_millis(start, end)
    }

    pub fn poll_latency_millis(&self) -> (r: Option<u64>)
        ensures
            r == span(self.poll_started_at_millis, self.poll_completed_at_millis),
    {
        duration_millis(self.poll_started_at_millis, self.poll_completed_at_millis)
    }

    pub fn queue_latency_millis(&self) -> (r: Option<u64>)
        ensures
            r == span(self.inbound_committed_at_millis, self.runtime_started_at_millis),
    {
        duration_millis(self.inbound_committed_at_millis, self.runtime_started_at_millis)
    }

    pub fn runtime_latency_millis(&self) -> (r: Option<u64>)
        ensures
            r == span(self.runtime_started_at_millis, self.runtime_completed_at_millis),
    {
        duration_millis(self.runtime_started_at_millis, self.runtime_completed_at_millis)
    }

    pub fn spool_latency_millis(&self) -> (r: Option<u64>)
        ensures
            r == span(self.runtime_completed_at_millis, self.spool_written_at_millis),
    {
        duration_millis(self.runtime_completed_at_millis, self.spool_written_at_millis)
    }

    pub fn delivery_wait_millis(&self) -> (r: Option<u64>)
        ensures
            r == span(self.spool_written_at_millis, self.delivery_started_at_millis),
    {
        duration_millis(self.spool_written_at_millis, self.delivery_started_at_millis)
    }

    pub fn delivery_latency_millis(&self) -> (r: Option<u64>)
        ensures
            r == span(self.delivery_started_at_millis, self.delivery_completed_at_millis),
    {
        duration_millis(self.delivery_started_at_millis, self.delivery_completed_at_millis)
    }
}

pub fn clone_opt_string(o: &Option<String>) -> (r: Option<String>)
    ensures
        r == *o,
{
    match o {
        Some(s) => Some(s.clone()),
        None => None,
    }
}

// ---------------------------------------------------------------------------
// Commit inputs and results
// ---------------------------------------------------------------------------
#[derive(Clone, Copy, Debug, PartialEq, Eq, Structural)]
pub struct WeixinStateWriteOptions {
    pub fail_before_replace: bool,
}

#[derive(Debug)]
pub struct WeixinInboundCommitItem {
    pub item_id: String,
    pub message_id_hash: String,
    pub peer_id_hash: String,
    pub direct_message_key: String,
    pub encrypted_payload_ref: String,
    pub encrypted_payload: WeixinEncryptedPayload,
    pub payload_kind: Option<String>,
}

#[derive(Debug)]
pub struct WeixinPairRequestCommitItem {
    pub peer_id_hash: String,
    pub expires_at_millis: u64,
}

#[derive(Debug)]
pub struct WeixinPendingDeliveryCommitItem {
    pub delivery_id: String,
    pub peer_id_hash: String,
    pub direct_message_key: String,
    pub item_id: String,
    pub session_id: String,
    pub message_hash: String,
    pub segment_index: u32,
    pub total_segments: u32,
    pub wait_for_turn_completion: bool,
    pub encrypted_payload: WeixinEncryptedPayload,
}

#[derive(Debug)]
pub struct WeixinDeliveryManifestCommitItem {
    pub message_hash: String,
    pub item_id: String,
    pub session_id: String,
    pub total_segments: u32,
    pub delivery_ids: Vec<String>,
}

#[derive(Debug)]
pub struct WeixinRemoteControlCommitItem {
    pub request_id: String,
    pub peer_id_hash: String,
    pub direct_message_key: String,
    pub item_id: String,
    pub session_id: String,
    pub purpose: WeixinRemoteControlPurposeRecord,
    pub action: String,
    pub reason: String,
    pub cwd_label: Option<String>,
    pub expires_at_millis: u64,
}

#[derive(Debug)]
pub struct WeixinInboundBatchCommitResult {
    pub accepted_count: usize,
    pub accepted_item_ids: Vec<String>,
    pub duplicate_count: usize,
    pub pair_request_count: usize,
    pub receipt_count: usize,
    pub pending_inbound_count: usize,
}

#[derive(Debug)]
pub struct WeixinInboundBatchCommit {
    pub account_id: String,
    pub cursor_source: String,
    pub next_get_updates_buf: Option<String>,
    pub poll_started_at_millis: Option<u64>,
    pub poll_completed_at_millis: Option<u64>,
    pub accepted: Vec<WeixinInboundCommitItem>,
    pub pair_requests: Vec<WeixinPairRequestCommitItem>,
    pub connection_state: Option<WeixinConnectionStateRecord>,
    pub last_redacted_error: Option<String>,
    pub now_millis: u64,
}

impl WeixinInboundBatchCommit {
    /// An empty batch for `account_id` that reads from the `getupdates` cursor
    /// and leaves the connection ready.
    pub fn new(account_id: String, now_millis: u64) -> (r: Self)
        ensures
            r.account_id == account_id,
            r.cursor_source@ == "getupdates"@,
            r.next_get_updates_buf is None,
            r.poll_started_at_millis is None,
            r.poll_completed_at_millis is None,
            r.accepted@.len() == 0,
            r.pair_requests@.len() == 0,
            r.connection_state == Some(WeixinConnectionStateRecord::Ready),
            r.last_redacted_error is None,
            r.now_millis == now_millis,
    {
        WeixinInboundBatchCommit {
            account_id,
            cursor_source: crate::text::owned("getupdates"),
            next_get_updates_buf: None,
            poll_started_at_millis: None,
            poll_completed_at_millis: None,
            accepted: Vec::new(),
            pair_requests: Vec::new(),
            connection_state: Some(WeixinConnectionStateRecord::Ready),
            last_redacted_error: None,
            now_millis,
        }
    }
}

#[derive(Debug)]
pub struct WeixinAccountLockInfo {
    pub state: WeixinAccountLockState,
    pub pid: Option<u32>,
    pub workspace_id: Option<String>,
    pub created_at_millis: Option<u64>,
}

impl WeixinAccountLockInfo {
    /// The description of an account whose lock file does not exist.
    pub fn free() -> (r: Self)
        ensures
            r.state == WeixinAccountLockState::Free,
            r.pid is None,
            r.workspace_id is None,
            r.created_at_millis is None,
    {
        WeixinAccountLockInfo {
            state: WeixinAccountLockState::Free,
            pid: None,
            workspace_id: None,
            created_at_millis: None,
        }
    }
}

#[derive(Debug)]
pub struct WeixinStateMigration {
    pub from_schema: u32,
    pub to_schema: u32,
}

} // verus!
