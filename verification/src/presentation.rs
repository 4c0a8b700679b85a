use vstd::prelude::*;
use crate::frame::RedrawReason;
use crate::text::{owned, push_str};

verus! {

/// The stable identity of a transcript cell.
#[derive(Debug, PartialEq, Eq)]
pub struct TuiCellId(pub String);

impl TuiCellId {
    pub fn as_str(&self) -> (r: &str)
        ensures
            r@ == self.0@,
    {
        self.0.as_str()
    }

    /// An identity made from the given text.
    pub fn from_test(value: &str) -> (r: Self)
        ensures
            r.0@ == value@,
    {
        TuiCellId(owned(value))
    }

    /// The identity of a cell derived from this one: `id:suffix`.
    pub fn with_suffix(&self, suffix: &str) -> (r: Self)
        ensures
            r.0@ == self.0@ + ":"@ + suffix@,
    {
        let mut s = owned(self.0.as_str());
        push_str(&mut s, ":");
        push_str(&mut s, suffix);
        TuiCellId(s)
    }
}

impl Clone for TuiCellId {
    fn clone(&self) -> (r: Self)
        ensures
            r == *self,
    {
        TuiCellId(self.0.clone())
    }
}

#[derive(Clone, Copy, Debug, PartialEq, Eq, Structural)]
pub enum TuiCellKind {
    UserMessage,
    AssistantMessage,
    ProgressSummary,
    ToolStatusSummary,
    ApprovalRequest,
    Notice,
    ErrorSummary,
    DebugDetail,
}

#[derive(Clone, Debug)]
pub struct PresentationDetail {
    pub id: TuiCellId,
    pub label: String,
    pub content: String,
}

#[derive(Clone, Copy, Debug, PartialEq, Eq, Structural)]
pub enum TuiSourceSequence {
    ProviderReliable(u64),
    LocalFallback(u64),
}

impl TuiSourceSequence {
    /// The sequence number, whatever its source.
    pub fn value(self) -> (r: u64)
        ensures
            r == match self {
                TuiSourceSequence::ProviderReliable(v) => v,
                TuiSourceSequence::LocalFallback(v) => v,
            },
    {
        match self {
            TuiSourceSequence::ProviderReliable(v) => v,
            TuiSourceSequence::LocalFallback(v) => v,
        }
    }

    /// The sequence number when the provider guarantees its order.
    pub fn reliable_value(self) -> (r: Option<u64>)
        ensures
            r == match self {
                TuiSourceSequence::ProviderReliable(v) => Some(v),
                TuiSourceSequence::LocalFallback(_) => None::<u64>,
            },
    {
        match self {
            TuiSourceSequence::ProviderReliable(v) => Some(v),
            TuiSourceSequence::LocalFallback(_) => None,
        }
    }
}

#[derive(Clone, Copy, Debug, PartialEq, Eq, Structural)]
pub enum TuiStreamPhase {
    Started,
    Delta,
    Retry,
    Final,
    Finish,
    Cancel,
}

#[derive(Clone, Debug)]
pub struct TuiStreamIdentity {
    pub thread_id: String,
    pub turn_id: String,
    pub stream_id: String,
    pub event_id: String,
    pub source_sequence: TuiSourceSequence,
    pub phase: TuiStreamPhase,
}

#[derive(Clone, Debug)]
pub struct TuiStreamState {
    pub stable_source: String,
    pub live_tail: String,
    pub committed: bool,
    pub identity: TuiStreamIdentity,
    pub offline_label: bool,
}

/// Where an event may be shown.
#[derive(Clone, Copy, Debug, PartialEq, Eq, Structural)]
pub enum PresentationVisibility {
    Transcript,
    DebugOnly,
    Hidden,
}

/// One event as the terminal shows it.
#[derive(Clone, Debug)]
pub struct TuiEvent {
    pub id: TuiCellId,
    pub kind: TuiCellKind,
    pub visible_text: String,
    pub detail: Option<PresentationDetail>,
    pub stream: Option<TuiStreamState>,
    pub visibility: PresentationVisibility,
}

pub open spec fn shown(visibility: PresentationVisibility, debug_enabled: bool) -> bool {
    match visibility {
        PresentationVisibility::Transcript => true,
        PresentationVisibility::DebugOnly => debug_enabled,
        PresentationVisibility::Hidden => false,
    }
}

/// Whether an event is shown: transcript events always, debug events only
/// with debugging on, hidden events never.
pub fn should_show(event: &TuiEvent, debug_enabled: bool) -> (r: bool)
    ensures
        r == shown(event.visibility, debug_enabled),
{
    match event.visibility {
        PresentationVisibility::Transcript => true,
        PresentationVisibility::DebugOnly => debug_enabled,
        PresentationVisibility::Hidden => false,
    }
}

/// Whether an event is shown depends on nothing but its visibility and the
/// debug switch.
pub proof fn lemma_visibility_gate(a: TuiEvent, b: TuiEvent, debug_enabled: bool)
    requires
        a.visibility == b.visibility,
    ensures
        shown(a.visibility, debug_enabled) == shown(b.visibility, debug_enabled),
{
}

pub open spec fn redraw_reason(kind: TuiCellKind, phase: Option<TuiStreamPhase>) -> RedrawReason {
    if kind == TuiCellKind::ErrorSummary {
        RedrawReason::Error
    } else {
        match phase {
            Some(TuiStreamPhase::Started) | Some(TuiStreamPhase::Delta) | Some(
                TuiStreamPhase::Retry,
            ) => RedrawReason::StreamDelta,
            Some(TuiStreamPhase::Final) | Some(TuiStreamPhase::Finish) | Some(
                TuiStreamPhase::Cancel,
            ) => RedrawReason::StreamFinalized,
            None => RedrawReason::StatusChanged,
        }
    }
}

/// Errors redraw at once, stream progress is coalesced, finished streams
/// are drawn on the next frame, anything else counts as a status change.
pub fn redraw_reason_for_tui_event(event: &TuiEvent) -> (r: RedrawReason)
    ensures
        r == redraw_reason(
            event.kind,
            match event.stream {
                Some(s) => Some(s.identity.phase),
                None => None::<TuiStreamPhase>,
            },
        ),
{
    if event.kind == TuiCellKind::ErrorSummary {
        return RedrawReason::Error;
    }
    match &event.stream {
        None => RedrawReason::StatusChanged,
        Some(s) => match s.identity.phase {
            TuiStreamPhase::Started | TuiStreamPhase::Delta | TuiStreamPhase::Retry => {
                RedrawReason::StreamDelta
            },
            TuiStreamPhase::Final | TuiStreamPhase::Finish | TuiStreamPhase::Cancel => {
                RedrawReason::StreamFinalized
            },
        },
    }
}

} // verus!
