use vstd::prelude::*;
use vstd::utf8::encode_utf8;
use crate::fingerprint::{fnv1a, hex_fixed, push_hex_fixed, stable_hash};
use crate::presentation::{
    PresentationDetail, PresentationVisibility, TuiCellId, TuiCellKind, TuiEvent, TuiSourceSequence,
    TuiStreamIdentity, TuiStreamPhase, TuiStreamState,
};
use crate::text::{decimal, owned, push_decimal_u128, push_str};

verus! {

/// `n + 1`, held at the largest value.
pub open spec fn bump(n: u64) -> u64 {
    if n == u64::MAX {
        n
    } else {
        (n + 1) as u64
    }
}

/// Sixteen lower-case hexadecimal digits, as `{:016x}` writes them.
pub open spec fn hex16(n: u64) -> Seq<char> {
    hex_fixed(n as nat, 16)
}

/// The name `{:?}` gives a stream phase.
pub open spec fn phase_name(p: TuiStreamPhase) -> Seq<char> {
    match p {
        TuiStreamPhase::Started => "Started"@,
        TuiStreamPhase::Delta => "Delta"@,
        TuiStreamPhase::Retry => "Retry"@,
        TuiStreamPhase::Final => "Final"@,
        TuiStreamPhase::Finish => "Finish"@,
        TuiStreamPhase::Cancel => "Cancel"@,
    }
}

/// The identity of the `n`-th cell under a prefix.
pub open spec fn cell_id_text(prefix: Seq<char>, n: u64) -> Seq<char> {
    prefix + ":"@ + hex16(n)
}

/// The identity of a cell's detail under a label.
pub open spec fn detail_id_text(cell: Seq<char>, label: Seq<char>) -> Seq<char> {
    "detail:"@ + cell + ":"@ + hex16(fnv1a(encode_utf8(label)))
}

/// The values of a stream identity.
pub struct IdentityView {
    pub thread_id: Seq<char>,
    pub turn_id: Seq<char>,
    pub stream_id: Seq<char>,
    pub event_id: Seq<char>,
    pub source_sequence: TuiSourceSequence,
    pub phase: TuiStreamPhase,
}

pub open spec fn identity_view(i: TuiStreamIdentity) -> IdentityView {
    IdentityView {
        thread_id: i.thread_id@,
        turn_id: i.turn_id@,
        stream_id: i.stream_id@,
        event_id: i.event_id@,
        source_sequence: i.source_sequence,
        phase: i.phase,
    }
}

/// Hands out cell identities, numbers local turns, and tracks the
/// assistant stream that is open.
pub struct TuiPresentation {
    next_cell_sequence: u64,
    next_local_turn_sequence: u64,
    next_local_source_sequence: u64,
    current_local_turn_id: Option<String>,
    active_stream: Option<TuiStreamIdentity>,
    offline_label: bool,
}

pub struct PresentationView {
    pub next_cell: u64,
    pub next_turn: u64,
    pub next_source: u64,
    pub turn: Option<Seq<char>>,
    pub active: Option<IdentityView>,
    pub offline_label: bool,
}

impl View for TuiPresentation {
    type V = PresentationView;

    closed spec fn view(&self) -> PresentationView {
        PresentationView {
            next_cell: self.next_cell_sequence,
            next_turn: self.next_local_turn_sequence,
            next_source: self.next_local_source_sequence,
            turn: match self.current_local_turn_id {
                Some(t) => Some(t@),
                None => None,
            },
            active: match self.active_stream {
                Some(i) => Some(identity_view(i)),
                None => None,
            },
            offline_label: self.offline_label,
        }
    }
}

fn clone_identity(i: &TuiStreamIdentity) -> (r: TuiStreamIdentity)
    ensures
        identity_view(r) == identity_view(*i),
{
    TuiStreamIdentity {
        thread_id: i.thread_id.clone(),
        turn_id: i.turn_id.clone(),
        stream_id: i.stream_id.clone(),
        event_id: i.event_id.clone(),
        source_sequence: i.source_sequence,
        phase: i.phase,
    }
}

fn push_phase_name(s: &mut String, p: TuiStreamPhase)
    ensures
        final(s)@ == old(s)@ + phase_name(p),
{
    match p {
        TuiStreamPhase::Started => push_str(s, "Started"),
        TuiStreamPhase::Delta => push_str(s, "Delta"),
        TuiStreamPhase::Retry => push_str(s, "Retry"),
        TuiStreamPhase::Final => push_str(s, "Final"),
        TuiStreamPhase::Finish => push_str(s, "Finish"),
        TuiStreamPhase::Cancel => push_str(s, "Cancel"),
    }
}

impl Default for TuiPresentation {
    fn default() -> (r: Self)
        ensures
            r@ == (PresentationView {
                next_cell: 0,
                next_turn: 0,
                next_source: 0,
                turn: None,
                active: None,
                offline_label: false,
            }),
    {
        TuiPresentation {
            next_cell_sequence: 0,
            next_local_turn_sequence: 0,
            next_local_source_sequence: 0,
            current_local_turn_id: None,
            active_stream: None,
            offline_label: false,
        }
    }
}

impl TuiPresentation {
    /// Marks the streams shown from now on as coming from the offline
    /// runtime, or not.
    pub fn set_offline_label(&mut self, enabled: bool)
        ensures
            final(self)@ == (PresentationView { offline_label: enabled, ..old(self)@ }),
    {
        self.offline_label = enabled;
    }

    /// The next cell identity under a prefix: `prefix:` and the new cell
    /// number in sixteen hex digits.
    pub fn next_id(&mut self, prefix: &str) -> (r: TuiCellId)
        ensures
            final(self)@ == (PresentationView { next_cell: bump(old(self)@.next_cell), ..old(self)@ }),
            r.0@ == cell_id_text(prefix@, final(self)@.next_cell),
    {
        self.next_cell_sequence = self.next_cell_sequence.saturating_add(1);
        let mut id = owned(prefix);
        push_str(&mut id, ":");
        push_hex_fixed(&mut id, self.next_cell_sequence, 16);
        TuiCellId(id)
    }

    /// Starts a new local turn, which has no stream yet.
    pub fn begin_local_turn(&mut self)
        ensures
            final(self)@ == (PresentationView {
                next_turn: bump(old(self)@.next_turn),
                turn: Some("local-turn-"@ + hex16(bump(old(self)@.next_turn))),
                active: None,
                ..old(self)@
            }),
    {
        self.next_local_turn_sequence = self.next_local_turn_sequence.saturating_add(1);
        let mut turn = owned("local-turn-");
        push_hex_fixed(&mut turn, self.next_local_turn_sequence, 16);
        self.current_local_turn_id = Some(turn);
        self.active_stream = None;
    }

    /// The detail of a cell under a label.
    pub fn presentation_detail(&self, cell_id: &TuiCellId, label: &str, content: String) -> (r:
        PresentationDetail)
        ensures
            r.id.0@ == detail_id_text(cell_id.0@, label@),
            r.label@ == label@,
            r.content == content,
    {
        let mut id = owned("detail:");
        push_str(&mut id, cell_id.as_str());
        push_str(&mut id, ":");
        push_hex_fixed(&mut id, stable_hash(label), 16);
        PresentationDetail { id: TuiCellId(id), label: owned(label), content }
    }

    /// A transcript cell with text and no detail.
    pub fn simple_visible(&mut self, kind: TuiCellKind, prefix: &str, visible_text: String) -> (r:
        TuiEvent)
        ensures
            final(self)@ == (PresentationView { next_cell: bump(old(self)@.next_cell), ..old(self)@ }),
            r.id.0@ == cell_id_text(prefix@, final(self)@.next_cell),
            r.kind == kind,
            r.visible_text == visible_text,
            r.detail is None,
            r.stream is None,
            r.visibility == PresentationVisibility::Transcript,
    {
        let id = self.next_id(prefix);
        TuiEvent {
            id,
            kind,
            visible_text,
            detail: None,
            stream: None,
            visibility: PresentationVisibility::Transcript,
        }
    }

    /// A transcript cell with text and a detail.
    pub fn visible_with_detail(
        &mut self,
        kind: TuiCellKind,
        prefix: &str,
        visible_text: String,
        detail_label: &str,
        detail_content: String,
    ) -> (r: TuiEvent)
        ensures
            final(self)@ == (PresentationView { next_cell: bump(old(self)@.next_cell), ..old(self)@ }),
            r.id.0@ == cell_id_text(prefix@, final(self)@.next_cell),
            r.kind == kind,
            r.visible_text == visible_text,
            r.detail matches Some(d) && d.id.0@ == detail_id_text(r.id.0@, detail_label@)
                && d.label@ == detail_label@ && d.content == detail_content,
            r.stream is None,
            r.visibility == PresentationVisibility::Transcript,
    {
        let id = self.next_id(prefix);
        let detail = self.presentation_detail(&id, detail_label, detail_content);
        TuiEvent {
            id,
            kind,
            visible_text,
            detail: Some(detail),
            stream: None,
            visibility: PresentationVisibility::Transcript,
        }
    }

    /// A cell shown only in debug mode, identified by a hash of the
    /// external id when there is one and else by the next cell number.
    pub fn debug_only_with_external_id(
        &mut self,
        label: &str,
        content: String,
        prefix: &str,
        external_id: Option<&str>,
    ) -> (r: TuiEvent)
        ensures
            match external_id {
                Some(e) => final(self)@ == old(self)@ && r.id.0@ == prefix@ + ":"@ + hex16(
                    fnv1a(encode_utf8(e@)),
                ),
                None => final(self)@ == (PresentationView {
                    next_cell: bump(old(self)@.next_cell),
                    ..old(self)@
                }) && r.id.0@ == cell_id_text(prefix@, final(self)@.next_cell),
            },
            r.kind == TuiCellKind::DebugDetail,
            r.visible_text@.len() == 0,
            r.detail matches Some(d) && d.id.0@ == detail_id_text(r.id.0@, label@) && d.label@
                == label@ && d.content == content,
            r.stream is None,
            r.visibility == PresentationVisibility::DebugOnly,
    {
        let id = match external_id {
            Some(value) => {
                let mut text = owned(prefix);
                push_str(&mut text, ":");
                push_hex_fixed(&mut text, stable_hash(value), 16);
                TuiCellId(text)
            },
            None => self.next_id(prefix),
        };
        let detail = self.presentation_detail(&id, label, content);
        TuiEvent {
            id,
            kind: TuiCellKind::DebugDetail,
            visible_text: String::new(),
            detail: Some(detail),
            stream: None,
            visibility: PresentationVisibility::DebugOnly,
        }
    }

    /// A cell shown only in debug mode.
    pub fn debug_only(&mut self, label: &str, content: String, prefix: &str) -> (r: TuiEvent)
        ensures
            final(self)@ == (PresentationView { next_cell: bump(old(self)@.next_cell), ..old(self)@ }),
            r.id.0@ == cell_id_text(prefix@, final(self)@.next_cell),
            r.kind == TuiCellKind::DebugDetail,
            r.detail matches Some(d) && d.label@ == label@ && d.content == content,
            r.visibility == PresentationVisibility::DebugOnly,
    {
        self.debug_only_with_external_id(label, content, prefix, None)
    }

    /// A cell that is never shown.
    pub fn hidden(&mut self, prefix: &str) -> (r: TuiEvent)
        ensures
            final(self)@ == (PresentationView { next_cell: bump(old(self)@.next_cell), ..old(self)@ }),
            r.id.0@ == cell_id_text(prefix@, final(self)@.next_cell),
            r.kind == TuiCellKind::Notice,
            r.visible_text@.len() == 0,
            r.detail is None,
            r.stream is None,
            r.visibility == PresentationVisibility::Hidden,
    {
        let id = self.next_id(prefix);
        TuiEvent {
            id,
            kind: TuiCellKind::Notice,
            visible_text: String::new(),
            detail: None,
            stream: None,
            visibility: PresentationVisibility::Hidden,
        }
    }

    /// What the user typed: it starts a new local turn.
    pub fn present_user(&mut self, value: String) -> (r: TuiEvent)
        ensures
            final(self)@ == (PresentationView {
                next_turn: bump(old(self)@.next_turn),
                turn: Some("local-turn-"@ + hex16(bump(old(self)@.next_turn))),
                active: None,
                next_cell: bump(old(self)@.next_cell),
                ..old(self)@
            }),
            r.id.0@ == cell_id_text("user"@, final(self)@.next_cell),
            r.kind == TuiCellKind::UserMessage,
            r.visible_text == value,
            r.visibility == PresentationVisibility::Transcript,
    {
        self.begin_local_turn();
        self.simple_visible(TuiCellKind::UserMessage, "user", value)
    }
}


/// The turn a legacy stream belongs to: the current local turn, or a new
/// one when there is none.
pub open spec fn legacy_turn(v: PresentationView) -> (Seq<char>, u64) {
    match v.turn {
        Some(t) => (t, v.next_turn),
        None => ("local-turn-"@ + hex16(bump(v.next_turn)), bump(v.next_turn)),
    }
}

/// The stream a legacy delta belongs to: the open stream when it is of the
/// same turn, else the turn's assistant stream.
pub open spec fn legacy_stream(v: PresentationView, turn: Seq<char>) -> Seq<char> {
    match v.active {
        Some(a) if a.turn_id == turn => a.stream_id,
        _ => turn + ":assistant"@,
    }
}

/// What the next legacy delta does to the presentation, and its identity.
pub open spec fn legacy_identity(v: PresentationView) -> (PresentationView, IdentityView) {
    let (turn, next_turn) = legacy_turn(v);
    let active = if v.turn is Some {
        v.active
    } else {
        None
    };
    let stream = legacy_stream(PresentationView { active, ..v }, turn);
    let n = bump(v.next_source);
    (
        PresentationView { next_turn, turn: Some(turn), active, next_source: n, ..v },
        IdentityView {
            thread_id: "local"@,
            turn_id: turn,
            stream_id: stream,
            event_id: "fallback:local:"@ + turn + ":"@ + stream + ":"@ + decimal(n as nat),
            source_sequence: TuiSourceSequence::LocalFallback(n),
            phase: TuiStreamPhase::Delta,
        },
    )
}

pub open spec fn sequence_value(s: TuiSourceSequence) -> u64 {
    match s {
        TuiSourceSequence::ProviderReliable(v) => v,
        TuiSourceSequence::LocalFallback(v) => v,
    }
}

/// A stream that starts again in a turn whose other stream is open is a
/// retry of it.
pub open spec fn with_retry(v: PresentationView, id: IdentityView) -> IdentityView {
    if id.phase == TuiStreamPhase::Started && (v.active matches Some(a) && a.turn_id == id.turn_id
        && a.stream_id != id.stream_id) {
        IdentityView { phase: TuiStreamPhase::Retry, ..id }
    } else {
        id
    }
}

impl TuiPresentation {
    /// The identity of the next delta of a stream that carries none: the
    /// local thread, the current local turn (begun when there is none), its
    /// open stream or its assistant stream, and the next local sequence
    /// number.
    pub fn next_legacy_stream_identity(&mut self) -> (r: TuiStreamIdentity)
        ensures
            (final(self)@, identity_view(r)) == legacy_identity(old(self)@),
    {
        if self.current_local_turn_id.is_none() {
            self.begin_local_turn();
        }
        let turn_id = match &self.current_local_turn_id {
            Some(t) => t.clone(),
            None => String::new(),
        };
        self.next_local_source_sequence = self.next_local_source_sequence.saturating_add(1);
        let stream_id = match &self.active_stream {
            Some(active) => {
                if crate::text::str_eq(active.turn_id.as_str(), turn_id.as_str()) {
                    active.stream_id.clone()
                } else {
                    let mut s = owned(turn_id.as_str());
                    push_str(&mut s, ":assistant");
                    s
                }
            },
            None => {
                let mut s = owned(turn_id.as_str());
                push_str(&mut s, ":assistant");
                s
            },
        };
        let mut event_id = owned("fallback:local:");
        push_str(&mut event_id, turn_id.as_str());
        push_str(&mut event_id, ":");
        push_str(&mut event_id, stream_id.as_str());
        push_str(&mut event_id, ":");
        push_decimal_u128(&mut event_id, self.next_local_source_sequence as u128);
        TuiStreamIdentity {
            thread_id: owned("local"),
            event_id,
            turn_id,
            stream_id,
            source_sequence: TuiSourceSequence::LocalFallback(self.next_local_source_sequence),
            phase: TuiStreamPhase::Delta,
        }
    }

    /// A control event for the open stream: its identity moves to the next
    /// local sequence number (past the stream's own) and to the phase, and a
    /// cancel or finish closes the stream.  Without an open stream nothing
    /// happens.
    pub fn stream_control(&mut self, phase: TuiStreamPhase) -> (r: Option<TuiStreamState>)
        ensures
            match old(self)@.active {
                None => r is None && final(self)@ == old(self)@,
                Some(a) => {
                    let own = match a.source_sequence {
                        TuiSourceSequence::ProviderReliable(v) => v,
                        TuiSourceSequence::LocalFallback(v) => v,
                    };
                    let n = bump(
                        if old(self)@.next_source < own {
                            own
                        } else {
                            old(self)@.next_source
                        },
                    );
                    let closes = phase == TuiStreamPhase::Cancel || phase == TuiStreamPhase::Finish;
                    let moved = IdentityView {
                        event_id: "fallback:local:"@ + a.turn_id + ":"@ + a.stream_id + ":"@
                            + phase_name(phase) + ":"@ + decimal(n as nat),
                        source_sequence: TuiSourceSequence::LocalFallback(n),
                        phase,
                        ..a
                    };
                    &&& final(self)@ == (PresentationView {
                        next_source: n,
                        active: if closes {
                            None
                        } else {
                            Some(a)
                        },
                        ..old(self)@
                    })
                    &&& r matches Some(state) && identity_view(state.identity) == moved
                        && state.stable_source@.len() == 0 && state.live_tail@.len() == 0
                        && !state.committed && state.offline_label == old(self)@.offline_label
                },
            },
    {
        let mut identity = match &self.active_stream {
            Some(active) => clone_identity(active),
            None => {
                return None;
            },
        };
        let own = identity.source_sequence.value();
        let base = if self.next_local_source_sequence < own {
            own
        } else {
            self.next_local_source_sequence
        };
        self.next_local_source_sequence = base.saturating_add(1);
        let mut event_id = owned("fallback:local:");
        push_str(&mut event_id, identity.turn_id.as_str());
        push_str(&mut event_id, ":");
        push_str(&mut event_id, identity.stream_id.as_str());
        push_str(&mut event_id, ":");
        push_phase_name(&mut event_id, phase);
        push_str(&mut event_id, ":");
        push_decimal_u128(&mut event_id, self.next_local_source_sequence as u128);
        identity.event_id = event_id;
        identity.source_sequence = TuiSourceSequence::LocalFallback(self.next_local_source_sequence);
        identity.phase = phase;
        if phase == TuiStreamPhase::Cancel || phase == TuiStreamPhase::Finish {
            self.active_stream = None;
        }
        Some(
            TuiStreamState {
                stable_source: String::new(),
                live_tail: String::new(),
                committed: false,
                identity,
                offline_label: self.offline_label,
            },
        )
    }
}


impl TuiCellId {
    /// The cell of a turn's assistant message: `assistant:` and the turn
    /// id's hash in sixteen hex digits.
    pub fn assistant_for_turn(turn_id: &str) -> (r: Self)
        ensures
            r.0@ == "assistant:"@ + hex16(fnv1a(encode_utf8(turn_id@))),
    {
        let mut text = owned("assistant:");
        push_hex_fixed(&mut text, stable_hash(turn_id), 16);
        TuiCellId(text)
    }
}

impl TuiPresentation {
    /// An assistant message: it opens (or continues) the stream it comes
    /// from, or a legacy stream of the local turn when it carries no
    /// stream, and lands in the cell of its turn.  An empty message is not
    /// shown.
    pub fn present_assistant_message(&mut self, content: &str, source: Option<TuiStreamIdentity>) -> (r:
        TuiEvent)
        ensures
            ({
                let (v1, id1) = match source {
                    Some(i) => (old(self)@, identity_view(i)),
                    None => legacy_identity(old(self)@),
                };
                let id2 = with_retry(v1, id1);
                let own = sequence_value(id2.source_sequence);
                &&& final(self)@ == (PresentationView {
                    next_source: if v1.next_source < own {
                        own
                    } else {
                        v1.next_source
                    },
                    active: Some(id2),
                    ..v1
                })
                &&& r.id.0@ == "assistant:"@ + hex16(fnv1a(encode_utf8(id2.turn_id)))
                &&& r.kind == TuiCellKind::AssistantMessage
                &&& r.visible_text@ == content@
                &&& r.detail is None
                &&& r.stream matches Some(st) && identity_view(st.identity) == id2
                    && st.stable_source@.len() == 0 && st.live_tail@.len() == 0 && !st.committed
                    && st.offline_label == v1.offline_label
                &&& r.visibility == if content@.len() == 0 {
                    PresentationVisibility::Hidden
                } else {
                    PresentationVisibility::Transcript
                }
            }),
    {
        let mut identity = match source {
            Some(i) => i,
            None => self.next_legacy_stream_identity(),
        };
        if identity.phase == TuiStreamPhase::Started {
            let retry = match &self.active_stream {
                Some(active) => crate::text::str_eq(active.turn_id.as_str(), identity.turn_id.as_str())
                    && !crate::text::str_eq(active.stream_id.as_str(), identity.stream_id.as_str()),
                None => false,
            };
            if retry {
                identity.phase = TuiStreamPhase::Retry;
            }
        }
        let id = TuiCellId::assistant_for_turn(identity.turn_id.as_str());
        let own = identity.source_sequence.value();
        if self.next_local_source_sequence < own {
            self.next_local_source_sequence = own;
        }
        self.active_stream = Some(clone_identity(&identity));
        let visibility = if content.is_empty() {
            PresentationVisibility::Hidden
        } else {
            PresentationVisibility::Transcript
        };
        TuiEvent {
            id,
            kind: TuiCellKind::AssistantMessage,
            visible_text: owned(content),
            detail: None,
            stream: Some(
                TuiStreamState {
                    stable_source: String::new(),
                    live_tail: String::new(),
                    committed: false,
                    identity,
                    offline_label: self.offline_label,
                },
            ),
            visibility,
        }
    }
}


/// The presentation after a legacy assistant message.
pub open spec fn after_legacy_message(v: PresentationView) -> PresentationView {
    let (v1, id1) = legacy_identity(v);
    let id2 = with_retry(v1, id1);
    let own = sequence_value(id2.source_sequence);
    PresentationView {
        next_source: if v1.next_source < own {
            own
        } else {
            v1.next_source
        },
        active: Some(id2),
        ..v1
    }
}

/// Legacy deltas of one local turn stay in one stream, and so in one cell:
/// after a legacy assistant message the next legacy delta has the same turn
/// and stream, and a later sequence number unless the counter is spent.
pub proof fn lemma_legacy_stream_is_stable(v: PresentationView)
    ensures
        ({
            let (_, first) = legacy_identity(v);
            let (_, next) = legacy_identity(after_legacy_message(v));
            &&& next.turn_id == first.turn_id
            &&& next.stream_id == first.stream_id
            &&& sequence_value(first.source_sequence) < u64::MAX ==> sequence_value(
                first.source_sequence,
            ) < sequence_value(next.source_sequence)
        }),
{
}

} // verus!
