use vstd::prelude::*;
use vstd::string::StringSliceAdditionalSpecFns;
use crate::fingerprint::{fnv1a, hex_fixed, push_hex_fixed, stable_hash};
use crate::presentation::{TuiCellId, TuiEvent, TuiSourceSequence, TuiStreamPhase, TuiStreamState};
use crate::seqs::{first_index, lemma_first_index, lemma_first_index_at, lemma_first_index_none};
use crate::text::{has_prefix, owned, push_str};
use crate::timeline_order::{
    lemma_text_lt_irreflexive, lemma_text_lt_total, lemma_text_lt_transitive, text_less, text_lt,
};

verus! {

/// How many finished streams are remembered.
pub const ARCHIVED_SESSION_LIMIT: usize = 256;

/// How many event ids are remembered to drop replays.
pub const SEEN_EVENT_LIMIT: usize = 8_192;

// ---------------------------------------------------------------------------
// Keys, sessions and their views
// ---------------------------------------------------------------------------
#[derive(Debug)]
pub struct StreamKey {
    pub turn_id: String,
    pub stream_id: String,
}

pub struct KeyView {
    pub turn: Seq<char>,
    pub stream: Seq<char>,
}

impl View for StreamKey {
    type V = KeyView;

    open spec fn view(&self) -> KeyView {
        KeyView { turn: self.turn_id@, stream: self.stream_id@ }
    }
}

impl Clone for StreamKey {
    fn clone(&self) -> (r: Self)
        ensures
            r == *self,
    {
        StreamKey { turn_id: self.turn_id.clone(), stream_id: self.stream_id.clone() }
    }
}

/// Keys are ordered by turn, then by stream.
pub open spec fn key_lt(a: KeyView, b: KeyView) -> bool {
    text_lt(a.turn, b.turn) || (a.turn == b.turn && text_lt(a.stream, b.stream))
}

proof fn lemma_key_order(a: KeyView, b: KeyView, c: KeyView)
    ensures
        !key_lt(a, a),
        a == b || key_lt(a, b) || key_lt(b, a),
        key_lt(a, b) && key_lt(b, c) ==> key_lt(a, c),
        key_lt(a, b) ==> !key_lt(b, a),
{
    lemma_text_lt_irreflexive(a.turn);
    lemma_text_lt_irreflexive(a.stream);
    lemma_text_lt_total(a.turn, b.turn);
    lemma_text_lt_total(a.stream, b.stream);
    if key_lt(a, b) && key_lt(b, c) {
        if text_lt(a.turn, b.turn) && text_lt(b.turn, c.turn) {
            lemma_text_lt_transitive(a.turn, b.turn, c.turn);
        } else if text_lt(a.stream, b.stream) && text_lt(b.stream, c.stream) {
            lemma_text_lt_transitive(a.stream, b.stream, c.stream);
        }
    }
    if key_lt(a, b) && key_lt(b, a) {
        if text_lt(a.turn, b.turn) && text_lt(b.turn, a.turn) {
            lemma_text_lt_transitive(a.turn, b.turn, a.turn);
        } else if text_lt(a.stream, b.stream) && text_lt(b.stream, a.stream) {
            lemma_text_lt_transitive(a.stream, b.stream, a.stream);
        }
    }
}

fn key_less(a: &StreamKey, b: &StreamKey) -> (r: bool)
    ensures
        r == key_lt(a@, b@),
{
    if text_less(a.turn_id.as_str(), b.turn_id.as_str()) {
        return true;
    }
    a.turn_id == b.turn_id && text_less(a.stream_id.as_str(), b.stream_id.as_str())
}

fn same_key(a: &StreamKey, b: &StreamKey) -> (r: bool)
    ensures
        r == (a@ == b@),
{
    a.turn_id == b.turn_id && a.stream_id == b.stream_id
}

#[derive(Clone, Copy, Debug, PartialEq, Eq, Structural)]
pub enum StreamSessionState {
    Active,
    Retrying,
    Finalized,
    Cancelled,
    Superseded,
}

/// The text of one assistant stream received so far.
#[derive(Debug)]
pub struct StreamBuffer {
    pub text: String,
}

#[derive(Debug)]
pub struct StreamSession {
    pub cell_id: TuiCellId,
    pub last_reliable_sequence: Option<u64>,
    pub buffer: StreamBuffer,
    pub content: String,
    pub state: StreamSessionState,
    pub offline_label: bool,
}

pub struct SessionView {
    pub cell_id: Seq<char>,
    pub last_reliable: Option<u64>,
    pub text: Seq<char>,
    pub content: Seq<char>,
    pub state: StreamSessionState,
    pub offline: bool,
}

impl View for StreamSession {
    type V = SessionView;

    open spec fn view(&self) -> SessionView {
        SessionView {
            cell_id: self.cell_id.0@,
            last_reliable: self.last_reliable_sequence,
            text: self.buffer.text@,
            content: self.content@,
            state: self.state,
            offline: self.offline_label,
        }
    }
}

#[derive(Debug)]
pub struct ArchivedStreamSession {
    pub cell_id: TuiCellId,
    pub last_reliable_sequence: Option<u64>,
    pub terminal_event_hash: u64,
    pub state: StreamSessionState,
}

pub struct ArchivedView {
    pub cell_id: Seq<char>,
    pub last_reliable: Option<u64>,
    pub terminal_hash: u64,
    pub state: StreamSessionState,
}

impl View for ArchivedStreamSession {
    type V = ArchivedView;

    open spec fn view(&self) -> ArchivedView {
        ArchivedView {
            cell_id: self.cell_id.0@,
            last_reliable: self.last_reliable_sequence,
            terminal_hash: self.terminal_event_hash,
            state: self.state,
        }
    }
}

/// What the transcript learns about one assistant cell.
#[derive(Debug, PartialEq, Eq)]
pub struct AssistantTimelineUpdate {
    pub cell_id: TuiCellId,
    pub content: String,
    pub active: bool,
}

pub struct UpdateView {
    pub cell_id: Seq<char>,
    pub content: Seq<char>,
    pub active: bool,
}

impl View for AssistantTimelineUpdate {
    type V = UpdateView;

    open spec fn view(&self) -> UpdateView {
        UpdateView { cell_id: self.cell_id.0@, content: self.content@, active: self.active }
    }
}

pub open spec fn update_of(s: SessionView, active: bool) -> UpdateView {
    UpdateView { cell_id: s.cell_id, content: s.content, active }
}

/// Keeps one canonical transcript cell per assistant stream: drops replayed
/// events, late reliable deltas and events for finished streams.
#[derive(Debug)]
pub struct TimelineStore {
    sessions: Vec<(StreamKey, StreamSession)>,
    last_by_turn: Vec<(String, StreamKey)>,
    archived: Vec<(StreamKey, ArchivedStreamSession)>,
    archive_order: Vec<StreamKey>,
    seen_event_order: Vec<String>,
    duplicate_event_count: u64,
}

pub struct TimelineView {
    pub sessions: Seq<(KeyView, SessionView)>,
    pub last_by_turn: Seq<(Seq<char>, KeyView)>,
    pub archived: Seq<(KeyView, ArchivedView)>,
    pub archive_order: Seq<KeyView>,
    pub seen: Seq<Seq<char>>,
    pub duplicates: u64,
}

pub open spec fn sessions_view(s: Seq<(StreamKey, StreamSession)>) -> Seq<(KeyView, SessionView)> {
    s.map_values(|p: (StreamKey, StreamSession)| (p.0@, p.1@))
}

pub open spec fn turns_view(s: Seq<(String, StreamKey)>) -> Seq<(Seq<char>, KeyView)> {
    s.map_values(|p: (String, StreamKey)| (p.0@, p.1@))
}

pub open spec fn archived_view(s: Seq<(StreamKey, ArchivedStreamSession)>) -> Seq<
    (KeyView, ArchivedView),
> {
    s.map_values(|p: (StreamKey, ArchivedStreamSession)| (p.0@, p.1@))
}

pub open spec fn keys_view(s: Seq<StreamKey>) -> Seq<KeyView> {
    s.map_values(|k: StreamKey| k@)
}

pub open spec fn texts_view(s: Seq<String>) -> Seq<Seq<char>> {
    s.map_values(|t: String| t@)
}

impl View for TimelineStore {
    type V = TimelineView;

    closed spec fn view(&self) -> TimelineView {
        TimelineView {
            sessions: sessions_view(self.sessions@),
            last_by_turn: turns_view(self.last_by_turn@),
            archived: archived_view(self.archived@),
            archive_order: keys_view(self.archive_order@),
            seen: texts_view(self.seen_event_order@),
            duplicates: self.duplicate_event_count,
        }
    }
}

/// Sessions are held in increasing key order, and both memories are within
/// their limits with no event id twice.
pub open spec fn view_wf(v: TimelineView) -> bool {
    &&& forall|i: int, j: int|
        0 <= i < j < v.sessions.len() ==> key_lt(v.sessions[i].0, v.sessions[j].0)
    &&& v.seen.len() <= SEEN_EVENT_LIMIT
    &&& v.seen.no_duplicates()
    &&& v.archive_order.len() <= ARCHIVED_SESSION_LIMIT
}

// ---------------------------------------------------------------------------
// The store's operations on views
// ---------------------------------------------------------------------------
pub open spec fn session_for(k: KeyView) -> spec_fn((KeyView, SessionView)) -> bool {
    |p: (KeyView, SessionView)| p.0 == k
}

pub open spec fn archived_for(k: KeyView) -> spec_fn((KeyView, ArchivedView)) -> bool {
    |p: (KeyView, ArchivedView)| p.0 == k
}

pub open spec fn turn_entry(turn: Seq<char>) -> spec_fn((Seq<char>, KeyView)) -> bool {
    |p: (Seq<char>, KeyView)| p.0 == turn
}

pub open spec fn last_of_turn(v: TimelineView, turn: Seq<char>) -> Option<KeyView> {
    let i = first_index(v.last_by_turn, turn_entry(turn));
    if i >= 0 {
        Some(v.last_by_turn[i].1)
    } else {
        None
    }
}

/// Remembers `key` as the latest stream of its turn.
pub open spec fn with_last(v: TimelineView, key: KeyView) -> TimelineView {
    let i = first_index(v.last_by_turn, turn_entry(key.turn));
    TimelineView {
        last_by_turn: if i >= 0 {
            v.last_by_turn.update(i, (key.turn, key))
        } else {
            v.last_by_turn.push((key.turn, key))
        },
        ..v
    }
}

/// Where a session with `key` goes among sessions ordered by key.
pub open spec fn insert_position(s: Seq<(KeyView, SessionView)>, key: KeyView) -> int {
    let i = first_index(s, |p: (KeyView, SessionView)| key_lt(key, p.0));
    if i >= 0 {
        i
    } else {
        s.len() as int
    }
}

/// Records a finished stream: the turn forgets it as its latest stream, and
/// the oldest finished stream is forgotten beyond the limit.
pub open spec fn archived_after(
    v: TimelineView,
    key: KeyView,
    s: SessionView,
    state: StreamSessionState,
    terminal_hash: u64,
) -> TimelineView {
    let t = first_index(v.last_by_turn, turn_entry(key.turn));
    let turns = if t >= 0 && v.last_by_turn[t].1 == key {
        v.last_by_turn.remove(t)
    } else {
        v.last_by_turn
    };
    let a = first_index(v.archived, archived_for(key));
    let record = ArchivedView {
        cell_id: s.cell_id,
        last_reliable: s.last_reliable,
        terminal_hash,
        state,
    };
    let order = if a < 0 {
        v.archive_order.push(key)
    } else {
        v.archive_order
    };
    let archived = if a >= 0 {
        v.archived.update(a, (key, record))
    } else {
        v.archived.push((key, record))
    };
    if order.len() > ARCHIVED_SESSION_LIMIT {
        let expired = order[0];
        let e = first_index(archived, archived_for(expired));
        TimelineView {
            last_by_turn: turns,
            archive_order: order.drop_first(),
            archived: if e >= 0 {
                archived.remove(e)
            } else {
                archived
            },
            ..v
        }
    } else {
        TimelineView { last_by_turn: turns, archive_order: order, archived, ..v }
    }
}

/// The event id is remembered unless already seen; the oldest id is
/// forgotten beyond the limit.
pub open spec fn recorded_event(v: TimelineView, id: Seq<char>) -> (TimelineView, bool) {
    if v.seen.contains(id) {
        (v, false)
    } else {
        let seen = v.seen.push(id);
        (
            TimelineView {
                seen: if seen.len() > SEEN_EVENT_LIMIT {
                    seen.drop_first()
                } else {
                    seen
                },
                ..v
            },
            true,
        )
    }
}

pub open spec fn late(last: Option<u64>, sequence: TuiSourceSequence) -> bool {
    match sequence {
        TuiSourceSequence::ProviderReliable(s) => match last {
            Some(l) => s <= l,
            None => false,
        },
        TuiSourceSequence::LocalFallback(_) => false,
    }
}

pub open spec fn observed_sequence(last: Option<u64>, sequence: TuiSourceSequence) -> Option<u64> {
    match sequence {
        TuiSourceSequence::ProviderReliable(s) => Some(s),
        TuiSourceSequence::LocalFallback(_) => last,
    }
}

pub open spec fn offline_prefix() -> Seq<char> {
    "[offline] "@
}

/// The content shown for a stream: its text, marked offline when asked.
pub open spec fn labelled(text: Seq<char>, offline: bool) -> Seq<char> {
    if offline && text.len() > 0 && !has_prefix(text, offline_prefix()) {
        offline_prefix() + text
    } else {
        text
    }
}

pub open spec fn bytes_hash(text: Seq<char>) -> u64 {
    fnv1a(vstd::utf8::encode_utf8(text))
}

/// The cell of a new stream: the cell of the turn's latest live stream, or a
/// cell of its own when the turn already finished a stream, else the event's.
pub open spec fn fresh_cell(v: TimelineView, event_cell: Seq<char>, key: KeyView) -> Seq<char> {
    match prior_cell(v, key) {
        Some(c) => c,
        None => if exists|j: int|
            0 <= j < v.archived.len() && (#[trigger] v.archived[j]).0.turn == key.turn {
            event_cell + ":stream-"@ + hex_fixed(bytes_hash(key.stream) as nat, 16)
        } else {
            event_cell
        },
    }
}

/// The cell of the turn's latest stream, while it is live.
pub open spec fn prior_cell(v: TimelineView, key: KeyView) -> Option<Seq<char>> {
    match last_of_turn(v, key.turn) {
        Some(p) => {
            let pi = first_index(v.sessions, session_for(p));
            if pi >= 0 {
                Some(v.sessions[pi].1.cell_id)
            } else {
                None
            }
        },
        None => None,
    }
}

pub open spec fn superseded_hash() -> u64 {
    bytes_hash("internal:stream-superseded"@)
}

/// The store after the turn's previous live stream, when it is another one,
/// is archived as superseded.
pub open spec fn superseded(v: TimelineView, key: KeyView) -> TimelineView {
    match last_of_turn(v, key.turn) {
        Some(p) => {
            let pi = first_index(v.sessions, session_for(p));
            if p != key && pi >= 0 {
                archived_after(
                    TimelineView { sessions: v.sessions.remove(pi), ..v },
                    p,
                    v.sessions[pi].1,
                    StreamSessionState::Superseded,
                    superseded_hash(),
                )
            } else {
                v
            }
        },
        None => v,
    }
}

/// The store with a live session for `key`: a new one supersedes the turn's
/// previous live stream.
pub open spec fn ensured(
    v: TimelineView,
    event_cell: Seq<char>,
    offline: bool,
    key: KeyView,
    retry: bool,
) -> TimelineView {
    if first_index(v.sessions, session_for(key)) >= 0 {
        v
    } else {
        let cell = fresh_cell(v, event_cell, key);
        let v1 = superseded(v, key);
        let s = SessionView {
            cell_id: cell,
            last_reliable: None,
            text: Seq::empty(),
            content: Seq::empty(),
            state: if retry {
                StreamSessionState::Retrying
            } else {
                StreamSessionState::Active
            },
            offline,
        };
        TimelineView {
            sessions: v1.sessions.insert(insert_position(v1.sessions, key), (key, s)),
            ..v1
        }
    }
}

/// The parts of an incoming stream event that the store reads.
pub struct EventFacts {
    pub cell: Seq<char>,
    pub text: Seq<char>,
    pub offline: bool,
    pub key: KeyView,
    pub event_id: Seq<char>,
    pub sequence: TuiSourceSequence,
    pub phase: TuiStreamPhase,
}

/// A stream (re)starts with the event's text.
pub open spec fn started(v: TimelineView, e: EventFacts, retry: bool) -> (
    TimelineView,
    Option<UpdateView>,
    Option<Seq<char>>,
) {
    let v1 = ensured(v, e.cell, e.offline, e.key, retry);
    let k = first_index(v1.sessions, session_for(e.key));
    let s = v1.sessions[k].1;
    if late(s.last_reliable, e.sequence) {
        (v1, None, None)
    } else {
        let s2 = SessionView {
            last_reliable: observed_sequence(s.last_reliable, e.sequence),
            state: if retry {
                StreamSessionState::Retrying
            } else {
                StreamSessionState::Active
            },
            text: e.text,
            content: labelled(e.text, s.offline),
            ..s
        };
        let v2 = with_last(TimelineView { sessions: v1.sessions.update(k, (e.key, s2)), ..v1 }, e.key);
        (
            v2,
            if s2.content.len() > 0 {
                Some(update_of(s2, true))
            } else {
                None
            },
            Some(e.text),
        )
    }
}

/// A live stream grows by the event's text.
pub open spec fn extended(v: TimelineView, e: EventFacts) -> (
    TimelineView,
    Option<UpdateView>,
    Option<Seq<char>>,
) {
    let v1 = ensured(v, e.cell, e.offline, e.key, false);
    let k = first_index(v1.sessions, session_for(e.key));
    let s = v1.sessions[k].1;
    if late(s.last_reliable, e.sequence) || !(s.state == StreamSessionState::Active || s.state
        == StreamSessionState::Retrying) {
        (v1, None, None)
    } else {
        let text = s.text + e.text;
        let s2 = SessionView {
            last_reliable: observed_sequence(s.last_reliable, e.sequence),
            text,
            content: labelled(text, s.offline),
            ..s
        };
        let v2 = with_last(TimelineView { sessions: v1.sessions.update(k, (e.key, s2)), ..v1 }, e.key);
        (v2, Some(update_of(s2, true)), Some(text))
    }
}

/// A stream ends with its final text (or its last content when the final
/// event carries none) and is archived.
pub open spec fn finalized(v: TimelineView, e: EventFacts) -> (
    TimelineView,
    Option<UpdateView>,
    Option<Seq<char>>,
) {
    let v1 = ensured(v, e.cell, e.offline, e.key, false);
    let k = first_index(v1.sessions, session_for(e.key));
    let s = v1.sessions[k].1;
    if late(s.last_reliable, e.sequence) {
        (v1, None, None)
    } else {
        let content = if e.text.len() > 0 {
            e.text
        } else {
            s.content
        };
        let s2 = SessionView {
            last_reliable: observed_sequence(s.last_reliable, e.sequence),
            text: e.text,
            content: labelled(content, s.offline),
            state: StreamSessionState::Finalized,
            ..s
        };
        let v2 = archived_after(
            TimelineView { sessions: v1.sessions.remove(k), ..v1 },
            e.key,
            s2,
            StreamSessionState::Finalized,
            bytes_hash(e.event_id),
        );
        (
            v2,
            Some(update_of(s2, false)),
            if e.text.len() > 0 {
                Some(e.text)
            } else {
                None
            },
        )
    }
}

/// A live stream is closed in `state` and archived.
pub open spec fn closed(
    v: TimelineView,
    key: KeyView,
    sequence: TuiSourceSequence,
    state: StreamSessionState,
    event_id: Seq<char>,
) -> (TimelineView, Option<UpdateView>) {
    let k = first_index(v.sessions, session_for(key));
    if k < 0 {
        (v, None)
    } else {
        let s = v.sessions[k].1;
        if late(s.last_reliable, sequence) {
            (v, None)
        } else {
            let s2 = SessionView {
                last_reliable: observed_sequence(s.last_reliable, sequence),
                state,
                ..s
            };
            let v2 = archived_after(
                TimelineView { sessions: v.sessions.remove(k), ..v },
                key,
                s2,
                state,
                bytes_hash(event_id),
            );
            (v2, Some(update_of(s2, false)))
        }
    }
}

pub open spec fn sat_inc64(n: u64) -> u64 {
    if n == u64::MAX {
        n
    } else {
        (n + 1) as u64
    }
}

/// What one stream event does: replays are counted and dropped, events of
/// archived streams are dropped, and the phase decides the rest. The last
/// part says what text the event's stream frame now shows, when it changed.
pub open spec fn applied(v: TimelineView, e: EventFacts) -> (
    TimelineView,
    Option<UpdateView>,
    Option<Seq<char>>,
) {
    let (v1, fresh) = recorded_event(v, e.event_id);
    if !fresh {
        (TimelineView { duplicates: sat_inc64(v.duplicates), ..v }, None, None)
    } else if first_index(v1.archived, archived_for(e.key)) >= 0 {
        (v1, None, None)
    } else {
        match e.phase {
            TuiStreamPhase::Started => started(v1, e, false),
            TuiStreamPhase::Delta => extended(v1, e),
            TuiStreamPhase::Retry => started(v1, e, true),
            TuiStreamPhase::Final => finalized(v1, e),
            TuiStreamPhase::Finish => {
                let (v2, u) = closed(
                    v1,
                    e.key,
                    e.sequence,
                    StreamSessionState::Finalized,
                    e.event_id,
                );
                (v2, u, None)
            },
            TuiStreamPhase::Cancel => {
                let (v2, u) = closed(
                    v1,
                    e.key,
                    e.sequence,
                    StreamSessionState::Cancelled,
                    e.event_id,
                );
                (v2, u, None)
            },
        }
    }
}

pub open spec fn state_name(state: StreamSessionState) -> Seq<char> {
    match state {
        StreamSessionState::Active => "Active"@,
        StreamSessionState::Retrying => "Retrying"@,
        StreamSessionState::Finalized => "Finalized"@,
        StreamSessionState::Cancelled => "Cancelled"@,
        StreamSessionState::Superseded => "Superseded"@,
    }
}

/// Every live stream closed in `state`, in key order, with the update of
/// each.
pub open spec fn all_closed(v: TimelineView, state: StreamSessionState) -> (
    TimelineView,
    Seq<UpdateView>,
)
    decreases v.sessions.len(),
{
    if v.sessions.len() == 0 {
        (v, Seq::empty())
    } else {
        let key = v.sessions[0].0;
        let s2 = SessionView { state, ..v.sessions[0].1 };
        let terminal = "internal:"@ + key.turn + ":"@ + key.stream + ":"@ + state_name(state);
        let v2 = archived_after(
            TimelineView { sessions: v.sessions.drop_first(), ..v },
            key,
            s2,
            state,
            bytes_hash(terminal),
        );
        let (v3, us) = all_closed(v2, state);
        (v3, seq![update_of(s2, false)] + us)
    }
}

// ---------------------------------------------------------------------------
// The store
// ---------------------------------------------------------------------------
fn find_text(items: &Vec<String>, id: &str) -> (r: bool)
    ensures
        r == texts_view(items@).contains(id@),
{
    let key = owned(id);
    let mut i: usize = 0;
    while i < items.len()
        invariant
            i <= items.len(),
            key@ == id@,
            forall|j: int| 0 <= j < i ==> (#[trigger] items@[j])@ != id@,
        decreases items.len() - i,
    {
        if items[i] == key {
            assert(texts_view(items@)[i as int] == id@);
            return true;
        }
        i = i + 1;
    }
    proof {
        if texts_view(items@).contains(id@) {
            let j = choose|j: int| 0 <= j < texts_view(items@).len() && texts_view(items@)[j] == id@;
            assert(items@[j]@ == id@);
        }
    }
    false
}

impl TimelineStore {
    pub closed spec fn wf(&self) -> bool {
        view_wf(self@)
    }

    /// An empty store.
    pub fn new() -> (r: Self)
        ensures
            r.wf(),
            r@.sessions.len() == 0,
            r@.last_by_turn.len() == 0,
            r@.archived.len() == 0,
            r@.archive_order.len() == 0,
            r@.seen.len() == 0,
            r@.duplicates == 0,
    {
        let r = TimelineStore {
            sessions: Vec::new(),
            last_by_turn: Vec::new(),
            archived: Vec::new(),
            archive_order: Vec::new(),
            seen_event_order: Vec::new(),
            duplicate_event_count: 0,
        };
        assert(r@.seen =~= Seq::<Seq<char>>::empty());
        r
    }

    /// Whether some stream is still live.
    pub fn has_active_sessions(&self) -> (r: bool)
        ensures
            r == (self@.sessions.len() > 0),
    {
        self.sessions.len() > 0
    }

    /// How many replayed events were dropped.
    pub fn duplicate_event_count(&self) -> (r: u64)
        ensures
            r == self@.duplicates,
    {
        self.duplicate_event_count
    }

    /// How many event ids are remembered.
    pub fn seen_event_count(&self) -> (r: usize)
        ensures
            r == self@.seen.len(),
    {
        self.seen_event_order.len()
    }

    /// Whether an event id is remembered.
    pub fn has_seen_event(&self, id: &str) -> (r: bool)
        ensures
            r == self@.seen.contains(id@),
    {
        find_text(&self.seen_event_order, id)
    }

    /// How many finished streams are remembered.
    pub fn archived_count(&self) -> (r: usize)
        ensures
            r == self@.archived.len(),
    {
        self.archived.len()
    }

    /// Forgets everything.
    pub fn clear(&mut self)
        ensures
            final(self).wf(),
            final(self)@.sessions.len() == 0,
            final(self)@.last_by_turn.len() == 0,
            final(self)@.archived.len() == 0,
            final(self)@.archive_order.len() == 0,
            final(self)@.seen.len() == 0,
            final(self)@.duplicates == 0,
    {
        self.sessions = Vec::new();
        self.last_by_turn = Vec::new();
        self.archived = Vec::new();
        self.archive_order = Vec::new();
        self.seen_event_order = Vec::new();
        self.duplicate_event_count = 0;
        assert(self@.seen =~= Seq::<Seq<char>>::empty());
    }

    fn record_event_id(&mut self, id: &str) -> (r: bool)
        requires
            old(self).wf(),
        ensures
            final(self).wf(),
            (final(self)@, r) == recorded_event(old(self)@, id@),
    {
        if find_text(&self.seen_event_order, id) {
            return false;
        }
        let ghost before = self.seen_event_order@;
        self.seen_event_order.push(owned(id));
        assert(texts_view(self.seen_event_order@) =~= texts_view(before).push(id@));
        if self.seen_event_order.len() > SEEN_EVENT_LIMIT {
            let ghost pushed = self.seen_event_order@;
            self.seen_event_order.remove(0);
            assert(texts_view(self.seen_event_order@) =~= texts_view(pushed).drop_first());
        }
        proof {
            let t = texts_view(self.seen_event_order@);
            let p = texts_view(before).push(id@);
            assert forall|i: int, j: int|
                0 <= i < p.len() && 0 <= j < p.len() && i != j implies p[i] != p[j] by {
                if i < p.len() - 1 && j < p.len() - 1 {
                    assert(p[i] == texts_view(before)[i] && p[j] == texts_view(before)[j]);
                } else if i == p.len() - 1 {
                    assert(p[j] == texts_view(before)[j]);
                } else {
                    assert(p[i] == texts_view(before)[i]);
                }
            }
            assert forall|i: int, j: int|
                0 <= i < t.len() && 0 <= j < t.len() && i != j implies t[i] != t[j] by {
                let p = texts_view(before).push(id@);
                if t.len() == p.len() {
                    assert(t[i] == p[i] && t[j] == p[j]);
                } else {
                    assert(t[i] == p[i + 1] && t[j] == p[j + 1]);
                }
            }
            assert(self@.sessions == old(self)@.sessions);
            assert(self@.archive_order == old(self)@.archive_order);
        }
        true
    }
}

fn find_session(sessions: &Vec<(StreamKey, StreamSession)>, key: &StreamKey) -> (r: Option<usize>)
    ensures
        match r {
            Some(i) => i as int == first_index(sessions_view(sessions@), session_for(key@)) && i
                < sessions@.len(),
            None => first_index(sessions_view(sessions@), session_for(key@)) == -1,
        },
{
    let ghost v = sessions_view(sessions@);
    proof {
        lemma_first_index(v, session_for(key@));
    }
    let mut i: usize = 0;
    while i < sessions.len()
        invariant
            i <= sessions.len(),
            v == sessions_view(sessions@),
            forall|j: int| 0 <= j < i ==> !(session_for(key@))(#[trigger] v[j]),
        decreases sessions.len() - i,
    {
        if same_key(&sessions[i].0, key) {
            proof {
                lemma_first_index_at(v, session_for(key@), i as int);
            }
            return Some(i);
        }
        i = i + 1;
    }
    proof {
        lemma_first_index_none(v, session_for(key@));
    }
    None
}

fn find_archived(archived: &Vec<(StreamKey, ArchivedStreamSession)>, key: &StreamKey) -> (r: Option<
    usize,
>)
    ensures
        match r {
            Some(i) => i as int == first_index(archived_view(archived@), archived_for(key@)) && i
                < archived@.len(),
            None => first_index(archived_view(archived@), archived_for(key@)) == -1,
        },
{
    let ghost v = archived_view(archived@);
    proof {
        lemma_first_index(v, archived_for(key@));
    }
    let mut i: usize = 0;
    while i < archived.len()
        invariant
            i <= archived.len(),
            v == archived_view(archived@),
            forall|j: int| 0 <= j < i ==> !(archived_for(key@))(#[trigger] v[j]),
        decreases archived.len() - i,
    {
        if same_key(&archived[i].0, key) {
            proof {
                lemma_first_index_at(v, archived_for(key@), i as int);
            }
            return Some(i);
        }
        i = i + 1;
    }
    proof {
        lemma_first_index_none(v, archived_for(key@));
    }
    None
}

fn find_turn(turns: &Vec<(String, StreamKey)>, turn: &String) -> (r: Option<usize>)
    ensures
        match r {
            Some(i) => i as int == first_index(turns_view(turns@), turn_entry(turn@)) && i
                < turns@.len(),
            None => first_index(turns_view(turns@), turn_entry(turn@)) == -1,
        },
{
    let ghost v = turns_view(turns@);
    proof {
        lemma_first_index(v, turn_entry(turn@));
    }
    let mut i: usize = 0;
    while i < turns.len()
        invariant
            i <= turns.len(),
            v == turns_view(turns@),
            forall|j: int| 0 <= j < i ==> !(turn_entry(turn@))(#[trigger] v[j]),
        decreases turns.len() - i,
    {
        if turns[i].0 == *turn {
            proof {
                lemma_first_index_at(v, turn_entry(turn@), i as int);
            }
            return Some(i);
        }
        i = i + 1;
    }
    proof {
        lemma_first_index_none(v, turn_entry(turn@));
    }
    None
}

fn has_archived_turn(archived: &Vec<(StreamKey, ArchivedStreamSession)>, turn: &String) -> (r: bool)
    ensures
        r == exists|j: int|
            0 <= j < archived_view(archived@).len() && (#[trigger] archived_view(
                archived@,
            )[j]).0.turn == turn@,
{
    let mut i: usize = 0;
    while i < archived.len()
        invariant
            i <= archived.len(),
            forall|j: int| 0 <= j < i ==> (#[trigger] archived_view(archived@)[j]).0.turn != turn@,
        decreases archived.len() - i,
    {
        if archived[i].0.turn_id == *turn {
            assert(archived_view(archived@)[i as int].0.turn == turn@);
            return true;
        }
        i = i + 1;
    }
    false
}

impl TimelineStore {
    fn set_last(&mut self, key: StreamKey)
        requires
            old(self).wf(),
        ensures
            final(self).wf(),
            final(self)@ == with_last(old(self)@, key@),
    {
        let ghost before = self.last_by_turn@;
        match find_turn(&self.last_by_turn, &key.turn_id) {
            Some(i) => {
                let turn = key.turn_id.clone();
                self.last_by_turn.set(i, (turn, key));
                assert(turns_view(self.last_by_turn@) =~= turns_view(before).update(
                    i as int,
                    (key@.turn, key@),
                ));
            },
            None => {
                let turn = key.turn_id.clone();
                self.last_by_turn.push((turn, key));
                assert(turns_view(self.last_by_turn@) =~= turns_view(before).push((key@.turn, key@)));
            },
        }
        assert(self@.sessions == old(self)@.sessions);
    }

    fn archive_session(
        &mut self,
        key: StreamKey,
        session: StreamSession,
        state: StreamSessionState,
        terminal_event_id: &str,
    )
        requires
            old(self).wf(),
        ensures
            final(self).wf(),
            final(self)@ == archived_after(
                old(self)@,
                key@,
                session@,
                state,
                bytes_hash(terminal_event_id@),
            ),
    {
        let ghost v = self@;
        let ghost turns0 = self.last_by_turn@;
        if let Some(t) = find_turn(&self.last_by_turn, &key.turn_id) {
            if same_key(&self.last_by_turn[t].1, &key) {
                self.last_by_turn.remove(t);
                assert(turns_view(self.last_by_turn@) =~= turns_view(turns0).remove(t as int));
            }
        }
        let ghost arch0 = self.archived@;
        let ghost order0 = self.archive_order@;
        let found = find_archived(&self.archived, &key);
        if found.is_none() {
            self.archive_order.push(key.clone());
            assert(keys_view(self.archive_order@) =~= keys_view(order0).push(key@));
        }
        let record = ArchivedStreamSession {
            cell_id: session.cell_id,
            last_reliable_sequence: session.last_reliable_sequence,
            terminal_event_hash: stable_hash(terminal_event_id),
            state,
        };
        proof {
            assert(terminal_event_id.spec_bytes() == vstd::utf8::encode_utf8(terminal_event_id@));
        }
        match found {
            Some(a) => {
                self.archived.set(a, (key, record));
                assert(archived_view(self.archived@) =~= archived_view(arch0).update(
                    a as int,
                    (key@, record@),
                ));
            },
            None => {
                self.archived.push((key, record));
                assert(archived_view(self.archived@) =~= archived_view(arch0).push((key@, record@)));
            },
        }
        if self.archive_order.len() > ARCHIVED_SESSION_LIMIT {
            let ghost order1 = self.archive_order@;
            let ghost arch1 = self.archived@;
            let expired = self.archive_order.remove(0);
            assert(keys_view(self.archive_order@) =~= keys_view(order1).drop_first());
            if let Some(e) = find_archived(&self.archived, &expired) {
                self.archived.remove(e);
                assert(archived_view(self.archived@) =~= archived_view(arch1).remove(e as int));
            }
        }
        assert(self@.sessions == v.sessions);
    }
}

pub open spec fn sorted_sessions(s: Seq<(KeyView, SessionView)>) -> bool {
    forall|i: int, j: int| 0 <= i < j < s.len() ==> key_lt(s[i].0, s[j].0)
}

proof fn lemma_sorted_insert(s: Seq<(KeyView, SessionView)>, key: KeyView, x: SessionView)
    requires
        sorted_sessions(s),
        first_index(s, session_for(key)) == -1,
    ensures
        sorted_sessions(s.insert(insert_position(s, key), (key, x))),
        0 <= insert_position(s, key) <= s.len(),
{
    let pred = |p: (KeyView, SessionView)| key_lt(key, p.0);
    lemma_first_index(s, pred);
    lemma_first_index(s, session_for(key));
    let p = insert_position(s, key);
    let t = s.insert(p, (key, x));
    assert forall|i: int, j: int| 0 <= i < j < t.len() implies key_lt(t[i].0, t[j].0) by {
        if i < p && j < p {
            assert(t[i] == s[i] && t[j] == s[j]);
        } else if i < p && j == p {
            assert(t[i] == s[i]);
            assert(!pred(s[i]));
            assert(!(session_for(key))(s[i]));
            lemma_key_order(key, s[i].0, key);
        } else if i < p && j > p {
            assert(t[i] == s[i] && t[j] == s[j - 1]);
        } else if i == p {
            assert(t[j] == s[j - 1]);
            assert(pred(s[p]));
            if j - 1 > p {
                lemma_key_order(key, s[p].0, s[j - 1].0);
            }
        } else {
            assert(t[i] == s[i - 1] && t[j] == s[j - 1]);
        }
    }
}

proof fn lemma_sorted_remove(s: Seq<(KeyView, SessionView)>, k: int)
    requires
        sorted_sessions(s),
        0 <= k < s.len(),
    ensures
        sorted_sessions(s.remove(k)),
{
    let t = s.remove(k);
    assert forall|i: int, j: int| 0 <= i < j < t.len() implies key_lt(t[i].0, t[j].0) by {
        let a = if i < k {
            i
        } else {
            i + 1
        };
        let b = if j < k {
            j
        } else {
            j + 1
        };
        assert(t[i] == s[a] && t[j] == s[b]);
    }
}

fn insert_position_exec(sessions: &Vec<(StreamKey, StreamSession)>, key: &StreamKey) -> (r: usize)
    ensures
        r as int == insert_position(sessions_view(sessions@), key@),
{
    let ghost v = sessions_view(sessions@);
    let ghost pred = |p: (KeyView, SessionView)| key_lt(key@, p.0);
    proof {
        lemma_first_index(v, pred);
    }
    let mut i: usize = 0;
    while i < sessions.len()
        invariant
            i <= sessions.len(),
            v == sessions_view(sessions@),
            pred == (|p: (KeyView, SessionView)| key_lt(key@, p.0)),
            forall|j: int| 0 <= j < i ==> !pred(#[trigger] v[j]),
        decreases sessions.len() - i,
    {
        if key_less(key, &sessions[i].0) {
            proof {
                lemma_first_index_at(v, pred, i as int);
            }
            return i;
        }
        i = i + 1;
    }
    proof {
        lemma_first_index_none(v, pred);
    }
    i
}

impl TimelineStore {
    fn insert_session(&mut self, key: StreamKey, session: StreamSession)
        requires
            old(self).wf(),
            first_index(old(self)@.sessions, session_for(key@)) == -1,
        ensures
            final(self).wf(),
            final(self)@ == (TimelineView {
                sessions: old(self)@.sessions.insert(
                    insert_position(old(self)@.sessions, key@),
                    (key@, session@),
                ),
                ..old(self)@
            }),
    {
        let ghost before = self.sessions@;
        proof {
            lemma_sorted_insert(sessions_view(before), key@, session@);
        }
        let p = insert_position_exec(&self.sessions, &key);
        let ghost kv = key@;
        let ghost sv = session@;
        self.sessions.insert(p, (key, session));
        assert(sessions_view(self.sessions@) =~= sessions_view(before).insert(p as int, (kv, sv)));
    }

    fn take_session(&mut self, k: usize) -> (r: (StreamKey, StreamSession))
        requires
            old(self).wf(),
            k < old(self)@.sessions.len(),
        ensures
            final(self).wf(),
            (r.0@, r.1@) == old(self)@.sessions[k as int],
            final(self)@ == (TimelineView {
                sessions: old(self)@.sessions.remove(k as int),
                ..old(self)@
            }),
    {
        let ghost before = self.sessions@;
        proof {
            lemma_sorted_remove(sessions_view(before), k as int);
        }
        let r = self.sessions.remove(k);
        assert(sessions_view(self.sessions@) =~= sessions_view(before).remove(k as int));
        r
    }
}

pub open spec fn facts(
    cell: Seq<char>,
    text: Seq<char>,
    offline: bool,
    key: KeyView,
    event_id: Seq<char>,
    sequence: TuiSourceSequence,
    phase: TuiStreamPhase,
) -> EventFacts {
    EventFacts { cell, text, offline, key, event_id, sequence, phase }
}

fn reliable_sequence_is_late(last: Option<u64>, sequence: TuiSourceSequence) -> (r: bool)
    ensures
        r == late(last, sequence),
{
    match sequence.reliable_value() {
        Some(s) => match last {
            Some(l) => s <= l,
            None => false,
        },
        None => false,
    }
}

fn observe_reliable_sequence(last: Option<u64>, sequence: TuiSourceSequence) -> (r: Option<u64>)
    ensures
        r == observed_sequence(last, sequence),
{
    match sequence.reliable_value() {
        Some(s) => Some(s),
        None => last,
    }
}

/// The content shown for a stream's text.
pub fn label_content(text: &String, offline: bool) -> (r: String)
    ensures
        r@ == labelled(text@, offline),
{
    let prefix = crate::text::chars_of("[offline] ");
    let chars = crate::text::chars_of(text.as_str());
    if offline && chars.len() > 0 && !crate::text::has_prefix_exec(&chars, &prefix) {
        let mut out = owned("[offline] ");
        push_str(&mut out, text.as_str());
        out
    } else {
        text.clone()
    }
}

proof fn lemma_sorted_update(s: Seq<(KeyView, SessionView)>, k: int, x: SessionView)
    requires
        sorted_sessions(s),
        0 <= k < s.len(),
    ensures
        sorted_sessions(s.update(k, (s[k].0, x))),
{
    let t = s.update(k, (s[k].0, x));
    assert forall|i: int, j: int| 0 <= i < j < t.len() implies key_lt(t[i].0, t[j].0) by {
        assert(t[i].0 == s[i].0 && t[j].0 == s[j].0);
    }
}

proof fn lemma_ensured_has(v: TimelineView, cell: Seq<char>, offline: bool, key: KeyView, retry: bool)
    requires
        sorted_sessions(v.sessions),
    ensures
        first_index(ensured(v, cell, offline, key, retry).sessions, session_for(key)) >= 0,
        first_index(ensured(v, cell, offline, key, retry).sessions, session_for(key)) < ensured(
            v,
            cell,
            offline,
            key,
            retry,
        ).sessions.len(),
{
    let w = ensured(v, cell, offline, key, retry);
    lemma_first_index(v.sessions, session_for(key));
    lemma_first_index(w.sessions, session_for(key));
    if first_index(v.sessions, session_for(key)) < 0 {
        let v1 = superseded(v, key);
        let pos = insert_position(v1.sessions, key);
        let pred = |p: (KeyView, SessionView)| key_lt(key, p.0);
        lemma_first_index(v1.sessions, pred);
        assert(w.sessions[pos] == (key, w.sessions[pos].1));
        assert((session_for(key))(w.sessions[pos]));
    }
}

impl TimelineStore {
    fn prior_cell_id(&self, key: &StreamKey) -> (r: Option<TuiCellId>)
        ensures
            match r {
                Some(c) => prior_cell(self@, key@) == Some(c.0@),
                None => prior_cell(self@, key@) is None,
            },
    {
        let ghost v = self@;
        let previous: Option<StreamKey> = match find_turn(&self.last_by_turn, &key.turn_id) {
            Some(t) => Some(self.last_by_turn[t].1.clone()),
            None => None,
        };
        assert(previous matches Some(p) ==> last_of_turn(v, key@.turn) == Some(p@));
        assert(previous is None ==> last_of_turn(v, key@.turn) is None);
        match &previous {
            Some(p) => match find_session(&self.sessions, p) {
                Some(i) => {
                    assert(sessions_view(self.sessions@)[i as int] == (
                        self.sessions@[i as int].0@,
                        self.sessions@[i as int].1@,
                    ));
                    Some(self.sessions[i].1.cell_id.clone())
                },
                None => None,
            },
            None => None,
        }
    }

    fn fresh_cell_id(&self, event_cell: &TuiCellId, key: &StreamKey) -> (r: TuiCellId)
        ensures
            r.0@ == fresh_cell(self@, event_cell.0@, key@),
    {
        match self.prior_cell_id(key) {
            Some(c) => c,
            None => {
                let archived_turn = has_archived_turn(&self.archived, &key.turn_id);
                assert(self@.archived == archived_view(self.archived@));
                assert(archived_turn == exists|j: int|
                    0 <= j < self@.archived.len() && (#[trigger] self@.archived[j]).0.turn == key@.turn);
                if archived_turn {
                    let mut text = owned(event_cell.as_str());
                    push_str(&mut text, ":stream-");
                    let h = stable_hash(key.stream_id.as_str());
                    assert(h == bytes_hash(key@.stream));
                    push_hex_fixed(&mut text, h, 16);
                    assert(text@ == event_cell.0@ + ":stream-"@ + hex_fixed(bytes_hash(key@.stream) as nat, 16));
                    TuiCellId(text)
                } else {
                    event_cell.clone()
                }
            },
        }
    }

    fn supersede_previous(&mut self, key: &StreamKey)
        requires
            old(self).wf(),
            first_index(old(self)@.sessions, session_for(key@)) == -1,
        ensures
            final(self).wf(),
            final(self)@ == superseded(old(self)@, key@),
            first_index(final(self)@.sessions, session_for(key@)) == -1,
    {
        let ghost v = self@;
        let previous: Option<StreamKey> = match find_turn(&self.last_by_turn, &key.turn_id) {
            Some(t) => Some(self.last_by_turn[t].1.clone()),
            None => None,
        };
        assert(previous matches Some(p) ==> last_of_turn(v, key@.turn) == Some(p@));
        assert(previous is None ==> last_of_turn(v, key@.turn) is None);
        if let Some(p) = previous {
            if !same_key(&p, key) {
                if let Some(pi) = find_session(&self.sessions, &p) {
                    proof {
                        lemma_first_index(v.sessions, session_for(p@));
                    }
                    let (k, session) = self.take_session(pi);
                    assert(k@ == p@);
                    self.archive_session(
                        k,
                        session,
                        StreamSessionState::Superseded,
                        "internal:stream-superseded",
                    );
                    proof {
                        let w = self@.sessions;
                        lemma_first_index(v.sessions, session_for(key@));
                        assert forall|j: int| 0 <= j < w.len() implies !(session_for(key@))(
                            #[trigger] w[j],
                        ) by {
                            if j < pi {
                                assert(w[j] == v.sessions[j]);
                            } else {
                                assert(w[j] == v.sessions[j + 1]);
                            }
                        }
                        lemma_first_index_none(w, session_for(key@));
                    }
                }
            }
        }
    }

    fn ensure_session(&mut self, event_cell: &TuiCellId, offline: bool, key: &StreamKey, retry: bool)
        requires
            old(self).wf(),
        ensures
            final(self).wf(),
            final(self)@ == ensured(old(self)@, event_cell.0@, offline, key@, retry),
    {
        if find_session(&self.sessions, key).is_some() {
            return;
        }
        let cell_id = self.fresh_cell_id(event_cell, key);
        self.supersede_previous(key);
        let session = StreamSession {
            cell_id,
            last_reliable_sequence: None,
            buffer: StreamBuffer { text: String::new() },
            content: String::new(),
            state: if retry {
                StreamSessionState::Retrying
            } else {
                StreamSessionState::Active
            },
            offline_label: offline,
        };
        self.insert_session(key.clone(), session);
    }
}

pub open spec fn update_view(o: Option<AssistantTimelineUpdate>) -> Option<UpdateView> {
    match o {
        Some(u) => Some(u@),
        None => None,
    }
}

pub open spec fn text_view(o: Option<String>) -> Option<Seq<char>> {
    match o {
        Some(t) => Some(t@),
        None => None,
    }
}

pub open spec fn facts_match(
    e: EventFacts,
    cell: &TuiCellId,
    text: &String,
    offline: bool,
    key: &StreamKey,
    event_id: &String,
    sequence: TuiSourceSequence,
) -> bool {
    &&& e.cell == cell.0@
    &&& e.text == text@
    &&& e.offline == offline
    &&& e.key == key@
    &&& e.event_id == event_id@
    &&& e.sequence == sequence
}

fn update_from(session: &StreamSession, active: bool) -> (r: AssistantTimelineUpdate)
    ensures
        r@ == update_of(session@, active),
{
    AssistantTimelineUpdate {
        cell_id: session.cell_id.clone(),
        content: session.content.clone(),
        active,
    }
}

impl TimelineStore {
    fn start(
        &mut self,
        cell: &TuiCellId,
        text: &String,
        offline: bool,
        key: StreamKey,
        event_id: &String,
        sequence: TuiSourceSequence,
        retry: bool,
        Ghost(e): Ghost<EventFacts>,
    ) -> (r: (Option<AssistantTimelineUpdate>, Option<String>))
        requires
            old(self).wf(),
            facts_match(e, cell, text, offline, &key, event_id, sequence),
        ensures
            final(self).wf(),
            (final(self)@, update_view(r.0), text_view(r.1)) == started(old(self)@, e, retry),
    {
        let ghost v = self@;
        self.ensure_session(cell, offline, &key, retry);
        proof {
            lemma_ensured_has(v, cell.0@, offline, key@, retry);
        }
        let k = match find_session(&self.sessions, &key) {
            Some(k) => k,
            None => {
                return (None, None);
            },
        };
        let ghost v1 = self@;
        assert(sessions_view(self.sessions@)[k as int] == (
            self.sessions@[k as int].0@,
            self.sessions@[k as int].1@,
        ));
        let last = self.sessions[k].1.last_reliable_sequence;
        if reliable_sequence_is_late(last, sequence) {
            return (None, None);
        }
        let content = label_content(text, self.sessions[k].1.offline_label);
        let ghost before = self.sessions@;
        self.sessions[k].1.last_reliable_sequence = observe_reliable_sequence(last, sequence);
        self.sessions[k].1.state = if retry {
            StreamSessionState::Retrying
        } else {
            StreamSessionState::Active
        };
        self.sessions[k].1.buffer.text = text.clone();
        self.sessions[k].1.content = content;
        proof {
            lemma_first_index(v1.sessions, session_for(key@));
            lemma_sorted_update(v1.sessions, k as int, self.sessions@[k as int].1@);
            assert(sessions_view(self.sessions@) =~= v1.sessions.update(
                k as int,
                (key@, self.sessions@[k as int].1@),
            ));
        }
        let update = if self.sessions[k].1.content.as_str().is_empty() {
            None
        } else {
            Some(update_from(&self.sessions[k].1, true))
        };
        self.set_last(key);
        (update, Some(text.clone()))
    }

    fn delta(
        &mut self,
        cell: &TuiCellId,
        text: &String,
        offline: bool,
        key: StreamKey,
        event_id: &String,
        sequence: TuiSourceSequence,
        Ghost(e): Ghost<EventFacts>,
    ) -> (r: (Option<AssistantTimelineUpdate>, Option<String>))
        requires
            old(self).wf(),
            facts_match(e, cell, text, offline, &key, event_id, sequence),
        ensures
            final(self).wf(),
            (final(self)@, update_view(r.0), text_view(r.1)) == extended(old(self)@, e),
    {
        let ghost v = self@;
        self.ensure_session(cell, offline, &key, false);
        proof {
            lemma_ensured_has(v, cell.0@, offline, key@, false);
        }
        let k = match find_session(&self.sessions, &key) {
            Some(k) => k,
            None => {
                return (None, None);
            },
        };
        let ghost v1 = self@;
        assert(sessions_view(self.sessions@)[k as int] == (
            self.sessions@[k as int].0@,
            self.sessions@[k as int].1@,
        ));
        let last = self.sessions[k].1.last_reliable_sequence;
        let state = self.sessions[k].1.state;
        if reliable_sequence_is_late(last, sequence) || !(state == StreamSessionState::Active || state
            == StreamSessionState::Retrying) {
            return (None, None);
        }
        let mut grown = self.sessions[k].1.buffer.text.clone();
        push_str(&mut grown, text.as_str());
        let content = label_content(&grown, self.sessions[k].1.offline_label);
        let frame = grown.clone();
        self.sessions[k].1.last_reliable_sequence = observe_reliable_sequence(last, sequence);
        self.sessions[k].1.buffer.text = grown;
        self.sessions[k].1.content = content;
        proof {
            lemma_first_index(v1.sessions, session_for(key@));
            lemma_sorted_update(v1.sessions, k as int, self.sessions@[k as int].1@);
            assert(sessions_view(self.sessions@) =~= v1.sessions.update(
                k as int,
                (key@, self.sessions@[k as int].1@),
            ));
        }
        let update = Some(update_from(&self.sessions[k].1, true));
        self.set_last(key);
        (update, Some(frame))
    }

    fn finalize(
        &mut self,
        cell: &TuiCellId,
        text: &String,
        offline: bool,
        key: StreamKey,
        event_id: &String,
        sequence: TuiSourceSequence,
        Ghost(e): Ghost<EventFacts>,
    ) -> (r: (Option<AssistantTimelineUpdate>, Option<String>))
        requires
            old(self).wf(),
            facts_match(e, cell, text, offline, &key, event_id, sequence),
        ensures
            final(self).wf(),
            (final(self)@, update_view(r.0), text_view(r.1)) == finalized(old(self)@, e),
    {
        let ghost v = self@;
        self.ensure_session(cell, offline, &key, false);
        proof {
            lemma_ensured_has(v, cell.0@, offline, key@, false);
        }
        let k = match find_session(&self.sessions, &key) {
            Some(k) => k,
            None => {
                return (None, None);
            },
        };
        let ghost v1 = self@;
        assert(sessions_view(self.sessions@)[k as int] == (
            self.sessions@[k as int].0@,
            self.sessions@[k as int].1@,
        ));
        let last = self.sessions[k].1.last_reliable_sequence;
        if reliable_sequence_is_late(last, sequence) {
            return (None, None);
        }
        proof {
            lemma_first_index(v1.sessions, session_for(key@));
        }
        let (taken_key, mut session) = self.take_session(k);
        let has_text = !text.as_str().is_empty();
        let content = if has_text {
            text.clone()
        } else {
            session.content.clone()
        };
        session.last_reliable_sequence = observe_reliable_sequence(last, sequence);
        session.buffer.text = text.clone();
        session.content = label_content(&content, session.offline_label);
        session.state = StreamSessionState::Finalized;
        let update = update_from(&session, false);
        self.archive_session(taken_key, session, StreamSessionState::Finalized, event_id.as_str());
        (Some(update), if has_text {
            Some(text.clone())
        } else {
            None
        })
    }

    fn finish(
        &mut self,
        key: StreamKey,
        sequence: TuiSourceSequence,
        state: StreamSessionState,
        event_id: &String,
    ) -> (r: Option<AssistantTimelineUpdate>)
        requires
            old(self).wf(),
        ensures
            final(self).wf(),
            (final(self)@, update_view(r)) == closed(old(self)@, key@, sequence, state, event_id@),
    {
        let ghost v = self@;
        let k = match find_session(&self.sessions, &key) {
            Some(k) => k,
            None => {
                return None;
            },
        };
        assert(sessions_view(self.sessions@)[k as int] == (
            self.sessions@[k as int].0@,
            self.sessions@[k as int].1@,
        ));
        let last = self.sessions[k].1.last_reliable_sequence;
        if reliable_sequence_is_late(last, sequence) {
            return None;
        }
        proof {
            lemma_first_index(v.sessions, session_for(key@));
        }
        let (taken_key, mut session) = self.take_session(k);
        session.last_reliable_sequence = observe_reliable_sequence(last, sequence);
        session.state = state;
        let update = update_from(&session, false);
        self.archive_session(taken_key, session, state, event_id.as_str());
        Some(update)
    }
}

/// What the store reads from a stream event.
pub open spec fn event_facts(ev: TuiEvent) -> EventFacts {
    let st = ev.stream->Some_0;
    EventFacts {
        cell: ev.id.0@,
        text: ev.visible_text@,
        offline: st.offline_label,
        key: KeyView { turn: st.identity.turn_id@, stream: st.identity.stream_id@ },
        event_id: st.identity.event_id@,
        sequence: st.identity.source_sequence,
        phase: st.identity.phase,
    }
}

pub open spec fn updates_view(s: Seq<AssistantTimelineUpdate>) -> Seq<UpdateView> {
    s.map_values(|u: AssistantTimelineUpdate| u@)
}

fn state_debug_name(state: StreamSessionState) -> (r: &'static str)
    ensures
        r@ == state_name(state),
{
    match state {
        StreamSessionState::Active => "Active",
        StreamSessionState::Retrying => "Retrying",
        StreamSessionState::Finalized => "Finalized",
        StreamSessionState::Cancelled => "Cancelled",
        StreamSessionState::Superseded => "Superseded",
    }
}

impl TimelineStore {
    /// Applies one transcript event to the stream it belongs to, and says
    /// what its assistant cell now shows. Events without a stream are left
    /// alone.
    pub fn apply(&mut self, event: &mut TuiEvent) -> (r: Option<AssistantTimelineUpdate>)
        requires
            old(self).wf(),
        ensures
            final(self).wf(),
            match old(event).stream {
                None => r is None && final(self)@ == old(self)@ && *final(event) == *old(event),
                Some(st) => {
                    let (v2, u, f) = applied(old(self)@, event_facts(*old(event)));
                    &&& final(self)@ == v2
                    &&& update_view(r) == u
                    &&& match f {
                        None => *final(event) == *old(event),
                        Some(t) => final(event).stream matches Some(ns) && ns.stable_source@ == t
                            && ns.live_tail@.len() == 0 && ns == (TuiStreamState {
                            stable_source: ns.stable_source,
                            live_tail: ns.live_tail,
                            committed: true,
                            ..st
                        }) && *final(event) == (TuiEvent { stream: final(event).stream, ..*old(event) }),
                    }
                },
            },
    {
        let ghost e = event_facts(*event);
        let (cell, text, offline, key, event_id, sequence, phase) = match &event.stream {
            None => {
                return None;
            },
            Some(st) => (
                event.id.clone(),
                event.visible_text.clone(),
                st.offline_label,
                StreamKey {
                    turn_id: st.identity.turn_id.clone(),
                    stream_id: st.identity.stream_id.clone(),
                },
                st.identity.event_id.clone(),
                st.identity.source_sequence,
                st.identity.phase,
            ),
        };
        if !self.record_event_id(event_id.as_str()) {
            self.duplicate_event_count = self.duplicate_event_count.saturating_add(1);
            return None;
        }
        if find_archived(&self.archived, &key).is_some() {
            return None;
        }
        let (update, frame) = match phase {
            TuiStreamPhase::Started => self.start(
                &cell,
                &text,
                offline,
                key,
                &event_id,
                sequence,
                false,
                Ghost(e),
            ),
            TuiStreamPhase::Delta => self.delta(
                &cell,
                &text,
                offline,
                key,
                &event_id,
                sequence,
                Ghost(e),
            ),
            TuiStreamPhase::Retry => self.start(
                &cell,
                &text,
                offline,
                key,
                &event_id,
                sequence,
                true,
                Ghost(e),
            ),
            TuiStreamPhase::Final => self.finalize(
                &cell,
                &text,
                offline,
                key,
                &event_id,
                sequence,
                Ghost(e),
            ),
            TuiStreamPhase::Finish => (
                self.finish(key, sequence, StreamSessionState::Finalized, &event_id),
                None,
            ),
            TuiStreamPhase::Cancel => (
                self.finish(key, sequence, StreamSessionState::Cancelled, &event_id),
                None,
            ),
        };
        if let Some(t) = frame {
            if let Some(st) = &mut event.stream {
                st.stable_source = t;
                st.live_tail = String::new();
                st.committed = true;
            }
        }
        update
    }

    fn finish_all(&mut self, state: StreamSessionState) -> (r: Vec<AssistantTimelineUpdate>)
        requires
            old(self).wf(),
        ensures
            final(self).wf(),
            (final(self)@, updates_view(r@)) == all_closed(old(self)@, state),
    {
        let ghost v0 = self@;
        let mut out: Vec<AssistantTimelineUpdate> = Vec::new();
        assert(updates_view(out@) + all_closed(self@, state).1 =~= all_closed(v0, state).1);
        while self.sessions.len() > 0
            invariant
                self.wf(),
                all_closed(v0, state).0 == all_closed(self@, state).0,
                all_closed(v0, state).1 == updates_view(out@) + all_closed(self@, state).1,
            decreases self.sessions.len(),
        {
            let ghost v = self@;
            assert(sessions_view(self.sessions@)[0] == (
                self.sessions@[0].0@,
                self.sessions@[0].1@,
            ));
            let (key, mut session) = self.take_session(0);
            assert(v.sessions.remove(0) =~= v.sessions.drop_first());
            session.state = state;
            let update = update_from(&session, false);
            let mut terminal = owned("internal:");
            push_str(&mut terminal, key.turn_id.as_str());
            push_str(&mut terminal, ":");
            push_str(&mut terminal, key.stream_id.as_str());
            push_str(&mut terminal, ":");
            push_str(&mut terminal, state_debug_name(state));
            self.archive_session(key, session, state, terminal.as_str());
            let ghost u = update@;
            let ghost before_out = out@;
            out.push(update);
            assert(updates_view(out@) =~= updates_view(before_out).push(u));
            assert(updates_view(before_out) + (seq![u] + all_closed(self@, state).1) =~= updates_view(
                out@,
            ) + all_closed(self@, state).1);
        }
        out
    }
}

impl TimelineStore {
    /// Closes every live stream as finished, in key order, keeping the
    /// content each showed.
    pub fn finish_active(&mut self) -> (r: Vec<AssistantTimelineUpdate>)
        requires
            old(self).wf(),
        ensures
            final(self).wf(),
            (final(self)@, updates_view(r@)) == all_closed(old(self)@, StreamSessionState::Finalized),
    {
        self.finish_all(StreamSessionState::Finalized)
    }

    /// Closes every live stream as cancelled, in key order.
    pub fn cancel_active(&mut self) -> (r: Vec<AssistantTimelineUpdate>)
        requires
            old(self).wf(),
        ensures
            final(self).wf(),
            (final(self)@, updates_view(r@)) == all_closed(old(self)@, StreamSessionState::Cancelled),
    {
        self.finish_all(StreamSessionState::Cancelled)
    }
}

/// A replayed event id changes nothing but the count of replays, and shows
/// nothing.
pub proof fn lemma_replay_is_dropped(v: TimelineView, e: EventFacts)
    requires
        v.seen.contains(e.event_id),
    ensures
        applied(v, e) == (TimelineView { duplicates: sat_inc64(v.duplicates), ..v }, None::<
            UpdateView,
        >, None::<Seq<char>>),
{
}

/// Once a stream is archived, a later event for it only has its id
/// remembered.
pub proof fn lemma_archived_stream_is_closed(v: TimelineView, e: EventFacts)
    requires
        !v.seen.contains(e.event_id),
        first_index(v.archived, archived_for(e.key)) >= 0,
    ensures
        applied(v, e).0 == recorded_event(v, e.event_id).0,
        applied(v, e).1 is None,
{
}

/// A reliable event at or below the last reliable sequence of its live
/// stream changes no session and shows nothing.
pub proof fn lemma_late_reliable_event_is_ignored(v: TimelineView, e: EventFacts)
    requires
        !v.seen.contains(e.event_id),
        first_index(v.archived, archived_for(e.key)) < 0,
        first_index(v.sessions, session_for(e.key)) >= 0,
        late(v.sessions[first_index(v.sessions, session_for(e.key))].1.last_reliable, e.sequence),
    ensures
        applied(v, e).1 is None,
        applied(v, e).0.sessions == v.sessions,
{
}

/// A delta for a live stream in local order (no reliable sequence) is never
/// refused: the stream shows its text so far followed by the delta.
pub proof fn lemma_local_delta_appends(v: TimelineView, e: EventFacts)
    requires
        !v.seen.contains(e.event_id),
        first_index(v.archived, archived_for(e.key)) < 0,
        first_index(v.sessions, session_for(e.key)) >= 0,
        e.sequence is LocalFallback,
        e.phase == TuiStreamPhase::Delta,
        ({
            let s = v.sessions[first_index(v.sessions, session_for(e.key))].1;
            s.state == StreamSessionState::Active || s.state == StreamSessionState::Retrying
        }),
    ensures
        ({
            let s = v.sessions[first_index(v.sessions, session_for(e.key))].1;
            applied(v, e).1 == Some(
                UpdateView {
                    cell_id: s.cell_id,
                    content: labelled(s.text + e.text, s.offline),
                    active: true,
                },
            )
        }),
{
    let v1 = recorded_event(v, e.event_id).0;
    assert(v1.sessions == v.sessions);
}

} // verus!
