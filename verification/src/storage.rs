use vstd::prelude::*;
use crate::text::{decimal, is_ascii_digit, lemma_decimal_digits, lemma_decimal_injective, owned, push_decimal_u128, push_str};

verus! {

/// The text of a generated session id: `yunxi-<millis>-<counter>`.
pub open spec fn generated_id_text(millis: nat, counter: nat) -> Seq<char> {
    "yunxi-"@ + decimal(millis) + "-"@ + decimal(counter)
}

/// Ids generated from different clock readings, or from different values of
/// the session counter, differ: the counter alone keeps the ids of one
/// process apart.
pub proof fn lemma_generated_ids_differ(millis_a: nat, counter_a: nat, millis_b: nat, counter_b: nat)
    requires
        millis_a != millis_b || counter_a != counter_b,
    ensures
        generated_id_text(millis_a, counter_a) != generated_id_text(millis_b, counter_b),
{
    reveal_strlit("yunxi-");
    reveal_strlit("-");
    let ta = generated_id_text(millis_a, counter_a);
    let tb = generated_id_text(millis_b, counter_b);
    let da = decimal(millis_a);
    let db = decimal(millis_b);
    lemma_decimal_digits(millis_a);
    lemma_decimal_digits(millis_b);
    lemma_decimal_digits(counter_a);
    lemma_decimal_digits(counter_b);
    if ta == tb {
        let ka = 6 + da.len() as int;
        let kb = 6 + db.len() as int;
        assert(ta[ka] == '-');
        assert(tb[kb] == '-');
        if da.len() < db.len() {
            assert(tb[ka] == db[da.len() as int]);
            assert(is_ascii_digit(db[da.len() as int]));
        } else if db.len() < da.len() {
            assert(ta[kb] == da[db.len() as int]);
            assert(is_ascii_digit(da[db.len() as int]));
        } else {
            assert(da =~= ta.subrange(6, ka));
            assert(db =~= tb.subrange(6, kb));
            lemma_decimal_injective(millis_a, millis_b);
            assert(decimal(counter_a) =~= ta.subrange(ka + 1, ta.len() as int));
            assert(decimal(counter_b) =~= tb.subrange(kb + 1, tb.len() as int));
            lemma_decimal_injective(counter_a, counter_b);
        }
    }
}

/// The id of an agent session.
#[derive(Clone, Debug, PartialEq, Eq, Hash)]
pub struct SessionId(pub String);

impl SessionId {
    pub fn new(value: String) -> (r: Self)
        ensures
            r.0 == value,
    {
        SessionId(value)
    }

    /// A fresh id `yunxi-<millis>-<counter>` from the clock reading in
    /// milliseconds and the process-wide session counter.
    pub fn generate(millis: u128, counter: u64) -> (r: Self)
        ensures
            r.0@ == generated_id_text(millis as nat, counter as nat),
    {
        let mut id = owned("yunxi-");
        push_decimal_u128(&mut id, millis);
        push_str(&mut id, "-");
        push_decimal_u128(&mut id, counter as u128);
        SessionId(id)
    }
}

/// What is kept about a conversation thread.
#[derive(Clone, Debug, PartialEq, Eq)]
pub struct ThreadMetadata {
    pub id: SessionId,
    pub parent_id: Option<SessionId>,
    pub cwd: String,
    pub title: Option<String>,
    pub archived: bool,
    pub pinned: bool,
    pub created_at_millis: u128,
    pub updated_at_millis: u128,
}

impl ThreadMetadata {
    /// A new thread, created and last updated now.
    pub fn new(id: SessionId, cwd: String, now_millis: u128) -> (r: Self)
        ensures
            r.id == id,
            r.cwd == cwd,
            r.parent_id is None,
            r.title is None,
            !r.archived,
            !r.pinned,
            r.created_at_millis == now_millis,
            r.updated_at_millis == now_millis,
    {
        ThreadMetadata {
            id,
            parent_id: None,
            cwd,
            title: None,
            archived: false,
            pinned: false,
            created_at_millis: now_millis,
            updated_at_millis: now_millis,
        }
    }

    pub fn with_parent(self, parent_id: SessionId) -> (r: Self)
        ensures
            r == (ThreadMetadata { parent_id: Some(parent_id), ..self }),
    {
        ThreadMetadata { parent_id: Some(parent_id), ..self }
    }

    pub fn with_title(self, title: String) -> (r: Self)
        ensures
            r == (ThreadMetadata { title: Some(title), ..self }),
    {
        ThreadMetadata { title: Some(title), ..self }
    }

    /// Archives or restores the thread; that counts as an update now.
    pub fn archived(self, archived: bool, now_millis: u128) -> (r: Self)
        ensures
            r == (ThreadMetadata { archived, updated_at_millis: now_millis, ..self }),
    {
        ThreadMetadata { archived, updated_at_millis: now_millis, ..self }
    }

    /// Pins or unpins the thread; that counts as an update now.
    pub fn pinned(self, pinned: bool, now_millis: u128) -> (r: Self)
        ensures
            r == (ThreadMetadata { pinned, updated_at_millis: now_millis, ..self }),
    {
        ThreadMetadata { pinned, updated_at_millis: now_millis, ..self }
    }
}

/// A summary of a thread's stored state, for comparing stores.
#[derive(Clone, Debug, PartialEq, Eq, Default)]
pub struct ThreadStoreParitySnapshot {
    pub thread_id: String,
    pub session_id: Option<SessionId>,
    pub parent_session_id: Option<SessionId>,
    pub child_session_ids: Vec<SessionId>,
    pub forked_from_session_id: Option<SessionId>,
    pub rollout_items: usize,
    pub message_history_items: usize,
    pub runtime_events: usize,
    pub truncated: bool,
    pub compact_summary: Option<String>,
    pub lineage: Vec<String>,
}

/// Limits on what a rollout keeps.
#[derive(Clone, Copy, Debug, PartialEq, Eq, Structural)]
pub struct RolloutBudget {
    pub max_items: usize,
    pub max_bytes: usize,
}

impl RolloutBudget {
    /// A budget of at least one item and one byte.
    pub fn new(max_items: usize, max_bytes: usize) -> (r: Self)
        ensures
            r.max_items == if max_items < 1 {
                1
            } else {
                max_items
            },
            r.max_bytes == if max_bytes < 1 {
                1
            } else {
                max_bytes
            },
    {
        RolloutBudget {
            max_items: if max_items < 1 {
                1
            } else {
                max_items
            },
            max_bytes: if max_bytes < 1 {
                1
            } else {
                max_bytes
            },
        }
    }
}

impl Default for RolloutBudget {
    fn default() -> (r: Self)
        ensures
            r.max_items == 1024,
            r.max_bytes == 4 * 1024 * 1024,
    {
        RolloutBudget { max_items: 1024, max_bytes: 4 * 1024 * 1024 }
    }
}

/// Who said a history item.
#[derive(Clone, Copy, Debug, PartialEq, Eq, Structural)]
pub enum HistoryItemKind {
    User,
    Assistant,
}

/// One message of the conversation history.
#[derive(Clone, Debug, PartialEq, Eq)]
pub struct HistoryItem {
    pub session_id: SessionId,
    pub kind: HistoryItemKind,
    pub content: String,
}

/// How much history to load.
#[derive(Clone, Copy, Debug, PartialEq, Eq, Structural)]
pub struct HistoryLoadOptions {
    pub max_sessions: usize,
}

impl HistoryLoadOptions {
    /// Loads at least one session.
    pub fn new(max_sessions: usize) -> (r: Self)
        ensures
            r.max_sessions == if max_sessions < 1 {
                1
            } else {
                max_sessions
            },
    {
        HistoryLoadOptions {
            max_sessions: if max_sessions < 1 {
                1
            } else {
                max_sessions
            },
        }
    }
}

impl Default for HistoryLoadOptions {
    fn default() -> (r: Self)
        ensures
            r.max_sessions == 128,
    {
        HistoryLoadOptions { max_sessions: 128 }
    }
}

/// Which persona memories a query looks at.
#[derive(Clone, Copy, Debug, PartialEq, Eq, Structural)]
pub enum PersonaMemoryScope {
    All,
    Global,
    Workspace,
    Pending,
}

/// What clearing a workspace's memories did.
#[derive(Clone, Copy, Debug, PartialEq, Eq, Default, Structural)]
pub struct ClearWorkspaceMemorySummary {
    pub archived_active_records: usize,
    pub archived_pending_records: usize,
    pub remaining_pending_records: usize,
}

/// What the conversation history reads of a stored session: its id, the
/// prompt that started it and the final response, if one came.
#[derive(Clone, Debug, PartialEq, Eq)]
pub struct SessionTranscript {
    pub id: SessionId,
    pub prompt: String,
    pub final_response: Option<String>,
}

/// A history item as its parts.
pub open spec fn item_parts(i: HistoryItem) -> (Seq<char>, HistoryItemKind, Seq<char>) {
    (i.session_id.0@, i.kind, i.content@)
}

/// The items of one session: its prompt, then its final response if any.
pub open spec fn session_items(t: SessionTranscript) -> Seq<(Seq<char>, HistoryItemKind, Seq<char>)> {
    seq![(t.id.0@, HistoryItemKind::User, t.prompt@)] + match t.final_response {
        Some(r) => seq![(t.id.0@, HistoryItemKind::Assistant, r@)],
        None => Seq::empty(),
    }
}

/// The items of the sessions, session by session.
pub open spec fn history_items(ts: Seq<SessionTranscript>) -> Seq<(Seq<char>, HistoryItemKind, Seq<char>)>
    decreases ts.len(),
{
    if ts.len() == 0 {
        Seq::empty()
    } else {
        history_items(ts.drop_last()) + session_items(ts.last())
    }
}

/// The sessions of a conversation and its messages in order.
#[derive(Clone, Debug, PartialEq, Eq)]
pub struct SessionHistory {
    pub sessions: Vec<SessionTranscript>,
    pub items: Vec<HistoryItem>,
}

impl SessionHistory {
    /// The history of the sessions: each one's prompt as a user item, then
    /// its final response, if any, as an assistant item.
    pub fn from_sessions(sessions: Vec<SessionTranscript>) -> (r: Self)
        ensures
            r.sessions@ == sessions@,
            r.items@.map_values(|i: HistoryItem| item_parts(i)) == history_items(sessions@),
    {
        let mut items: Vec<HistoryItem> = Vec::new();
        let mut k: usize = 0;
        while k < sessions.len()
            invariant
                k <= sessions@.len(),
                items@.map_values(|i: HistoryItem| item_parts(i)) == history_items(sessions@.take(k as int)),
            decreases sessions.len() - k,
        {
            let session = &sessions[k];
            let ghost before = items@.map_values(|i: HistoryItem| item_parts(i));
            items.push(HistoryItem {
                session_id: SessionId(session.id.0.clone()),
                kind: HistoryItemKind::User,
                content: session.prompt.clone(),
            });
            if let Some(final_response) = &session.final_response {
                items.push(HistoryItem {
                    session_id: SessionId(session.id.0.clone()),
                    kind: HistoryItemKind::Assistant,
                    content: final_response.clone(),
                });
            }
            proof {
                assert(sessions@.take(k + 1).drop_last() =~= sessions@.take(k as int));
                assert(items@.map_values(|i: HistoryItem| item_parts(i)) =~= before + session_items(sessions@[k as int]));
            }
            k = k + 1;
        }
        proof {
            assert(sessions@.take(sessions@.len() as int) =~= sessions@);
        }
        SessionHistory { sessions, items }
    }

    /// Whether there is no session.
    pub fn is_empty(&self) -> (r: bool)
        ensures
            r == (self.sessions@.len() == 0),
    {
        self.sessions.len() == 0
    }
}

/// `usize::saturating_add`.
pub open spec fn sat_add(a: int, b: int) -> int {
    if a + b > usize::MAX {
        usize::MAX as int
    } else {
        a + b
    }
}

/// How many of the events, encoded in lines of the given lengths, a rollout
/// keeps from the `i`-th on with `total` bytes kept so far: an event is kept
/// while fewer than `max_items` are, and its bytes added to the total stay
/// within `max_bytes`; the first one that does not fit ends the rollout.
pub open spec fn kept_events(lens: Seq<usize>, budget: RolloutBudget, i: int, total: int) -> int
    decreases lens.len() - i,
{
    if i < 0 || i >= lens.len() {
        i
    } else if i >= budget.max_items || sat_add(total, lens[i] as int) > budget.max_bytes {
        i
    } else {
        kept_events(lens, budget, i + 1, sat_add(total, lens[i] as int))
    }
}

/// How many encoded events of the given lengths a rollout keeps, and
/// whether any was cut off.
pub fn rollout_fit(line_lengths: &Vec<usize>, budget: RolloutBudget) -> (r: (usize, bool))
    ensures
        r.0 == kept_events(line_lengths@, budget, 0, 0),
        r.1 == (r.0 < line_lengths@.len()),
{
    let mut i: usize = 0;
    let mut total: usize = 0;
    while i < line_lengths.len()
        invariant_except_break
            i <= line_lengths@.len(),
            kept_events(line_lengths@, budget, i as int, total as int) == kept_events(line_lengths@, budget, 0, 0),
        invariant
            i <= line_lengths@.len(),
        ensures
            kept_events(line_lengths@, budget, 0, 0) == i,
        decreases line_lengths.len() - i,
    {
        let next = total.saturating_add(line_lengths[i]);
        if i >= budget.max_items || next > budget.max_bytes {
            break;
        }
        total = next;
        i = i + 1;
    }
    (i, i < line_lengths.len())
}

} // verus!
