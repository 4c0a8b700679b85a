//! What the companion mailbox reports about its love-letter tasks.
use vstd::prelude::*;
use crate::seqs::{any, count, first_index, lemma_first_index, lemma_first_index_at, lemma_first_index_none};
use crate::text::{chars_of, is_ascii_alnum, push_char, str_eq};
use crate::weixin_prune::keep;
use crate::weixin_types::clone_opt_string;

verus! {

#[derive(Clone, Copy, Debug, PartialEq, Eq, Structural)]
pub enum LoveLetterTaskState {
    Pending,
    Generating,
    Ready,
    Failed,
}

/// What the mailbox keeps of a love-letter task's progress: its id and
/// state, how often generation was tried and when it last started, when it
/// produced a letter and which, its lease, and when a failed task may be
/// tried again.
#[derive(Clone, Debug, PartialEq, Eq)]
pub struct LoveLetterTask {
    pub task_id: String,
    pub state: LoveLetterTaskState,
    pub created_at_millis: u128,
    pub updated_at_millis: u128,
    pub generation_attempts: u32,
    pub generation_started_at_millis: Option<u128>,
    pub generation_elapsed_millis: Option<u128>,
    pub generated_at_millis: Option<u128>,
    pub lease_expires_at_millis: Option<u128>,
    pub retry_after_millis: Option<u128>,
    pub last_error_label: Option<String>,
    pub mailbox_item_id: Option<String>,
}

/// What the mailbox reads of a letter in it: its id, the task it answers
/// and when it was made.
#[derive(Clone, Debug, PartialEq, Eq)]
pub struct MailboxItemRecord {
    pub item_id: String,
    pub source_id: String,
    pub created_at_millis: u128,
}

/// The mailbox's tasks and letters.
#[derive(Clone, Debug)]
pub struct CompanionMailboxSnapshot {
    pub tasks: Vec<LoveLetterTask>,
    pub items: Vec<MailboxItemRecord>,
}

/// Why a letter cannot be completed.
#[derive(Clone, Copy, Debug, PartialEq, Eq, Structural)]
pub enum MailboxRefusal {
    TaskNotFound,
    NotLeasedForGeneration,
}

impl MailboxRefusal {
    pub fn message(&self) -> (r: &'static str)
        ensures
            r@ == (match self {
                MailboxRefusal::TaskNotFound => "love-letter task was not found"@,
                MailboxRefusal::NotLeasedForGeneration => "love-letter task is not leased for generation"@,
            }),
    {
        match self {
            MailboxRefusal::TaskNotFound => "love-letter task was not found",
            MailboxRefusal::NotLeasedForGeneration => "love-letter task is not leased for generation",
        }
    }
}

/// What completing a task's letter comes to.
#[derive(Clone, Debug, PartialEq, Eq)]
pub enum CompletionStep {
    /// The task has a letter already, the item at `item_index`, which is
    /// given back; `task` is what the task is recorded as, when it was not
    /// ready yet.
    Existing { item_index: usize, task: Option<LoveLetterTask> },
    /// A new letter is written; `task` is what the task is recorded as after.
    Write { task: LoveLetterTask },
}

pub open spec fn task_with_id(id: Seq<char>) -> spec_fn(LoveLetterTask) -> bool {
    |t: LoveLetterTask| t.task_id@ == id
}

pub open spec fn item_for(id: Seq<char>) -> spec_fn(MailboxItemRecord) -> bool {
    |i: MailboxItemRecord| i.source_id@ == id
}

/// How long generation ran, from its start to `now` (zero when the start is
/// later), if it ever started.
pub open spec fn elapsed_since_start(t: LoveLetterTask, now: u128) -> Option<u128> {
    match t.generation_started_at_millis {
        Some(start) => Some(if now >= start { (now - start) as u128 } else { 0 }),
        None => None,
    }
}

/// The task once its letter, made at `generated_at` under `item_id`, is in
/// the mailbox.
pub open spec fn made_ready(t: LoveLetterTask, now: u128, generated_at: u128, item_id: String) -> LoveLetterTask {
    LoveLetterTask {
        state: LoveLetterTaskState::Ready,
        updated_at_millis: now,
        generated_at_millis: Some(generated_at),
        generation_elapsed_millis: elapsed_since_start(t, now),
        lease_expires_at_millis: None,
        retry_after_millis: None,
        mailbox_item_id: Some(item_id),
        ..t
    }
}

/// What completing the task `task_id` at `now` does, a new letter taking the
/// id `item_id`: an unknown task is refused; a task that has a letter gets it
/// back, and is marked ready if it was not; a task that is not being
/// generated is refused; otherwise the letter is written and the task is
/// marked ready with its error cleared.
pub open spec fn completion_outcome(
    tasks: Seq<LoveLetterTask>,
    items: Seq<MailboxItemRecord>,
    task_id: Seq<char>,
    item_id: String,
    now: u128,
) -> Result<CompletionStep, MailboxRefusal> {
    let ti = first_index(tasks, task_with_id(task_id));
    let ii = first_index(items, item_for(task_id));
    if ti < 0 {
        Err(MailboxRefusal::TaskNotFound)
    } else if ii >= 0 {
        Ok(
            CompletionStep::Existing {
                item_index: ii as usize,
                task: if tasks[ti].state == LoveLetterTaskState::Ready {
                    None
                } else {
                    Some(made_ready(tasks[ti], now, items[ii].created_at_millis, items[ii].item_id))
                },
            },
        )
    } else if tasks[ti].state != LoveLetterTaskState::Generating {
        Err(MailboxRefusal::NotLeasedForGeneration)
    } else {
        Ok(
            CompletionStep::Write {
                task: LoveLetterTask { last_error_label: None, ..made_ready(tasks[ti], now, now, item_id) },
            },
        )
    }
}

/// The larger of two optional times, either one when the other is missing.
pub open spec fn later(a: Option<u128>, b: Option<u128>) -> Option<u128> {
    match (a, b) {
        (Some(x), Some(y)) => Some(if x >= y { x } else { y }),
        (Some(x), None) => Some(x),
        (None, y) => y,
    }
}

/// The latest time `pick` gives of the tasks, if it gives any.
pub open spec fn latest(tasks: Seq<LoveLetterTask>, pick: spec_fn(LoveLetterTask) -> Option<u128>) -> Option<u128>
    decreases tasks.len(),
{
    if tasks.len() == 0 {
        None
    } else {
        later(latest(tasks.drop_last(), pick), pick(tasks.last()))
    }
}

pub open spec fn generation_time(t: LoveLetterTask) -> Option<u128> {
    t.generated_at_millis
}

pub open spec fn failed_retry_time(t: LoveLetterTask) -> Option<u128> {
    if t.state == LoveLetterTaskState::Failed {
        t.retry_after_millis
    } else {
        None
    }
}

pub open spec fn generated_at_or_after(since: u128) -> spec_fn(LoveLetterTask) -> bool {
    |t: LoveLetterTask| t.generated_at_millis matches Some(g) && g >= since
}

/// A task is open while it waits or runs, or has failed with attempts left.
pub open spec fn open_task(max_attempts: u32) -> spec_fn(LoveLetterTask) -> bool {
    |t: LoveLetterTask|
        match t.state {
            LoveLetterTaskState::Pending | LoveLetterTaskState::Generating => true,
            LoveLetterTaskState::Failed => t.generation_attempts < max_attempts,
            LoveLetterTaskState::Ready => false,
        }
}

fn later_exec(a: Option<u128>, b: Option<u128>) -> (r: Option<u128>)
    ensures
        r == later(a, b),
{
    match (a, b) {
        (Some(x), Some(y)) => Some(if x >= y { x } else { y }),
        (Some(x), None) => Some(x),
        (None, y) => y,
    }
}

impl CompanionMailboxSnapshot {
    /// When the last letter was generated, if any was.
    pub fn last_generated_at_millis(&self) -> (r: Option<u128>)
        ensures
            r == latest(self.tasks@, |t: LoveLetterTask| generation_time(t)),
    {
        let mut best: Option<u128> = None;
        let mut i: usize = 0;
        while i < self.tasks.len()
            invariant
                i <= self.tasks@.len(),
                best == latest(self.tasks@.take(i as int), |t: LoveLetterTask| generation_time(t)),
            decreases self.tasks.len() - i,
        {
            assert(self.tasks@.take(i + 1).drop_last() =~= self.tasks@.take(i as int));
            best = later_exec(best, self.tasks[i].generated_at_millis);
            i = i + 1;
        }
        assert(self.tasks@.take(self.tasks@.len() as int) =~= self.tasks@);
        best
    }

    /// How many letters were generated at or after `since_millis`, at most
    /// `u32::MAX`.
    pub fn generated_since(&self, since_millis: u128) -> (r: u32)
        ensures
            r == if count(self.tasks@, generated_at_or_after(since_millis)) > u32::MAX {
                u32::MAX as nat
            } else {
                count(self.tasks@, generated_at_or_after(since_millis))
            },
    {
        let mut n: usize = 0;
        let mut i: usize = 0;
        while i < self.tasks.len()
            invariant
                i <= self.tasks@.len(),
                n == count(self.tasks@.take(i as int), generated_at_or_after(since_millis)),
                n <= i,
            decreases self.tasks.len() - i,
        {
            assert(self.tasks@.take(i + 1).drop_last() =~= self.tasks@.take(i as int));
            let hit = match self.tasks[i].generated_at_millis {
                Some(g) => g >= since_millis,
                None => false,
            };
            if hit {
                n = n + 1;
            }
            i = i + 1;
        }
        assert(self.tasks@.take(self.tasks@.len() as int) =~= self.tasks@);
        if n > u32::MAX as usize {
            u32::MAX
        } else {
            n as u32
        }
    }

    /// Whether some task is still open, with `max_attempts` tries allowed.
    pub fn has_open_task(&self, max_attempts: u32) -> (r: bool)
        ensures
            r == any(self.tasks@, open_task(max_attempts)),
    {
        let mut i: usize = 0;
        while i < self.tasks.len()
            invariant
                i <= self.tasks@.len(),
                forall|k: int| 0 <= k < i ==> !open_task(max_attempts)(#[trigger] self.tasks@[k]),
            decreases self.tasks.len() - i,
        {
            let task = &self.tasks[i];
            let open = match task.state {
                LoveLetterTaskState::Pending | LoveLetterTaskState::Generating => true,
                LoveLetterTaskState::Failed => task.generation_attempts < max_attempts,
                LoveLetterTaskState::Ready => false,
            };
            if open {
                assert(open_task(max_attempts)(self.tasks@[i as int]));
                return true;
            }
            i = i + 1;
        }
        false
    }

    /// The latest time a failed task may be tried again, if any says.
    pub fn latest_retry_after_millis(&self) -> (r: Option<u128>)
        ensures
            r == latest(self.tasks@, |t: LoveLetterTask| failed_retry_time(t)),
    {
        let mut best: Option<u128> = None;
        let mut i: usize = 0;
        while i < self.tasks.len()
            invariant
                i <= self.tasks@.len(),
                best == latest(self.tasks@.take(i as int), |t: LoveLetterTask| failed_retry_time(t)),
            decreases self.tasks.len() - i,
        {
            assert(self.tasks@.take(i + 1).drop_last() =~= self.tasks@.take(i as int));
            let task = &self.tasks[i];
            let retry = if task.state == LoveLetterTaskState::Failed {
                task.retry_after_millis
            } else {
                None
            };
            best = later_exec(best, retry);
            i = i + 1;
        }
        assert(self.tasks@.take(self.tasks@.len() as int) =~= self.tasks@);
        best
    }
}

fn elapsed_exec(t: &LoveLetterTask, now: u128) -> (r: Option<u128>)
    ensures
        r == elapsed_since_start(*t, now),
{
    match t.generation_started_at_millis {
        Some(start) => Some(now.saturating_sub(start)),
        None => None,
    }
}

fn ready_task(t: &LoveLetterTask, now: u128, generated_at: u128, item_id: String) -> (r: LoveLetterTask)
    ensures
        r == made_ready(*t, now, generated_at, item_id),
{
    LoveLetterTask {
        task_id: t.task_id.clone(),
        state: LoveLetterTaskState::Ready,
        created_at_millis: t.created_at_millis,
        updated_at_millis: now,
        generation_attempts: t.generation_attempts,
        generation_started_at_millis: t.generation_started_at_millis,
        generation_elapsed_millis: elapsed_exec(t, now),
        generated_at_millis: Some(generated_at),
        lease_expires_at_millis: None,
        retry_after_millis: None,
        last_error_label: clone_opt_string(&t.last_error_label),
        mailbox_item_id: Some(item_id),
    }
}

fn find_task(tasks: &Vec<LoveLetterTask>, task_id: &str) -> (r: Option<usize>)
    ensures
        match r {
            Some(i) => i as int == first_index(tasks@, task_with_id(task_id@)),
            None => first_index(tasks@, task_with_id(task_id@)) < 0,
        },
{
    let ghost p = task_with_id(task_id@);
    let mut i: usize = 0;
    while i < tasks.len()
        invariant
            i <= tasks@.len(),
            p == task_with_id(task_id@),
            forall|k: int| 0 <= k < i ==> !p(#[trigger] tasks@[k]),
        decreases tasks@.len() - i,
    {
        if str_eq(&tasks[i].task_id, task_id) {
            proof {
                lemma_first_index_at(tasks@, p, i as int);
            }
            return Some(i);
        }
        i = i + 1;
    }
    proof {
        lemma_first_index_none(tasks@, p);
    }
    None
}

fn find_item(items: &Vec<MailboxItemRecord>, task_id: &str) -> (r: Option<usize>)
    ensures
        match r {
            Some(i) => i as int == first_index(items@, item_for(task_id@)),
            None => first_index(items@, item_for(task_id@)) < 0,
        },
{
    let ghost p = item_for(task_id@);
    let mut i: usize = 0;
    while i < items.len()
        invariant
            i <= items@.len(),
            p == item_for(task_id@),
            forall|k: int| 0 <= k < i ==> !p(#[trigger] items@[k]),
        decreases items@.len() - i,
    {
        if str_eq(&items[i].source_id, task_id) {
            proof {
                lemma_first_index_at(items@, p, i as int);
            }
            return Some(i);
        }
        i = i + 1;
    }
    proof {
        lemma_first_index_none(items@, p);
    }
    None
}

/// Decides what completing the task `task_id` at `now_millis` does, a new
/// letter taking the id `item_id` (see `completion_outcome`).
pub fn completion_step(
    snapshot: &CompanionMailboxSnapshot,
    task_id: &str,
    item_id: String,
    now_millis: u128,
) -> (r: Result<CompletionStep, MailboxRefusal>)
    ensures
        r == completion_outcome(snapshot.tasks@, snapshot.items@, task_id@, item_id, now_millis),
{
    proof {
        lemma_first_index(snapshot.tasks@, task_with_id(task_id@));
        lemma_first_index(snapshot.items@, item_for(task_id@));
    }
    let ti = match find_task(&snapshot.tasks, task_id) {
        Some(i) => i,
        None => return Err(MailboxRefusal::TaskNotFound),
    };
    let task = &snapshot.tasks[ti];
    match find_item(&snapshot.items, task_id) {
        Some(ii) => {
            let item = &snapshot.items[ii];
            let updated = if task.state != LoveLetterTaskState::Ready {
                Some(ready_task(task, now_millis, item.created_at_millis, item.item_id.clone()))
            } else {
                None
            };
            Ok(CompletionStep::Existing { item_index: ii, task: updated })
        },
        None => {
            if task.state != LoveLetterTaskState::Generating {
                return Err(MailboxRefusal::NotLeasedForGeneration);
            }
            let ready = ready_task(task, now_millis, now_millis, item_id);
            Ok(CompletionStep::Write { task: LoveLetterTask { last_error_label: None, ..ready } })
        },
    }
}

/// A character that an error label keeps.
pub open spec fn label_char(c: char) -> bool {
    is_ascii_alnum(c) || c == '_' || c == '-'
}

/// An error label as stored: its ASCII letters, digits, `_` and `-`, at
/// most the first 64 of them.
pub open spec fn sanitized_label(label: Seq<char>) -> Seq<char> {
    let kept = keep(label, |c: char| label_char(c));
    if kept.len() > 64 {
        kept.take(64)
    } else {
        kept
    }
}

/// `a + b`, or the largest `u128` when that overflows.
pub open spec fn sat_add(a: u128, b: u128) -> u128 {
    if a + b > u128::MAX {
        u128::MAX
    } else {
        (a + b) as u128
    }
}

fn sanitize_error_label(label: &str) -> (r: String)
    ensures
        r@ == sanitized_label(label@),
{
    let chars = chars_of(label);
    let ghost p = |c: char| label_char(c);
    let mut out = String::new();
    let mut n: usize = 0;
    let mut i: usize = 0;
    while i < chars.len()
        invariant
            i <= chars@.len(),
            chars@ == label@,
            p == (|c: char| label_char(c)),
            n == out@.len(),
            out@ == sanitized_label(chars@.take(i as int)),
        decreases chars@.len() - i,
    {
        proof {
            assert(chars@.take(i + 1).drop_last() =~= chars@.take(i as int));
            assert(chars@.take(i + 1).last() == chars@[i as int]);
        }
        let c = chars[i];
        let keeps = ('0' <= c && c <= '9') || ('a' <= c && c <= 'z') || ('A' <= c && c <= 'Z')
            || c == '_' || c == '-';
        let ghost before = keep(chars@.take(i as int), p);
        if keeps {
            assert(keep(chars@.take(i + 1), p) == before.push(c));
            if n < 64 {
                push_char(&mut out, c);
                n = n + 1;
                proof {
                    assert(out@ =~= sanitized_label(chars@.take(i + 1)));
                }
            } else {
                proof {
                    assert(before.push(c).take(64) =~= (if before.len() > 64 {
                        before.take(64)
                    } else {
                        before
                    }));
                }
            }
        } else {
            assert(keep(chars@.take(i + 1), p) == before);
        }
        i = i + 1;
    }
    assert(chars@.take(i as int) =~= chars@);
    out
}

/// Records that generating the task `task_id` failed at `now_millis`: the
/// task becomes failed, its generation time is taken, its lease is dropped,
/// it may be tried again `retry_backoff_millis` later, and it keeps the
/// sanitized error label. An unknown task is refused.
pub fn failure_step(
    snapshot: &CompanionMailboxSnapshot,
    task_id: &str,
    error_label: &str,
    now_millis: u128,
    retry_backoff_millis: u128,
) -> (r: Result<LoveLetterTask, MailboxRefusal>)
    ensures
        ({
            let ti = first_index(snapshot.tasks@, task_with_id(task_id@));
            if ti < 0 {
                r == Err::<LoveLetterTask, MailboxRefusal>(MailboxRefusal::TaskNotFound)
            } else {
                &&& r matches Ok(t)
                &&& t == (LoveLetterTask {
                    state: LoveLetterTaskState::Failed,
                    updated_at_millis: now_millis,
                    generation_elapsed_millis: elapsed_since_start(snapshot.tasks@[ti], now_millis),
                    lease_expires_at_millis: None,
                    retry_after_millis: Some(sat_add(now_millis, retry_backoff_millis)),
                    last_error_label: t.last_error_label,
                    ..snapshot.tasks@[ti]
                })
                &&& t.last_error_label matches Some(l)
                &&& l@ == sanitized_label(error_label@)
            }
        }),
{
    proof {
        lemma_first_index(snapshot.tasks@, task_with_id(task_id@));
    }
    let ti = match find_task(&snapshot.tasks, task_id) {
        Some(i) => i,
        None => return Err(MailboxRefusal::TaskNotFound),
    };
    let t = &snapshot.tasks[ti];
    Ok(
        LoveLetterTask {
            task_id: t.task_id.clone(),
            state: LoveLetterTaskState::Failed,
            created_at_millis: t.created_at_millis,
            updated_at_millis: now_millis,
            generation_attempts: t.generation_attempts,
            generation_started_at_millis: t.generation_started_at_millis,
            generation_elapsed_millis: elapsed_exec(t, now_millis),
            generated_at_millis: t.generated_at_millis,
            lease_expires_at_millis: None,
            retry_after_millis: Some(now_millis.saturating_add(retry_backoff_millis)),
            last_error_label: Some(sanitize_error_label(error_label)),
            mailbox_item_id: clone_opt_string(&t.mailbox_item_id),
        },
    )
}

/// Lexicographic order of character sequences, the order of `str`.
pub open spec fn text_less(a: Seq<char>, b: Seq<char>) -> bool
    decreases a.len(),
{
    if a.len() == 0 {
        b.len() > 0
    } else if b.len() == 0 {
        false
    } else if a[0] != b[0] {
        a[0] < b[0]
    } else {
        text_less(a.drop_first(), b.drop_first())
    }
}

proof fn lemma_text_less_irreflexive(a: Seq<char>)
    ensures
        !text_less(a, a),
    decreases a.len(),
{
    if a.len() > 0 {
        lemma_text_less_irreflexive(a.drop_first());
    }
}

proof fn lemma_text_less_total(a: Seq<char>, b: Seq<char>)
    ensures
        a == b || text_less(a, b) || text_less(b, a),
    decreases a.len(),
{
    if a.len() > 0 && b.len() > 0 && a[0] == b[0] {
        lemma_text_less_total(a.drop_first(), b.drop_first());
        if a.drop_first() == b.drop_first() {
            assert(a =~= seq![a[0]] + a.drop_first());
            assert(b =~= seq![b[0]] + b.drop_first());
        }
    } else if a.len() == 0 && b.len() == 0 {
        assert(a =~= b);
    }
}

proof fn lemma_text_less_transitive(a: Seq<char>, b: Seq<char>, c: Seq<char>)
    requires
        text_less(a, b),
        text_less(b, c),
    ensures
        text_less(a, c),
    decreases a.len(),
{
    if a.len() > 0 && a[0] == b[0] && b[0] == c[0] {
        lemma_text_less_transitive(a.drop_first(), b.drop_first(), c.drop_first());
    }
}

/// Tasks are claimed oldest first, then by id.
pub open spec fn claims_before(a: LoveLetterTask, b: LoveLetterTask) -> bool {
    a.created_at_millis < b.created_at_millis || (a.created_at_millis == b.created_at_millis
        && text_less(a.task_id@, b.task_id@))
}

proof fn lemma_claims_before_order(a: LoveLetterTask, b: LoveLetterTask, c: LoveLetterTask)
    ensures
        !claims_before(a, a),
        claims_before(a, b) && claims_before(b, c) ==> claims_before(a, c),
        a.created_at_millis == b.created_at_millis && a.task_id@ == b.task_id@ || claims_before(a, b)
            || claims_before(b, a),
{
    lemma_text_less_irreflexive(a.task_id@);
    lemma_text_less_total(a.task_id@, b.task_id@);
    if claims_before(a, b) && claims_before(b, c) && a.created_at_millis == c.created_at_millis {
        lemma_text_less_transitive(a.task_id@, b.task_id@, c.task_id@);
    }
}

/// Whether a task may be claimed at `now` with `max_attempts` tries.
pub open spec fn claimable(t: LoveLetterTask, now: u128, max_attempts: u32) -> bool {
    t.generation_attempts < max_attempts && match t.state {
        LoveLetterTaskState::Pending => true,
        LoveLetterTaskState::Failed => match t.retry_after_millis {
            Some(retry) => retry <= now,
            None => true,
        },
        LoveLetterTaskState::Generating => match t.lease_expires_at_millis {
            Some(expires) => expires <= now,
            None => false,
        },
        LoveLetterTaskState::Ready => false,
    }
}

/// The task as it stands once letters already in the mailbox are taken
/// into account: one that has a letter and is not ready is marked ready.
pub open spec fn refreshed(t: LoveLetterTask, items: Seq<MailboxItemRecord>, now: u128) -> LoveLetterTask {
    let ii = first_index(items, item_for(t.task_id@));
    if ii >= 0 && t.state != LoveLetterTaskState::Ready {
        made_ready(t, now, items[ii].created_at_millis, items[ii].item_id)
    } else {
        t
    }
}

/// Whether `m` is the task to claim: claimable, claimed before no other
/// claimable task, and strictly before every claimable task ahead of it.
pub open spec fn first_to_claim(s: Seq<LoveLetterTask>, m: int, now: u128, max_attempts: u32) -> bool {
    &&& 0 <= m < s.len()
    &&& claimable(s[m], now, max_attempts)
    &&& forall|j: int|
        0 <= j < s.len() && claimable(#[trigger] s[j], now, max_attempts) ==> !claims_before(s[j], s[m])
    &&& forall|j: int|
        0 <= j < m && claimable(#[trigger] s[j], now, max_attempts) ==> claims_before(s[m], s[j])
}

/// The task once claimed at `now` for `lease` milliseconds.
pub open spec fn made_generating(t: LoveLetterTask, now: u128, lease: u128) -> LoveLetterTask {
    LoveLetterTask {
        state: LoveLetterTaskState::Generating,
        updated_at_millis: now,
        generation_attempts: if t.generation_attempts < u32::MAX {
            (t.generation_attempts + 1) as u32
        } else {
            t.generation_attempts
        },
        generation_started_at_millis: Some(now),
        generation_elapsed_millis: None,
        lease_expires_at_millis: Some(sat_add(now, lease)),
        retry_after_millis: None,
        last_error_label: None,
        ..t
    }
}

/// Whether the mailbox has a letter for the task while it is not ready.
pub open spec fn letter_waiting(t: LoveLetterTask, items: Seq<MailboxItemRecord>) -> bool {
    first_index(items, item_for(t.task_id@)) >= 0 && t.state != LoveLetterTaskState::Ready
}

/// The positions, below `n`, of the tasks that a letter in the mailbox
/// marks ready.
pub open spec fn ready_positions(tasks: Seq<LoveLetterTask>, items: Seq<MailboxItemRecord>, n: nat) -> Seq<usize>
    decreases n,
{
    if n == 0 {
        Seq::empty()
    } else {
        let prev = ready_positions(tasks, items, (n - 1) as nat);
        if letter_waiting(tasks[n - 1], items) {
            prev.push((n - 1) as usize)
        } else {
            prev
        }
    }
}

/// What claiming the next task comes to.
#[derive(Clone, Debug, PartialEq, Eq)]
pub struct ClaimStep {
    /// The tasks as they stand once letters already in the mailbox are
    /// taken into account, in order.
    pub tasks: Vec<LoveLetterTask>,
    /// Which of them were marked ready on that account, in order.
    pub marked_ready: Vec<usize>,
    /// The task claimed, as it is recorded, if any was claimable.
    pub claimed: Option<LoveLetterTask>,
}

fn generating_task(t: &LoveLetterTask, now: u128, lease: u128) -> (r: LoveLetterTask)
    ensures
        r == made_generating(*t, now, lease),
{
    LoveLetterTask {
        task_id: t.task_id.clone(),
        state: LoveLetterTaskState::Generating,
        created_at_millis: t.created_at_millis,
        updated_at_millis: now,
        generation_attempts: t.generation_attempts.saturating_add(1),
        generation_started_at_millis: Some(now),
        generation_elapsed_millis: None,
        generated_at_millis: t.generated_at_millis,
        lease_expires_at_millis: Some(now.saturating_add(lease)),
        retry_after_millis: None,
        last_error_label: None,
        mailbox_item_id: clone_opt_string(&t.mailbox_item_id),
    }
}

fn clone_task(t: &LoveLetterTask) -> (r: LoveLetterTask)
    ensures
        r == *t,
{
    LoveLetterTask {
        task_id: t.task_id.clone(),
        state: t.state,
        created_at_millis: t.created_at_millis,
        updated_at_millis: t.updated_at_millis,
        generation_attempts: t.generation_attempts,
        generation_started_at_millis: t.generation_started_at_millis,
        generation_elapsed_millis: t.generation_elapsed_millis,
        generated_at_millis: t.generated_at_millis,
        lease_expires_at_millis: t.lease_expires_at_millis,
        retry_after_millis: t.retry_after_millis,
        last_error_label: clone_opt_string(&t.last_error_label),
        mailbox_item_id: clone_opt_string(&t.mailbox_item_id),
    }
}

fn is_claimable(t: &LoveLetterTask, now: u128, max_attempts: u32) -> (r: bool)
    ensures
        r == claimable(*t, now, max_attempts),
{
    t.generation_attempts < max_attempts && match t.state {
        LoveLetterTaskState::Pending => true,
        LoveLetterTaskState::Failed => match t.retry_after_millis {
            Some(retry) => retry <= now,
            None => true,
        },
        LoveLetterTaskState::Generating => match t.lease_expires_at_millis {
            Some(expires) => expires <= now,
            None => false,
        },
        LoveLetterTaskState::Ready => false,
    }
}

fn text_less_exec(a: &Vec<char>, b: &Vec<char>) -> (r: bool)
    ensures
        r == text_less(a@, b@),
{
    let mut i: usize = 0;
    assert(a@.skip(0) =~= a@);
    assert(b@.skip(0) =~= b@);
    while i < a.len() && i < b.len()
        invariant
            i <= a@.len(),
            i <= b@.len(),
            text_less(a@, b@) == text_less(a@.skip(i as int), b@.skip(i as int)),
        decreases a@.len() - i,
    {
        assert(a@.skip(i as int).drop_first() =~= a@.skip(i + 1));
        assert(b@.skip(i as int).drop_first() =~= b@.skip(i + 1));
        if a[i] != b[i] {
            return a[i] < b[i];
        }
        i = i + 1;
    }
    assert(i == a@.len() ==> a@.skip(i as int).len() == 0);
    assert(i == b@.len() ==> b@.skip(i as int).len() == 0);
    i < b.len() && i == a.len()
}

fn is_claimed_before(a: &LoveLetterTask, b: &LoveLetterTask) -> (r: bool)
    ensures
        r == claims_before(*a, *b),
{
    if a.created_at_millis != b.created_at_millis {
        return a.created_at_millis < b.created_at_millis;
    }
    let x = chars_of(a.task_id.as_str());
    let y = chars_of(b.task_id.as_str());
    text_less_exec(&x, &y)
}

/// Decides what claiming the next task at `now_millis` does: every task
/// that has a letter in the mailbox and is not ready is marked ready; then,
/// of the claimable tasks, the oldest (the smallest id among equally old
/// ones, the first among equal ones) is leased for `lease_millis` and
/// counted as one more attempt.
pub fn claim_step(
    snapshot: &CompanionMailboxSnapshot,
    now_millis: u128,
    lease_millis: u128,
    max_attempts: u32,
) -> (r: ClaimStep)
    ensures
        r.tasks@.len() == snapshot.tasks@.len(),
        forall|i: int|
            0 <= i < snapshot.tasks@.len() ==> #[trigger] r.tasks@[i] == refreshed(
                snapshot.tasks@[i],
                snapshot.items@,
                now_millis,
            ),
        r.marked_ready@ == ready_positions(snapshot.tasks@, snapshot.items@, snapshot.tasks@.len()),
        match r.claimed {
            Some(t) => exists|m: int|
                first_to_claim(r.tasks@, m, now_millis, max_attempts) && t == made_generating(
                    r.tasks@[m],
                    now_millis,
                    lease_millis,
                ),
            None => forall|j: int|
                0 <= j < r.tasks@.len() ==> !claimable(#[trigger] r.tasks@[j], now_millis, max_attempts),
        },
{
    let mut tasks: Vec<LoveLetterTask> = Vec::new();
    let mut marked_ready: Vec<usize> = Vec::new();
    let mut i: usize = 0;
    while i < snapshot.tasks.len()
        invariant
            i <= snapshot.tasks@.len(),
            tasks@.len() == i,
            forall|j: int| 0 <= j < i ==> #[trigger] tasks@[j] == refreshed(snapshot.tasks@[j], snapshot.items@, now_millis),
            marked_ready@ == ready_positions(snapshot.tasks@, snapshot.items@, i as nat),
        decreases snapshot.tasks@.len() - i,
    {
        let t = &snapshot.tasks[i];
        proof {
            lemma_first_index(snapshot.items@, item_for(t.task_id@));
        }
        let next = match find_item(&snapshot.items, t.task_id.as_str()) {
            Some(ii) => {
                if t.state != LoveLetterTaskState::Ready {
                    let item = &snapshot.items[ii];
                    let ready = ready_task(t, now_millis, item.created_at_millis, item.item_id.clone());
                    marked_ready.push(i);
                    ready
                } else {
                    clone_task(t)
                }
            },
            None => clone_task(t),
        };
        tasks.push(next);
        i = i + 1;
    }

    let mut best: Option<usize> = None;
    let mut j: usize = 0;
    while j < tasks.len()
        invariant
            j <= tasks@.len(),
            match best {
                Some(m) => {
                    &&& m < j
                    &&& claimable(tasks@[m as int], now_millis, max_attempts)
                    &&& forall|k: int|
                        0 <= k < j && claimable(#[trigger] tasks@[k], now_millis, max_attempts)
                            ==> !claims_before(tasks@[k], tasks@[m as int])
                    &&& forall|k: int|
                        0 <= k < m && claimable(#[trigger] tasks@[k], now_millis, max_attempts)
                            ==> claims_before(tasks@[m as int], tasks@[k])
                },
                None => forall|k: int|
                    0 <= k < j ==> !claimable(#[trigger] tasks@[k], now_millis, max_attempts),
            },
        decreases tasks@.len() - j,
    {
        if is_claimable(&tasks[j], now_millis, max_attempts) {
            match best {
                None => {
                    best = Some(j);
                    proof {
                        lemma_claims_before_order(tasks@[j as int], tasks@[j as int], tasks@[j as int]);
                    }
                },
                Some(m) => {
                    if is_claimed_before(&tasks[j], &tasks[m]) {
                        proof {
                            let tj = tasks@[j as int];
                            let tm = tasks@[m as int];
                            assert forall|k: int|
                                0 <= k < j + 1 && claimable(#[trigger] tasks@[k], now_millis, max_attempts)
                                    implies !claims_before(tasks@[k], tj) by {
                                lemma_claims_before_order(tasks@[k], tj, tm);
                                lemma_claims_before_order(tj, tj, tj);
                            }
                            assert forall|k: int|
                                0 <= k < j && claimable(#[trigger] tasks@[k], now_millis, max_attempts)
                                    implies claims_before(tj, tasks@[k]) by {
                                lemma_claims_before_order(tm, tasks@[k], tm);
                                lemma_claims_before_order(tj, tm, tasks@[k]);
                                if !claims_before(tm, tasks@[k]) {
                                    // the two are equally placed
                                    assert(tm.created_at_millis == tasks@[k].created_at_millis);
                                    assert(claims_before(tj, tasks@[k]));
                                }
                            }
                        }
                        best = Some(j);
                    }
                },
            }
        }
        j = j + 1;
    }
    let claimed = match best {
        Some(m) => Some(generating_task(&tasks[m], now_millis, lease_millis)),
        None => None,
    };
    proof {
        if let Some(m) = best {
            assert(first_to_claim(tasks@, m as int, now_millis, max_attempts));
        }
    }
    ClaimStep { tasks, marked_ready, claimed }
}

} // verus!
