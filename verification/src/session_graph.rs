//! The parent/child projection of stored sessions, which refuses sessions
//! whose parent links run in a cycle.
use vstd::prelude::*;
use crate::seqs::{first_index, lemma_first_index};
use crate::storage::{SessionId, ThreadMetadata};
use crate::text::str_eq;
use crate::timeline_order::{lemma_text_lt_total, lemma_text_lt_transitive, text_less, text_lt};

verus! {

/// What the session graph keeps of a session.
#[derive(Debug, PartialEq, Eq)]
pub struct AgentSessionMetadata {
    pub id: SessionId,
    pub parent_id: Option<SessionId>,
    pub task: Option<String>,
    pub title: Option<String>,
    pub archived: bool,
    pub pinned: bool,
    pub created_at_millis: u128,
    pub updated_at_millis: u128,
}

pub struct SessionMetaView {
    pub id: Seq<char>,
    pub parent: Option<Seq<char>>,
    pub task: Option<Seq<char>>,
    pub title: Option<Seq<char>>,
    pub archived: bool,
    pub pinned: bool,
    pub created_at_millis: u128,
    pub updated_at_millis: u128,
}

pub open spec fn opt_text(o: Option<String>) -> Option<Seq<char>> {
    match o {
        Some(s) => Some(s@),
        None => None,
    }
}

pub open spec fn opt_id(o: Option<SessionId>) -> Option<Seq<char>> {
    match o {
        Some(s) => Some(s.0@),
        None => None,
    }
}

impl View for AgentSessionMetadata {
    type V = SessionMetaView;

    open spec fn view(&self) -> SessionMetaView {
        SessionMetaView {
            id: self.id.0@,
            parent: opt_id(self.parent_id),
            task: opt_text(self.task),
            title: opt_text(self.title),
            archived: self.archived,
            pinned: self.pinned,
            created_at_millis: self.created_at_millis,
            updated_at_millis: self.updated_at_millis,
        }
    }
}

pub open spec fn metas(v: Seq<AgentSessionMetadata>) -> Seq<SessionMetaView> {
    v.map_values(|m: AgentSessionMetadata| m@)
}

fn copy_text(s: &String) -> (r: String)
    ensures
        r@ == s@,
{
    s.clone()
}

fn copy_opt_text(o: &Option<String>) -> (r: Option<String>)
    ensures
        opt_text(r) == opt_text(*o),
{
    match o {
        Some(s) => Some(s.clone()),
        None => None,
    }
}

fn copy_opt_id(o: &Option<SessionId>) -> (r: Option<SessionId>)
    ensures
        opt_id(r) == opt_id(*o),
{
    match o {
        Some(s) => Some(SessionId(s.0.clone())),
        None => None,
    }
}

impl AgentSessionMetadata {
    /// The graph's record of a thread: no task, the rest as the thread has it.
    pub fn from_thread(thread: &ThreadMetadata) -> (r: Self)
        ensures
            r@ == (SessionMetaView {
                id: thread.id.0@,
                parent: opt_id(thread.parent_id),
                task: None,
                title: opt_text(thread.title),
                archived: thread.archived,
                pinned: thread.pinned,
                created_at_millis: thread.created_at_millis,
                updated_at_millis: thread.updated_at_millis,
            }),
    {
        AgentSessionMetadata {
            id: SessionId(copy_text(&thread.id.0)),
            parent_id: copy_opt_id(&thread.parent_id),
            task: None,
            title: copy_opt_text(&thread.title),
            archived: thread.archived,
            pinned: thread.pinned,
            created_at_millis: thread.created_at_millis,
            updated_at_millis: thread.updated_at_millis,
        }
    }

    /// A copy with the same view.
    pub fn duplicate(&self) -> (r: Self)
        ensures
            r@ == self@,
    {
        AgentSessionMetadata {
            id: SessionId(copy_text(&self.id.0)),
            parent_id: copy_opt_id(&self.parent_id),
            task: copy_opt_text(&self.task),
            title: copy_opt_text(&self.title),
            archived: self.archived,
            pinned: self.pinned,
            created_at_millis: self.created_at_millis,
            updated_at_millis: self.updated_at_millis,
        }
    }
}

// ---------------------------------------------------------------------------
// Sessions by id
// ---------------------------------------------------------------------------
/// The sessions are in increasing id order, so no id occurs twice.
pub open spec fn ascending(ss: Seq<SessionMetaView>) -> bool {
    forall|i: int, j: int| 0 <= i < j < ss.len() ==> text_lt(#[trigger] ss[i].id, #[trigger] ss[j].id)
}

pub open spec fn has_id(x: Seq<char>) -> spec_fn(SessionMetaView) -> bool {
    |m: SessionMetaView| m.id == x
}

/// The last of the listed sessions with id `x`, if one has it.
pub open spec fn last_with_id(list: Seq<SessionMetaView>, x: Seq<char>) -> Option<SessionMetaView>
    decreases list.len(),
{
    if list.len() == 0 {
        None
    } else if list.last().id == x {
        Some(list.last())
    } else {
        last_with_id(list.drop_last(), x)
    }
}

/// `by_id` holds, in id order, the last listed session of each id.
pub open spec fn keyed_by_id(by_id: Seq<SessionMetaView>, list: Seq<SessionMetaView>) -> bool {
    &&& ascending(by_id)
    &&& forall|i: int| 0 <= i < by_id.len() ==> last_with_id(list, #[trigger] by_id[i].id) == Some(by_id[i])
    &&& forall|k: int| 0 <= k < list.len() ==> exists|i: int| 0 <= i < by_id.len() && #[trigger] by_id[i].id == #[trigger] list[k].id
}

/// Where a session with id `x` goes in an ascending list.
fn id_position(ss: &Vec<AgentSessionMetadata>, x: &str) -> (p: usize)
    requires
        ascending(metas(ss@)),
    ensures
        p <= ss@.len(),
        forall|i: int| 0 <= i < p ==> text_lt(#[trigger] metas(ss@)[i].id, x@),
        p < ss@.len() ==> !text_lt(metas(ss@)[p as int].id, x@),
{
    let mut p: usize = 0;
    while p < ss.len()
        invariant
            p <= ss@.len(),
            forall|i: int| 0 <= i < p ==> text_lt(#[trigger] metas(ss@)[i].id, x@),
        decreases ss.len() - p,
    {
        if !text_less(ss[p].id.0.as_str(), x) {
            return p;
        }
        p = p + 1;
    }
    p
}

/// The sessions keyed by id, the last listed one winning for a repeated id.
pub fn sessions_by_id(list: Vec<AgentSessionMetadata>) -> (r: Vec<AgentSessionMetadata>)
    ensures
        keyed_by_id(metas(r@), metas(list@)),
{
    let ghost all = metas(list@);
    let n = list.len();
    assert(all.len() == n);
    let mut rest = list;
    let mut out: Vec<AgentSessionMetadata> = Vec::new();
    let mut k: usize = 0;
    assert(all.take(0) =~= Seq::<SessionMetaView>::empty());
    assert(all.skip(0) =~= all);
    while rest.len() > 0
        invariant
            k + rest@.len() == all.len(),
            all.len() <= usize::MAX,
            metas(rest@) == all.skip(k as int),
            keyed_by_id(metas(out@), all.take(k as int)),
        decreases rest.len(),
    {
        let ghost old_rest = metas(rest@);
        let item = rest.remove(0);
        let ghost before = metas(out@);
        let ghost x = item@;
        proof {
            assert(all.skip(k as int)[0] == x);
            assert(metas(rest@) =~= old_rest.drop_first());
            assert(old_rest.drop_first() =~= all.skip(k + 1));
            assert(all.take(k + 1) =~= all.take(k as int).push(x));
        }
        let p = id_position(&out, item.id.0.as_str());
        if p < out.len() && str_eq(out[p].id.0.as_str(), item.id.0.as_str()) {
            out.set(p, item);
            proof {
                let after = metas(out@);
                let prev = all.take(k as int);
                let next = all.take(k + 1);
                assert(after =~= before.update(p as int, x));
                assert(last_with_id(next, x.id) == Some(x));
                assert forall|i: int| 0 <= i < after.len() implies last_with_id(next, #[trigger] after[i].id) == Some(after[i]) by {
                    if i != p {
                        assert(after[i] == before[i]);
                        if before[i].id == x.id {
                            lemma_text_lt_total(before[i].id, before[p as int].id);
                            if i < p {
                                assert(text_lt(before[i].id, before[p as int].id));
                            } else {
                                assert(text_lt(before[p as int].id, before[i].id));
                            }
                            crate::timeline_order::lemma_text_lt_irreflexive(x.id);
                        }
                        assert(next.drop_last() =~= prev);
                    }
                }
                assert forall|j: int| 0 <= j < next.len() implies exists|i: int| 0 <= i < after.len() && #[trigger] after[i].id == #[trigger] next[j].id by {
                    if j < k {
                        assert(next[j] == prev[j]);
                        let i = choose|i: int| 0 <= i < before.len() && #[trigger] before[i].id == #[trigger] prev[j].id;
                        assert(after[i].id == before[i].id);
                    } else {
                        assert(after[p as int].id == next[j].id);
                    }
                }
            }
        } else {
            out.insert(p, item);
            proof {
                let after = metas(out@);
                let prev = all.take(k as int);
                let next = all.take(k + 1);
                assert(after =~= before.insert(p as int, x));
                if p < before.len() {
                    lemma_text_lt_total(before[p as int].id, x.id);
                }
                assert forall|i: int| p <= i < before.len() implies text_lt(x.id, #[trigger] before[i].id) by {
                    if i > p {
                        lemma_text_lt_transitive(x.id, before[p as int].id, before[i].id);
                    }
                }
                assert forall|i: int, j: int| 0 <= i < j < after.len() implies text_lt(
                    #[trigger] after[i].id,
                    #[trigger] after[j].id,
                ) by {
                    if j < p {
                    } else if j == p {
                    } else if i < p {
                        lemma_text_lt_transitive(before[i].id, x.id, before[j - 1].id);
                    } else if i == p {
                    } else {
                    }
                }
                assert(next.drop_last() =~= prev);
                assert forall|i: int| 0 <= i < after.len() implies last_with_id(next, #[trigger] after[i].id) == Some(after[i]) by {
                    if i != p {
                        let bi = if i < p { i } else { i - 1 };
                        assert(after[i] == before[bi]);
                        if before[bi].id == x.id {
                            crate::timeline_order::lemma_text_lt_irreflexive(x.id);
                            if bi < p {
                                assert(text_lt(before[bi].id, x.id));
                            } else {
                                assert(text_lt(x.id, before[bi].id));
                            }
                        }
                    }
                }
                assert forall|j: int| 0 <= j < next.len() implies exists|i: int| 0 <= i < after.len() && #[trigger] after[i].id == #[trigger] next[j].id by {
                    if j < k {
                        assert(next[j] == prev[j]);
                        let i = choose|i: int| 0 <= i < before.len() && #[trigger] before[i].id == #[trigger] prev[j].id;
                        if i < p {
                            assert(after[i].id == before[i].id);
                        } else {
                            assert(after[i + 1].id == before[i].id);
                        }
                    } else {
                        assert(after[p as int].id == next[j].id);
                    }
                }
            }
        }
        k = k + 1;
    }
    assert(all.take(k as int) =~= all);
    out
}

// ---------------------------------------------------------------------------
// Cycles
// ---------------------------------------------------------------------------
/// The parent of the session with id `x`, if there is such a session and it
/// has one.
pub open spec fn parent_in(ss: Seq<SessionMetaView>, x: Seq<char>) -> Option<Seq<char>> {
    let i = first_index(ss, has_id(x));
    if i < 0 {
        None
    } else {
        ss[i].parent
    }
}

/// Following parent links from `cur`, with the ids in `seen` visited
/// already: the first id that is met a second time, if the walk runs into
/// one before it leaves the sessions.
pub open spec fn repeated_ancestor(
    ss: Seq<SessionMetaView>,
    seen: Seq<Seq<char>>,
    cur: Option<Seq<char>>,
) -> Option<Seq<char>>
    decreases ss.len() + 1 - seen.len(),
{
    match cur {
        None => None,
        Some(x) => if seen.contains(x) {
            Some(x)
        } else if seen.len() > ss.len() {
            None
        } else {
            repeated_ancestor(ss, seen.push(x), parent_in(ss, x))
        },
    }
}

/// The id where the first session (in order) whose parent links run in a
/// cycle meets its walk again, among the first `k` sessions.
pub open spec fn first_cycle(ss: Seq<SessionMetaView>, k: int) -> Option<Seq<char>>
    decreases k,
{
    if k <= 0 {
        None
    } else {
        match first_cycle(ss, k - 1) {
            Some(x) => Some(x),
            None => repeated_ancestor(ss, Seq::empty(), Some(ss[k - 1].id)),
        }
    }
}

pub open spec fn is_key(ss: Seq<SessionMetaView>, x: Seq<char>) -> bool {
    exists|i: int| 0 <= i < ss.len() && #[trigger] ss[i].id == x
}

pub open spec fn strings(v: Seq<String>) -> Seq<Seq<char>> {
    v.map_values(|s: String| s@)
}

/// Distinct ids of sessions are no more than the sessions.
proof fn lemma_distinct_keys_bound(seen: Seq<Seq<char>>, ss: Seq<SessionMetaView>)
    requires
        seen.no_duplicates(),
        forall|j: int| 0 <= j < seen.len() ==> is_key(ss, #[trigger] seen[j]),
    ensures
        seen.len() <= ss.len(),
{
    let ids = ss.map_values(|m: SessionMetaView| m.id);
    seen.unique_seq_to_set();
    ids.lemma_cardinality_of_set();
    vstd::seq_lib::seq_to_set_is_finite(ids);
    assert forall|x: Seq<char>| seen.to_set().contains(x) implies ids.to_set().contains(x) by {
        let j = choose|j: int| 0 <= j < seen.len() && seen[j] == x;
        assert(is_key(ss, seen[j]));
        let i = choose|i: int| 0 <= i < ss.len() && #[trigger] ss[i].id == seen[j];
        assert(ids[i] == x);
    }
    vstd::set_lib::lemma_len_subset(seen.to_set(), ids.to_set());
}

/// The parent of the session with id `x`.
fn parent_of(ss: &Vec<AgentSessionMetadata>, x: &str) -> (r: Option<String>)
    ensures
        opt_text(r) == parent_in(metas(ss@), x@),
        r is Some ==> is_key(metas(ss@), x@),
{
    let ghost v = metas(ss@);
    proof {
        lemma_first_index(v, has_id(x@));
    }
    let mut i: usize = 0;
    while i < ss.len()
        invariant
            i <= ss@.len(),
            v == metas(ss@),
            forall|j: int| 0 <= j < i ==> !has_id(x@)(#[trigger] v[j]),
        decreases ss.len() - i,
    {
        if str_eq(ss[i].id.0.as_str(), x) {
            proof {
                crate::seqs::lemma_first_index_at(v, has_id(x@), i as int);
            }
            return match &ss[i].parent_id {
                Some(p) => Some(p.0.clone()),
                None => None,
            };
        }
        i = i + 1;
    }
    proof {
        crate::seqs::lemma_first_index_none(v, has_id(x@));
    }
    None
}

fn contains_text(seen: &Vec<String>, x: &str) -> (r: bool)
    ensures
        r == strings(seen@).contains(x@),
{
    let mut i: usize = 0;
    while i < seen.len()
        invariant
            i <= seen@.len(),
            forall|j: int| 0 <= j < i ==> strings(seen@)[j] != x@,
        decreases seen.len() - i,
    {
        if str_eq(seen[i].as_str(), x) {
            assert(strings(seen@)[i as int] == x@);
            return true;
        }
        i = i + 1;
    }
    false
}

/// Walks the parent links from session `start`, as the cycle check does.
fn repeated_ancestor_from(ss: &Vec<AgentSessionMetadata>, start: usize) -> (r: Option<String>)
    requires
        start < ss@.len(),
    ensures
        opt_text(r) == repeated_ancestor(metas(ss@), Seq::empty(), Some(metas(ss@)[start as int].id)),
{
    let ghost v = metas(ss@);
    let ghost target = repeated_ancestor(v, Seq::empty(), Some(v[start as int].id));
    let mut seen: Vec<String> = Vec::new();
    let mut cur: Option<String> = Some(ss[start].id.0.clone());
    proof {
        assert(strings(seen@) =~= Seq::<Seq<char>>::empty());
    }
    loop
        invariant
            v == metas(ss@),
            start < ss@.len(),
            target == repeated_ancestor(v, Seq::empty(), Some(v[start as int].id)),
            repeated_ancestor(v, strings(seen@), opt_text(cur)) == target,
            strings(seen@).no_duplicates(),
            cur is Some ==> forall|j: int| 0 <= j < seen@.len() ==> is_key(v, #[trigger] strings(seen@)[j]),
            cur is Some ==> seen@.len() <= v.len(),
        decreases v.len() + 1 - seen@.len(),
    {
        let x = match cur {
            Some(x) => x,
            None => {
                return None;
            },
        };
        if contains_text(&seen, x.as_str()) {
            return Some(x);
        }
        let next = parent_of(ss, x.as_str());
        let ghost before = strings(seen@);
        seen.push(x);
        proof {
            let after = strings(seen@);
            assert(after =~= before.push(x@));
            assert(after.no_duplicates()) by {
                assert forall|a: int, b: int| 0 <= a < b < after.len() implies after[a] != after[b] by {
                    if b == before.len() {
                        assert(before[a] == after[a]);
                    }
                }
            }
            if next is Some {
                assert forall|j: int| 0 <= j < after.len() implies is_key(v, #[trigger] after[j]) by {
                    if j < before.len() {
                        assert(after[j] == before[j]);
                    }
                }
                lemma_distinct_keys_bound(after, v);
            }
        }
        cur = next;
    }
}

fn check_cycles(ss: &Vec<AgentSessionMetadata>) -> (r: Option<String>)
    ensures
        opt_text(r) == first_cycle(metas(ss@), ss@.len() as int),
{
    let mut i: usize = 0;
    while i < ss.len()
        invariant
            i <= ss@.len(),
            first_cycle(metas(ss@), i as int) is None,
        decreases ss.len() - i,
    {
        let found = repeated_ancestor_from(ss, i);
        if let Some(x) = found {
            proof {
                lemma_first_cycle_prefix(metas(ss@), i as int + 1, ss@.len() as int);
            }
            return Some(x);
        }
        i = i + 1;
    }
    None
}

proof fn lemma_first_cycle_prefix(ss: Seq<SessionMetaView>, k: int, n: int)
    requires
        0 <= k <= n,
        first_cycle(ss, k) is Some,
    ensures
        first_cycle(ss, n) == first_cycle(ss, k),
    decreases n - k,
{
    if k < n {
        lemma_first_cycle_prefix(ss, k, n - 1);
    }
}

// ---------------------------------------------------------------------------
// Children
// ---------------------------------------------------------------------------
/// The ids of the sessions whose parent is `p`, in order.
pub open spec fn child_ids(ss: Seq<SessionMetaView>, p: Seq<char>) -> Seq<Seq<char>>
    decreases ss.len(),
{
    if ss.len() == 0 {
        Seq::empty()
    } else {
        child_ids(ss.drop_last(), p) + if ss.last().parent == Some(p) {
            seq![ss.last().id]
        } else {
            Seq::empty()
        }
    }
}

pub open spec fn is_parent(ss: Seq<SessionMetaView>, p: Seq<char>) -> bool {
    exists|i: int| 0 <= i < ss.len() && #[trigger] ss[i].parent == Some(p)
}

/// `children` lists, in increasing parent id order, each parent that some
/// session names with the ids of its children in session order.
pub open spec fn children_of_sessions(
    children: Seq<(Seq<char>, Seq<Seq<char>>)>,
    ss: Seq<SessionMetaView>,
) -> bool {
    &&& forall|i: int, j: int|
        0 <= i < j < children.len() ==> text_lt(#[trigger] children[i].0, #[trigger] children[j].0)
    &&& forall|i: int| 0 <= i < children.len() ==> is_parent(ss, #[trigger] children[i].0)
    &&& forall|k: int|
        0 <= k < ss.len() && ss[k].parent is Some ==> exists|i: int|
            0 <= i < children.len() && #[trigger] children[i].0 == (#[trigger] ss[k].parent)->0
    &&& forall|i: int| 0 <= i < children.len() ==> (#[trigger] children[i]).1 == child_ids(ss, children[i].0)
}

pub open spec fn children_view(c: Seq<(SessionId, Vec<SessionId>)>) -> Seq<(Seq<char>, Seq<Seq<char>>)> {
    c.map_values(|e: (SessionId, Vec<SessionId>)| (e.0.0@, e.1@.map_values(|s: SessionId| s.0@)))
}

fn child_position(children: &Vec<(SessionId, Vec<SessionId>)>, x: &str) -> (p: usize)
    requires
        forall|i: int, j: int|
            0 <= i < j < children@.len() ==> text_lt(
                #[trigger] children_view(children@)[i].0,
                #[trigger] children_view(children@)[j].0,
            ),
    ensures
        p <= children@.len(),
        forall|i: int| 0 <= i < p ==> text_lt(#[trigger] children_view(children@)[i].0, x@),
        p < children@.len() ==> !text_lt(children_view(children@)[p as int].0, x@),
{
    let mut p: usize = 0;
    while p < children.len()
        invariant
            p <= children@.len(),
            forall|i: int| 0 <= i < p ==> text_lt(#[trigger] children_view(children@)[i].0, x@),
        decreases children.len() - p,
    {
        if !text_less(children[p].0.0.as_str(), x) {
            return p;
        }
        p = p + 1;
    }
    p
}

/// The children lists of the sessions.
fn build_children(ss: &Vec<AgentSessionMetadata>) -> (r: Vec<(SessionId, Vec<SessionId>)>)
    ensures
        children_of_sessions(children_view(r@), metas(ss@)),
{
    let ghost v = metas(ss@);
    let mut children: Vec<(SessionId, Vec<SessionId>)> = Vec::new();
    let mut k: usize = 0;
    assert(v.take(0) =~= Seq::<SessionMetaView>::empty());
    while k < ss.len()
        invariant
            k <= ss@.len(),
            v == metas(ss@),
            children_of_sessions(children_view(children@), v.take(k as int)),
        decreases ss.len() - k,
    {
        let ghost prev = v.take(k as int);
        let ghost next = v.take(k + 1);
        let ghost m = v[k as int];
        proof {
            assert(next =~= prev.push(m));
            assert(next.drop_last() =~= prev);
        }
        match &ss[k].parent_id {
            None => {
                proof {
                    let cv = children_view(children@);
                    assert forall|i: int| 0 <= i < cv.len() implies is_parent(next, #[trigger] cv[i].0) by {
                        let j = choose|j: int| 0 <= j < prev.len() && #[trigger] prev[j].parent == Some(cv[i].0);
                        assert(next[j] == prev[j]);
                    }
                    assert forall|i: int| 0 <= i < cv.len() implies (#[trigger] cv[i]).1 == child_ids(next, cv[i].0) by {
                        assert(child_ids(next, cv[i].0) =~= child_ids(prev, cv[i].0));
                    }
                    assert forall|j: int| 0 <= j < next.len() && next[j].parent is Some implies exists|i: int|
                        0 <= i < cv.len() && #[trigger] cv[i].0 == (#[trigger] next[j].parent)->0 by {
                        assert(next[j] == prev[j]);
                    }
                }
            },
            Some(parent) => {
                let ghost pv = parent.0@;
                let ghost before = children_view(children@);
                let p = child_position(&children, parent.0.as_str());
                let child = SessionId(ss[k].id.0.clone());
                if p < children.len() && str_eq(children[p].0.0.as_str(), parent.0.as_str()) {
                    let ghost old_children = children@;
                    let mut entry = children.remove(p);
                    let ghost old_entry = entry;
                    entry.1.push(child);
                    let ghost new_entry = entry;
                    children.insert(p, entry);
                    proof {
                        let after = children_view(children@);
                        assert(before[p as int].0 == pv);
                        assert(children@ =~= old_children.update(p as int, new_entry));
                        assert(old_entry == old_children[p as int]);
                        assert(new_entry.1@ =~= old_entry.1@.push(new_entry.1@.last()));
                        assert(new_entry.1@.map_values(|s: SessionId| s.0@) =~= old_entry.1@.map_values(
                            |s: SessionId| s.0@,
                        ).push(m.id));
                        assert(after =~= before.update(p as int, (pv, before[p as int].1.push(m.id))));
                        assert forall|i: int| 0 <= i < after.len() implies is_parent(next, #[trigger] after[i].0) by {
                            let j = choose|j: int| 0 <= j < prev.len() && #[trigger] prev[j].parent == Some(before[i].0);
                            assert(next[j] == prev[j]);
                        }
                        assert forall|i: int| 0 <= i < after.len() implies (#[trigger] after[i]).1 == child_ids(next, after[i].0) by {
                            if i != p {
                                if after[i].0 == pv {
                                    lemma_text_lt_total(before[i].0, before[p as int].0);
                                    crate::timeline_order::lemma_text_lt_irreflexive(pv);
                                }
                                assert(child_ids(next, after[i].0) =~= child_ids(prev, after[i].0));
                            } else {
                                assert(child_ids(next, pv) =~= child_ids(prev, pv).push(m.id));
                            }
                        }
                        assert forall|j: int| 0 <= j < next.len() && next[j].parent is Some implies exists|i: int|
                            0 <= i < after.len() && #[trigger] after[i].0 == (#[trigger] next[j].parent)->0 by {
                            if j < prev.len() {
                                assert(next[j] == prev[j]);
                                let i = choose|i: int| 0 <= i < before.len() && #[trigger] before[i].0 == (#[trigger] prev[j].parent)->0;
                                assert(after[i].0 == before[i].0);
                            } else {
                                assert(after[p as int].0 == pv);
                            }
                        }
                    }
                } else {
                    let ghost old_children = children@;
                    let mut list: Vec<SessionId> = Vec::new();
                    list.push(child);
                    let new_entry = (SessionId(parent.0.clone()), list);
                    let ghost ne = new_entry;
                    children.insert(p, new_entry);
                    proof {
                        let after = children_view(children@);
                        assert(children@ =~= old_children.insert(p as int, ne));
                        assert(ne.1@.map_values(|s: SessionId| s.0@) =~= seq![m.id]);
                        assert(after =~= before.insert(p as int, (pv, seq![m.id])));
                        if p < before.len() {
                            lemma_text_lt_total(before[p as int].0, pv);
                        }
                        assert forall|i: int| p <= i < before.len() implies text_lt(pv, #[trigger] before[i].0) by {
                            if i > p {
                                lemma_text_lt_transitive(pv, before[p as int].0, before[i].0);
                            }
                        }
                        assert forall|i: int, j: int| 0 <= i < j < after.len() implies text_lt(
                            #[trigger] after[i].0,
                            #[trigger] after[j].0,
                        ) by {
                            if j < p {
                            } else if j == p {
                            } else if i < p {
                                lemma_text_lt_transitive(before[i].0, pv, before[j - 1].0);
                            } else if i == p {
                            } else {
                            }
                        }
                        assert(next[k as int].parent == Some(pv));
                        assert forall|i: int| 0 <= i < after.len() implies is_parent(next, #[trigger] after[i].0) by {
                            if i != p {
                                let bi = if i < p { i } else { i - 1 };
                                assert(after[i] == before[bi]);
                                let j = choose|j: int| 0 <= j < prev.len() && #[trigger] prev[j].parent == Some(before[bi].0);
                                assert(next[j] == prev[j]);
                            }
                        }
                        assert(!is_parent(prev, pv)) by {
                            if is_parent(prev, pv) {
                                let j = choose|j: int| 0 <= j < prev.len() && #[trigger] prev[j].parent == Some(pv);
                                let i = choose|i: int| 0 <= i < before.len() && #[trigger] before[i].0 == (#[trigger] prev[j].parent)->0;
                                crate::timeline_order::lemma_text_lt_irreflexive(pv);
                                if i < p {
                                    assert(text_lt(before[i].0, pv));
                                } else if i > p {
                                    assert(text_lt(pv, before[i].0));
                                }
                            }
                        }
                        assert(child_ids(prev, pv) =~= Seq::<Seq<char>>::empty()) by {
                            lemma_no_children(prev, pv);
                        }
                        assert forall|i: int| 0 <= i < after.len() implies (#[trigger] after[i]).1 == child_ids(next, after[i].0) by {
                            if i != p {
                                let bi = if i < p { i } else { i - 1 };
                                assert(after[i] == before[bi]);
                                if before[bi].0 == pv {
                                    crate::timeline_order::lemma_text_lt_irreflexive(pv);
                                    if bi < p {
                                        assert(text_lt(before[bi].0, pv));
                                    } else {
                                        assert(text_lt(pv, before[bi].0));
                                    }
                                }
                                assert(child_ids(next, after[i].0) =~= child_ids(prev, after[i].0));
                            } else {
                                assert(child_ids(next, pv) =~= child_ids(prev, pv).push(m.id));
                            }
                        }
                        assert forall|j: int| 0 <= j < next.len() && next[j].parent is Some implies exists|i: int|
                            0 <= i < after.len() && #[trigger] after[i].0 == (#[trigger] next[j].parent)->0 by {
                            if j < prev.len() {
                                assert(next[j] == prev[j]);
                                let i = choose|i: int| 0 <= i < before.len() && #[trigger] before[i].0 == (#[trigger] prev[j].parent)->0;
                                if i < p {
                                    assert(after[i].0 == before[i].0);
                                } else {
                                    assert(after[i + 1].0 == before[i].0);
                                }
                            } else {
                                assert(after[p as int].0 == pv);
                            }
                        }
                    }
                }
            },
        }
        k = k + 1;
    }
    assert(v.take(v.len() as int) =~= v);
    children
}

proof fn lemma_no_children(ss: Seq<SessionMetaView>, p: Seq<char>)
    requires
        !is_parent(ss, p),
    ensures
        child_ids(ss, p) == Seq::<Seq<char>>::empty(),
    decreases ss.len(),
{
    if ss.len() > 0 {
        assert(!is_parent(ss.drop_last(), p)) by {
            if is_parent(ss.drop_last(), p) {
                let j = choose|j: int| 0 <= j < ss.drop_last().len() && #[trigger] ss.drop_last()[j].parent == Some(p);
                assert(ss[j] == ss.drop_last()[j]);
            }
        }
        lemma_no_children(ss.drop_last(), p);
        assert(ss[ss.len() - 1].parent != Some(p));
        assert(child_ids(ss, p) =~= Seq::<Seq<char>>::empty());
    }
}

// ---------------------------------------------------------------------------
// The graph
// ---------------------------------------------------------------------------
/// The sessions by id, and for each parent id its children's ids.
#[derive(Debug)]
pub struct SessionGraphView {
    pub sessions: Vec<AgentSessionMetadata>,
    pub children: Vec<(SessionId, Vec<SessionId>)>,
}

pub struct GraphView {
    pub sessions: Seq<SessionMetaView>,
    pub children: Seq<(Seq<char>, Seq<Seq<char>>)>,
}

impl View for SessionGraphView {
    type V = GraphView;

    open spec fn view(&self) -> GraphView {
        GraphView { sessions: metas(self.sessions@), children: children_view(self.children@) }
    }
}

pub open spec fn cycle_message(x: Seq<char>) -> Seq<char> {
    "cycle detected in session graph at "@ + x
}

/// A graph built from a list of sessions: the last listed session of each
/// id, no parent links in a cycle, and each parent's children.
pub open spec fn built_from(g: GraphView, list: Seq<SessionMetaView>) -> bool {
    &&& keyed_by_id(g.sessions, list)
    &&& first_cycle(g.sessions, g.sessions.len() as int) is None
    &&& children_of_sessions(g.children, g.sessions)
}

/// Why a list of sessions makes no graph: the walk from some session runs
/// into a cycle, the first such session in id order naming where.
pub open spec fn refused_with(list: Seq<SessionMetaView>, m: Seq<char>) -> bool {
    exists|by_id: Seq<SessionMetaView>|
        keyed_by_id(by_id, list) && (first_cycle(by_id, by_id.len() as int) matches Some(x) && m
            == cycle_message(x))
}

/// The sessions found under the given ids, in order, skipping ids with no
/// session.
pub open spec fn found_sessions(ss: Seq<SessionMetaView>, ids: Seq<Seq<char>>) -> Seq<SessionMetaView>
    decreases ids.len(),
{
    if ids.len() == 0 {
        Seq::empty()
    } else {
        let i = first_index(ss, has_id(ids.last()));
        found_sessions(ss, ids.drop_last()) + if i >= 0 {
            seq![ss[i]]
        } else {
            Seq::empty()
        }
    }
}

pub open spec fn entry_for(p: Seq<char>) -> spec_fn((Seq<char>, Seq<Seq<char>>)) -> bool {
    |e: (Seq<char>, Seq<Seq<char>>)| e.0 == p
}

/// The children listed under `p` (under its first entry), as sessions.
pub open spec fn listed_children(g: GraphView, p: Seq<char>) -> Seq<SessionMetaView> {
    let i = first_index(g.children, entry_for(p));
    if i < 0 {
        Seq::empty()
    } else {
        found_sessions(g.sessions, g.children[i].1)
    }
}

fn session_index(ss: &Vec<AgentSessionMetadata>, x: &str) -> (r: Option<usize>)
    ensures
        match r {
            Some(i) => i as int == first_index(metas(ss@), has_id(x@)) && i < ss@.len(),
            None => first_index(metas(ss@), has_id(x@)) < 0,
        },
{
    let ghost v = metas(ss@);
    proof {
        lemma_first_index(v, has_id(x@));
    }
    let mut i: usize = 0;
    while i < ss.len()
        invariant
            i <= ss@.len(),
            v == metas(ss@),
            forall|j: int| 0 <= j < i ==> !has_id(x@)(#[trigger] v[j]),
        decreases ss.len() - i,
    {
        if str_eq(ss[i].id.0.as_str(), x) {
            proof {
                crate::seqs::lemma_first_index_at(v, has_id(x@), i as int);
            }
            return Some(i);
        }
        i = i + 1;
    }
    proof {
        crate::seqs::lemma_first_index_none(v, has_id(x@));
    }
    None
}

impl SessionGraphView {
    /// Refuses the graph when the parent links from some session run in a
    /// cycle, naming where the first such walk (in session order) meets
    /// itself again.
    pub fn validate(&self) -> (r: Result<(), String>)
        ensures
            match first_cycle(self@.sessions, self@.sessions.len() as int) {
                None => r is Ok,
                Some(x) => r matches Err(m) && m@ == cycle_message(x),
            },
    {
        match check_cycles(&self.sessions) {
            None => Ok(()),
            Some(x) => {
                let mut m = crate::text::owned("cycle detected in session graph at ");
                crate::text::push_str(&mut m, x.as_str());
                Err(m)
            },
        }
    }

    /// The graph of a list of sessions, the last listed one winning for a
    /// repeated id; refused when parent links run in a cycle.
    pub fn from_metadata(sessions: Vec<AgentSessionMetadata>) -> (r: Result<Self, String>)
        ensures
            match r {
                Ok(g) => built_from(g@, metas(sessions@)),
                Err(m) => refused_with(metas(sessions@), m@),
            },
    {
        let ghost list = metas(sessions@);
        let by_id = sessions_by_id(sessions);
        let view = SessionGraphView { sessions: by_id, children: Vec::new() };
        if let Err(m) = view.validate() {
            proof {
                let by = metas(view.sessions@);
                assert(keyed_by_id(by, list));
            }
            return Err(m);
        }
        let children = build_children(&view.sessions);
        Ok(SessionGraphView { sessions: view.sessions, children })
    }

    /// The graph of a list of threads.
    pub fn from_threads(threads: Vec<ThreadMetadata>) -> (r: Result<Self, String>)
        ensures
            match r {
                Ok(g) => built_from(g@, threads@.map_values(|t: ThreadMetadata| thread_meta(t))),
                Err(m) => refused_with(threads@.map_values(|t: ThreadMetadata| thread_meta(t)), m@),
            },
    {
        let mut list: Vec<AgentSessionMetadata> = Vec::new();
        let mut i: usize = 0;
        while i < threads.len()
            invariant
                i <= threads@.len(),
                metas(list@) == threads@.take(i as int).map_values(|t: ThreadMetadata| thread_meta(t)),
            decreases threads.len() - i,
        {
            let m = AgentSessionMetadata::from_thread(&threads[i]);
            let ghost before = metas(list@);
            assert(m@ == thread_meta(threads@[i as int]));
            list.push(m);
            proof {
                assert(metas(list@) =~= before.push(thread_meta(threads@[i as int])));
                assert(threads@.take(i + 1) =~= threads@.take(i as int).push(threads@[i as int]));
                assert(metas(list@) =~= threads@.take(i + 1).map_values(|t: ThreadMetadata| thread_meta(t)));
            }
            i = i + 1;
        }
        proof {
            assert(threads@.take(threads@.len() as int) =~= threads@);
        }
        Self::from_metadata(list)
    }

    /// The sessions listed as children of `id`, in the order they are
    /// listed.
    pub fn children_of(&self, id: &SessionId) -> (r: Vec<AgentSessionMetadata>)
        ensures
            metas(r@) == listed_children(self@, id.0@),
    {
        let ghost g = self@;
        let ghost key = entry_for(id.0@);
        proof {
            lemma_first_index(g.children, key);
        }
        let mut e: usize = 0;
        while e < self.children.len()
            invariant
                e <= self.children@.len(),
                g == self@,
                key == entry_for(id.0@),
                forall|j: int| 0 <= j < e ==> !key(#[trigger] g.children[j]),
            decreases self.children.len() - e,
        {
            if str_eq(self.children[e].0.0.as_str(), id.0.as_str()) {
                proof {
                    crate::seqs::lemma_first_index_at(g.children, key, e as int);
                }
                let list = &self.children[e].1;
                let ghost ids = g.children[e as int].1;
                let mut out: Vec<AgentSessionMetadata> = Vec::new();
                let mut k: usize = 0;
                assert(ids.take(0) =~= Seq::<Seq<char>>::empty());
                while k < list.len()
                    invariant
                        k <= list@.len(),
                        g == self@,
                        ids == list@.map_values(|s: SessionId| s.0@),
                        metas(out@) == found_sessions(g.sessions, ids.take(k as int)),
                    decreases list.len() - k,
                {
                    let ghost before = metas(out@);
                    proof {
                        assert(ids.take(k + 1).drop_last() =~= ids.take(k as int));
                        assert(ids.take(k + 1).last() == list@[k as int].0@);
                    }
                    match session_index(&self.sessions, list[k].0.as_str()) {
                        Some(i) => {
                            out.push(self.sessions[i].duplicate());
                            proof {
                                assert(metas(out@) =~= before.push(g.sessions[i as int]));
                            }
                        },
                        None => {},
                    }
                    k = k + 1;
                }
                proof {
                    assert(ids.take(ids.len() as int) =~= ids);
                }
                return out;
            }
            e = e + 1;
        }
        proof {
            crate::seqs::lemma_first_index_none(g.children, key);
        }
        Vec::new()
    }
}

/// The graph's record of a thread.
pub open spec fn thread_meta(t: ThreadMetadata) -> SessionMetaView {
    SessionMetaView {
        id: t.id.0@,
        parent: opt_id(t.parent_id),
        task: None,
        title: opt_text(t.title),
        archived: t.archived,
        pinned: t.pinned,
        created_at_millis: t.created_at_millis,
        updated_at_millis: t.updated_at_millis,
    }
}

// ---------------------------------------------------------------------------
// Laws
// ---------------------------------------------------------------------------
/// The `k`-th ancestor of `x`: `x` itself, then each parent in turn, for as
/// long as the session with the current id is there and has a parent.
pub open spec fn ancestor(ss: Seq<SessionMetaView>, x: Seq<char>, k: nat) -> Option<Seq<char>>
    decreases k,
{
    if k == 0 {
        Some(x)
    } else {
        match ancestor(ss, x, (k - 1) as nat) {
            Some(y) => parent_in(ss, y),
            None => None,
        }
    }
}

/// The sessions whose parent is `p`, in order.
pub open spec fn sessions_with_parent(ss: Seq<SessionMetaView>, p: Seq<char>) -> Seq<SessionMetaView>
    decreases ss.len(),
{
    if ss.len() == 0 {
        Seq::empty()
    } else {
        sessions_with_parent(ss.drop_last(), p) + if ss.last().parent == Some(p) {
            seq![ss.last()]
        } else {
            Seq::empty()
        }
    }
}

proof fn lemma_ancestor_none_stays(ss: Seq<SessionMetaView>, x: Seq<char>, m: nat, d: nat)
    requires
        m <= d,
        ancestor(ss, x, m) is None,
    ensures
        ancestor(ss, x, d) is None,
    decreases d - m,
{
    if m < d {
        lemma_ancestor_none_stays(ss, x, m, (d - 1) as nat);
    }
}

proof fn lemma_ancestor_compose(ss: Seq<SessionMetaView>, x: Seq<char>, a: nat, b: nat)
    requires
        ancestor(ss, x, a) is Some,
    ensures
        ancestor(ss, x, a + b) == ancestor(ss, ancestor(ss, x, a)->0, b),
    decreases b,
{
    if b > 0 {
        lemma_ancestor_compose(ss, x, a, (b - 1) as nat);
        assert((a + b - 1) as nat == a + (b - 1) as nat);
    }
}

proof fn lemma_parent_means_key(ss: Seq<SessionMetaView>, y: Seq<char>)
    requires
        parent_in(ss, y) is Some,
    ensures
        is_key(ss, y),
{
    lemma_first_index(ss, has_id(y));
    let i = first_index(ss, has_id(y));
    assert(ss[i].id == y);
}

/// The walk that the cycle check makes from `x0`, once it has visited the
/// first `m` ancestors without meeting one twice, never comes back to `x0`.
proof fn lemma_walk_never_returns(ss: Seq<SessionMetaView>, seen: Seq<Seq<char>>, x0: Seq<char>, m: nat)
    requires
        m >= 1,
        seen.len() == m,
        seen[0] == x0,
        seen.no_duplicates(),
        forall|j: int| 0 <= j < m ==> ancestor(ss, x0, j as nat) == Some(#[trigger] seen[j]),
        ancestor(ss, x0, m) is Some ==> forall|j: int| 0 <= j < m ==> is_key(ss, #[trigger] seen[j]),
        repeated_ancestor(ss, seen, ancestor(ss, x0, m)) is None,
    ensures
        forall|d: nat| d >= m ==> #[trigger] ancestor(ss, x0, d) != Some(x0),
    decreases ss.len() + 1 - seen.len(),
{
    match ancestor(ss, x0, m) {
        None => {
            assert forall|d: nat| d >= m implies #[trigger] ancestor(ss, x0, d) != Some(x0) by {
                lemma_ancestor_none_stays(ss, x0, m, d);
            }
        },
        Some(y) => {
            assert(!seen.contains(y));
            lemma_distinct_keys_bound(seen, ss);
            let next = seen.push(y);
            assert(ancestor(ss, x0, m + 1) == parent_in(ss, y));
            assert(next.no_duplicates()) by {
                assert forall|a: int, b: int| 0 <= a < b < next.len() implies next[a] != next[b] by {
                    if b == seen.len() {
                        assert(next[a] == seen[a]);
                        assert(seen.contains(seen[a]));
                    }
                }
            }
            if parent_in(ss, y) is Some {
                lemma_parent_means_key(ss, y);
                assert forall|j: int| 0 <= j < m + 1 implies is_key(ss, #[trigger] next[j]) by {
                    if j < m {
                        assert(next[j] == seen[j]);
                    }
                }
            }
            assert forall|j: int| 0 <= j < m + 1 implies ancestor(ss, x0, j as nat) == Some(#[trigger] next[j]) by {
                if j < m {
                    assert(next[j] == seen[j]);
                }
            }
            lemma_walk_never_returns(ss, next, x0, m + 1);
            assert(seen.contains(x0)) by {
                assert(seen[0] == x0);
            }
        },
    }
}

proof fn lemma_first_cycle_none_each(ss: Seq<SessionMetaView>, k: int, i: int)
    requires
        0 <= i < k <= ss.len(),
        first_cycle(ss, k) is None,
    ensures
        repeated_ancestor(ss, Seq::empty(), Some(ss[i].id)) is None,
    decreases k,
{
    if i < k - 1 {
        lemma_first_cycle_none_each(ss, k - 1, i);
    }
}

/// In a graph that was built, no session is its own ancestor: following
/// parent links from a session never leads back to it.
pub proof fn lemma_built_graph_is_acyclic(g: GraphView, list: Seq<SessionMetaView>, i: int, d: nat)
    requires
        built_from(g, list),
        0 <= i < g.sessions.len(),
        d >= 1,
    ensures
        ancestor(g.sessions, g.sessions[i].id, d) != Some(g.sessions[i].id),
{
    let ss = g.sessions;
    let x0 = ss[i].id;
    lemma_first_cycle_none_each(ss, ss.len() as int, i);
    let seen = seq![x0];
    assert(ancestor(ss, x0, 0) == Some(x0));
    assert(!Seq::<Seq<char>>::empty().contains(x0));
    assert(Seq::<Seq<char>>::empty().push(x0) =~= seen);
    assert(ancestor(ss, x0, 1) == parent_in(ss, x0));
    assert(is_key(ss, seen[0]));
    lemma_walk_never_returns(ss, seen, x0, 1);
    assert(ancestor(ss, x0, d) != Some(x0));
}

/// Where the cycle check stops at `y`, the walk met `y` twice.
proof fn lemma_walk_meets_twice(
    ss: Seq<SessionMetaView>,
    seen: Seq<Seq<char>>,
    x0: Seq<char>,
    m: nat,
    y: Seq<char>,
)
    requires
        seen.len() == m,
        forall|j: int| 0 <= j < m ==> ancestor(ss, x0, j as nat) == Some(#[trigger] seen[j]),
        repeated_ancestor(ss, seen, ancestor(ss, x0, m)) == Some(y),
    ensures
        exists|a: nat, b: nat|
            a < b && #[trigger] ancestor(ss, x0, a) == Some(y) && #[trigger] ancestor(ss, x0, b) == Some(y),
    decreases ss.len() + 1 - seen.len(),
{
    let cur = ancestor(ss, x0, m);
    let z = cur->0;
    if seen.contains(z) {
        let j = choose|j: int| 0 <= j < seen.len() && seen[j] == z;
        assert(ancestor(ss, x0, j as nat) == Some(y));
        assert(ancestor(ss, x0, m) == Some(y));
    } else {
        let next = seen.push(z);
        assert(ancestor(ss, x0, m + 1) == parent_in(ss, z));
        assert forall|j: int| 0 <= j < m + 1 implies ancestor(ss, x0, j as nat) == Some(#[trigger] next[j]) by {
            if j < m {
                assert(next[j] == seen[j]);
            }
        }
        lemma_walk_meets_twice(ss, next, x0, m + 1, y);
    }
}

proof fn lemma_first_cycle_some(ss: Seq<SessionMetaView>, k: int, y: Seq<char>)
    requires
        0 <= k <= ss.len(),
        first_cycle(ss, k) == Some(y),
    ensures
        exists|i: int| 0 <= i < k && repeated_ancestor(ss, Seq::empty(), Some(#[trigger] ss[i].id)) == Some(y),
    decreases k,
{
    if first_cycle(ss, k - 1) is Some {
        lemma_first_cycle_some(ss, k - 1, y);
    } else {
        assert(repeated_ancestor(ss, Seq::empty(), Some(ss[k - 1].id)) == Some(y));
    }
}

/// A list of sessions is refused only when, among its sessions by id, some
/// session is its own ancestor.
pub proof fn lemma_refusal_means_cycle(list: Seq<SessionMetaView>, m: Seq<char>)
    requires
        refused_with(list, m),
    ensures
        exists|by_id: Seq<SessionMetaView>, y: Seq<char>, d: nat|
            keyed_by_id(by_id, list) && d >= 1 && #[trigger] ancestor(by_id, y, d) == Some(y),
{
    let by_id = choose|by_id: Seq<SessionMetaView>|
        keyed_by_id(by_id, list) && (first_cycle(by_id, by_id.len() as int) matches Some(x) && m
            == cycle_message(x));
    let y = first_cycle(by_id, by_id.len() as int)->0;
    lemma_first_cycle_some(by_id, by_id.len() as int, y);
    let i = choose|i: int|
        0 <= i < by_id.len() && repeated_ancestor(by_id, Seq::empty(), Some(#[trigger] by_id[i].id)) == Some(y);
    let x0 = by_id[i].id;
    assert(ancestor(by_id, x0, 0) == Some(x0));
    lemma_walk_meets_twice(by_id, Seq::empty(), x0, 0, y);
    let (a, b) = choose|a: nat, b: nat|
        a < b && #[trigger] ancestor(by_id, x0, a) == Some(y) && #[trigger] ancestor(by_id, x0, b) == Some(y);
    lemma_ancestor_compose(by_id, x0, a, (b - a) as nat);
    assert(a + (b - a) as nat == b);
    assert(ancestor(by_id, y, (b - a) as nat) == Some(y));
}

proof fn lemma_ascending_index(ss: Seq<SessionMetaView>, n: int)
    requires
        ascending(ss),
        0 <= n < ss.len(),
    ensures
        first_index(ss, has_id(ss[n].id)) == n,
{
    assert forall|j: int| 0 <= j < n implies !has_id(ss[n].id)(#[trigger] ss[j]) by {
        crate::timeline_order::lemma_text_lt_irreflexive(ss[n].id);
        assert(text_lt(ss[j].id, ss[n].id));
    }
    crate::seqs::lemma_first_index_at(ss, has_id(ss[n].id), n);
}

proof fn lemma_found_children(ss: Seq<SessionMetaView>, p: Seq<char>, n: int)
    requires
        ascending(ss),
        0 <= n <= ss.len(),
    ensures
        found_sessions(ss, child_ids(ss.take(n), p)) == sessions_with_parent(ss.take(n), p),
    decreases n,
{
    if n > 0 {
        lemma_found_children(ss, p, n - 1);
        let t = ss.take(n);
        assert(t.drop_last() =~= ss.take(n - 1));
        assert(t.last() == ss[n - 1]);
        let prev_ids = child_ids(ss.take(n - 1), p);
        if ss[n - 1].parent == Some(p) {
            let ids = prev_ids + seq![ss[n - 1].id];
            assert(ids.drop_last() =~= prev_ids);
            lemma_ascending_index(ss, n - 1);
        } else {
            assert(prev_ids + Seq::<Seq<char>>::empty() =~= prev_ids);
            assert(sessions_with_parent(ss.take(n - 1), p) + Seq::<SessionMetaView>::empty()
                =~= sessions_with_parent(ss.take(n - 1), p));
        }
    }
}

proof fn lemma_no_sessions_with_parent(ss: Seq<SessionMetaView>, p: Seq<char>)
    requires
        !is_parent(ss, p),
    ensures
        sessions_with_parent(ss, p) == Seq::<SessionMetaView>::empty(),
    decreases ss.len(),
{
    if ss.len() > 0 {
        assert(!is_parent(ss.drop_last(), p)) by {
            if is_parent(ss.drop_last(), p) {
                let j = choose|j: int| 0 <= j < ss.drop_last().len() && #[trigger] ss.drop_last()[j].parent == Some(p);
                assert(ss[j] == ss.drop_last()[j]);
            }
        }
        lemma_no_sessions_with_parent(ss.drop_last(), p);
        assert(ss[ss.len() - 1].parent != Some(p));
        assert(sessions_with_parent(ss, p) =~= Seq::<SessionMetaView>::empty());
    }
}

/// In a graph that was built, the children listed under a session are
/// exactly the sessions that name it as their parent, in id order.
pub proof fn lemma_children_name_their_parent(g: GraphView, list: Seq<SessionMetaView>, p: Seq<char>)
    requires
        built_from(g, list),
    ensures
        listed_children(g, p) == sessions_with_parent(g.sessions, p),
{
    let ss = g.sessions;
    let key = entry_for(p);
    lemma_first_index(g.children, key);
    assert(ss.take(ss.len() as int) =~= ss);
    if is_parent(ss, p) {
        let k = choose|k: int| 0 <= k < ss.len() && #[trigger] ss[k].parent == Some(p);
        assert(ss[k].parent is Some);
        let i = choose|i: int| 0 <= i < g.children.len() && #[trigger] g.children[i].0 == (#[trigger] ss[k].parent)->0;
        assert forall|j: int| 0 <= j < i implies !key(#[trigger] g.children[j]) by {
            crate::timeline_order::lemma_text_lt_irreflexive(p);
            assert(text_lt(g.children[j].0, g.children[i].0));
        }
        crate::seqs::lemma_first_index_at(g.children, key, i);
        lemma_found_children(ss, p, ss.len() as int);
    } else {
        assert forall|j: int| 0 <= j < g.children.len() implies !key(#[trigger] g.children[j]) by {
            assert(is_parent(ss, g.children[j].0));
        }
        crate::seqs::lemma_first_index_none(g.children, key);
        lemma_no_sessions_with_parent(ss, p);
    }
}

proof fn lemma_last_with_id_listed(list: Seq<SessionMetaView>, x: Seq<char>)
    requires
        last_with_id(list, x) is Some,
    ensures
        exists|k: int| 0 <= k < list.len() && #[trigger] list[k].id == x,
    decreases list.len(),
{
    if list.last().id == x {
        assert(list[list.len() - 1].id == x);
    } else {
        lemma_last_with_id_listed(list.drop_last(), x);
        let k = choose|k: int| 0 <= k < list.drop_last().len() && #[trigger] list.drop_last()[k].id == x;
        assert(list[k] == list.drop_last()[k]);
    }
}

/// An id of one keyed list is at some place of another keyed list of the
/// same sessions.
proof fn lemma_keyed_id_in_other(a: Seq<SessionMetaView>, b: Seq<SessionMetaView>, list: Seq<SessionMetaView>, i: int)
    requires
        keyed_by_id(a, list),
        keyed_by_id(b, list),
        0 <= i < a.len(),
    ensures
        exists|j: int| 0 <= j < b.len() && #[trigger] b[j].id == a[i].id,
{
    assert(last_with_id(list, a[i].id) == Some(a[i]));
    lemma_last_with_id_listed(list, a[i].id);
    let k = choose|k: int| 0 <= k < list.len() && #[trigger] list[k].id == a[i].id;
    let j = choose|j: int| 0 <= j < b.len() && #[trigger] b[j].id == #[trigger] list[k].id;
}

/// The sessions of a list, kept by id, are one and the same whichever way
/// they are found: a list of sessions makes exactly one graph's sessions.
pub proof fn lemma_keyed_by_id_unique(a: Seq<SessionMetaView>, b: Seq<SessionMetaView>, list: Seq<SessionMetaView>)
    requires
        keyed_by_id(a, list),
        keyed_by_id(b, list),
    ensures
        a == b,
{
    let n = if a.len() < b.len() { a.len() } else { b.len() };
    assert forall|i: int| 0 <= i < n implies a[i].id == b[i].id by {
        lemma_keyed_prefix_ids(a, b, list, i);
    }
    if a.len() > b.len() {
        lemma_keyed_id_in_other(a, b, list, b.len() as int);
        let j = choose|j: int| 0 <= j < b.len() && #[trigger] b[j].id == a[b.len() as int].id;
        assert(a[j].id == b[j].id);
        assert(text_lt(a[j].id, a[b.len() as int].id));
        crate::timeline_order::lemma_text_lt_irreflexive(a[j].id);
    } else if b.len() > a.len() {
        lemma_keyed_id_in_other(b, a, list, a.len() as int);
        let j = choose|j: int| 0 <= j < a.len() && #[trigger] a[j].id == b[a.len() as int].id;
        assert(a[j].id == b[j].id);
        assert(text_lt(b[j].id, b[a.len() as int].id));
        crate::timeline_order::lemma_text_lt_irreflexive(b[j].id);
    }
    assert forall|i: int| 0 <= i < a.len() implies a[i] == b[i] by {
        assert(last_with_id(list, a[i].id) == Some(a[i]));
        assert(last_with_id(list, b[i].id) == Some(b[i]));
    }
    assert(a =~= b);
}

/// The two keyed lists agree on the id at each place both have.
proof fn lemma_keyed_prefix_ids(a: Seq<SessionMetaView>, b: Seq<SessionMetaView>, list: Seq<SessionMetaView>, i: int)
    requires
        keyed_by_id(a, list),
        keyed_by_id(b, list),
        0 <= i < a.len(),
        i < b.len(),
    ensures
        a[i].id == b[i].id,
    decreases i,
{
    if i > 0 {
        lemma_keyed_prefix_ids(a, b, list, i - 1);
    }
    assert forall|t: int| 0 <= t < i implies a[t].id == b[t].id by {
        lemma_keyed_prefix_ids(a, b, list, t);
    }
    lemma_keyed_id_in_other(a, b, list, i);
    lemma_keyed_id_in_other(b, a, list, i);
    let j = choose|j: int| 0 <= j < b.len() && #[trigger] b[j].id == a[i].id;
    let k = choose|k: int| 0 <= k < a.len() && #[trigger] a[k].id == b[i].id;
    crate::timeline_order::lemma_text_lt_irreflexive(a[i].id);
    crate::timeline_order::lemma_text_lt_irreflexive(b[i].id);
    if j < i {
        assert(a[j].id == b[j].id);
        assert(text_lt(a[j].id, a[i].id));
    }
    if k < i {
        assert(a[k].id == b[k].id);
        assert(text_lt(b[k].id, b[i].id));
    }
    if j > i && k >= i {
        assert(text_lt(b[i].id, b[j].id));
        if k > i {
            assert(text_lt(a[i].id, a[k].id));
            lemma_text_lt_transitive(a[i].id, a[k].id, a[i].id);
        }
    }
    if k > i && j >= i {
        assert(text_lt(a[i].id, a[k].id));
        if j > i {
            assert(text_lt(b[i].id, b[j].id));
            lemma_text_lt_transitive(b[i].id, b[j].id, b[i].id);
        }
    }
}

} // verus!
