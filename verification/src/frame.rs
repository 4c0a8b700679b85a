use vstd::prelude::*;

verus! {

/// The shortest time between two frames, in microseconds: a little over a
/// thirtieth of a second.
pub const DEFAULT_MIN_FRAME_INTERVAL_MICROS: u64 = 33_334;

/// Why the screen should be drawn again.
#[derive(Clone, Copy, Debug, PartialEq, Eq, Structural)]
pub enum RedrawReason {
    InputChanged,
    StreamDelta,
    StreamFinalized,
    ScrollChanged,
    Resize,
    StatusChanged,
    ControlChanged,
    Error,
    CancelCurrentTurn,
}

/// How soon a redraw is owed.
#[derive(Clone, Copy, Debug, PartialEq, Eq, Structural)]
pub enum RedrawPriority {
    Immediate,
    NextFrame,
    Coalesced,
}

impl RedrawReason {
    pub open spec fn spec_priority(self) -> RedrawPriority {
        match self {
            RedrawReason::InputChanged | RedrawReason::ScrollChanged | RedrawReason::Resize
            | RedrawReason::Error | RedrawReason::CancelCurrentTurn => RedrawPriority::Immediate,
            RedrawReason::StreamFinalized | RedrawReason::ControlChanged => RedrawPriority::NextFrame,
            RedrawReason::StreamDelta | RedrawReason::StatusChanged => RedrawPriority::Coalesced,
        }
    }

    /// Input, scrolling, resizing, errors and cancellation are drawn at once;
    /// finished streams and control changes on the next frame; stream deltas
    /// and status changes are coalesced.
    pub fn priority(self) -> (r: RedrawPriority)
        ensures
            r == self.spec_priority(),
    {
        match self {
            RedrawReason::InputChanged | RedrawReason::ScrollChanged | RedrawReason::Resize
            | RedrawReason::Error | RedrawReason::CancelCurrentTurn => RedrawPriority::Immediate,
            RedrawReason::StreamFinalized | RedrawReason::ControlChanged => RedrawPriority::NextFrame,
            RedrawReason::StreamDelta | RedrawReason::StatusChanged => RedrawPriority::Coalesced,
        }
    }
}

/// Decides when the terminal is drawn: urgent reasons at once, the rest at
/// most once per frame interval. Times are in microseconds on one clock.
#[derive(Clone, Debug)]
pub struct RedrawScheduler {
    last_draw: Option<u64>,
    min_frame_interval: u64,
    pending: Vec<RedrawReason>,
    immediate: bool,
    draw_count: u64,
}

/// What a scheduler remembers: the set of reasons waiting for a draw.
pub struct SchedulerView {
    pub last_draw: Option<u64>,
    pub min_frame_interval: u64,
    pub pending: Set<RedrawReason>,
    pub draw_count: u64,
}

pub open spec fn some_with_priority(pending: Set<RedrawReason>, p: RedrawPriority) -> bool {
    exists|r: RedrawReason| pending.contains(r) && #[trigger] r.spec_priority() == p
}

/// Whether a draw is owed at `now`: something is pending, and it is urgent
/// or the frame interval has passed since the last draw.
pub open spec fn draw_due(v: SchedulerView, now: u64) -> bool {
    &&& !v.pending.is_empty()
    &&& (some_with_priority(v.pending, RedrawPriority::Immediate) || some_with_priority(
        v.pending,
        RedrawPriority::NextFrame,
    ) || match v.last_draw {
        None => true,
        Some(t) => (if now >= t {
            now - t
        } else {
            0
        }) >= v.min_frame_interval,
    })
}

impl View for RedrawScheduler {
    type V = SchedulerView;

    closed spec fn view(&self) -> SchedulerView {
        SchedulerView {
            last_draw: self.last_draw,
            min_frame_interval: self.min_frame_interval,
            pending: self.pending@.to_set(),
            draw_count: self.draw_count,
        }
    }
}

impl RedrawScheduler {
    /// Each reason is pending at most once, and the urgent flag says whether
    /// an urgent reason is pending.
    pub closed spec fn wf(&self) -> bool {
        &&& self.pending@.no_duplicates()
        &&& self.immediate == some_with_priority(self.pending@.to_set(), RedrawPriority::Immediate)
    }

    pub fn new(min_frame_interval: u64) -> (r: Self)
        ensures
            r.wf(),
            r@.last_draw is None,
            r@.min_frame_interval == min_frame_interval,
            r@.pending.is_empty(),
            r@.draw_count == 0,
    {
        let r = RedrawScheduler {
            last_draw: None,
            min_frame_interval,
            pending: Vec::new(),
            immediate: false,
            draw_count: 0,
        };
        assert(r.pending@.to_set() =~= Set::<RedrawReason>::empty());
        r
    }

    /// A scheduler limited to about thirty frames a second.
    pub fn default_interval() -> (r: Self)
        ensures
            r.wf(),
            r@.last_draw is None,
            r@.min_frame_interval == DEFAULT_MIN_FRAME_INTERVAL_MICROS,
            r@.pending.is_empty(),
            r@.draw_count == 0,
    {
        Self::new(DEFAULT_MIN_FRAME_INTERVAL_MICROS)
    }

    /// Records a reason to redraw and says how soon it is owed.
    pub fn request(&mut self, reason: RedrawReason) -> (r: RedrawPriority)
        requires
            old(self).wf(),
        ensures
            final(self).wf(),
            r == reason.spec_priority(),
            final(self)@ == (SchedulerView { pending: old(self)@.pending.insert(reason), ..old(self)@ }),
    {
        let priority = reason.priority();
        let mut present = false;
        let mut i: usize = 0;
        while i < self.pending.len()
            invariant
                i <= self.pending.len(),
                !present ==> forall|j: int| 0 <= j < i ==> self.pending@[j] != reason,
                present ==> self.pending@.contains(reason),
            decreases self.pending.len() - i,
        {
            if self.pending[i] == reason {
                present = true;
            }
            i = i + 1;
        }
        let ghost before = self.pending@;
        if !present {
            self.pending.push(reason);
            proof {
                before.lemma_push_to_set_commute(reason);
                assert(self.pending@.no_duplicates()) by {
                    assert forall|a: int, b: int|
                        0 <= a < self.pending@.len() && 0 <= b < self.pending@.len() && a != b
                            implies self.pending@[a] != self.pending@[b] by {
                        if a < before.len() && b < before.len() {
                            assert(before[a] == self.pending@[a]);
                            assert(before[b] == self.pending@[b]);
                        }
                    }
                }
            }
        } else {
            assert(before.to_set() =~= before.to_set().insert(reason));
        }
        self.immediate = self.immediate || priority == RedrawPriority::Immediate;
        proof {
            let s = self.pending@.to_set();
            if priority == RedrawPriority::Immediate {
                assert(s.contains(reason));
            }
            if some_with_priority(s, RedrawPriority::Immediate) {
                let w = choose|w: RedrawReason|
                    s.contains(w) && #[trigger] w.spec_priority() == RedrawPriority::Immediate;
                if w != reason {
                    assert(before.to_set().contains(w));
                }
            }
            if some_with_priority(before.to_set(), RedrawPriority::Immediate) {
                let w = choose|w: RedrawReason|
                    before.to_set().contains(w) && #[trigger] w.spec_priority()
                        == RedrawPriority::Immediate;
                assert(s.contains(w));
            }
        }
        priority
    }

    /// Whether the screen should be drawn at `now`.
    pub fn should_draw(&self, now: u64) -> (r: bool)
        requires
            self.wf(),
        ensures
            r == draw_due(self@, now),
    {
        if self.pending.len() == 0 {
            assert(self.pending@ =~= Seq::<RedrawReason>::empty());
            assert(self@.pending =~= Set::<RedrawReason>::empty());
            return false;
        }
        proof {
            assert(self@.pending.contains(self.pending@[0]));
        }
        if self.immediate {
            return true;
        }
        let mut i: usize = 0;
        while i < self.pending.len()
            invariant
                i <= self.pending.len(),
                forall|j: int|
                    0 <= j < i ==> (#[trigger] self.pending@[j]).spec_priority()
                        != RedrawPriority::NextFrame,
            decreases self.pending.len() - i,
        {
            if self.pending[i].priority() == RedrawPriority::NextFrame {
                assert(self@.pending.contains(self.pending@[i as int]));
                return true;
            }
            i = i + 1;
        }
        proof {
            if some_with_priority(self@.pending, RedrawPriority::NextFrame) {
                let w = choose|w: RedrawReason|
                    self@.pending.contains(w) && #[trigger] w.spec_priority()
                        == RedrawPriority::NextFrame;
                let k = choose|k: int| 0 <= k < self.pending@.len() && self.pending@[k] == w;
                assert(self.pending@[k].spec_priority() == RedrawPriority::NextFrame);
            }
        }
        match self.last_draw {
            None => true,
            Some(last) => {
                let elapsed = if now >= last {
                    now - last
                } else {
                    0
                };
                elapsed >= self.min_frame_interval
            },
        }
    }

    /// Records that the screen was drawn at `now`: nothing is pending any
    /// more.
    pub fn record_draw(&mut self, now: u64)
        requires
            old(self).wf(),
        ensures
            final(self).wf(),
            final(self)@ == (SchedulerView {
                last_draw: Some(now),
                pending: Set::empty(),
                draw_count: if old(self)@.draw_count == u64::MAX {
                    u64::MAX
                } else {
                    (old(self)@.draw_count + 1) as u64
                },
                ..old(self)@
            }),
    {
        self.last_draw = Some(now);
        self.pending = Vec::new();
        self.immediate = false;
        self.draw_count = self.draw_count.saturating_add(1);
        assert(self.pending@.to_set() =~= Set::<RedrawReason>::empty());
    }

    /// How many distinct reasons wait for a draw.
    pub fn pending_count(&self) -> (r: usize)
        requires
            self.wf(),
        ensures
            r == self@.pending.len(),
    {
        proof {
            self.pending@.unique_seq_to_set();
        }
        self.pending.len()
    }

    /// How many draws were recorded.
    pub fn draw_count(&self) -> (r: u64)
        ensures
            r == self@.draw_count,
    {
        self.draw_count
    }

    /// The shortest time between coalesced frames.
    pub fn min_frame_interval(&self) -> (r: u64)
        ensures
            r == self@.min_frame_interval,
    {
        self.min_frame_interval
    }
}

/// An urgent or next-frame request is drawn at the next check, whenever it
/// comes.
pub proof fn lemma_urgent_request_draws(v: SchedulerView, reason: RedrawReason, now: u64)
    requires
        reason.spec_priority() != RedrawPriority::Coalesced,
    ensures
        draw_due(SchedulerView { pending: v.pending.insert(reason), ..v }, now),
{
    let p = v.pending.insert(reason);
    assert(p.contains(reason));
}

/// Coalesced requests are never drawn twice within one frame interval.
pub proof fn lemma_coalesced_requests_wait(v: SchedulerView, now: u64, last: u64)
    requires
        v.last_draw == Some(last),
        last <= now,
        now - last < v.min_frame_interval,
        forall|r: RedrawReason| #[trigger] v.pending.contains(r) ==> r.spec_priority()
            == RedrawPriority::Coalesced,
    ensures
        !draw_due(v, now),
{
}

/// Right after a draw nothing is owed, whatever the time.
pub proof fn lemma_nothing_due_after_draw(v: SchedulerView, now: u64, later: u64)
    ensures
        !draw_due(SchedulerView { last_draw: Some(now), pending: Set::empty(), ..v }, later),
{
}

} // verus!
