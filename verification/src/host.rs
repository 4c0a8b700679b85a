use vstd::prelude::*;
use crate::text::{chars_of, lower, lower_chars, trim, trim_chars};

verus! {

/// What the host loop should do after a tick.
#[derive(Clone, Copy, Debug, PartialEq, Eq, Structural)]
pub enum TuiTickAction {
    /// Nothing to do.
    Idle,
    CancelCurrentTurn,
}

pub open spec fn renders_prompt(value: Seq<char>) -> bool {
    trim(value).len() > 0 && trim(value)[0] != '/'
}

/// A submitted prompt is echoed in the transcript unless it is blank or a
/// slash command.
pub fn should_render_submitted_user_prompt(value: &str) -> (r: bool)
    ensures
        r == renders_prompt(value@),
{
    let t = trim_chars(&chars_of(value));
    t.len() > 0 && t[0] != '/'
}

pub open spec fn stops_voice(value: Seq<char>) -> bool {
    let v = lower(trim(value));
    v == "q"@ || v == "quit"@ || v == "exit"@ || v == "/voice off"@ || v == "/voice realtime off"@
}

/// Whether a draft typed during realtime voice asks to stop it: `q`,
/// `quit`, `exit`, `/voice off` or `/voice realtime off`, ignoring case and
/// surrounding spaces.
pub fn is_realtime_voice_stop_draft(value: &str) -> (r: bool)
    ensures
        r == stops_voice(value@),
{
    let v = lower_chars(&trim_chars(&chars_of(value)));
    let a = chars_of("q");
    let b = chars_of("quit");
    let c = chars_of("exit");
    let d = chars_of("/voice off");
    let e = chars_of("/voice realtime off");
    crate::text::chars_equal(&v, &a) || crate::text::chars_equal(&v, &b)
        || crate::text::chars_equal(&v, &c) || crate::text::chars_equal(&v, &d)
        || crate::text::chars_equal(&v, &e)
}

// ---------------------------------------------------------------------------
// Terminal set-up and recovery
// ---------------------------------------------------------------------------
/// A change made to the terminal, or its undoing.
#[derive(Clone, Copy, Debug, PartialEq, Eq, Structural)]
pub enum TerminalLifecycleAction {
    EnableRawMode,
    EnterAlternateScreen,
    EnableBracketedPaste,
    EnableFocusChange,
    EnableMouseCapture,
    HideCursor,
    ShowCursor,
    DisableMouseCapture,
    DisableFocusChange,
    DisableBracketedPaste,
    LeaveAlternateScreen,
    DisableRawMode,
    ResetStyle,
}

impl TerminalLifecycleAction {
    pub open spec fn undone(self) -> Self {
        match self {
            TerminalLifecycleAction::EnableRawMode => TerminalLifecycleAction::DisableRawMode,
            TerminalLifecycleAction::EnterAlternateScreen => TerminalLifecycleAction::LeaveAlternateScreen,
            TerminalLifecycleAction::EnableBracketedPaste => TerminalLifecycleAction::DisableBracketedPaste,
            TerminalLifecycleAction::EnableFocusChange => TerminalLifecycleAction::DisableFocusChange,
            TerminalLifecycleAction::EnableMouseCapture => TerminalLifecycleAction::DisableMouseCapture,
            TerminalLifecycleAction::HideCursor => TerminalLifecycleAction::ShowCursor,
            other => other,
        }
    }

    /// The action that undoes this one; an undoing action undoes nothing.
    pub fn recovery(self) -> (r: Self)
        ensures
            r == self.undone(),
    {
        match self {
            TerminalLifecycleAction::EnableRawMode => TerminalLifecycleAction::DisableRawMode,
            TerminalLifecycleAction::EnterAlternateScreen => TerminalLifecycleAction::LeaveAlternateScreen,
            TerminalLifecycleAction::EnableBracketedPaste => TerminalLifecycleAction::DisableBracketedPaste,
            TerminalLifecycleAction::EnableFocusChange => TerminalLifecycleAction::DisableFocusChange,
            TerminalLifecycleAction::EnableMouseCapture => TerminalLifecycleAction::DisableMouseCapture,
            TerminalLifecycleAction::HideCursor => TerminalLifecycleAction::ShowCursor,
            other => other,
        }
    }
}

pub open spec fn enter_sequence() -> Seq<TerminalLifecycleAction> {
    seq![
        TerminalLifecycleAction::EnableRawMode,
        TerminalLifecycleAction::EnterAlternateScreen,
        TerminalLifecycleAction::EnableBracketedPaste,
        TerminalLifecycleAction::EnableFocusChange,
        TerminalLifecycleAction::EnableMouseCapture,
        TerminalLifecycleAction::HideCursor,
    ]
}

/// The changes made when the terminal is taken over, in order.
pub fn terminal_enter_actions() -> (r: Vec<TerminalLifecycleAction>)
    ensures
        r@ == enter_sequence(),
{
    let r = vec![
        TerminalLifecycleAction::EnableRawMode,
        TerminalLifecycleAction::EnterAlternateScreen,
        TerminalLifecycleAction::EnableBracketedPaste,
        TerminalLifecycleAction::EnableFocusChange,
        TerminalLifecycleAction::EnableMouseCapture,
        TerminalLifecycleAction::HideCursor,
    ];
    assert(r@ =~= enter_sequence());
    r
}

/// The undoing actions of `entered`, last entered first.
pub open spec fn undo_in_reverse(entered: Seq<TerminalLifecycleAction>) -> Seq<TerminalLifecycleAction>
    decreases entered.len(),
{
    if entered.len() == 0 {
        Seq::empty()
    } else {
        seq![entered.last().undone()] + undo_in_reverse(entered.drop_last())
    }
}

/// The terminal changes that took effect, so that exactly those are undone.
#[derive(Debug)]
pub struct TerminalLifecycleState {
    pub entered: Vec<TerminalLifecycleAction>,
}

impl TerminalLifecycleState {
    pub fn new() -> (r: Self)
        ensures
            r.entered@.len() == 0,
    {
        TerminalLifecycleState { entered: Vec::new() }
    }

    /// Records a change that took effect.
    pub fn record_entered(&mut self, action: TerminalLifecycleAction)
        ensures
            final(self).entered@ == old(self).entered@.push(action),
    {
        self.entered.push(action);
    }

    /// The actions that put the terminal back: the style is reset, then each
    /// change that took effect is undone, last first. Nothing is left to undo
    /// afterwards.
    pub fn restore(&mut self) -> (r: Vec<TerminalLifecycleAction>)
        ensures
            r@ == seq![TerminalLifecycleAction::ResetStyle] + undo_in_reverse(old(self).entered@),
            final(self).entered@.len() == 0,
    {
        let mut out: Vec<TerminalLifecycleAction> = Vec::new();
        out.push(TerminalLifecycleAction::ResetStyle);
        let ghost all = self.entered@;
        while self.entered.len() > 0
            invariant
                all.len() >= self.entered@.len(),
                self.entered@ == all.take(self.entered@.len() as int),
                seq![TerminalLifecycleAction::ResetStyle] + undo_in_reverse(all) == out@
                    + undo_in_reverse(self.entered@),
            decreases self.entered.len(),
        {
            let ghost before = self.entered@;
            let action = self.entered.pop().unwrap();
            assert(before.drop_last() =~= self.entered@);
            assert(self.entered@ =~= all.take(self.entered@.len() as int));
            assert(out@.push(action.undone()) + undo_in_reverse(self.entered@) =~= out@ + (seq![
                before.last().undone(),
            ] + undo_in_reverse(before.drop_last())));
            out.push(action.recovery());
        }
        assert(out@ + Seq::<TerminalLifecycleAction>::empty() =~= out@);
        out
    }
}

/// Taking the terminal over and putting it back undoes every change in
/// reverse order.
pub proof fn lemma_full_restore_order()
    ensures
        seq![TerminalLifecycleAction::ResetStyle] + undo_in_reverse(enter_sequence()) == seq![
            TerminalLifecycleAction::ResetStyle,
            TerminalLifecycleAction::ShowCursor,
            TerminalLifecycleAction::DisableMouseCapture,
            TerminalLifecycleAction::DisableFocusChange,
            TerminalLifecycleAction::DisableBracketedPaste,
            TerminalLifecycleAction::LeaveAlternateScreen,
            TerminalLifecycleAction::DisableRawMode,
        ],
{
    reveal_with_fuel(undo_in_reverse, 7);
    let e = enter_sequence();
    assert(e.drop_last() =~= e.take(5));
    assert(e.take(5).drop_last() =~= e.take(4));
    assert(e.take(4).drop_last() =~= e.take(3));
    assert(e.take(3).drop_last() =~= e.take(2));
    assert(e.take(2).drop_last() =~= e.take(1));
    assert(e.take(1).drop_last() =~= Seq::<TerminalLifecycleAction>::empty());
    assert(seq![TerminalLifecycleAction::ResetStyle] + undo_in_reverse(enter_sequence()) =~= seq![
        TerminalLifecycleAction::ResetStyle,
        TerminalLifecycleAction::ShowCursor,
        TerminalLifecycleAction::DisableMouseCapture,
        TerminalLifecycleAction::DisableFocusChange,
        TerminalLifecycleAction::DisableBracketedPaste,
        TerminalLifecycleAction::LeaveAlternateScreen,
        TerminalLifecycleAction::DisableRawMode,
    ]);
}

/// Whatever prefix of the changes took effect, restoring undoes exactly
/// those, each once, last first.
pub proof fn lemma_partial_restore(k: int)
    requires
        0 <= k <= 6,
    ensures
        undo_in_reverse(enter_sequence().take(k)).len() == k,
        forall|i: int|
            0 <= i < k ==> undo_in_reverse(enter_sequence().take(k))[i] == enter_sequence()[k - 1
                - i].undone(),
    decreases k,
{
    lemma_undo_reverse(enter_sequence().take(k));
}

proof fn lemma_undo_reverse(s: Seq<TerminalLifecycleAction>)
    ensures
        undo_in_reverse(s).len() == s.len(),
        forall|i: int| 0 <= i < s.len() ==> undo_in_reverse(s)[i] == s[s.len() - 1 - i].undone(),
    decreases s.len(),
{
    if s.len() > 0 {
        lemma_undo_reverse(s.drop_last());
        let r = undo_in_reverse(s);
        assert forall|i: int| 0 <= i < s.len() implies r[i] == s[s.len() - 1 - i].undone() by {
            if i > 0 {
                assert(r[i] == undo_in_reverse(s.drop_last())[i - 1]);
                assert(s.drop_last()[s.len() - 1 - i] == s[s.len() - 1 - i]);
            }
        }
    }
}

// ---------------------------------------------------------------------------
// Pasted text arriving as key presses
// ---------------------------------------------------------------------------
/// How long, in microseconds, between key presses of one paste burst at most.
pub const WINDOWS_PASTE_MAX_EVENT_GAP_MICROS: u64 = 25_000;

/// How many text key presses make a burst.
pub const WINDOWS_PASTE_MIN_TEXT_EVENTS: usize = 4;

/// The part of a terminal input event that burst detection reads.
#[derive(Clone, Copy, Debug, PartialEq, Eq, Structural)]
pub enum BurstInput {
    /// A character key pressed without Control.
    TextPress,
    /// Enter pressed without Shift or Alt.
    EnterPress,
    /// A key released or repeated.
    KeyNotPressed,
    /// Any other key press, or a paste.
    OtherKeyOrPaste,
    /// Anything else (mouse, focus, resize).
    Other,
}

/// Recognises Enter keys that arrive inside a burst of typed text, which is
/// how pasted text shows up in some Windows consoles.
#[derive(Clone, Copy, Debug, PartialEq, Eq, Structural)]
pub struct WindowsInputBurst {
    pub recent_text_events: usize,
    pub last_text_at: Option<u64>,
}

pub open spec fn within_gap(last: Option<u64>, now: u64) -> bool {
    match last {
        Some(t) => (if now >= t {
            now - t
        } else {
            0
        }) <= WINDOWS_PASTE_MAX_EVENT_GAP_MICROS,
        None => false,
    }
}

impl WindowsInputBurst {
    pub fn new() -> (r: Self)
        ensures
            r == (WindowsInputBurst { recent_text_events: 0, last_text_at: None }),
    {
        WindowsInputBurst { recent_text_events: 0, last_text_at: None }
    }

    pub open spec fn observed(self, input: BurstInput, now: u64) -> (WindowsInputBurst, bool) {
        match input {
            BurstInput::TextPress => (
                WindowsInputBurst {
                    recent_text_events: if within_gap(self.last_text_at, now) {
                        if self.recent_text_events == usize::MAX {
                            usize::MAX
                        } else {
                            (self.recent_text_events + 1) as usize
                        }
                    } else {
                        1
                    },
                    last_text_at: Some(now),
                },
                false,
            ),
            BurstInput::EnterPress => {
                let paste = self.recent_text_events >= WINDOWS_PASTE_MIN_TEXT_EVENTS && within_gap(
                    self.last_text_at,
                    now,
                );
                if paste {
                    (WindowsInputBurst { last_text_at: Some(now), ..self }, true)
                } else {
                    (WindowsInputBurst { recent_text_events: 0, last_text_at: None }, false)
                }
            },
            BurstInput::KeyNotPressed | BurstInput::Other => (self, false),
            BurstInput::OtherKeyOrPaste => (
                WindowsInputBurst { recent_text_events: 0, last_text_at: None },
                false,
            ),
        }
    }

    /// Takes in one input event at `now` (microseconds) and says whether it
    /// is an Enter that belongs to pasted text. Only Windows consoles split
    /// pastes this way; elsewhere nothing is tracked.
    pub fn observe(&mut self, input: BurstInput, now: u64, windows: bool) -> (r: bool)
        ensures
            !windows ==> !r && *final(self) == *old(self),
            windows ==> (*final(self), r) == old(self).observed(input, now),
    {
        if !windows {
            return false;
        }
        let within = match self.last_text_at {
            Some(t) => {
                let gap = if now >= t {
                    now - t
                } else {
                    0
                };
                gap <= WINDOWS_PASTE_MAX_EVENT_GAP_MICROS
            },
            None => false,
        };
        match input {
            BurstInput::TextPress => {
                self.recent_text_events = if within {
                    self.recent_text_events.saturating_add(1)
                } else {
                    1
                };
                self.last_text_at = Some(now);
                false
            },
            BurstInput::EnterPress => {
                let paste = self.recent_text_events >= WINDOWS_PASTE_MIN_TEXT_EVENTS && within;
                if paste {
                    self.last_text_at = Some(now);
                } else {
                    self.reset();
                }
                paste
            },
            BurstInput::KeyNotPressed | BurstInput::Other => false,
            BurstInput::OtherKeyOrPaste => {
                self.reset();
                false
            },
        }
    }

    pub fn reset(&mut self)
        ensures
            *final(self) == (WindowsInputBurst { recent_text_events: 0, last_text_at: None }),
    {
        self.recent_text_events = 0;
        self.last_text_at = None;
    }
}

} // verus!
