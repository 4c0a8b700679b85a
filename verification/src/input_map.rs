use vstd::prelude::*;

verus! {

/// The part of the screen that keyboard input goes to.
#[derive(Clone, Copy, Debug, PartialEq, Eq, Structural)]
pub enum FocusTarget {
    Composer,
    History,
    Approval,
    Details,
}

/// What a key or terminal event asks the interface to do.
#[derive(Clone, Copy, Debug, PartialEq, Eq, Structural)]
pub enum TuiAction {
    Idle,
    Submit,
    Cancel,
    Approve,
    Decline,
    InsertNewline,
    CloseDetails,
    FocusNext,
    FocusPrevious,
    PageUp,
    PageDown,
    Paste,
    ScrollUp,
    ScrollDown,
    DetailScrollUp,
    DetailScrollDown,
}

/// The key of a key event.
#[derive(Clone, Copy, Debug, PartialEq, Eq, Structural)]
pub enum KeyCode {
    Char(char),
    Enter,
    Esc,
    Tab,
    BackTab,
    Backspace,
    Delete,
    Left,
    Right,
    Up,
    Down,
    Home,
    End,
    PageUp,
    PageDown,
    Other,
}

/// The modifier keys held during a key event.
#[derive(Clone, Copy, Debug, PartialEq, Eq, Structural)]
pub struct KeyModifiers {
    pub shift: bool,
    pub control: bool,
    pub alt: bool,
}

impl KeyModifiers {
    pub fn none() -> (r: Self)
        ensures
            !r.shift && !r.control && !r.alt,
    {
        KeyModifiers { shift: false, control: false, alt: false }
    }

    pub fn control() -> (r: Self)
        ensures
            !r.shift && r.control && !r.alt,
    {
        KeyModifiers { shift: false, control: true, alt: false }
    }

    pub fn shift() -> (r: Self)
        ensures
            r.shift && !r.control && !r.alt,
    {
        KeyModifiers { shift: true, control: false, alt: false }
    }

    pub fn alt() -> (r: Self)
        ensures
            !r.shift && !r.control && r.alt,
    {
        KeyModifiers { shift: false, control: false, alt: true }
    }
}

/// Whether a key went down, repeats, or came up.
#[derive(Clone, Copy, Debug, PartialEq, Eq, Structural)]
pub enum KeyEventKind {
    Press,
    Repeat,
    Release,
}

/// A key event.
#[derive(Clone, Copy, Debug, PartialEq, Eq, Structural)]
pub struct KeyEvent {
    pub code: KeyCode,
    pub modifiers: KeyModifiers,
    pub kind: KeyEventKind,
}

impl KeyEvent {
    /// A key press.
    pub fn new(code: KeyCode, modifiers: KeyModifiers) -> (r: Self)
        ensures
            r.code == code,
            r.modifiers == modifiers,
            r.kind == KeyEventKind::Press,
    {
        KeyEvent { code, modifiers, kind: KeyEventKind::Press }
    }
}

/// A terminal event, as far as the key map tells events apart.
#[derive(Clone, Debug)]
pub enum InputEvent {
    Key(KeyEvent),
    Paste(String),
    ScrollUp,
    ScrollDown,
    Other,
}

/// The action that a key event asks for in a focus.
pub open spec fn key_action(focus: FocusTarget, key: KeyEvent) -> TuiAction {
    if key.kind != KeyEventKind::Press {
        TuiAction::Idle
    } else {
        match focus {
            FocusTarget::Details => match key.code {
                KeyCode::Esc => TuiAction::CloseDetails,
                KeyCode::PageUp => TuiAction::PageUp,
                KeyCode::PageDown => TuiAction::PageDown,
                _ => TuiAction::Idle,
            },
            FocusTarget::History => match key.code {
                KeyCode::PageUp => TuiAction::PageUp,
                KeyCode::PageDown => TuiAction::PageDown,
                KeyCode::Tab => TuiAction::FocusNext,
                KeyCode::BackTab => TuiAction::FocusPrevious,
                _ => TuiAction::Idle,
            },
            _ => {
                let approval = focus == FocusTarget::Approval;
                if key.code == KeyCode::Char('c') && key.modifiers.control {
                    TuiAction::Cancel
                } else {
                    match key.code {
                        KeyCode::Esc => if approval {
                            TuiAction::Decline
                        } else {
                            TuiAction::Cancel
                        },
                        KeyCode::Enter => if key.modifiers.shift || key.modifiers.alt {
                            TuiAction::InsertNewline
                        } else {
                            TuiAction::Submit
                        },
                        KeyCode::Char(c) => if c == 'j' && key.modifiers.control {
                            TuiAction::InsertNewline
                        } else if approval && (c == 'y' || c == 'Y' || c == 'a' || c == 'A') {
                            TuiAction::Approve
                        } else if approval && (c == 'n' || c == 'N' || c == 'd' || c == 'D') {
                            TuiAction::Decline
                        } else {
                            TuiAction::Idle
                        },
                        KeyCode::Tab => if approval {
                            TuiAction::Idle
                        } else {
                            TuiAction::FocusNext
                        },
                        KeyCode::BackTab => if approval {
                            TuiAction::Idle
                        } else {
                            TuiAction::FocusPrevious
                        },
                        KeyCode::PageUp => if approval {
                            TuiAction::Idle
                        } else {
                            TuiAction::PageUp
                        },
                        KeyCode::PageDown => if approval {
                            TuiAction::Idle
                        } else {
                            TuiAction::PageDown
                        },
                        _ => TuiAction::Idle,
                    }
                }
            },
        }
    }
}

/// The action that a terminal event asks for in a focus: keys go through
/// the key map, pastes reach only the composer, and the mouse wheel scrolls
/// the transcript (or the details view) but never an approval.
pub open spec fn event_action(focus: FocusTarget, event: InputEvent) -> TuiAction {
    match event {
        InputEvent::Key(key) => key_action(focus, key),
        InputEvent::Paste(_) => if focus == FocusTarget::Composer {
            TuiAction::Paste
        } else {
            TuiAction::Idle
        },
        InputEvent::ScrollUp => match focus {
            FocusTarget::Composer | FocusTarget::History => TuiAction::ScrollUp,
            FocusTarget::Approval => TuiAction::Idle,
            FocusTarget::Details => TuiAction::DetailScrollUp,
        },
        InputEvent::ScrollDown => match focus {
            FocusTarget::Composer | FocusTarget::History => TuiAction::ScrollDown,
            FocusTarget::Approval => TuiAction::Idle,
            FocusTarget::Details => TuiAction::DetailScrollDown,
        },
        InputEvent::Other => TuiAction::Idle,
    }
}

/// Maps a key event to the action it asks for in a focus.
pub fn resolve_key(focus: FocusTarget, key: KeyEvent) -> (r: TuiAction)
    ensures
        r == key_action(focus, key),
{
    if key.kind != KeyEventKind::Press {
        return TuiAction::Idle;
    }
    match focus {
        FocusTarget::Details => match key.code {
            KeyCode::Esc => TuiAction::CloseDetails,
            KeyCode::PageUp => TuiAction::PageUp,
            KeyCode::PageDown => TuiAction::PageDown,
            _ => TuiAction::Idle,
        },
        FocusTarget::History => match key.code {
            KeyCode::PageUp => TuiAction::PageUp,
            KeyCode::PageDown => TuiAction::PageDown,
            KeyCode::Tab => TuiAction::FocusNext,
            KeyCode::BackTab => TuiAction::FocusPrevious,
            _ => TuiAction::Idle,
        },
        FocusTarget::Composer | FocusTarget::Approval => {
            let approval = focus == FocusTarget::Approval;
            if key.code == KeyCode::Char('c') && key.modifiers.control {
                return TuiAction::Cancel;
            }
            match key.code {
                KeyCode::Esc => if approval {
                    TuiAction::Decline
                } else {
                    TuiAction::Cancel
                },
                KeyCode::Enter => if key.modifiers.shift || key.modifiers.alt {
                    TuiAction::InsertNewline
                } else {
                    TuiAction::Submit
                },
                KeyCode::Char(c) => if c == 'j' && key.modifiers.control {
                    TuiAction::InsertNewline
                } else if approval && (c == 'y' || c == 'Y' || c == 'a' || c == 'A') {
                    TuiAction::Approve
                } else if approval && (c == 'n' || c == 'N' || c == 'd' || c == 'D') {
                    TuiAction::Decline
                } else {
                    TuiAction::Idle
                },
                KeyCode::Tab => if approval {
                    TuiAction::Idle
                } else {
                    TuiAction::FocusNext
                },
                KeyCode::BackTab => if approval {
                    TuiAction::Idle
                } else {
                    TuiAction::FocusPrevious
                },
                KeyCode::PageUp => if approval {
                    TuiAction::Idle
                } else {
                    TuiAction::PageUp
                },
                KeyCode::PageDown => if approval {
                    TuiAction::Idle
                } else {
                    TuiAction::PageDown
                },
                _ => TuiAction::Idle,
            }
        },
    }
}

/// Maps a terminal event to the action it asks for in a focus.
pub fn resolve_event(focus: FocusTarget, event: &InputEvent) -> (r: TuiAction)
    ensures
        r == event_action(focus, *event),
{
    match event {
        InputEvent::Key(key) => resolve_key(focus, *key),
        InputEvent::Paste(_) => if focus == FocusTarget::Composer {
            TuiAction::Paste
        } else {
            TuiAction::Idle
        },
        InputEvent::ScrollUp => match focus {
            FocusTarget::Composer | FocusTarget::History => TuiAction::ScrollUp,
            FocusTarget::Approval => TuiAction::Idle,
            FocusTarget::Details => TuiAction::DetailScrollUp,
        },
        InputEvent::ScrollDown => match focus {
            FocusTarget::Composer | FocusTarget::History => TuiAction::ScrollDown,
            FocusTarget::Approval => TuiAction::Idle,
            FocusTarget::Details => TuiAction::DetailScrollDown,
        },
        InputEvent::Other => TuiAction::Idle,
    }
}

/// In the approval view no event moves focus, pages, pastes or scrolls:
/// what reaches it can only decide the request, submit the selection, or
/// be ignored.
pub proof fn lemma_approval_input_only_decides(event: InputEvent)
    ensures
        match event_action(FocusTarget::Approval, event) {
            TuiAction::Idle | TuiAction::Submit | TuiAction::Cancel | TuiAction::Approve
            | TuiAction::Decline | TuiAction::InsertNewline => true,
            _ => false,
        },
{
}

/// A Ctrl+C press cancels both in the composer and in the approval view.
pub proof fn lemma_ctrl_c_cancels(key: KeyEvent)
    requires
        key.kind == KeyEventKind::Press,
        key.code == KeyCode::Char('c'),
        key.modifiers.control,
    ensures
        key_action(FocusTarget::Composer, key) == TuiAction::Cancel,
        key_action(FocusTarget::Approval, key) == TuiAction::Cancel,
{
}

} // verus!
