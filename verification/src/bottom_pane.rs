use vstd::prelude::*;
use crate::input_map::{key_action, resolve_key, FocusTarget, KeyCode, KeyEvent, KeyEventKind, TuiAction};
use crate::text::{chars_of, contains, contains_exec, is_blank, is_blank_str, lower, lower_chars, owned, push_str};
use crate::text_layout::{byte_len, display_width, layout_rows, TextLayout, WrapPolicy};

verus! {

/// A tool call waiting for the user's approval.
#[derive(Clone, Debug, PartialEq, Eq)]
pub struct ApprovalRequestView {
    pub id: Option<String>,
    pub tool_name: String,
    pub cwd: String,
    pub command: Option<String>,
    pub reason: String,
    pub risk_label: Option<String>,
}

/// The user's answer to an approval request.
#[derive(Clone, Debug, PartialEq, Eq)]
pub struct ApprovalDecision {
    pub approved: bool,
    pub reason: Option<String>,
}

/// A question waiting for free-form input from the user.
#[derive(Clone, Debug, PartialEq, Eq)]
pub struct UserInputRequestView {
    pub id: Option<String>,
    pub prompt: String,
}

/// The user's answer to an input request.
#[derive(Clone, Debug, PartialEq, Eq)]
pub struct UserInputResponse {
    pub value: Option<String>,
}

/// What a key in the approval view led to.
#[derive(Clone, Debug, PartialEq, Eq)]
pub enum ApprovalAction {
    Idle,
    Decide(ApprovalDecision),
}

// ----- risk labels -----

pub open spec fn destructive_markers() -> Seq<Seq<char>> {
    seq!["remove-item"@, "rm -rf"@, "del "@, "rmdir"@, "rd /s"@, "format "@, "shutdown"@]
}

pub open spec fn network_markers() -> Seq<Seq<char>> {
    seq!["curl "@, "wget "@, "invoke-webrequest"@, "invoke-restmethod"@, "irm "@]
}

pub open spec fn write_markers() -> Seq<Seq<char>> {
    seq![
        ">"@,
        "set-content"@,
        "add-content"@,
        "out-file"@,
        "new-item"@,
        "copy "@,
        "move "@,
        "apply_patch"@,
    ]
}

pub open spec fn read_markers() -> Seq<Seq<char>> {
    seq!["get-content"@, "type "@, "cat "@, "rg "@, "findstr "@]
}

/// Some marker occurs in the text.
pub open spec fn contains_any(value: Seq<char>, needles: Seq<Seq<char>>) -> bool {
    exists|i: int| 0 <= i < needles.len() && contains(value, #[trigger] needles[i])
}

/// The risk class of a command line, judged on its ASCII-lowercased text:
/// destructive markers first, then network, then workspace writes, then
/// workspace reads; anything else is low risk.
pub open spec fn command_risk(command: Seq<char>) -> Seq<char> {
    let c = lower(command);
    if contains_any(c, destructive_markers()) {
        "risk: destructive"@
    } else if contains_any(c, network_markers()) {
        "risk: network"@
    } else if contains_any(c, write_markers()) {
        "risk: writes workspace"@
    } else if contains_any(c, read_markers()) {
        "risk: reads workspace"@
    } else {
        "risk: low"@
    }
}

/// A command whose lowercased text mentions removing, deleting, formatting
/// or shutting down (`remove-item`, `rm -rf`, `del `, `rmdir`, `rd /s`,
/// `format `, `shutdown`) is labelled destructive, whatever else it
/// mentions, when the request brings no label of its own.
pub proof fn lemma_destructive_commands_are_labelled(request: ApprovalRequestView)
    requires
        request.risk_label matches Some(label) ==> is_blank(label@),
        request.command matches Some(command) && ({
            let c = lower(command@);
            contains(c, "remove-item"@) || contains(c, "rm -rf"@) || contains(c, "del "@)
                || contains(c, "rmdir"@) || contains(c, "rd /s"@) || contains(c, "format "@)
                || contains(c, "shutdown"@)
        }),
    ensures
        risk_label_of(request) == "risk: destructive"@,
{
    let c = lower(request.command->Some_0@);
    let m = destructive_markers();
    assert(m[0] == "remove-item"@);
    assert(m[1] == "rm -rf"@);
    assert(m[2] == "del "@);
    assert(m[3] == "rmdir"@);
    assert(m[4] == "rd /s"@);
    assert(m[5] == "format "@);
    assert(m[6] == "shutdown"@);
    assert(contains_any(c, m));
}

/// A command with no destructive marker that fetches from the network
/// (`curl `, `wget `, `invoke-webrequest`, `invoke-restmethod`, `irm `) is
/// labelled a network risk; a command with none of the markers of any class
/// is labelled low risk.
pub proof fn lemma_network_and_low_risk_labels(command: Seq<char>)
    ensures
        ({
            let c = lower(command);
            let destructive = contains(c, "remove-item"@) || contains(c, "rm -rf"@) || contains(
                c,
                "del "@,
            ) || contains(c, "rmdir"@) || contains(c, "rd /s"@) || contains(c, "format "@)
                || contains(c, "shutdown"@);
            let network = contains(c, "curl "@) || contains(c, "wget "@) || contains(
                c,
                "invoke-webrequest"@,
            ) || contains(c, "invoke-restmethod"@) || contains(c, "irm "@);
            &&& !destructive && network ==> command_risk(command) == "risk: network"@
            &&& !contains_any(c, destructive_markers()) && !contains_any(c, network_markers())
                && !contains_any(c, write_markers()) && !contains_any(c, read_markers())
                ==> command_risk(command) == "risk: low"@
            &&& contains_any(c, destructive_markers()) <==> destructive
        }),
{
    let c = lower(command);
    let d = destructive_markers();
    let n = network_markers();
    assert(d[0] == "remove-item"@ && d[1] == "rm -rf"@ && d[2] == "del "@ && d[3] == "rmdir"@
        && d[4] == "rd /s"@ && d[5] == "format "@ && d[6] == "shutdown"@);
    assert(n[0] == "curl "@ && n[1] == "wget "@ && n[2] == "invoke-webrequest"@
        && n[3] == "invoke-restmethod"@ && n[4] == "irm "@);
    if contains_any(c, d) {
        let i = choose|i: int| 0 <= i < d.len() && contains(c, #[trigger] d[i]);
        assert(0 <= i < 7);
    }
    if contains(c, "curl "@) || contains(c, "wget "@) || contains(c, "invoke-webrequest"@)
        || contains(c, "invoke-restmethod"@) || contains(c, "irm "@) {
        assert(contains_any(c, n));
    }
}

/// The label shown for a request: its own label when it has a non-blank
/// one, else the risk class of its command (of an empty command when it has
/// none).
pub open spec fn risk_label_of(request: ApprovalRequestView) -> Seq<char> {
    match request.risk_label {
        Some(label) if !is_blank(label@) => label@,
        _ => command_risk(
            match request.command {
                Some(command) => command@,
                None => Seq::empty(),
            },
        ),
    }
}

pub open spec fn str_views(v: Seq<&str>) -> Seq<Seq<char>> {
    v.map_values(|s: &str| s@)
}

fn contains_any_exec(value: &Vec<char>, needles: &Vec<&str>) -> (r: bool)
    ensures
        r == contains_any(value@, str_views(needles@)),
{
    let mut i: usize = 0;
    while i < needles.len()
        invariant
            i <= needles@.len(),
            forall|j: int| 0 <= j < i ==> !contains(value@, #[trigger] str_views(needles@)[j]),
        decreases needles@.len() - i,
    {
        let needle = chars_of(needles[i]);
        if contains_exec(value, &needle) {
            assert(contains(value@, str_views(needles@)[i as int]));
            return true;
        }
        i = i + 1;
    }
    false
}

impl ApprovalRequestView {
    /// The risk label shown with the request.
    pub fn risk_label(&self) -> (r: String)
        ensures
            r@ == risk_label_of(*self),
    {
        if let Some(label) = &self.risk_label {
            if !is_blank_str(label.as_str()) {
                return label.clone();
            }
        }
        let command: Vec<char> = match &self.command {
            Some(command) => chars_of(command.as_str()),
            None => Vec::new(),
        };
        let lowered = lower_chars(&command);
        let destructive = vec!["remove-item", "rm -rf", "del ", "rmdir", "rd /s", "format ", "shutdown"];
        assert(str_views(destructive@) =~= destructive_markers());
        if contains_any_exec(&lowered, &destructive) {
            return owned("risk: destructive");
        }
        let network = vec!["curl ", "wget ", "invoke-webrequest", "invoke-restmethod", "irm "];
        assert(str_views(network@) =~= network_markers());
        if contains_any_exec(&lowered, &network) {
            return owned("risk: network");
        }
        let writes = vec![
            ">",
            "set-content",
            "add-content",
            "out-file",
            "new-item",
            "copy ",
            "move ",
            "apply_patch",
        ];
        assert(str_views(writes@) =~= write_markers());
        if contains_any_exec(&lowered, &writes) {
            return owned("risk: writes workspace");
        }
        let reads = vec!["get-content", "type ", "cat ", "rg ", "findstr "];
        assert(str_views(reads@) =~= read_markers());
        if contains_any_exec(&lowered, &reads) {
            return owned("risk: reads workspace");
        }
        owned("risk: low")
    }
}

// ----- composer height -----

/// Rows the composer takes at `width` columns: a frame of three rows plus
/// the buffer laid out as code beside the prompt, at least one row and at
/// most six.
pub open spec fn composer_height(prompt: Seq<char>, buffer: Seq<char>, width: int) -> int {
    let inner = if width - 2 < 1 {
        1
    } else {
        width - 2
    };
    let body = if inner - display_width(prompt) < 1 {
        1
    } else {
        inner - display_width(prompt)
    };
    let rows = layout_rows(buffer, body, WrapPolicy::CodeBlock).len() as int;
    let rows = if rows < 1 {
        1
    } else {
        rows
    };
    3 + if rows > 6 {
        6
    } else {
        rows
    }
}

/// Height in rows of a composer showing `prompt` and `buffer`.
pub fn composer_desired_height(prompt: &str, buffer: &str, width: usize) -> (r: u16)
    requires
        byte_len(buffer@) <= usize::MAX,
    ensures
        r as int == composer_height(prompt@, buffer@, width as int),
{
    let inner = width.saturating_sub(2);
    let inner = if inner < 1 {
        1
    } else {
        inner
    };
    let prompt_width = TextLayout::measure(prompt);
    let body = inner.saturating_sub(prompt_width);
    let body = if body < 1 {
        1
    } else {
        body
    };
    let lines = TextLayout::wrap(buffer, body, WrapPolicy::CodeBlock);
    let rows = if lines.len() < 1 {
        1
    } else {
        lines.len()
    };
    let shown: usize = if rows > 6 {
        6
    } else {
        rows
    };
    3u16 + shown as u16
}


// ----- the pane -----

/// What the bottom of the screen shows: the composer, an approval request
/// with its selected answer (0 approves, 1 declines), or an input request
/// with its answer so far.
#[derive(Clone, Debug)]
pub enum BottomPaneMode {
    Composer,
    Approval { request: ApprovalRequestView, selected: usize },
    UserInput { request: UserInputRequestView, buffer: String },
}

/// The bottom pane.  The composer draft is held as its text; while a
/// request is shown the draft waits aside and comes back with the composer.
pub struct BottomPane {
    mode: BottomPaneMode,
    composer_prompt: String,
    composer: String,
    suspended_composer: Option<String>,
}

/// The abstract state of the pane.
pub enum PaneMode {
    Composer,
    Approval { request: ApprovalRequestView, selected: usize },
    UserInput { request: UserInputRequestView, buffer: Seq<char> },
}

pub struct PaneView {
    pub mode: PaneMode,
    pub prompt: Seq<char>,
    pub draft: Seq<char>,
    pub suspended: Option<Seq<char>>,
}

pub open spec fn mode_view(mode: BottomPaneMode) -> PaneMode {
    match mode {
        BottomPaneMode::Composer => PaneMode::Composer,
        BottomPaneMode::Approval { request, selected } => PaneMode::Approval { request, selected },
        BottomPaneMode::UserInput { request, buffer } => PaneMode::UserInput {
            request,
            buffer: buffer@,
        },
    }
}

impl View for BottomPane {
    type V = PaneView;

    closed spec fn view(&self) -> PaneView {
        PaneView {
            mode: mode_view(self.mode),
            prompt: self.composer_prompt@,
            draft: self.composer@,
            suspended: match self.suspended_composer {
                Some(s) => Some(s@),
                None => None,
            },
        }
    }
}

/// The draft set aside when the composer gives way to a request.
pub open spec fn set_aside(v: PaneView) -> Option<Seq<char>> {
    if v.mode is Composer {
        Some(v.draft)
    } else {
        v.suspended
    }
}

/// An approval request takes the pane; decline is selected first.
pub open spec fn approval_started(v: PaneView, request: ApprovalRequestView) -> PaneView {
    PaneView { mode: PaneMode::Approval { request, selected: 1 }, suspended: set_aside(v), ..v }
}

/// An input request takes the pane with an empty answer.
pub open spec fn user_input_started(v: PaneView, request: UserInputRequestView) -> PaneView {
    PaneView {
        mode: PaneMode::UserInput { request, buffer: Seq::empty() },
        suspended: set_aside(v),
        ..v
    }
}

/// The composer comes back with a prompt and the draft that was set aside,
/// if any.
pub open spec fn composer_started(v: PaneView, prompt: Seq<char>) -> PaneView {
    PaneView {
        mode: PaneMode::Composer,
        prompt,
        draft: match v.suspended {
            Some(d) => d,
            None => v.draft,
        },
        suspended: None,
    }
}

/// The composer comes back empty.
pub open spec fn composer_reset(prompt: Seq<char>) -> PaneView {
    PaneView { mode: PaneMode::Composer, prompt, draft: Seq::empty(), suspended: None }
}

/// Pasted text goes to the text that has focus: the composer draft or the
/// answer to an input request.  An approval takes no text.
pub open spec fn pasted(v: PaneView, text: Seq<char>) -> (PaneView, bool) {
    match v.mode {
        PaneMode::Composer => (PaneView { draft: v.draft + text, ..v }, true),
        PaneMode::UserInput { request, buffer } => (
            PaneView { mode: PaneMode::UserInput { request, buffer: buffer + text }, ..v },
            true,
        ),
        PaneMode::Approval { .. } => (v, false),
    }
}

/// How an approval was answered.
pub enum Verdict {
    Approved,
    Declined,
    Cancelled,
}

pub open spec fn verdict_reason(v: Verdict) -> Seq<char> {
    match v {
        Verdict::Approved => "approved by YunXi TUI"@,
        Verdict::Declined => "declined by YunXi TUI"@,
        Verdict::Cancelled => "cancelled by user (Ctrl+C)"@,
    }
}

pub open spec fn decision_says(d: ApprovalDecision, v: Verdict) -> bool {
    &&& d.approved == (v is Approved)
    &&& d.reason is Some
    &&& d.reason->0@ == verdict_reason(v)
}

/// Whether the key map leaves an approval key to the pane's own keys.
pub open spec fn left_to_pane(action: TuiAction) -> bool {
    action == TuiAction::InsertNewline || action == TuiAction::Idle || action
        == TuiAction::FocusNext || action == TuiAction::FocusPrevious
}

/// The answer a key press gives to an approval whose selection is
/// `selected`: Ctrl+C cancels, the approve and decline keys answer, and
/// Enter confirms the selection.
pub open spec fn approval_verdict(selected: usize, key: KeyEvent) -> Option<Verdict> {
    if key.kind != KeyEventKind::Press {
        None
    } else {
        let action = key_action(FocusTarget::Approval, key);
        if action == TuiAction::Cancel {
            Some(Verdict::Cancelled)
        } else if action == TuiAction::Decline {
            Some(Verdict::Declined)
        } else if action == TuiAction::Approve {
            Some(Verdict::Approved)
        } else if action == TuiAction::Submit {
            Some(
                if selected == 0 {
                    Verdict::Approved
                } else {
                    Verdict::Declined
                },
            )
        } else if left_to_pane(action) {
            match key.code {
                KeyCode::Char(c) => if c == 'y' || c == 'Y' || c == 'a' || c == 'A' {
                    Some(Verdict::Approved)
                } else if c == 'n' || c == 'N' || c == 'd' || c == 'D' {
                    Some(Verdict::Declined)
                } else if c == 'c' && key.modifiers.control {
                    Some(Verdict::Cancelled)
                } else {
                    None
                },
                _ => None,
            }
        } else {
            None
        }
    }
}

/// The selection after a key that does not answer: the arrow and tab keys
/// switch between approve and decline.
pub open spec fn approval_selection(selected: usize, key: KeyEvent) -> usize {
    if key.kind == KeyEventKind::Press && left_to_pane(key_action(FocusTarget::Approval, key)) {
        match key.code {
            KeyCode::Tab | KeyCode::Down | KeyCode::Right => ((selected + 1) % 2) as usize,
            KeyCode::BackTab | KeyCode::Up | KeyCode::Left => if selected == 0 {
                1
            } else {
                0
            },
            _ => selected,
        }
    } else {
        selected
    }
}

impl BottomPane {
    /// The selection of an approval is 0 or 1.
    pub closed spec fn wf(&self) -> bool {
        match self.mode {
            BottomPaneMode::Approval { selected, .. } => selected < 2,
            _ => true,
        }
    }

    pub fn mode(&self) -> (r: &BottomPaneMode)
        ensures
            mode_view(*r) == self@.mode,
    {
        &self.mode
    }

    /// Whether typed text goes to the pane: in the composer and in an input
    /// request.
    pub fn text_input_active(&self) -> (r: bool)
        ensures
            r == (self@.mode is Composer || self@.mode is UserInput),
    {
        match &self.mode {
            BottomPaneMode::Composer | BottomPaneMode::UserInput { .. } => true,
            BottomPaneMode::Approval { .. } => false,
        }
    }

    pub fn composer_prompt(&self) -> (r: &str)
        ensures
            r@ == self@.prompt,
    {
        self.composer_prompt.as_str()
    }

    /// The text of the composer draft.
    pub fn composer_text(&self) -> (r: &str)
        ensures
            r@ == self@.draft,
    {
        self.composer.as_str()
    }

    fn suspend_composer(&mut self)
        ensures
            final(self)@ == (PaneView { suspended: set_aside(old(self)@), ..old(self)@ }),
            final(self).mode == old(self).mode,
    {
        if let BottomPaneMode::Composer = self.mode {
            self.suspended_composer = Some(self.composer.clone());
        }
    }

    /// Shows the composer again with a prompt, bringing back a draft that
    /// was set aside.
    pub fn start_composer(&mut self, prompt: String)
        ensures
            final(self).wf(),
            final(self)@ == composer_started(old(self)@, prompt@),
    {
        self.composer_prompt = prompt;
        if let Some(snapshot) = self.suspended_composer.take() {
            self.composer = snapshot;
        }
        self.mode = BottomPaneMode::Composer;
    }

    /// Shows the composer with a prompt and an empty draft.
    pub fn reset_composer(&mut self, prompt: String)
        ensures
            final(self).wf(),
            final(self)@ == composer_reset(prompt@),
    {
        self.suspended_composer = None;
        self.composer = String::new();
        self.start_composer(prompt);
    }

    /// Shows an approval request, with decline selected.
    pub fn start_approval(&mut self, request: ApprovalRequestView)
        ensures
            final(self).wf(),
            final(self)@ == approval_started(old(self)@, request),
    {
        self.suspend_composer();
        self.mode = BottomPaneMode::Approval { request, selected: 1 };
    }

    /// Shows an input request with an empty answer.
    pub fn start_user_input(&mut self, request: UserInputRequestView)
        ensures
            final(self).wf(),
            final(self)@ == user_input_started(old(self)@, request),
    {
        self.suspend_composer();
        self.mode = BottomPaneMode::UserInput { request, buffer: String::new() };
    }

    /// Pastes text where it is typed; says whether it was taken.
    pub fn paste(&mut self, value: &str) -> (r: bool)
        requires
            old(self).wf(),
        ensures
            final(self).wf(),
            (final(self)@, r) == pasted(old(self)@, value@),
    {
        match &mut self.mode {
            BottomPaneMode::Composer => {
                push_str(&mut self.composer, value);
                true
            },
            BottomPaneMode::UserInput { buffer, .. } => {
                push_str(buffer, value);
                true
            },
            BottomPaneMode::Approval { .. } => false,
        }
    }
}


impl Default for BottomPane {
    /// The composer with the default prompt and an empty draft.
    fn default() -> (r: Self)
        ensures
            r.wf(),
            r@ == composer_reset("yunxi> "@),
    {
        BottomPane {
            mode: BottomPaneMode::Composer,
            composer_prompt: owned("yunxi> "),
            composer: String::new(),
            suspended_composer: None,
        }
    }
}

fn decision(verdict: Verdict) -> (d: ApprovalDecision)
    ensures
        decision_says(d, verdict),
{
    match verdict {
        Verdict::Approved => ApprovalDecision {
            approved: true,
            reason: Some(owned("approved by YunXi TUI")),
        },
        Verdict::Declined => ApprovalDecision {
            approved: false,
            reason: Some(owned("declined by YunXi TUI")),
        },
        Verdict::Cancelled => ApprovalDecision {
            approved: false,
            reason: Some(owned("cancelled by user (Ctrl+C)")),
        },
    }
}

impl BottomPane {
    /// Handles a key while an approval is shown: answers it, or moves the
    /// selection between approve and decline.  Outside an approval, and for
    /// keys that are not presses, nothing happens.
    pub fn handle_approval_key(&mut self, key: KeyEvent) -> (r: ApprovalAction)
        requires
            old(self).wf(),
        ensures
            final(self).wf(),
            match old(self)@.mode {
                PaneMode::Approval { request, selected } => match approval_verdict(selected, key) {
                    Some(v) => (r matches ApprovalAction::Decide(d) && decision_says(d, v))
                        && final(self)@ == old(self)@,
                    None => r is Idle && final(self)@ == (PaneView {
                        mode: PaneMode::Approval {
                            request,
                            selected: approval_selection(selected, key),
                        },
                        ..old(self)@
                    }),
                },
                _ => r is Idle && final(self)@ == old(self)@,
            },
    {
        let selected_now = match &self.mode {
            BottomPaneMode::Approval { selected, .. } => *selected,
            _ => {
                return ApprovalAction::Idle;
            },
        };
        if key.kind != KeyEventKind::Press {
            return ApprovalAction::Idle;
        }
        let action = resolve_key(FocusTarget::Approval, key);
        match action {
            TuiAction::Cancel => {
                return ApprovalAction::Decide(decision(Verdict::Cancelled));
            },
            TuiAction::Decline => {
                return ApprovalAction::Decide(decision(Verdict::Declined));
            },
            TuiAction::Approve => {
                return ApprovalAction::Decide(decision(Verdict::Approved));
            },
            TuiAction::Submit => {
                let verdict = if selected_now == 0 {
                    Verdict::Approved
                } else {
                    Verdict::Declined
                };
                return ApprovalAction::Decide(decision(verdict));
            },
            TuiAction::InsertNewline | TuiAction::Idle | TuiAction::FocusNext
            | TuiAction::FocusPrevious => {},
            _ => {
                return ApprovalAction::Idle;
            },
        }
        let next = match key.code {
            KeyCode::Char(c) => {
                if c == 'y' || c == 'Y' || c == 'a' || c == 'A' {
                    return ApprovalAction::Decide(decision(Verdict::Approved));
                } else if c == 'n' || c == 'N' || c == 'd' || c == 'D' {
                    return ApprovalAction::Decide(decision(Verdict::Declined));
                } else if c == 'c' && key.modifiers.control {
                    return ApprovalAction::Decide(decision(Verdict::Cancelled));
                }
                selected_now
            },
            KeyCode::Tab | KeyCode::Down | KeyCode::Right => (selected_now + 1) % 2,
            KeyCode::BackTab | KeyCode::Up | KeyCode::Left => if selected_now == 0 {
                1
            } else {
                0
            },
            _ => selected_now,
        };
        if let BottomPaneMode::Approval { selected, .. } = &mut self.mode {
            *selected = next;
        }
        ApprovalAction::Idle
    }
}

/// A composer draft survives the requests shown in its place: after an
/// approval or an input request (whatever is pasted as the answer), the
/// composer comes back with the same draft.
pub proof fn lemma_draft_survives_requests(
    v: PaneView,
    approval: ApprovalRequestView,
    input: UserInputRequestView,
    answer: Seq<char>,
    prompt: Seq<char>,
)
    requires
        v.mode is Composer,
    ensures
        composer_started(approval_started(v, approval), prompt).draft == v.draft,
        composer_started(pasted(user_input_started(v, input), answer).0, prompt).draft == v.draft,
        composer_started(
            pasted(user_input_started(composer_started(approval_started(v, approval), prompt), input), answer).0,
            prompt,
        ).draft == v.draft,
{
}

/// An approval starts with decline selected, so Enter alone never approves.
pub proof fn lemma_enter_declines_by_default(v: PaneView, request: ApprovalRequestView, key: KeyEvent)
    requires
        key.kind == KeyEventKind::Press,
        key.code == KeyCode::Enter,
        !key.modifiers.shift && !key.modifiers.alt,
    ensures
        approval_started(v, request).mode matches PaneMode::Approval { selected, .. }
            && approval_verdict(selected, key) == Some(Verdict::Declined),
{
}

} // verus!
