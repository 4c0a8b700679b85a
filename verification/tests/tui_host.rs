use yunxi_agent::frame::RedrawReason;
use yunxi_agent::host::{
    is_realtime_voice_stop_draft, should_render_submitted_user_prompt, terminal_enter_actions,
    BurstInput, TerminalLifecycleAction, TerminalLifecycleState, WindowsInputBurst,
};
use yunxi_agent::presentation::{
    redraw_reason_for_tui_event, should_show, PresentationVisibility, TuiCellId, TuiCellKind,
    TuiEvent, TuiSourceSequence, TuiStreamIdentity, TuiStreamPhase, TuiStreamState,
};

fn event(visibility: PresentationVisibility) -> TuiEvent {
    TuiEvent {
        id: TuiCellId::from_test("filter"),
        kind: TuiCellKind::Notice,
        visible_text: String::new(),
        detail: None,
        stream: None,
        visibility,
    }
}

#[test]
fn visibility_gate_only_depends_on_presentation_visibility_and_debug_flag() {
    assert!(should_show(&event(PresentationVisibility::Transcript), false));
    assert!(!should_show(&event(PresentationVisibility::DebugOnly), false));
    assert!(should_show(&event(PresentationVisibility::DebugOnly), true));
    assert!(!should_show(&event(PresentationVisibility::Hidden), true));
}

#[test]
fn slash_commands_are_not_rendered_as_user_messages() {
    assert!(!should_render_submitted_user_prompt("/voice"));
    assert!(!should_render_submitted_user_prompt("  /status  "));
    assert!(!should_render_submitted_user_prompt(""));
    assert!(should_render_submitted_user_prompt("和云熙聊一会儿"));
}

#[test]
fn realtime_voice_stop_draft_accepts_only_explicit_commands() {
    for value in ["q", " Q ", "quit", "/voice off", "/voice realtime off"] {
        assert!(is_realtime_voice_stop_draft(value), "expected stop: {value}");
    }
    for value in ["", "question", "/voice realtime on", "关闭实时语音"] {
        assert!(!is_realtime_voice_stop_draft(value), "unexpected stop: {value}");
    }
}

#[test]
fn terminal_lifecycle_restores_every_state_in_reverse_order() {
    let mut applied = Vec::new();
    let mut state = TerminalLifecycleState::new();
    for action in terminal_enter_actions() {
        applied.push(action);
        state.record_entered(action);
    }
    applied.extend(state.restore());

    let mut expected = terminal_enter_actions();
    expected.extend([
        TerminalLifecycleAction::ResetStyle,
        TerminalLifecycleAction::ShowCursor,
        TerminalLifecycleAction::DisableMouseCapture,
        TerminalLifecycleAction::DisableFocusChange,
        TerminalLifecycleAction::DisableBracketedPaste,
        TerminalLifecycleAction::LeaveAlternateScreen,
        TerminalLifecycleAction::DisableRawMode,
    ]);
    assert_eq!(applied, expected);
    assert!(state.entered.is_empty());
}

#[test]
fn partial_terminal_enter_rolls_back_only_completed_actions() {
    let fail_on = TerminalLifecycleAction::EnableFocusChange;
    let mut applied = Vec::new();
    let mut state = TerminalLifecycleState::new();
    for action in terminal_enter_actions() {
        applied.push(action);
        if action == fail_on {
            applied.extend(state.restore());
            break;
        }
        state.record_entered(action);
    }
    assert_eq!(
        applied,
        vec![
            TerminalLifecycleAction::EnableRawMode,
            TerminalLifecycleAction::EnterAlternateScreen,
            TerminalLifecycleAction::EnableBracketedPaste,
            TerminalLifecycleAction::EnableFocusChange,
            TerminalLifecycleAction::ResetStyle,
            TerminalLifecycleAction::DisableBracketedPaste,
            TerminalLifecycleAction::LeaveAlternateScreen,
            TerminalLifecycleAction::DisableRawMode,
        ]
    );
}

#[test]
fn recovery_of_an_undo_action_is_itself() {
    assert_eq!(TerminalLifecycleAction::HideCursor.recovery(), TerminalLifecycleAction::ShowCursor);
    assert_eq!(TerminalLifecycleAction::ResetStyle.recovery(), TerminalLifecycleAction::ResetStyle);
    assert_eq!(TerminalLifecycleAction::DisableRawMode.recovery(), TerminalLifecycleAction::DisableRawMode);
}

#[test]
fn windows_conpty_text_burst_reclassifies_only_rapid_embedded_enter() {
    let mut burst = WindowsInputBurst::new();
    let start = 1_000_000_u64;
    for offset in 0..4_u64 {
        assert!(!burst.observe(BurstInput::TextPress, start + offset * 1_000, true));
    }
    assert!(burst.observe(BurstInput::EnterPress, start + 4_000, true));
    assert!(!burst.observe(BurstInput::EnterPress, start + 100_000, true));

    let mut typed = WindowsInputBurst::new();
    assert!(!typed.observe(BurstInput::TextPress, start, true));
    assert!(!typed.observe(BurstInput::EnterPress, start + 1_000, true));

    let mut elsewhere = WindowsInputBurst::new();
    for offset in 0..4_u64 {
        elsewhere.observe(BurstInput::TextPress, start + offset * 1_000, false);
    }
    assert!(!elsewhere.observe(BurstInput::EnterPress, start + 4_000, false));
}

fn stream_event(kind: TuiCellKind, phase: Option<TuiStreamPhase>) -> TuiEvent {
    TuiEvent {
        id: TuiCellId::from_test("cell"),
        kind,
        visible_text: String::new(),
        detail: None,
        stream: phase.map(|phase| TuiStreamState {
            stable_source: String::new(),
            live_tail: String::new(),
            committed: false,
            identity: TuiStreamIdentity {
                thread_id: "thread".to_string(),
                turn_id: "turn".to_string(),
                stream_id: "stream".to_string(),
                event_id: "event".to_string(),
                source_sequence: TuiSourceSequence::LocalFallback(1),
                phase,
            },
            offline_label: false,
        }),
        visibility: PresentationVisibility::Transcript,
    }
}

#[test]
fn redraw_reasons_follow_event_kind_and_stream_phase() {
    assert_eq!(
        redraw_reason_for_tui_event(&stream_event(TuiCellKind::ErrorSummary, Some(TuiStreamPhase::Delta))),
        RedrawReason::Error
    );
    assert_eq!(
        redraw_reason_for_tui_event(&stream_event(TuiCellKind::AssistantMessage, Some(TuiStreamPhase::Retry))),
        RedrawReason::StreamDelta
    );
    assert_eq!(
        redraw_reason_for_tui_event(&stream_event(TuiCellKind::AssistantMessage, Some(TuiStreamPhase::Cancel))),
        RedrawReason::StreamFinalized
    );
    assert_eq!(
        redraw_reason_for_tui_event(&stream_event(TuiCellKind::Notice, None)),
        RedrawReason::StatusChanged
    );
}

#[test]
fn cell_ids_take_suffixes_and_sequences_report_reliability() {
    let id = TuiCellId::from_test("assistant");
    assert_eq!(id.with_suffix("stream-1").as_str(), "assistant:stream-1");
    assert_eq!(TuiSourceSequence::ProviderReliable(7).reliable_value(), Some(7));
    assert_eq!(TuiSourceSequence::LocalFallback(7).reliable_value(), None);
    assert_eq!(TuiSourceSequence::LocalFallback(9).value(), 9);
}
