use yunxi_agent::bottom_pane::{
    composer_desired_height, ApprovalAction, ApprovalDecision, ApprovalRequestView, BottomPane,
    BottomPaneMode, UserInputRequestView,
};
use yunxi_agent::input_map::{
    resolve_event, resolve_key, FocusTarget, InputEvent, KeyCode, KeyEvent, KeyEventKind,
    KeyModifiers, TuiAction,
};
use yunxi_agent::text_layout::{ClipPriority, PrioritySegment, TextLayout, VisualCursor, WrapPolicy};

fn key(code: KeyCode, modifiers: KeyModifiers) -> KeyEvent {
    KeyEvent::new(code, modifiers)
}

fn pane_height(pane: &BottomPane, width: usize) -> u16 {
    composer_desired_height(pane.composer_prompt(), pane.composer_text(), width)
}

fn request(command: Option<&str>, risk_label: Option<&str>) -> ApprovalRequestView {
    ApprovalRequestView {
        id: None,
        tool_name: "shell".to_string(),
        cwd: ".".to_string(),
        command: command.map(str::to_string),
        reason: "needs approval".to_string(),
        risk_label: risk_label.map(str::to_string),
    }
}

#[test]
fn measures_international_graphemes_and_maps_cursor() {
    let value = "中文かな👩‍💻e\u{301}";
    assert_eq!(TextLayout::measure(value), 11);
    let cursor =
        TextLayout::cursor_position(value, "中文かな".len(), 6, WrapPolicy::BreakLongToken);
    assert_eq!(cursor, VisualCursor { row: 1, column: 2 });

    for byte in 1.."👩‍💻".len() {
        let inside = TextLayout::cursor_position("👩‍💻x", byte, 10, WrapPolicy::BreakLongToken);
        assert_eq!(inside.column, 0, "byte={byte}");
    }
}

#[test]
fn cursor_maps_soft_wrap_newline_and_end_boundaries() {
    let wrapped = "abcd中文";
    assert_eq!(
        TextLayout::cursor_position(wrapped, 4, 4, WrapPolicy::BreakLongToken),
        VisualCursor { row: 1, column: 0 }
    );
    assert_eq!(
        TextLayout::cursor_position(wrapped, wrapped.len(), 4, WrapPolicy::BreakLongToken),
        VisualCursor { row: 1, column: 4 }
    );

    let multiline = "ab\nかな";
    assert_eq!(
        TextLayout::cursor_position(multiline, 2, 8, WrapPolicy::NaturalText),
        VisualCursor { row: 0, column: 2 }
    );
    assert_eq!(
        TextLayout::cursor_position(multiline, 3, 8, WrapPolicy::NaturalText),
        VisualCursor { row: 1, column: 0 }
    );
}

#[test]
fn every_visual_line_is_a_grapheme_aligned_source_slice() {
    let fixtures = [
        ("普通中文かな text 👩‍💻 e\u{301} tail", WrapPolicy::NaturalText),
        ("https://example.test/路径?query=かな#結果", WrapPolicy::UrlAware),
        ("C:\\YunXi Agent\\输出目录\\長い名前.txt", WrapPolicy::WindowsPathAware),
        ("```rust\n    let value = \"中文かな👩‍💻\";\n```", WrapPolicy::CodeBlock),
    ];

    for (value, policy) in fixtures {
        for line in TextLayout::wrap(value, 12, policy) {
            assert!(value.is_char_boundary(line.source_range.start));
            assert!(value.is_char_boundary(line.source_range.end));
            assert_eq!(line.text, value[line.source_range.clone()]);
            assert!(TextLayout::measure(&line.text) <= 12, "{}", line.text);
        }
    }
}

#[test]
fn url_wrap_preserves_query_fragment_and_source_ranges() {
    let value = "https://very-long.example.test/api/v1/items?search=中文&sort=desc#results";
    let lines = TextLayout::wrap(value, 18, WrapPolicy::UrlAware);
    assert!(lines.len() >= 4);
    assert!(lines.iter().all(|line| TextLayout::measure(&line.text) <= 18));
    assert!(lines.iter().any(|line| line.text.contains('?')));
    assert!(lines.iter().any(|line| line.text.contains('#')));
    for line in lines {
        assert_eq!(line.text, value[line.source_range].to_string());
    }
}

#[test]
fn windows_path_wraps_on_components_without_splitting_graphemes() {
    let value = "C:\\Users\\24763\\YunXi Agent\\输出目录\\very-long-file-name.txt";
    let lines = TextLayout::wrap(value, 16, WrapPolicy::WindowsPathAware);
    assert!(lines.len() >= 3);
    assert!(lines.iter().any(|line| line.text.contains("C:\\")));
    assert!(lines.iter().any(|line| line.text.contains("输出")));
    assert!(lines.iter().all(|line| TextLayout::measure(&line.text) <= 16));
}

#[test]
fn code_block_preserves_fence_indent_and_cjk_comment() {
    let value = "```rust\n    let path = \"C:\\\\YunXi Agent\\\\very-long\"; // 中文注释\n```";
    let lines = TextLayout::wrap(value, 24, WrapPolicy::CodeBlock);
    assert_eq!(lines.first().unwrap().text, "```rust");
    assert!(lines.iter().any(|line| line.text.starts_with("    let")));
    assert_eq!(lines.last().unwrap().text, "```");
}

#[test]
fn wrap_drops_blank_edges_and_keeps_empty_lines() {
    let lines = TextLayout::wrap("  ab  cd  \r\n\nxy", 4, WrapPolicy::NaturalText);
    let texts: Vec<&str> = lines.iter().map(|line| line.text.as_str()).collect();
    assert_eq!(texts, vec!["ab", "cd", "", "xy"]);
    assert_eq!(lines[0].source_range, 2..4);
    assert_eq!(lines[2].source_range, 12..12);

    let blank = TextLayout::wrap("   ", 0, WrapPolicy::NaturalText);
    assert_eq!(blank.len(), 1);
    assert_eq!(blank[0].text, "");
    assert_eq!(blank[0].source_range, 0..0);
}

#[test]
fn truncate_keeps_whole_graphemes_and_marks_the_cut() {
    assert_eq!(TextLayout::truncate("short", 10), "short");
    assert_eq!(TextLayout::truncate("abcdefgh", 6), "abc...");
    assert_eq!(TextLayout::truncate("abcdefgh", 2), "ab");
    assert_eq!(TextLayout::truncate("abcdefgh", 0), "");
    assert_eq!(TextLayout::truncate("中文中文", 5), "中...");
}

#[test]
fn empty_composer_uses_compact_height() {
    let pane = BottomPane::default();

    assert_eq!(pane_height(&pane, 58), 4);
}

#[test]
fn composer_height_accounts_for_long_cjk_display_width() {
    let mut pane = BottomPane::default();
    pane.paste("这是一段很长的中文输入用于验证窄终端自动换行高度不会覆盖底部提示");

    assert!(pane_height(&pane, 58) > 4);
    assert!(pane_height(&pane, 58) <= 9);
}

#[test]
fn composer_height_accounts_for_long_unbroken_token() {
    let mut pane = BottomPane::default();
    pane.paste("abcdefghijklmnopqrstuvwxyzabcdefghijklmnopqrstuvwxyzabcdefghijklmnopqrstuvwxyz");

    assert!(pane_height(&pane, 32) > 4);
}

#[test]
fn composer_height_is_capped_at_six_rows() {
    assert_eq!(composer_desired_height("yunxi> ", "a\nb\nc\nd\ne\nf\ng\nh", 40), 9);
    assert_eq!(composer_desired_height("yunxi> ", "a\nb", 40), 5);
}

#[test]
fn approval_risk_label_classifies_common_commands() {
    let destructive = request(Some("Remove-Item -Recurse -Force target"), None);
    let network = ApprovalRequestView {
        command: Some("curl https://example.test".to_string()),
        ..destructive.clone()
    };
    let explicit = ApprovalRequestView {
        command: Some("echo hi".to_string()),
        risk_label: Some("risk: custom".to_string()),
        ..destructive.clone()
    };

    assert_eq!(destructive.risk_label(), "risk: destructive");
    assert_eq!(network.risk_label(), "risk: network");
    assert_eq!(explicit.risk_label(), "risk: custom");
}

#[test]
fn risk_label_falls_back_to_writes_reads_and_low() {
    assert_eq!(request(Some("echo hi > out.txt"), None).risk_label(), "risk: writes workspace");
    assert_eq!(request(Some("Get-Content notes.md"), None).risk_label(), "risk: reads workspace");
    assert_eq!(request(Some("echo hi"), None).risk_label(), "risk: low");
    assert_eq!(request(None, Some("   ")).risk_label(), "risk: low");
}

#[test]
fn approval_shortcuts_emit_decisions() {
    let mut pane = BottomPane::default();
    pane.start_approval(request(Some("echo hi"), None));

    let action = pane.handle_approval_key(key(KeyCode::Char('y'), KeyModifiers::none()));
    assert_eq!(
        action,
        ApprovalAction::Decide(ApprovalDecision {
            approved: true,
            reason: Some("approved by YunXi TUI".to_string())
        })
    );
}

#[test]
fn approval_defaults_to_decline_and_ctrl_c_is_explicit_cancel() {
    let mut pane = BottomPane::default();
    pane.start_approval(request(None, None));

    assert!(matches!(pane.mode(), BottomPaneMode::Approval { selected: 1, .. }));
    assert_eq!(
        pane.handle_approval_key(key(KeyCode::Char('c'), KeyModifiers::control())),
        ApprovalAction::Decide(ApprovalDecision {
            approved: false,
            reason: Some("cancelled by user (Ctrl+C)".to_string()),
        })
    );
}

#[test]
fn approval_selection_moves_and_enter_confirms_it() {
    let mut pane = BottomPane::default();
    pane.start_approval(request(None, None));
    assert_eq!(pane.handle_approval_key(key(KeyCode::Tab, KeyModifiers::none())), ApprovalAction::Idle);
    assert!(matches!(pane.mode(), BottomPaneMode::Approval { selected: 0, .. }));
    let release = KeyEvent { kind: KeyEventKind::Release, ..key(KeyCode::Enter, KeyModifiers::none()) };
    assert_eq!(pane.handle_approval_key(release), ApprovalAction::Idle);
    assert_eq!(
        pane.handle_approval_key(key(KeyCode::Enter, KeyModifiers::none())),
        ApprovalAction::Decide(ApprovalDecision {
            approved: true,
            reason: Some("approved by YunXi TUI".to_string()),
        })
    );
    pane.handle_approval_key(key(KeyCode::Left, KeyModifiers::none()));
    assert_eq!(
        pane.handle_approval_key(key(KeyCode::Esc, KeyModifiers::none())),
        ApprovalAction::Decide(ApprovalDecision {
            approved: false,
            reason: Some("declined by YunXi TUI".to_string()),
        })
    );
}

#[test]
fn composer_draft_survives_approval_and_user_input_views() {
    let mut pane = BottomPane::default();
    pane.paste("草稿👩‍💻");
    pane.start_approval(request(None, None));
    assert!(!pane.paste("ignored"));
    pane.start_composer("yunxi> ".to_string());
    assert_eq!(pane.composer_text(), "草稿👩‍💻");

    pane.start_user_input(UserInputRequestView { id: None, prompt: "details".to_string() });
    assert!(pane.paste("answer"));
    assert!(pane.text_input_active());
    pane.start_composer("yunxi> ".to_string());
    assert_eq!(pane.composer_text(), "草稿👩‍💻");

    pane.reset_composer("fresh> ".to_string());
    assert_eq!(pane.composer_text(), "");
    assert_eq!(pane.composer_prompt(), "fresh> ");
}

#[test]
fn reset_composer_is_the_only_explicit_draft_reset_path() {
    let mut pane = BottomPane::default();
    pane.paste("keep me");
    pane.start_composer("next> ".to_string());
    assert_eq!(pane.composer_text(), "keep me");

    pane.reset_composer("fresh> ".to_string());
    assert!(pane.composer_text().is_empty());
    assert_eq!(pane.composer_prompt(), "fresh> ");
}

#[test]
fn text_focus_actions_are_consistent() {
    assert_eq!(
        resolve_key(FocusTarget::Composer, key(KeyCode::Enter, KeyModifiers::none())),
        TuiAction::Submit
    );
    assert_eq!(
        resolve_key(FocusTarget::Composer, key(KeyCode::Enter, KeyModifiers::alt())),
        TuiAction::InsertNewline
    );
    assert_eq!(
        resolve_key(FocusTarget::Approval, key(KeyCode::Char('c'), KeyModifiers::control())),
        TuiAction::Cancel
    );
}

#[test]
fn navigation_actions_do_not_leak_into_composer() {
    assert_eq!(
        resolve_key(FocusTarget::Composer, key(KeyCode::PageUp, KeyModifiers::none())),
        TuiAction::PageUp
    );
    assert_eq!(
        resolve_key(FocusTarget::History, key(KeyCode::PageUp, KeyModifiers::none())),
        TuiAction::PageUp
    );
    assert_eq!(
        resolve_key(FocusTarget::Details, key(KeyCode::Esc, KeyModifiers::none())),
        TuiAction::CloseDetails
    );
}

#[test]
fn focus_action_matrix_is_explicit() {
    let wheel_up = InputEvent::ScrollUp;
    let wheel_down = InputEvent::ScrollDown;
    let paste = InputEvent::Paste("draft".to_string());
    let cases = [
        (
            FocusTarget::Composer,
            [
                TuiAction::Cancel,
                TuiAction::Submit,
                TuiAction::PageUp,
                TuiAction::PageDown,
                TuiAction::FocusNext,
                TuiAction::Cancel,
                TuiAction::Paste,
                TuiAction::ScrollUp,
                TuiAction::ScrollDown,
            ],
        ),
        (
            FocusTarget::History,
            [
                TuiAction::Idle,
                TuiAction::Idle,
                TuiAction::PageUp,
                TuiAction::PageDown,
                TuiAction::FocusNext,
                TuiAction::Idle,
                TuiAction::Idle,
                TuiAction::ScrollUp,
                TuiAction::ScrollDown,
            ],
        ),
        (
            FocusTarget::Approval,
            [
                TuiAction::Decline,
                TuiAction::Submit,
                TuiAction::Idle,
                TuiAction::Idle,
                TuiAction::Idle,
                TuiAction::Cancel,
                TuiAction::Idle,
                TuiAction::Idle,
                TuiAction::Idle,
            ],
        ),
        (
            FocusTarget::Details,
            [
                TuiAction::CloseDetails,
                TuiAction::Idle,
                TuiAction::PageUp,
                TuiAction::PageDown,
                TuiAction::Idle,
                TuiAction::Idle,
                TuiAction::Idle,
                TuiAction::DetailScrollUp,
                TuiAction::DetailScrollDown,
            ],
        ),
    ];

    for (focus, expected) in cases {
        let actual = [
            resolve_key(focus, key(KeyCode::Esc, KeyModifiers::none())),
            resolve_key(focus, key(KeyCode::Enter, KeyModifiers::none())),
            resolve_key(focus, key(KeyCode::PageUp, KeyModifiers::none())),
            resolve_key(focus, key(KeyCode::PageDown, KeyModifiers::none())),
            resolve_key(focus, key(KeyCode::Tab, KeyModifiers::none())),
            resolve_key(focus, key(KeyCode::Char('c'), KeyModifiers::control())),
            resolve_event(focus, &paste),
            resolve_event(focus, &wheel_up),
            resolve_event(focus, &wheel_down),
        ];
        assert_eq!(actual, expected, "focus={focus:?}");
    }
}

#[test]
fn priority_clip_keeps_commands_before_optional_context() {
    let segments = [
        PrioritySegment::new("streaming", ClipPriority::Important),
        PrioritySegment::new("Ctrl+C cancel", ClipPriority::MustKeep),
        PrioritySegment::new("wheel/drag history", ClipPriority::Optional),
        PrioritySegment::new("debug details", ClipPriority::DebugOnly),
    ];
    let line = TextLayout::priority_line(&segments, 32);
    assert!(line.contains("Ctrl+C cancel"));
    assert!(line.contains("streaming"));
    assert!(!line.contains("debug details"));
    assert!(TextLayout::measure(&line) <= 32);
    assert_eq!(line, "streaming | Ctrl+C cancel");
}

#[test]
fn priority_line_cuts_a_lone_must_keep_piece() {
    let segments = [
        PrioritySegment::new("a very long must keep text", ClipPriority::MustKeep),
        PrioritySegment::new("   ", ClipPriority::Important),
    ];
    assert_eq!(TextLayout::priority_line(&segments, 10), "a very ...");
    assert_eq!(TextLayout::priority_line(&segments, 0), "");
    let optional_only = [PrioritySegment::new("optional context", ClipPriority::Optional)];
    assert_eq!(TextLayout::priority_line(&optional_only, 8), "optio...");
}
