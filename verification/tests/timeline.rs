use yunxi_agent::presentation::{
    PresentationVisibility, TuiCellId, TuiCellKind, TuiEvent, TuiSourceSequence,
    TuiStreamIdentity, TuiStreamPhase, TuiStreamState,
};
use yunxi_agent::timeline_store::{TimelineStore, ARCHIVED_SESSION_LIMIT, SEEN_EVENT_LIMIT};

fn event(
    turn: &str,
    stream: &str,
    event_id: &str,
    sequence: TuiSourceSequence,
    phase: TuiStreamPhase,
    content: &str,
) -> TuiEvent {
    TuiEvent {
        id: TuiCellId::from_test(&format!("assistant-{turn}")),
        kind: TuiCellKind::AssistantMessage,
        visible_text: content.to_string(),
        detail: None,
        stream: Some(TuiStreamState {
            stable_source: String::new(),
            live_tail: String::new(),
            committed: false,
            identity: TuiStreamIdentity {
                thread_id: "thread".to_string(),
                turn_id: turn.to_string(),
                stream_id: stream.to_string(),
                event_id: event_id.to_string(),
                source_sequence: sequence,
                phase,
            },
            offline_label: false,
        }),
        visibility: PresentationVisibility::Transcript,
    }
}

fn local_event(turn: &str, stream: &str, sequence: u64, phase: TuiStreamPhase, content: &str) -> TuiEvent {
    event(
        turn,
        stream,
        &format!("fallback:{turn}:{stream}:{sequence}:{phase:?}"),
        TuiSourceSequence::LocalFallback(sequence),
        phase,
        content,
    )
}

#[test]
fn retry_reuses_active_cell_and_resets_partial_content() {
    let mut store = TimelineStore::new();
    let mut first = local_event("turn-1", "attempt-1", 1, TuiStreamPhase::Delta, "old");
    let first = store.apply(&mut first).expect("first attempt");
    let mut retry = local_event("turn-1", "attempt-2", 2, TuiStreamPhase::Retry, "new");
    let retry = store.apply(&mut retry).expect("retry");
    let mut final_event = local_event("turn-1", "attempt-2", 3, TuiStreamPhase::Final, "new answer");
    let final_update = store.apply(&mut final_event).expect("retry final");

    assert_eq!(first.cell_id, retry.cell_id);
    assert_eq!(retry.cell_id, final_update.cell_id);
    assert_eq!(final_update.content, "new answer");
}

#[test]
fn duplicate_event_id_is_ignored_and_counted() {
    let mut store = TimelineStore::new();
    let mut first = event(
        "turn-1",
        "message-1",
        "provider:event-7",
        TuiSourceSequence::ProviderReliable(7),
        TuiStreamPhase::Delta,
        "answer",
    );
    let mut replay = first.clone();

    store.apply(&mut first).expect("first event");
    assert_eq!(store.apply(&mut replay), None);
    assert_eq!(store.duplicate_event_count(), 1);
}

#[test]
fn reliable_sequence_rejects_late_but_local_fallback_order_does_not() {
    let mut reliable_store = TimelineStore::new();
    let mut reliable = event(
        "turn",
        "reliable",
        "provider:9",
        TuiSourceSequence::ProviderReliable(9),
        TuiStreamPhase::Delta,
        "new",
    );
    reliable_store.apply(&mut reliable).expect("reliable");
    let mut late = event(
        "turn",
        "reliable",
        "provider:8",
        TuiSourceSequence::ProviderReliable(8),
        TuiStreamPhase::Delta,
        "old",
    );
    assert_eq!(reliable_store.apply(&mut late), None);

    let mut fallback_store = TimelineStore::new();
    let mut arrived_first = event(
        "turn",
        "fallback",
        "fallback:9",
        TuiSourceSequence::LocalFallback(9),
        TuiStreamPhase::Delta,
        "甲",
    );
    fallback_store.apply(&mut arrived_first).expect("first fallback");
    let mut arrived_second = event(
        "turn",
        "fallback",
        "fallback:1",
        TuiSourceSequence::LocalFallback(1),
        TuiStreamPhase::Delta,
        "乙",
    );
    assert_eq!(
        fallback_store
            .apply(&mut arrived_second)
            .expect("second fallback")
            .content,
        "甲乙"
    );
}

#[test]
fn provider_disconnect_freezes_partial_content_and_releases_active_session() {
    let mut store = TimelineStore::new();
    let mut partial = local_event(
        "turn-disconnect",
        "message-disconnect",
        1,
        TuiStreamPhase::Delta,
        "partial answer",
    );
    let active = store.apply(&mut partial).expect("active partial");

    let updates = store.finish_active();

    assert!(active.active);
    assert_eq!(updates.len(), 1);
    assert_eq!(updates[0].content, "partial answer");
    assert!(!updates[0].active);
    assert!(!store.has_active_sessions());
}

#[test]
fn duplicate_final_and_reliable_out_of_order_delta_cannot_change_content() {
    let mut store = TimelineStore::new();
    let mut newest = event(
        "turn-order",
        "message-order",
        "provider:20",
        TuiSourceSequence::ProviderReliable(20),
        TuiStreamPhase::Delta,
        "newest",
    );
    store.apply(&mut newest).expect("newest delta");
    let mut late = event(
        "turn-order",
        "message-order",
        "provider:19",
        TuiSourceSequence::ProviderReliable(19),
        TuiStreamPhase::Delta,
        "stale",
    );
    assert_eq!(store.apply(&mut late), None);
    assert_eq!(store.finish_active()[0].content, "newest");

    let mut final_event = local_event("turn-final", "message-final", 1, TuiStreamPhase::Final, "answer");
    let final_update = store.apply(&mut final_event).expect("first final");
    let mut duplicate_final = local_event(
        "turn-final",
        "message-final",
        2,
        TuiStreamPhase::Final,
        "different answer",
    );
    assert_eq!(store.apply(&mut duplicate_final), None);
    assert_eq!(final_update.content, "answer");
}

#[test]
fn seen_event_ids_are_bounded_and_oldest_id_is_predictably_evicted() {
    let mut store = TimelineStore::new();
    for index in 0..=SEEN_EVENT_LIMIT {
        let mut delta = event(
            "turn-seen",
            "message-seen",
            &format!("provider:{index}"),
            TuiSourceSequence::LocalFallback(index as u64),
            TuiStreamPhase::Delta,
            "x",
        );
        store.apply(&mut delta).expect("unique event");
    }

    assert_eq!(store.seen_event_count(), SEEN_EVENT_LIMIT);
    assert!(!store.has_seen_event("provider:0"));
    assert!(store.has_seen_event(&format!("provider:{SEEN_EVENT_LIMIT}")));
}

#[test]
fn repeated_payload_with_distinct_event_ids_is_preserved() {
    let mut store = TimelineStore::new();
    let mut first = local_event("turn-1", "message-1", 1, TuiStreamPhase::Delta, "哈");
    store.apply(&mut first).expect("first");
    let mut second = local_event("turn-1", "message-1", 2, TuiStreamPhase::Delta, "哈");
    let update = store.apply(&mut second).expect("second");

    assert_eq!(update.content, "哈哈");
}

#[test]
fn unicode_markdown_and_long_tokens_survive_exactly() {
    let long_left = "x".repeat(2048);
    let long_right = "y".repeat(2048);
    let payloads = [
        ("中", "文", "中文".to_string()),
        ("かな", "カナ", "かなカナ".to_string()),
        ("👩‍", "💻👨‍👩‍👧‍👦", "👩‍💻👨‍👩‍👧‍👦".to_string()),
        (
            "```rust\nfn ",
            "main() {}\n```",
            "```rust\nfn main() {}\n```".to_string(),
        ),
        (
            long_left.as_str(),
            long_right.as_str(),
            format!("{long_left}{long_right}"),
        ),
    ];
    for (index, (left, right, expected)) in payloads.iter().enumerate() {
        let mut store = TimelineStore::new();
        let mut first = local_event("turn", "message", 1, TuiStreamPhase::Delta, left);
        store.apply(&mut first).expect("first delta");
        let mut second = local_event("turn", "message", 2, TuiStreamPhase::Delta, right);
        let update = store.apply(&mut second).expect("second delta");
        assert_eq!(update.content, *expected, "payload {index}");
    }
}

#[test]
fn delta_then_final_replaces_one_canonical_cell_and_releases_session() {
    let mut store = TimelineStore::new();
    let mut delta = local_event("turn-1", "message-1", 1, TuiStreamPhase::Delta, "你");
    let first = store.apply(&mut delta).expect("delta");
    let mut final_event = local_event("turn-1", "message-1", 2, TuiStreamPhase::Final, "你好");
    let final_update = store.apply(&mut final_event).expect("final");

    assert_eq!(first.cell_id, final_update.cell_id);
    assert_eq!(final_update.content, "你好");
    assert!(!final_update.active);
    assert!(!store.has_active_sessions());
}

#[test]
fn cancel_releases_session_and_late_delta_cannot_rebind_it() {
    let mut store = TimelineStore::new();
    let mut delta = local_event("turn-1", "attempt-1", 1, TuiStreamPhase::Delta, "partial");
    let first = store.apply(&mut delta).expect("delta");
    let mut cancel = local_event("turn-1", "attempt-1", 2, TuiStreamPhase::Cancel, "");
    let cancelled = store.apply(&mut cancel).expect("cancel");
    let mut late = local_event("turn-1", "attempt-1", 3, TuiStreamPhase::Delta, " late");

    assert_eq!(first.cell_id, cancelled.cell_id);
    assert!(!cancelled.active);
    assert!(!store.has_active_sessions());
    assert_eq!(store.apply(&mut late), None);

    let mut retry = local_event("turn-1", "attempt-2", 4, TuiStreamPhase::Started, "retry");
    let retry = store.apply(&mut retry).expect("new retry session");
    assert_ne!(retry.cell_id, cancelled.cell_id);
}

#[test]
fn delta_updates_the_event_stream_frame() {
    let mut store = TimelineStore::new();
    let mut first = local_event("turn", "message", 1, TuiStreamPhase::Delta, "ab");
    store.apply(&mut first).expect("first");
    let mut second = local_event("turn", "message", 2, TuiStreamPhase::Delta, "cd");
    store.apply(&mut second).expect("second");
    let stream = second.stream.expect("stream");
    assert_eq!(stream.stable_source, "abcd");
    assert_eq!(stream.live_tail, "");
    assert!(stream.committed);
}

#[test]
fn offline_streams_are_labelled_once() {
    let mut store = TimelineStore::new();
    let mut first = local_event("turn", "message", 1, TuiStreamPhase::Delta, "hi");
    if let Some(stream) = first.stream.as_mut() {
        stream.offline_label = true;
    }
    let update = store.apply(&mut first).expect("first");
    assert_eq!(update.content, "[offline] hi");
    let mut second = local_event("turn", "message", 2, TuiStreamPhase::Delta, " there");
    let update = store.apply(&mut second).expect("second");
    assert_eq!(update.content, "[offline] hi there");
}

#[test]
fn events_without_a_stream_are_left_alone() {
    let mut store = TimelineStore::new();
    let mut plain = local_event("turn", "message", 1, TuiStreamPhase::Delta, "hi");
    plain.stream = None;
    assert_eq!(store.apply(&mut plain), None);
    assert_eq!(store.seen_event_count(), 0);
}

#[test]
fn cancel_active_closes_streams_in_key_order() {
    let mut store = TimelineStore::new();
    let mut b = local_event("turn-b", "s", 1, TuiStreamPhase::Delta, "b");
    let mut a = local_event("turn-a", "s", 1, TuiStreamPhase::Delta, "a");
    store.apply(&mut b).expect("b");
    store.apply(&mut a).expect("a");
    let updates = store.cancel_active();
    assert_eq!(updates.len(), 2);
    assert_eq!(updates[0].content, "a");
    assert_eq!(updates[1].content, "b");
    assert_eq!(store.archived_count(), 2);
}

#[test]
fn completed_sessions_are_bounded_and_retain_no_stream_content() {
    let mut store = TimelineStore::new();
    let payload = "x".repeat(16 * 1024);
    for index in 0..(ARCHIVED_SESSION_LIMIT + 40) {
        let mut final_event = local_event(
            &format!("turn-{index}"),
            &format!("stream-{index}"),
            index as u64 + 1,
            TuiStreamPhase::Final,
            &payload,
        );
        store.apply(&mut final_event).expect("final event");
    }

    // No live stream is left, so no stream content is retained.
    assert!(!store.has_active_sessions());
    assert_eq!(store.archived_count(), ARCHIVED_SESSION_LIMIT);
}
