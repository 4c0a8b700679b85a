use yunxi_agent::presentation::{
    PresentationVisibility, TuiCellId, TuiCellKind, TuiSourceSequence, TuiStreamIdentity,
    TuiStreamPhase,
};
use yunxi_agent::presentation_state::TuiPresentation;

fn fnv(value: &str) -> u64 {
    let mut hash = 0xcbf29ce484222325_u64;
    for byte in value.as_bytes() {
        hash ^= u64::from(*byte);
        hash = hash.wrapping_mul(0x100000001b3);
    }
    hash
}

fn identity(turn: &str, stream: &str, seq: u64, phase: TuiStreamPhase) -> TuiStreamIdentity {
    TuiStreamIdentity {
        thread_id: "thread".to_string(),
        turn_id: turn.to_string(),
        stream_id: stream.to_string(),
        event_id: format!("{stream}:{seq}"),
        source_sequence: TuiSourceSequence::ProviderReliable(seq),
        phase,
    }
}

#[test]
fn cell_ids_count_up_in_hex_and_details_hash_their_label() {
    let mut presentation = TuiPresentation::default();
    let first = presentation.next_id("notice");
    let second = presentation.next_id("notice");
    assert_eq!(first.as_str(), "notice:0000000000000001");
    assert_eq!(second.as_str(), "notice:0000000000000002");
    let detail = presentation.presentation_detail(&first, "stdout", "out".to_string());
    assert_eq!(detail.id.as_str(), format!("detail:notice:0000000000000001:{:016x}", fnv("stdout")));
    assert_eq!(detail.label, "stdout");
}

#[test]
fn user_message_starts_a_local_turn_and_legacy_deltas_share_its_stream() {
    let mut presentation = TuiPresentation::default();
    let user = presentation.present_user("hello".to_string());
    assert_eq!(user.id.as_str(), "user:0000000000000001");
    assert_eq!(user.kind, TuiCellKind::UserMessage);

    let first = presentation.present_assistant_message("Hel", None);
    let second = presentation.present_assistant_message("Hello", None);
    let first_identity = &first.stream.as_ref().unwrap().identity;
    let second_identity = &second.stream.as_ref().unwrap().identity;
    assert_eq!(first.id, second.id);
    assert_eq!(first_identity.turn_id, "local-turn-0000000000000001");
    assert_eq!(first_identity.stream_id, "local-turn-0000000000000001:assistant");
    assert_eq!(first_identity.event_id, "fallback:local:local-turn-0000000000000001:local-turn-0000000000000001:assistant:1");
    assert_eq!(second_identity.source_sequence, TuiSourceSequence::LocalFallback(2));
    assert_eq!(
        first.id.as_str(),
        TuiCellId::assistant_for_turn("local-turn-0000000000000001").as_str()
    );

    let finish = presentation.stream_control(TuiStreamPhase::Finish).unwrap();
    assert_eq!(finish.identity.phase, TuiStreamPhase::Finish);
    assert_eq!(finish.identity.source_sequence, TuiSourceSequence::LocalFallback(3));
    assert!(finish.identity.event_id.ends_with(":Finish:3"));
    assert!(presentation.stream_control(TuiStreamPhase::Cancel).is_none());
}

#[test]
fn a_new_stream_started_in_the_same_turn_is_a_retry() {
    let mut presentation = TuiPresentation::default();
    presentation.present_assistant_message("a", Some(identity("t1", "s1", 4, TuiStreamPhase::Started)));
    let retry = presentation.present_assistant_message("b", Some(identity("t1", "s2", 5, TuiStreamPhase::Started)));
    assert_eq!(retry.stream.unwrap().identity.phase, TuiStreamPhase::Retry);
    let other_turn =
        presentation.present_assistant_message("", Some(identity("t2", "s3", 6, TuiStreamPhase::Started)));
    assert_eq!(other_turn.visibility, PresentationVisibility::Hidden);
    assert_eq!(other_turn.stream.unwrap().identity.phase, TuiStreamPhase::Started);
    let control = presentation.stream_control(TuiStreamPhase::Final).unwrap();
    assert_eq!(control.identity.source_sequence, TuiSourceSequence::LocalFallback(7));
    assert_eq!(control.identity.event_id, "fallback:local:t2:s3:Final:7");
}

#[test]
fn debug_only_cells_use_the_external_id_when_given() {
    let mut presentation = TuiPresentation::default();
    let external = presentation.debug_only_with_external_id("wire", "raw".to_string(), "tool", Some("call-1"));
    assert_eq!(external.id.as_str(), format!("tool:{:016x}", fnv("call-1")));
    assert_eq!(external.visibility, PresentationVisibility::DebugOnly);
    let counted = presentation.debug_only("wire", "raw".to_string(), "debug");
    assert_eq!(counted.id.as_str(), "debug:0000000000000001");
    let hidden = presentation.hidden("hidden");
    assert_eq!(hidden.visibility, PresentationVisibility::Hidden);
    assert_eq!(hidden.id.as_str(), "hidden:0000000000000002");
}
