use yunxi_agent::debug_buffer::{DebugBuffer, MAX_DEBUG_ENTRIES};
use yunxi_agent::presentation::TuiCellId;

#[test]
fn stable_detail_id_updates_in_place_without_growing_hidden_count() {
    let mut buffer = DebugBuffer::new(false);
    let stable_id = TuiCellId::from_test("detail:stream");
    let first = buffer.add(stable_id.clone(), "stream".to_string(), "first".to_string());
    let second = buffer.add(stable_id, "stream".to_string(), "second".to_string());

    assert_eq!(first, second);
    assert!(buffer.get(first).unwrap().detail.contains("second"));
    assert_eq!(buffer.status(), "debug=off hidden=1");
}

#[test]
fn debug_buffer_keeps_the_newest_entries_only() {
    let mut buffer = DebugBuffer::new(true);
    for n in 0..(MAX_DEBUG_ENTRIES + 5) {
        let id = TuiCellId::from_test(&format!("detail:{n}"));
        assert_eq!(buffer.add(id, "label".to_string(), format!("body {n}")), n + 1);
    }
    assert!(buffer.get(5).is_none());
    assert_eq!(buffer.get(6).unwrap().detail, "body 5");
    assert_eq!(buffer.latest().unwrap().id, MAX_DEBUG_ENTRIES + 5);
    assert_eq!(buffer.status(), "debug=on hidden=205");
    assert!(buffer.enabled());
    buffer.set_enabled(false);
    assert_eq!(buffer.status(), "debug=off hidden=205");
}

#[test]
fn empty_debug_buffer_has_no_entries() {
    let buffer = DebugBuffer::new(false);
    assert!(buffer.latest().is_none());
    assert!(buffer.get(1).is_none());
    assert_eq!(buffer.status(), "debug=off hidden=0");
}
