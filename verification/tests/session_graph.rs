use yunxi_agent::session_graph::{AgentSessionMetadata, SessionGraphView};
use yunxi_agent::storage::{
    rollout_fit, HistoryItemKind, RolloutBudget, SessionHistory, SessionId, SessionTranscript,
    ThreadMetadata,
};

fn session(id: &str, parent: Option<&str>, task: &str) -> AgentSessionMetadata {
    AgentSessionMetadata {
        id: SessionId::new(id.to_string()),
        parent_id: parent.map(|p| SessionId::new(p.to_string())),
        task: Some(task.to_string()),
        title: None,
        archived: false,
        pinned: false,
        created_at_millis: 1,
        updated_at_millis: 1,
    }
}

fn ids(list: &[AgentSessionMetadata]) -> Vec<String> {
    list.iter().map(|m| m.id.0.clone()).collect()
}

#[test]
fn session_graph_view_rebuilds_parent_child_relationships() {
    let root = session("root", None, "root");
    let child = session("child", Some("root"), "child");
    let view = SessionGraphView::from_metadata(vec![session("root", None, "root"), session("child", Some("root"), "child")])
        .expect("session graph should rebuild");
    assert_eq!(view.children_of(&root.id), vec![child]);
}

#[test]
fn session_graph_view_rejects_cycles() {
    let error = SessionGraphView::from_metadata(vec![
        session("left", Some("right"), "left"),
        session("right", Some("left"), "right"),
    ])
    .expect_err("cyclic session graph should be rejected");
    assert!(error.contains("cycle detected"));
    assert_eq!(error, "cycle detected in session graph at left");
}

#[test]
fn graph_keeps_the_last_session_of_each_id_in_id_order() {
    let view = SessionGraphView::from_metadata(vec![
        session("b", None, "first b"),
        session("a", Some("b"), "a"),
        session("b", None, "second b"),
        session("c", Some("b"), "c"),
    ])
    .expect("graph");
    assert_eq!(ids(&view.sessions), vec!["a", "b", "c"]);
    assert_eq!(view.sessions[1].task.as_deref(), Some("second b"));
    assert_eq!(ids(&view.children_of(&SessionId::new("b".to_string()))), vec!["a", "c"]);
    assert!(view.children_of(&SessionId::new("a".to_string())).is_empty());
    assert!(view.validate().is_ok());
}

#[test]
fn self_parent_and_missing_parent() {
    let error = SessionGraphView::from_metadata(vec![session("solo", Some("solo"), "solo")]).unwrap_err();
    assert_eq!(error, "cycle detected in session graph at solo");
    let orphan = SessionGraphView::from_metadata(vec![session("kid", Some("gone"), "kid")]).expect("orphan");
    assert_eq!(orphan.children.len(), 1);
    assert_eq!(ids(&orphan.children_of(&SessionId::new("gone".to_string()))), vec!["kid"]);
    let long = SessionGraphView::from_metadata(vec![
        session("a", Some("b"), "a"),
        session("b", Some("c"), "b"),
        session("c", Some("d"), "c"),
        session("d", Some("b"), "d"),
    ])
    .unwrap_err();
    assert_eq!(long, "cycle detected in session graph at b");
}

#[test]
fn threads_form_a_graph() {
    let root = ThreadMetadata::new(SessionId::new("root".to_string()), ".".to_string(), 5);
    let child = ThreadMetadata::new(SessionId::new("child".to_string()), ".".to_string(), 6)
        .with_parent(SessionId::new("root".to_string()))
        .with_title("child thread".to_string());
    let view = SessionGraphView::from_threads(vec![root, child]).expect("graph");
    let children = view.children_of(&SessionId::new("root".to_string()));
    assert_eq!(children.len(), 1);
    assert_eq!(children[0].title.as_deref(), Some("child thread"));
    assert_eq!(children[0].task, None);
    assert_eq!(children[0].created_at_millis, 6);
}

#[test]
fn history_lists_prompts_then_final_responses() {
    let history = SessionHistory::from_sessions(vec![
        SessionTranscript {
            id: SessionId::new("a".to_string()),
            prompt: "你好".to_string(),
            final_response: Some("hi".to_string()),
        },
        SessionTranscript {
            id: SessionId::new("b".to_string()),
            prompt: "still running".to_string(),
            final_response: None,
        },
    ]);
    assert!(!history.is_empty());
    let items: Vec<(String, HistoryItemKind, String)> = history
        .items
        .iter()
        .map(|i| (i.session_id.0.clone(), i.kind, i.content.clone()))
        .collect();
    assert_eq!(
        items,
        vec![
            ("a".to_string(), HistoryItemKind::User, "你好".to_string()),
            ("a".to_string(), HistoryItemKind::Assistant, "hi".to_string()),
            ("b".to_string(), HistoryItemKind::User, "still running".to_string()),
        ]
    );
    assert!(SessionHistory::from_sessions(vec![]).is_empty());
}

#[test]
fn rollout_budget_keeps_a_prefix() {
    assert_eq!(rollout_fit(&vec![40, 50], RolloutBudget::new(1, usize::MAX)), (1, true));
    assert_eq!(rollout_fit(&vec![40, 50, 10], RolloutBudget::new(10, 90)), (2, true));
    assert_eq!(rollout_fit(&vec![40, 50], RolloutBudget::new(10, 90)), (2, false));
    assert_eq!(rollout_fit(&vec![], RolloutBudget::new(1, 1)), (0, false));
    assert_eq!(rollout_fit(&vec![usize::MAX, 1], RolloutBudget::new(5, usize::MAX)), (2, false));
}
