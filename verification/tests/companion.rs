use yunxi_agent::companion::{
    claim_step, completion_step, failure_step, CompanionMailboxSnapshot, CompletionStep,
    LoveLetterTask,
    LoveLetterTaskState,
    MailboxItemRecord, MailboxRefusal,
};

fn task(
    state: LoveLetterTaskState,
    generation_attempts: u32,
    generated_at_millis: Option<u128>,
    retry_after_millis: Option<u128>,
) -> LoveLetterTask {
    LoveLetterTask {
        task_id: "task-0".to_string(),
        state,
        created_at_millis: 0,
        updated_at_millis: 0,
        generation_attempts,
        generation_started_at_millis: None,
        generation_elapsed_millis: None,
        generated_at_millis,
        lease_expires_at_millis: None,
        retry_after_millis,
        last_error_label: None,
        mailbox_item_id: None,
    }
}

fn snapshot_of(tasks: Vec<LoveLetterTask>) -> CompanionMailboxSnapshot {
    CompanionMailboxSnapshot { tasks, items: Vec::new() }
}

fn leased(task_id: &str, started_at: u128) -> LoveLetterTask {
    LoveLetterTask {
        task_id: task_id.to_string(),
        generation_started_at_millis: Some(started_at),
        lease_expires_at_millis: Some(started_at + 60_000),
        last_error_label: Some("timeout".to_string()),
        ..task(LoveLetterTaskState::Generating, 1, None, None)
    }
}

#[test]
fn mailbox_reports_generation_times() {
    let snapshot = snapshot_of(vec![
        task(LoveLetterTaskState::Ready, 1, Some(300), None),
        task(LoveLetterTaskState::Ready, 1, Some(900), None),
        task(LoveLetterTaskState::Pending, 0, None, None),
        task(LoveLetterTaskState::Ready, 2, Some(500), None),
    ]);
    assert_eq!(snapshot.last_generated_at_millis(), Some(900));
    assert_eq!(snapshot.generated_since(500), 2);
    assert_eq!(snapshot.generated_since(901), 0);
    assert_eq!(snapshot_of(vec![]).last_generated_at_millis(), None);
}

#[test]
fn open_tasks_include_failures_with_attempts_left() {
    let failed = snapshot_of(vec![
        task(LoveLetterTaskState::Ready, 1, Some(1), None),
        task(LoveLetterTaskState::Failed, 2, None, Some(40)),
    ]);
    assert!(failed.has_open_task(3));
    assert!(!failed.has_open_task(2));
    let generating = snapshot_of(vec![task(LoveLetterTaskState::Generating, 9, None, None)]);
    assert!(generating.has_open_task(0));
    assert!(!snapshot_of(vec![]).has_open_task(5));
}

#[test]
fn retry_time_comes_from_failed_tasks_only() {
    let snapshot = snapshot_of(vec![
        task(LoveLetterTaskState::Failed, 1, None, Some(70)),
        task(LoveLetterTaskState::Pending, 0, None, Some(900)),
        task(LoveLetterTaskState::Failed, 2, None, Some(120)),
        task(LoveLetterTaskState::Failed, 3, None, None),
    ]);
    assert_eq!(snapshot.latest_retry_after_millis(), Some(120));
    let none = snapshot_of(vec![task(LoveLetterTaskState::Ready, 1, Some(5), Some(10))]);
    assert_eq!(none.latest_retry_after_millis(), None);
}

#[test]
fn completing_a_leased_task_writes_the_letter_and_marks_it_ready() {
    let snapshot = snapshot_of(vec![leased("task-1", 1_000)]);
    let step = completion_step(&snapshot, "task-1", "mail-1".to_string(), 4_500).unwrap();
    match step {
        CompletionStep::Write { task } => {
            assert_eq!(task.state, LoveLetterTaskState::Ready);
            assert_eq!(task.updated_at_millis, 4_500);
            assert_eq!(task.generated_at_millis, Some(4_500));
            assert_eq!(task.generation_elapsed_millis, Some(3_500));
            assert_eq!(task.lease_expires_at_millis, None);
            assert_eq!(task.retry_after_millis, None);
            assert_eq!(task.last_error_label, None);
            assert_eq!(task.mailbox_item_id.as_deref(), Some("mail-1"));
            assert_eq!(task.generation_attempts, 1);
        }
        other => panic!("unexpected step {other:?}"),
    }
}

#[test]
fn elapsed_generation_time_saturates_at_zero() {
    let snapshot = snapshot_of(vec![leased("task-1", 9_000)]);
    let step = completion_step(&snapshot, "task-1", "mail-1".to_string(), 4_500).unwrap();
    match step {
        CompletionStep::Write { task } => assert_eq!(task.generation_elapsed_millis, Some(0)),
        other => panic!("unexpected step {other:?}"),
    }
}

#[test]
fn completing_again_gives_back_the_existing_letter() {
    let mut snapshot = snapshot_of(vec![leased("task-1", 1_000)]);
    snapshot.items.push(MailboxItemRecord {
        item_id: "mail-1".to_string(),
        source_id: "task-1".to_string(),
        created_at_millis: 2_000,
    });
    let step = completion_step(&snapshot, "task-1", "mail-2".to_string(), 5_000).unwrap();
    match step {
        CompletionStep::Existing { item_index, task: Some(task) } => {
            assert_eq!(item_index, 0);
            assert_eq!(task.state, LoveLetterTaskState::Ready);
            assert_eq!(task.generated_at_millis, Some(2_000));
            assert_eq!(task.mailbox_item_id.as_deref(), Some("mail-1"));
            assert_eq!(task.last_error_label.as_deref(), Some("timeout"));
        }
        other => panic!("unexpected step {other:?}"),
    }

    snapshot.tasks[0].state = LoveLetterTaskState::Ready;
    assert_eq!(
        completion_step(&snapshot, "task-1", "mail-2".to_string(), 6_000),
        Ok(CompletionStep::Existing { item_index: 0, task: None })
    );
}

#[test]
fn completion_refuses_unknown_and_unleased_tasks() {
    let snapshot = snapshot_of(vec![LoveLetterTask {
        task_id: "task-2".to_string(),
        ..task(LoveLetterTaskState::Pending, 0, None, None)
    }]);
    assert_eq!(
        completion_step(&snapshot, "task-9", "mail-9".to_string(), 1),
        Err(MailboxRefusal::TaskNotFound)
    );
    assert_eq!(
        completion_step(&snapshot, "task-2", "mail-2".to_string(), 1),
        Err(MailboxRefusal::NotLeasedForGeneration)
    );
    assert_eq!(MailboxRefusal::TaskNotFound.message(), "love-letter task was not found");
    assert_eq!(
        MailboxRefusal::NotLeasedForGeneration.message(),
        "love-letter task is not leased for generation"
    );
}

#[test]
fn a_failed_generation_is_recorded_with_a_sanitized_label_and_a_retry_time() {
    let snapshot = snapshot_of(vec![leased("task-1", 1_000)]);
    let task = failure_step(&snapshot, "task-1", "provider timeout: 504 / retry_later", 3_000, 500)
        .unwrap();
    assert_eq!(task.state, LoveLetterTaskState::Failed);
    assert_eq!(task.updated_at_millis, 3_000);
    assert_eq!(task.generation_elapsed_millis, Some(2_000));
    assert_eq!(task.lease_expires_at_millis, None);
    assert_eq!(task.retry_after_millis, Some(3_500));
    assert_eq!(task.last_error_label.as_deref(), Some("providertimeout504retry_later"));
    assert_eq!(task.generation_attempts, 1);

    let long = "x".repeat(80);
    let capped = failure_step(&snapshot, "task-1", &long, u128::MAX - 1, 10).unwrap();
    assert_eq!(capped.last_error_label.map(|label| label.len()), Some(64));
    assert_eq!(capped.retry_after_millis, Some(u128::MAX));
    assert_eq!(
        failure_step(&snapshot, "task-9", "x", 1, 1),
        Err(MailboxRefusal::TaskNotFound)
    );
}

fn created(task_id: &str, created_at_millis: u128, state: LoveLetterTaskState) -> LoveLetterTask {
    LoveLetterTask {
        task_id: task_id.to_string(),
        created_at_millis,
        ..task(state, 0, None, None)
    }
}

#[test]
fn claiming_takes_the_oldest_claimable_task_and_marks_written_letters_ready() {
    let mut failed = created("t-c", 50, LoveLetterTaskState::Failed);
    failed.retry_after_millis = Some(900);
    let mut worn_out = created("t-d", 10, LoveLetterTaskState::Generating);
    worn_out.lease_expires_at_millis = Some(400);
    worn_out.generation_attempts = 3;
    let written = created("t-e", 20, LoveLetterTaskState::Generating);
    let snapshot = CompanionMailboxSnapshot {
        tasks: vec![
            created("t-b", 100, LoveLetterTaskState::Pending),
            created("t-a", 100, LoveLetterTaskState::Pending),
            failed,
            worn_out,
            written,
        ],
        items: vec![MailboxItemRecord {
            item_id: "mail-e".to_string(),
            source_id: "t-e".to_string(),
            created_at_millis: 450,
        }],
    };
    let step = claim_step(&snapshot, 500, 1_000, 3);
    assert_eq!(step.marked_ready, vec![4]);
    assert_eq!(step.tasks[4].state, LoveLetterTaskState::Ready);
    assert_eq!(step.tasks[4].generated_at_millis, Some(450));
    assert_eq!(step.tasks[4].mailbox_item_id.as_deref(), Some("mail-e"));
    let claimed = step.claimed.unwrap();
    assert_eq!(claimed.task_id, "t-a");
    assert_eq!(claimed.state, LoveLetterTaskState::Generating);
    assert_eq!(claimed.generation_attempts, 1);
    assert_eq!(claimed.generation_started_at_millis, Some(500));
    assert_eq!(claimed.lease_expires_at_millis, Some(1_500));

    let later = claim_step(&snapshot, 900, 1_000, 3);
    assert_eq!(later.claimed.unwrap().task_id, "t-c");
}

#[test]
fn nothing_is_claimed_when_no_task_is_claimable() {
    let mut leased_task = created("t-1", 5, LoveLetterTaskState::Generating);
    leased_task.lease_expires_at_millis = Some(10_000);
    let snapshot = snapshot_of(vec![leased_task, created("t-2", 1, LoveLetterTaskState::Ready)]);
    let step = claim_step(&snapshot, 500, 1_000, 3);
    assert!(step.claimed.is_none());
    assert!(step.marked_ready.is_empty());
    assert_eq!(step.tasks, snapshot.tasks);
}
