use greeting_e2e::{
    generate_random_message, generate_test_tasks, send_messages, starting_offset, E2EError,
    GreetingCmd, GreetingLoggEntry, GreetingResponse, PageOutcome, PollAction, TestTask,
    Timestamp, Verification,
};

fn stamp() -> Timestamp {
    Timestamp { secs: 1_767_297_600, nanos: 414_558_000 }
}

fn command(reference: &str) -> GreetingCmd {
    GreetingCmd {
        external_reference: reference.to_string(),
        to: "string".to_string(),
        from: "string".to_string(),
        heading: "string".to_string(),
        message: "string".to_string(),
        created: stamp(),
    }
}

fn entry(id: i64, message_id: &str) -> GreetingLoggEntry {
    GreetingLoggEntry { id, greeting_id: id, message_id: message_id.to_string(), created: stamp() }
}

fn accepted(id: &str) -> Result<GreetingResponse, E2EError> {
    Ok(GreetingResponse { message_id: id.to_string() })
}

fn refused() -> Result<GreetingResponse, E2EError> {
    Err(E2EError::ClientError("HTTP status server error (500)".to_string()))
}

fn fetch_offset(action: &PollAction) -> Option<(i64, u16)> {
    match action {
        PollAction::Fetch(q) => Some((q.offset, q.limit)),
        _ => None,
    }
}

#[test]
fn should_execute_e2e_for_0_task_successfully() {
    let offset = starting_offset(&None);
    assert_eq!(offset, 0);
    let tasks = generate_test_tasks(0, || Ok(generate_random_message()));
    assert!(tasks.is_empty());
    let registry = send_messages(Vec::new());
    let run = Verification::new(registry, offset, 0);
    assert!(matches!(run.next_action(), PollAction::Complete));
    let result = run.finish(false);
    assert!(result.is_ok());
    assert!(result.unwrap().is_empty());
}

#[test]
fn should_execute_e2e_for_1_task_successfully() {
    let message_id = "019b92bb-0088-77f1-8b09-5d56dfa72bc4";
    let offset = starting_offset(&None);
    let tasks = generate_test_tasks(1, || Ok(command("string")));
    assert_eq!(tasks.len(), 1);
    let sent: Vec<(TestTask, Result<GreetingResponse, E2EError>)> =
        tasks.into_iter().map(|t| (t, accepted(message_id))).collect();
    let registry = send_messages(sent);
    let mut run = Verification::new(registry, offset, 10);

    let action = run.next_action();
    assert_eq!(fetch_offset(&action), Some((1, 10)));
    if let PollAction::Fetch(q) = &action {
        assert_eq!(q.direction, "forward");
    }
    let page = vec![entry(1, message_id)];
    assert_eq!(run.apply_page(&page), PageOutcome::Consumed);
    assert!(matches!(run.next_action(), PollAction::Complete));

    let result = run.finish(false).unwrap();
    let num_verified = result.tasks().iter().filter(|t| t.greeting_logg_entry.is_some()).count();
    assert_eq!(num_verified, 1);
}

#[test]
fn one_sent_task_verified_by_entry_one() {
    let registry = send_messages(vec![(TestTask::created(command("r1")), accepted("M1"))]);
    let mut run = Verification::new(registry, starting_offset(&None), 10);
    assert_eq!(fetch_offset(&run.next_action()), Some((1, 10)));
    assert_eq!(run.apply_page(&vec![entry(1, "M1")]), PageOutcome::Consumed);
    assert!(matches!(run.next_action(), PollAction::Complete));
    let registry = run.finish(false).unwrap();
    assert_eq!(registry.len(), 1);
    let task = registry.get(&"M1".to_string()).unwrap();
    assert_eq!(task.greeting_logg_entry.as_ref().unwrap().id, 1);
    assert_eq!(task.greeting_logg_entry, Some(entry(1, "M1")));
    assert_eq!(task.message_id, Some("M1".to_string()));
}

#[test]
fn empty_pages_until_deadline_time_out() {
    let registry = send_messages(vec![(TestTask::created(command("r1")), accepted("M1"))]);
    let mut run = Verification::new(registry, 0, 10);
    for _ in 0..5 {
        assert_eq!(fetch_offset(&run.next_action()), Some((1, 10)));
        assert_eq!(run.apply_page(&Vec::new()), PageOutcome::Empty);
        assert_eq!(run.current_offset(), 0);
    }
    match run.finish(true) {
        Err(E2EError::TimeoutError(d)) => assert_eq!(d, "Timeout waiting for new log entries"),
        Ok(_) => panic!("a timed out run returned a registry"),
        Err(e) => panic!("unexpected error {:?}", e),
    }
}

#[test]
fn failed_send_is_left_out_of_registry() {
    let sent = vec![
        (TestTask::created(command("failed")), refused()),
        (TestTask::created(command("accepted")), accepted("M1")),
    ];
    let registry = send_messages(sent);
    assert_eq!(registry.len(), 1);
    assert_eq!(registry.tasks()[0].external_reference, "accepted");
    let mut run = Verification::new(registry, 0, 10);
    run.apply_page(&vec![entry(1, "M1")]);
    assert!(matches!(run.next_action(), PollAction::Complete));
    let registry = run.finish(false).unwrap();
    assert!(registry.tasks().iter().all(|t| t.external_reference != "failed"));
    let summary = registry.summary();
    assert_eq!(summary.total, 1);
    assert_eq!(summary.verified, 1);
}

#[test]
fn duplicate_message_id_is_rejected() {
    let sent = vec![
        (TestTask::created(command("first")), accepted("M1")),
        (TestTask::created(command("second")), accepted("M1")),
        (TestTask::created(command("third")), accepted("M2")),
    ];
    let registry = send_messages(sent);
    assert_eq!(registry.len(), 2);
    assert_eq!(registry.get(&"M1".to_string()).unwrap().external_reference, "first");
    assert_eq!(registry.get(&"M2".to_string()).unwrap().external_reference, "third");
    assert!(registry.get(&"M3".to_string()).is_none());
}

#[test]
fn record_send_reports_registration() {
    let mut registry = send_messages(Vec::new());
    assert!(registry.record_send(TestTask::created(command("a")), accepted("M1")));
    assert!(!registry.record_send(TestTask::created(command("b")), refused()));
    assert!(!registry.record_send(TestTask::created(command("c")), accepted("M1")));
    assert_eq!(registry.len(), 1);
}

#[test]
fn unmatched_page_advances_offset_to_max_id() {
    let registry = send_messages(vec![(TestTask::created(command("r1")), accepted("M1"))]);
    let mut run = Verification::new(registry, 4, 3);
    let page = vec![entry(5, "X1"), entry(6, "X2"), entry(9, "X3")];
    assert_eq!(run.apply_page(&page), PageOutcome::Consumed);
    assert_eq!(run.current_offset(), 9);
    assert!(run.registry().tasks()[0].greeting_logg_entry.is_none());
    assert_eq!(fetch_offset(&run.next_action()), Some((10, 3)));
}

#[test]
fn offset_never_moves_back() {
    let registry = send_messages(vec![(TestTask::created(command("r1")), accepted("M1"))]);
    let mut run = Verification::new(registry, 7, 10);
    run.apply_page(&vec![entry(3, "X1"), entry(5, "X2")]);
    assert_eq!(run.current_offset(), 7);
    run.apply_page(&vec![entry(8, "X3")]);
    assert_eq!(run.current_offset(), 8);
    run.apply_page(&Vec::new());
    assert_eq!(run.current_offset(), 8);
}

#[test]
fn verified_task_keeps_its_first_entry() {
    let sent = vec![
        (TestTask::created(command("a")), accepted("M1")),
        (TestTask::created(command("b")), accepted("M2")),
    ];
    let mut run = Verification::new(send_messages(sent), 0, 2);
    run.apply_page(&vec![entry(1, "M2"), entry(2, "X")]);
    assert_eq!(run.registry().summary().verified, 1);
    assert!(!matches!(run.next_action(), PollAction::Complete));
    run.apply_page(&vec![entry(3, "M2"), entry(4, "M1")]);
    let registry = run.finish(false).unwrap();
    assert_eq!(registry.get(&"M2".to_string()).unwrap().greeting_logg_entry, Some(entry(1, "M2")));
    assert_eq!(registry.get(&"M1".to_string()).unwrap().greeting_logg_entry, Some(entry(4, "M1")));
    assert!(registry.all_verified());
}

#[test]
fn starting_offset_takes_last_entry_id() {
    assert_eq!(starting_offset(&Some(entry(1234, "M"))), 1234);
    assert_eq!(starting_offset(&None), 0);
}

#[test]
fn no_query_past_the_largest_offset() {
    let registry = send_messages(vec![(TestTask::created(command("r1")), accepted("M1"))]);
    let run = Verification::new(registry, i64::MAX, 10);
    assert!(matches!(run.next_action(), PollAction::Wait));
}

#[test]
fn generated_tasks_are_not_sent_yet() {
    let tasks = generate_test_tasks(3, || Ok(generate_random_message()));
    assert_eq!(tasks.len(), 3);
    for t in &tasks {
        assert_eq!(t.external_reference, t.message.external_reference);
        assert!(t.message_id.is_none());
        assert!(t.greeting_logg_entry.is_none());
        assert_eq!(t.message.to, "arne");
    }
}

#[test]
fn failed_generation_drops_its_task() {
    let calls = std::cell::Cell::new(0u32);
    let tasks = generate_test_tasks(4, || {
        calls.set(calls.get() + 1);
        if calls.get() % 2 == 0 {
            Err(E2EError::GenerateMessageError("model unavailable".to_string()))
        } else {
            Ok(command(&format!("call{}", calls.get())))
        }
    });
    assert_eq!(calls.get(), 4);
    assert_eq!(tasks.len(), 2);
    assert_eq!(tasks[0].external_reference, "call1");
    assert_eq!(tasks[1].external_reference, "call3");
}

#[test]
fn new_run_exposes_its_settings() {
    let run = Verification::new(send_messages(Vec::new()), 42, 7);
    assert_eq!(run.current_offset(), 42);
    assert_eq!(run.page_limit(), 7);
    assert!(run.registry().is_empty());
}
