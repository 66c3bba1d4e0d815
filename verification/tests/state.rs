use taskboard::data::id_map::IdMap;
use taskboard::data::state::{
    count_ledger, AgentStatus, DashboardState, ErrorAnalysis, ErrorKey, EventFile, EventType,
    HookEvent, TaskTiming, Timestamp,
};
use taskboard::data::tasks_parser::{parse_tasks_md, TaskStatus};

const SAMPLE_TASKS: &str = "# Phase 0: Setup\n\
\n\
### [x] P0-T0.1: Project initialization\n\
- **담당**: @backend-specialist\n\
- **스펙**: Cargo project, lint configuration\n\
\n\
### [x] P0-T0.2: Continuous integration\n\
- **담당**: @backend-specialist\n\
\n\
---\n\
\n\
# Phase 1: Data Engine\n\
\n\
### [InProgress] P1-R1-T1: Ledger parser\n\
- **담당**: @backend-specialist\n\
- **blocked_by**: P0-T0.1\n\
\n\
### [ ] P1-R2-T1: Event parser\n\
- **담당**: @backend-specialist\n\
\n\
### [Failed] P1-R3-T1: File watcher module\n\
- **담당**: @backend-specialist\n\
\n\
---\n\
\n\
# Phase 2: TUI Core\n\
\n\
### [Blocked] P2-S1-T1: Gantt chart widget\n\
- **담당**: @frontend-specialist\n\
- **blocked_by**: P1-R4-T1\n\
\n\
### [ ] P2-S2-T1: Detail panel\n\
- **담당**: @test-specialist\n\
\n\
### [ ] P2-S3-T1: Status bar\n";

fn fixture(path: &str) -> &'static str {
    match path {
        "../../tests/fixtures/sample_tasks.md" => SAMPLE_TASKS,
        other => panic!("no fixture {other}"),
    }
}

fn ratio(parts: (usize, usize)) -> f32 {
    if parts.1 == 0 {
        0.0
    } else {
        parts.0 as f32 / parts.1 as f32
    }
}

fn at(seconds: i64) -> Timestamp {
    Timestamp { millis: seconds * 1000 }
}

fn event(kind: EventType, agent: &str, task: &str, seconds: i64) -> HookEvent {
    HookEvent {
        event_type: kind,
        agent_id: agent.to_string(),
        task_id: task.to_string(),
        timestamp: at(seconds),
        tool_name: None,
        error_message: None,
    }
}

fn tool(kind: EventType, agent: &str, task: &str, seconds: i64, name: &str) -> HookEvent {
    HookEvent { tool_name: Some(name.to_string()), ..event(kind, agent, task, seconds) }
}

fn error(agent: &str, task: &str, seconds: i64, message: &str) -> HookEvent {
    HookEvent {
        error_message: Some(message.to_string()),
        ..event(EventType::Error, agent, task, seconds)
    }
}

/// One session of one agent: start, two tool uses, end.
fn agent_events() -> Vec<HookEvent> {
    let a = "backend-specialist-1";
    let t = "P1-R1-T1";
    vec![
        event(EventType::AgentStart, a, t, 0),
        tool(EventType::ToolStart, a, t, 1, "Read"),
        tool(EventType::ToolEnd, a, t, 2, "Read"),
        tool(EventType::ToolStart, a, t, 3, "Edit"),
        tool(EventType::ToolEnd, a, t, 5, "Edit"),
        event(EventType::AgentEnd, a, t, 10),
    ]
}

/// One session with two errors.
fn error_events() -> Vec<HookEvent> {
    let a = "backend-specialist-2";
    let t = "P1-R3-T1";
    vec![
        event(EventType::AgentStart, a, t, 100),
        error(a, t, 110, "permission denied: /etc/hosts"),
        tool(EventType::ToolStart, a, t, 120, "Bash"),
        error(a, t, 130, "connection refused: localhost:5432"),
        event(EventType::AgentEnd, a, t, 140),
    ]
}

/// A small stand-in for an error classifier.
fn classify(message: &String) -> ErrorAnalysis {
    if message.contains("permission denied") {
        ErrorAnalysis {
            category: "Permission".to_string(),
            retryable: false,
            suggestion: "check file permissions".to_string(),
        }
    } else if message.contains("connection refused") {
        ErrorAnalysis {
            category: "Network".to_string(),
            retryable: true,
            suggestion: "check that the service is up".to_string(),
        }
    } else {
        ErrorAnalysis {
            category: "Unknown".to_string(),
            retryable: true,
            suggestion: String::new(),
        }
    }
}

#[test]
fn default_state() {
    let state = DashboardState::default();
    assert!(state.phases.is_empty());
    assert!(state.agents.is_empty());
    assert_eq!(state.total_tasks, 0);
    assert_eq!(state.completed_tasks, 0);
    assert_eq!(ratio(state.overall_progress()), 0.0);
    assert!(state.task_times.is_empty());
    assert!(state.recent_errors.is_empty());
    assert_eq!(state.failed_tasks, 0);
}

#[test]
fn from_tasks_content() {
    let input = fixture("../../tests/fixtures/sample_tasks.md");
    let state = DashboardState::from_tasks_content(input).unwrap();
    assert_eq!(state.phases.len(), 3);
    assert_eq!(state.total_tasks, 8);
    assert_eq!(state.completed_tasks, 2);
    assert_eq!(state.failed_tasks, 1);
    assert!((ratio(state.overall_progress()) - 0.25).abs() < f32::EPSILON);
}

#[test]
fn update_from_agent_events() {
    let events = agent_events();

    let mut state = DashboardState::default();
    state.update_from_events(&events, &classify);

    assert_eq!(state.agents.len(), 1);
    let agent = state.agents.get("backend-specialist-1").unwrap();
    assert_eq!(agent.status, AgentStatus::Idle); // ended
    assert_eq!(agent.event_count, 6);
    assert_eq!(agent.error_count, 0);
    assert!(agent.current_task.is_none());
    assert!(agent.current_tool.is_none());
}

#[test]
fn update_from_error_events() {
    let events = error_events();

    let mut state = DashboardState::default();
    state.update_from_events(&events, &classify);

    let agent = state.agents.get("backend-specialist-2").unwrap();
    assert_eq!(agent.error_count, 2);
    // Last event is agent_end, so status is Idle
    assert_eq!(agent.status, AgentStatus::Idle);
}

#[test]
fn agent_running_state() {
    let events = agent_events();

    let mut state = DashboardState::default();
    // Feed only agent_start
    state.update_from_events(&events[..1], &classify);

    let agent = state.agents.get("backend-specialist-1").unwrap();
    assert_eq!(agent.status, AgentStatus::Running);
    assert_eq!(agent.current_task.as_deref(), Some("P1-R1-T1"));
}

#[test]
fn agent_tool_tracking() {
    let events = agent_events();

    let mut state = DashboardState::default();
    // Feed agent_start + tool_start
    state.update_from_events(&events[..2], &classify);

    let agent = state.agents.get("backend-specialist-1").unwrap();
    assert_eq!(agent.current_tool.as_deref(), Some("Read"));
}

#[test]
fn reload_tasks() {
    let mut state = DashboardState::default();
    let content = "# Phase 0: Setup\n### [x] T1: Done\n### [ ] T2: Pending\n";
    state.reload_tasks(content).unwrap();
    assert_eq!(state.total_tasks, 2);
    assert_eq!(state.completed_tasks, 1);
    assert!((ratio(state.overall_progress()) - 0.5).abs() < f32::EPSILON);

    // Reload with different content
    let content2 = "# Phase 0: Setup\n### [x] T1: Done\n### [x] T2: Done\n";
    state.reload_tasks(content2).unwrap();
    assert_eq!(state.completed_tasks, 2);
    assert!((ratio(state.overall_progress()) - 1.0).abs() < f32::EPSILON);
}

// ---- further cases ----

#[test]
fn ledger_scenario_end_to_end() {
    let text = "# Phase 0: Setup\n\n### [x] T1: Done\n### [ ] T2: Pending\n";
    let phases = parse_tasks_md(text).unwrap();
    assert_eq!(phases.len(), 1);
    assert_eq!(phases[0].tasks.len(), 2);
    let state = DashboardState::from_tasks_content(text).unwrap();
    assert_eq!(state.phases.len(), 1);
    assert_eq!(state.phases[0].tasks.len(), 2);
    assert_eq!(state.total_tasks, 2);
    assert_eq!(state.completed_tasks, 1);
    assert_eq!(state.failed_tasks, 0);
    assert_eq!(state.overall_progress(), (1, 2));
    assert_eq!(ratio(state.overall_progress()), 0.5);
}

#[test]
fn total_is_the_sum_over_phases() {
    let docs = [
        "",
        "no headings at all",
        SAMPLE_TASKS,
        "# Phase 0: a\n### [x] 1: x\n# Phase 1: b\n# Phase 2: c\n### [Failed] 2: y\n### [Failed] 3: z\n### [zz] 4: dropped\n",
        "### [x] orphan: o\n",
    ];
    for doc in docs {
        let state = DashboardState::from_tasks_content(doc).unwrap();
        let sum: usize = state.phases.iter().map(|p| p.tasks.len()).sum();
        assert_eq!(state.total_tasks, sum);
        let done: usize = state
            .phases
            .iter()
            .map(|p| p.tasks.iter().filter(|t| t.status == TaskStatus::Completed).count())
            .sum();
        assert_eq!(state.completed_tasks, done);
        let failed: usize = state
            .phases
            .iter()
            .map(|p| p.tasks.iter().filter(|t| t.status == TaskStatus::Failed).count())
            .sum();
        assert_eq!(state.failed_tasks, failed);
    }
}

#[test]
fn reload_keeps_agents_timings_and_errors() {
    let mut state = DashboardState::from_tasks_content(SAMPLE_TASKS).unwrap();
    state.update_from_events(&agent_events(), &classify);
    state.update_from_events(&error_events(), &classify);
    assert_eq!(state.agents.len(), 2);
    assert_eq!(state.recent_errors.len(), 2);
    assert_eq!(state.total_tasks, 8);

    state.reload_tasks("# Phase 0: Setup\n### [x] T1: Done\n").unwrap();
    assert_eq!(state.total_tasks, 1);
    assert_eq!(state.phases.len(), 1);
    assert_eq!(state.agents.len(), 2);
    assert_eq!(state.recent_errors.len(), 2);
    assert_eq!(state.task_times.len(), 2);
    assert_eq!(state.agents.get("backend-specialist-1").unwrap().event_count, 6);
}

#[test]
fn events_leave_the_ledger_alone() {
    let mut state = DashboardState::from_tasks_content(SAMPLE_TASKS).unwrap();
    state.update_from_events(&error_events(), &classify);
    assert_eq!(state.phases.len(), 3);
    assert_eq!(state.total_tasks, 8);
    assert_eq!(state.completed_tasks, 2);
    assert_eq!(state.failed_tasks, 1);
}

#[test]
fn first_start_wins_and_last_end_wins() {
    let a = "worker";
    let events = vec![
        event(EventType::AgentStart, a, "T1", 10),
        event(EventType::AgentEnd, a, "ignored", 20),
        event(EventType::AgentStart, a, "T1", 30),
        event(EventType::AgentEnd, a, "also ignored", 40),
    ];
    let mut state = DashboardState::default();
    state.update_from_events(&events[..1], &classify);
    assert_eq!(
        state.task_times.get("T1"),
        Some(&TaskTiming { started_at: Some(at(10)), completed_at: None })
    );
    state.update_from_events(&events[1..2], &classify);
    assert_eq!(
        state.task_times.get("T1"),
        Some(&TaskTiming { started_at: Some(at(10)), completed_at: Some(at(20)) })
    );
    state.update_from_events(&events[2..], &classify);
    assert_eq!(
        state.task_times.get("T1"),
        Some(&TaskTiming { started_at: Some(at(10)), completed_at: Some(at(40)) })
    );
    assert!(state.task_times.get("ignored").is_none());
    assert_eq!(state.task_times.len(), 1);
}

#[test]
fn end_without_task_stamps_nothing() {
    let mut state = DashboardState::default();
    state.update_from_events(&[event(EventType::AgentEnd, "w", "T1", 5)], &classify);
    assert!(state.task_times.is_empty());
    let agent = state.agents.get("w").unwrap();
    assert_eq!(agent.status, AgentStatus::Idle);
    assert_eq!(agent.event_count, 1);

    // an end stamps the task the agent was working on and creates its timing
    let mut state = DashboardState::default();
    let mut running = DashboardState::default();
    running.update_from_events(&[event(EventType::ToolStart, "w", "T1", 1)], &classify);
    assert!(running.task_times.is_empty());
    state.apply_event(&event(EventType::AgentStart, "w", "T7", 1), classify(&String::new()));
    state.apply_event(&event(EventType::AgentEnd, "w", "T8", 9), classify(&String::new()));
    assert_eq!(
        state.task_times.get("T7"),
        Some(&TaskTiming { started_at: Some(at(1)), completed_at: Some(at(9)) })
    );
    assert!(!state.task_times.contains_key("T8"));
}

#[test]
fn tool_events_set_and_clear_the_tool() {
    let mut state = DashboardState::default();
    let a = "w";
    state.update_from_events(&[tool(EventType::ToolStart, a, "T", 1, "Grep")], &classify);
    assert_eq!(state.agents.get(a).unwrap().current_tool.as_deref(), Some("Grep"));
    assert_eq!(state.agents.get(a).unwrap().status, AgentStatus::Idle);
    state.update_from_events(&[event(EventType::ToolStart, a, "T", 2)], &classify);
    assert_eq!(state.agents.get(a).unwrap().current_tool, None);
    state.update_from_events(&[tool(EventType::ToolStart, a, "T", 3, "Edit")], &classify);
    state.update_from_events(&[tool(EventType::ToolEnd, a, "T", 4, "Edit")], &classify);
    assert_eq!(state.agents.get(a).unwrap().current_tool, None);
    assert_eq!(state.agents.get(a).unwrap().event_count, 4);
}

#[test]
fn errors_are_recorded_with_their_classification() {
    let mut state = DashboardState::default();
    state.update_from_events(&error_events(), &classify);
    assert_eq!(state.recent_errors.len(), 2);
    let err0 = &state.recent_errors[0];
    assert_eq!(err0.agent_id, "backend-specialist-2");
    assert_eq!(err0.task_id, "P1-R3-T1");
    assert_eq!(err0.message, "permission denied: /etc/hosts");
    assert_eq!(err0.category, "Permission");
    assert!(!err0.retryable);
    assert_eq!(err0.suggestion, "check file permissions");
    assert_eq!(err0.timestamp, at(110));
    let err1 = &state.recent_errors[1];
    assert_eq!(err1.category, "Network");
    assert!(err1.retryable);
    assert_eq!(err1.timestamp, at(130));

    // an error without message is classified on the empty message
    state.update_from_events(&[event(EventType::Error, "x", "T", 1)], &classify);
    assert_eq!(state.recent_errors[2].message, "");
    assert_eq!(state.recent_errors[2].category, "Unknown");
    let x = state.agents.get("x").unwrap();
    assert_eq!(x.status, AgentStatus::Error);
    assert_eq!(x.error_count, 1);
    assert_eq!(x.event_count, 1);
}

#[test]
fn error_queries_are_newest_first() {
    let mut state = DashboardState::default();
    let events = vec![
        error("a1", "T1", 1, "first"),
        error("a2", "T1", 2, "second"),
        error("a1", "T2", 3, "third"),
        error("a1", "T1", 4, "fourth"),
    ];
    state.update_from_events(&events, &classify);
    let by_task: Vec<&str> =
        state.errors_for_task("T1").iter().map(|e| e.message.as_str()).collect();
    assert_eq!(by_task, vec!["fourth", "second", "first"]);
    let by_agent: Vec<&str> =
        state.errors_for_agent("a1").iter().map(|e| e.message.as_str()).collect();
    assert_eq!(by_agent, vec!["fourth", "third", "first"]);
    assert!(state.errors_for_task("T9").is_empty());
    assert!(state.errors_for_agent("T1").is_empty());
    assert_eq!(state.errors_for(ErrorKey::Task, "T2").len(), 1);
}

#[test]
fn fresh_states_agree_and_replay_counts_twice() {
    let events: Vec<HookEvent> =
        agent_events().into_iter().chain(error_events().into_iter()).collect();

    let mut one = DashboardState::from_tasks_content(SAMPLE_TASKS).unwrap();
    one.update_from_events(&events, &classify);
    let mut two = DashboardState::from_tasks_content("# Phase 0: Other\n").unwrap();
    two.update_from_events(&events, &classify);

    assert_eq!(one.agents.len(), two.agents.len());
    for i in 0..one.agents.len() {
        let id = one.agents.key_at(i);
        let a = one.agents.value_at(i);
        let b = two.agents.get(id).unwrap();
        assert_eq!(a.agent_id, b.agent_id);
        assert_eq!(a.status, b.status);
        assert_eq!(a.current_task, b.current_task);
        assert_eq!(a.current_tool, b.current_tool);
        assert_eq!(a.event_count, b.event_count);
        assert_eq!(a.error_count, b.error_count);
    }
    assert_eq!(one.task_times.len(), two.task_times.len());
    for i in 0..one.task_times.len() {
        assert_eq!(two.task_times.get(one.task_times.key_at(i)), Some(one.task_times.value_at(i)));
    }

    // the same events once more on the same state count once more
    one.update_from_events(&events, &classify);
    assert_eq!(one.agents.get("backend-specialist-1").unwrap().event_count, 12);
    assert_eq!(one.agents.get("backend-specialist-2").unwrap().event_count, 10);
    assert_eq!(one.agents.get("backend-specialist-2").unwrap().error_count, 4);
    assert_eq!(one.recent_errors.len(), 4);
    assert_eq!(two.agents.get("backend-specialist-1").unwrap().event_count, 6);
}

#[test]
fn agents_are_kept_in_order_of_first_appearance() {
    let mut state = DashboardState::default();
    let events = vec![
        event(EventType::AgentStart, "zed", "T1", 1),
        event(EventType::AgentStart, "amy", "T2", 2),
        event(EventType::AgentEnd, "zed", "T1", 3),
        event(EventType::AgentStart, "bob", "T3", 4),
    ];
    state.update_from_events(&events, &classify);
    let ids: Vec<&str> =
        (0..state.agents.len()).map(|i| state.agents.key_at(i).as_str()).collect();
    assert_eq!(ids, vec!["zed", "amy", "bob"]);
    assert!(state.agents.contains_key("amy"));
    assert!(!state.agents.contains_key("am"));
    assert!(state.agents.get("nobody").is_none());
    assert_eq!(state.agents.value_at(0).status, AgentStatus::Idle);
    assert_eq!(state.agents.value_at(1).status, AgentStatus::Running);
}

#[test]
fn hook_reload_no_duplicates() {
    // Initial: 1 event
    let first = vec![tool(EventType::ToolStart, "main", "T1", 0, "Edit")];
    let mut state = DashboardState::default();
    state.reload_from_events(&first, &classify);
    assert_eq!(state.agents.get("main").unwrap().event_count, 1);

    // File grows (append another event)
    let grown = vec![
        tool(EventType::ToolStart, "main", "T1", 0, "Edit"),
        tool(EventType::ToolStart, "main", "T1", 1, "Bash"),
    ];
    state.reload_from_events(&grown, &classify);
    // Should be 2, not 3 (reload, not accumulate)
    assert_eq!(state.agents.get("main").unwrap().event_count, 2);
    assert_eq!(state.agents.get("main").unwrap().current_tool.as_deref(), Some("Bash"));
}

#[test]
fn reload_from_events_starts_the_activity_side_anew() {
    let mut state = DashboardState::from_tasks_content(SAMPLE_TASKS).unwrap();
    state.update_from_events(&agent_events(), &classify);
    state.update_from_events(&error_events(), &classify);
    assert_eq!(state.agents.len(), 2);

    state.reload_from_events(&error_events(), &classify);
    assert_eq!(state.agents.len(), 1);
    assert!(state.agents.get("backend-specialist-1").is_none());
    assert_eq!(state.agents.get("backend-specialist-2").unwrap().event_count, 5);
    assert_eq!(state.agents.get("backend-specialist-2").unwrap().error_count, 2);
    assert_eq!(state.recent_errors.len(), 2);
    assert_eq!(state.task_times.len(), 1);
    // the ledger side stays
    assert_eq!(state.total_tasks, 8);
    assert_eq!(state.phases.len(), 3);

    state.reload_from_events(&[], &classify);
    assert!(state.agents.is_empty() && state.task_times.is_empty());
    assert!(state.recent_errors.is_empty());
    assert!(state.is_wf());
}

#[test]
fn files_that_cannot_be_applied_are_reported_and_the_rest_applied() {
    let files = vec![
        EventFile { path: "a.jsonl".to_string(), events: Some(agent_events()) },
        EventFile { path: "broken.jsonl".to_string(), events: None },
        EventFile { path: "b.jsonl".to_string(), events: Some(error_events()) },
        EventFile { path: "empty.jsonl".to_string(), events: Some(vec![]) },
        EventFile { path: "gone.jsonl".to_string(), events: None },
    ];
    let mut state = DashboardState::default();
    let reported = state.load_event_files(&files, &classify);
    assert_eq!(reported, vec!["broken.jsonl", "gone.jsonl"]);
    assert_eq!(state.agents.len(), 2);
    assert_eq!(state.agents.get("backend-specialist-1").unwrap().event_count, 6);
    assert_eq!(state.agents.get("backend-specialist-2").unwrap().event_count, 5);
    assert_eq!(state.recent_errors.len(), 2);

    // the same files once more add to what is there
    let reported = state.load_event_files(&files[..1], &classify);
    assert!(reported.is_empty());
    assert_eq!(state.agents.get("backend-specialist-1").unwrap().event_count, 12);
    assert!(state.load_event_files(&[], &classify).is_empty());
}

#[test]
fn a_file_that_would_overrun_a_counter_is_reported() {
    let mut state = DashboardState::default();
    state.update_from_events(&agent_events(), &classify);
    let mut full = state.agents.get("backend-specialist-1").unwrap().clone();
    full.event_count = usize::MAX - 2;
    state.agents.insert("backend-specialist-1".to_string(), full);
    assert!(state.has_room_for(2));
    assert!(!state.has_room_for(3));

    let files = vec![
        EventFile { path: "big.jsonl".to_string(), events: Some(agent_events()) },
        EventFile { path: "small.jsonl".to_string(), events: Some(agent_events()[..2].to_vec()) },
    ];
    let reported = state.load_event_files(&files, &classify);
    assert_eq!(reported, vec!["big.jsonl"]);
    assert_eq!(state.agents.get("backend-specialist-1").unwrap().event_count, usize::MAX);
}

#[test]
fn well_formedness_can_be_checked() {
    let mut state = DashboardState::from_tasks_content(SAMPLE_TASKS).unwrap();
    state.update_from_events(&agent_events(), &classify);
    assert!(state.is_wf());
    assert_eq!(count_ledger(&state.phases), Some((8, 2, 1)));
    assert_eq!(count_ledger(&vec![]), Some((0, 0, 0)));

    state.total_tasks = 7;
    assert!(!state.is_wf());
    state.total_tasks = 8;
    state.failed_tasks = 0;
    assert!(!state.is_wf());
    state.failed_tasks = 1;
    assert!(state.is_wf());

    // an agent filed under another name
    state.agents.keys[0] = "someone-else".to_string();
    assert!(!state.is_wf());
    state.agents.keys[0] = "backend-specialist-1".to_string();
    assert!(state.is_wf());

    // an identifier that occurs twice, and keys without values
    let mut map: IdMap<TaskTiming> = IdMap::new();
    assert!(map.is_wf());
    map.insert("T1".to_string(), TaskTiming::default());
    map.insert("T2".to_string(), TaskTiming::default());
    assert!(map.is_wf());
    map.keys[1] = "T1".to_string();
    assert!(!map.is_wf());
    map.keys[1] = "T2".to_string();
    map.keys.push("T3".to_string());
    assert!(!map.is_wf());
    state.task_times = map;
    assert!(!state.is_wf());
}
