use taskboard::app::{App, RetryTarget, WriteBack};
use taskboard::ui::layout::FocusedPane;
use taskboard::data::state::{DashboardState, ErrorAnalysis, EventType, HookEvent, Timestamp};
use taskboard::data::tasks_writer::rewrite_task_status;

const SAMPLE_TASKS: &str = "# Phase 0: Setup\n\
\n\
### [x] P0-T0.1: Project initialization\n\
- **담당**: @backend-specialist\n\
- **스펙**: Cargo project, lint configuration\n\
\n\
### [x] P0-T0.2: Continuous integration\n\
- **담당**: @backend-specialist\n\
\n\
---\n\
\n\
# Phase 1: Data Engine\n\
\n\
### [InProgress] P1-R1-T1: Ledger parser\n\
- **담당**: @backend-specialist\n\
- **blocked_by**: P0-T0.1\n\
\n\
### [ ] P1-R2-T1: Event parser\n\
- **담당**: @backend-specialist\n\
\n\
### [Failed] P1-R3-T1: File watcher module\n\
- **담당**: @backend-specialist\n\
\n\
---\n\
\n\
# Phase 2: TUI Core\n\
\n\
### [Blocked] P2-S1-T1: Gantt chart widget\n\
- **담당**: @frontend-specialist\n\
- **blocked_by**: P1-R4-T1\n\
\n\
### [ ] P2-S2-T1: Detail panel\n\
- **담당**: @test-specialist\n\
\n\
### [ ] P2-S3-T1: Status bar\n";

fn fixture(path: &str) -> &'static str {
    match path {
        "../tests/fixtures/sample_tasks.md" => SAMPLE_TASKS,
        "../../tests/fixtures/sample_tasks.md" => SAMPLE_TASKS,
        other => panic!("no fixture {other}"),
    }
}

fn error_event(task: &str, seconds: i64, message: &str) -> HookEvent {
    HookEvent {
        event_type: EventType::Error,
        agent_id: "backend".to_string(),
        task_id: task.to_string(),
        timestamp: Timestamp { millis: seconds * 1000 },
        tool_name: None,
        error_message: Some(message.to_string()),
    }
}

fn classify(message: &String) -> ErrorAnalysis {
    ErrorAnalysis {
        category: "Test".to_string(),
        retryable: !message.contains("fatal"),
        suggestion: String::new(),
    }
}

#[test]
fn app_default() {
    let app = App::new();
    assert!(app.running);
    assert!(!app.show_help);
    assert_eq!(app.focused, FocusedPane::TaskList);
}

#[test]
fn app_quit() {
    let mut app = App::new();
    app.quit();
    assert!(!app.running);
}

#[test]
fn app_toggle_help() {
    let mut app = App::new();
    assert!(!app.show_help);
    app.toggle_help();
    assert!(app.show_help);
    app.toggle_help();
    assert!(!app.show_help);
}

#[test]
fn app_toggle_focus() {
    let mut app = App::new();
    assert_eq!(app.focused, FocusedPane::TaskList);
    app.toggle_focus();
    assert_eq!(app.focused, FocusedPane::Detail);
    app.toggle_focus();
    assert_eq!(app.focused, FocusedPane::TaskList);
}

#[test]
fn app_navigation() {
    let input = fixture("../tests/fixtures/sample_tasks.md");
    let dashboard = DashboardState::from_tasks_content(input).unwrap();
    let mut app = App::new().with_dashboard(dashboard);
    app.gantt_state.total_items = 11;

    app.move_down();
    assert_eq!(app.gantt_state.selected, 1);
    assert_eq!(app.selected_task(), Some((0, 0)));

    app.move_up();
    assert_eq!(app.gantt_state.selected, 0);
    assert!(app.selected_task().is_none()); // phase header
}

#[test]
fn app_with_dashboard() {
    let input = fixture("../tests/fixtures/sample_tasks.md");
    let dashboard = DashboardState::from_tasks_content(input).unwrap();
    let app = App::new().with_dashboard(dashboard);
    assert_eq!(app.dashboard.total_tasks, 8);
}

#[test]
fn open_retry_modal_on_failed_task() {
    let input = fixture("../tests/fixtures/sample_tasks.md");
    let dashboard = DashboardState::from_tasks_content(input).unwrap();
    let mut app = App::new().with_dashboard(dashboard);
    app.gantt_state.total_items = 11;

    // Navigate to a Failed task: P1-R3-T1 (Phase 1, task index 2)
    // Phase 0 header(0) + 2 tasks(1,2) + Phase 1 header(3) + task(4) + task(5) + task(6=Failed)
    app.gantt_state.selected = 6;
    app.open_retry_modal();
    assert!(app.show_retry_modal);
    assert!(app.retry_target.is_some());
    let target = app.retry_target.as_ref().unwrap();
    assert_eq!(target.task_id, "P1-R3-T1");
}

#[test]
fn open_retry_modal_ignored_for_completed_task() {
    let input = fixture("../tests/fixtures/sample_tasks.md");
    let dashboard = DashboardState::from_tasks_content(input).unwrap();
    let mut app = App::new().with_dashboard(dashboard);
    app.gantt_state.total_items = 11;

    // Navigate to a Completed task: P0-T0.1 (index 1)
    app.gantt_state.selected = 1;
    app.open_retry_modal();
    assert!(!app.show_retry_modal);
    assert!(app.retry_target.is_none());
}

#[test]
fn cancel_retry_closes_modal() {
    let mut app = App::new();
    app.show_retry_modal = true;
    app.retry_target = Some(RetryTarget {
        task_id: "T1".to_string(),
        task_name: "Test".to_string(),
        retryable: true,
    });
    app.cancel_retry();
    assert!(!app.show_retry_modal);
    assert!(app.retry_target.is_none());
}

#[test]
fn confirm_retry_updates_tasks_file() {
    let content = "# Phase 1\n\n### [Failed] T1: Test task\n- body\n";
    let dashboard = DashboardState::from_tasks_content(content).unwrap();
    let mut app = App::new()
        .with_dashboard(dashboard)
        .with_tasks_path("TASKS.md".to_string());

    app.show_retry_modal = true;
    app.retry_target = Some(RetryTarget {
        task_id: "T1".to_string(),
        task_name: "Test task".to_string(),
        retryable: true,
    });

    let write = app.confirm_retry();
    assert!(!app.show_retry_modal);
    assert!(app.retry_target.is_none());

    assert_eq!(
        write,
        Some(WriteBack {
            path: "TASKS.md".to_string(),
            task_id: "T1".to_string(),
            new_status: "InProgress".to_string(),
        })
    );
    let write = write.unwrap();
    let result = rewrite_task_status(content, &write.task_id, &write.new_status).unwrap();
    assert!(result.contains("[InProgress] T1:"));
}

#[test]
fn confirm_retry_non_retryable_does_not_write() {
    let content = "# Phase 1\n\n### [Failed] T1: Test task\n";
    let dashboard = DashboardState::from_tasks_content(content).unwrap();
    let mut app = App::new()
        .with_dashboard(dashboard)
        .with_tasks_path("TASKS.md".to_string());

    app.show_retry_modal = true;
    app.retry_target = Some(RetryTarget {
        task_id: "T1".to_string(),
        task_name: "Test task".to_string(),
        retryable: false,
    });

    let write = app.confirm_retry();
    assert!(!app.show_retry_modal);
    assert_eq!(write, None);
    assert!(content.contains("[Failed] T1:"));
}

// ---- further cases ----

#[test]
fn confirm_retry_without_target_or_path_writes_nothing() {
    let mut app = App::new().with_tasks_path("TASKS.md".to_string());
    app.show_retry_modal = true;
    assert_eq!(app.confirm_retry(), None);
    assert!(!app.show_retry_modal);

    let mut app = App::new();
    app.retry_target = Some(RetryTarget {
        task_id: "T1".to_string(),
        task_name: "Test".to_string(),
        retryable: true,
    });
    assert_eq!(app.confirm_retry(), None);
    assert!(app.retry_target.is_none());
    assert_eq!(app.tasks_path, None);
}

#[test]
fn retry_dialog_goes_by_the_latest_error_of_the_task() {
    let input = fixture("../tests/fixtures/sample_tasks.md");
    let mut dashboard = DashboardState::from_tasks_content(input).unwrap();
    dashboard.update_from_events(
        &[
            error_event("P1-R3-T1", 1, "fatal: first"),
            error_event("P2-S1-T1", 2, "fatal: other task"),
        ],
        &classify,
    );
    let mut app = App::new().with_dashboard(dashboard);
    app.gantt_state.selected = 6;
    app.open_retry_modal();
    let target = app.retry_target.as_ref().unwrap();
    assert_eq!(target.task_name, "File watcher module");
    assert!(!target.retryable);
    app.cancel_retry();

    app.dashboard.update_from_events(&[error_event("P1-R3-T1", 3, "timeout")], &classify);
    app.open_retry_modal();
    assert!(app.retry_target.as_ref().unwrap().retryable);
    app.cancel_retry();

    // each task goes by its own errors
    app.gantt_state.selected = 8;
    app.dashboard.update_from_events(&[], &classify);
    app.open_retry_modal();
    let target = app.retry_target.as_ref().unwrap();
    assert_eq!(target.task_id, "P2-S1-T1");
    assert!(!target.retryable);
    app.cancel_retry();
    app.gantt_state.selected = 9;
    app.open_retry_modal();
    assert!(app.retry_target.is_none());
}

#[test]
fn retry_dialog_stays_closed_on_headings_and_past_the_end() {
    let input = fixture("../tests/fixtures/sample_tasks.md");
    let dashboard = DashboardState::from_tasks_content(input).unwrap();
    let mut app = App::new().with_dashboard(dashboard);
    for row in [0usize, 3, 7, 11, 500] {
        app.gantt_state.selected = row;
        app.open_retry_modal();
        assert!(!app.show_retry_modal, "row {row}");
        assert!(app.retry_target.is_none());
    }
    // a blocked task that was never reported on may be retried
    let dashboard = DashboardState::from_tasks_content("# Phase 0: A\n### [Blocked] B1: b\n").unwrap();
    let mut app = App::new().with_dashboard(dashboard);
    app.gantt_state.selected = 1;
    app.open_retry_modal();
    assert!(app.show_retry_modal);
    assert!(app.retry_target.as_ref().unwrap().retryable);
}

#[test]
fn collapse_follows_the_selected_heading() {
    let input = fixture("../tests/fixtures/sample_tasks.md");
    let dashboard = DashboardState::from_tasks_content(input).unwrap();
    let mut app = App::new().with_dashboard(dashboard);
    app.gantt_state.total_items = 11;
    app.toggle_collapse();
    assert!(app.gantt_state.collapsed.contains(&0));
    app.move_down();
    assert_eq!(app.gantt_state.selected_phase_index(&app.dashboard), Some(1));
    app.toggle_collapse();
    assert!(app.gantt_state.collapsed.contains(&1));
    app.toggle_collapse();
    assert!(!app.gantt_state.collapsed.contains(&1));
    app.move_down();
    assert_eq!(app.selected_task(), Some((1, 0)));
    app.toggle_collapse();
    assert_eq!(app.gantt_state.collapsed.len(), 1);
    app.toggle_view();
    app.toggle_view();
    assert_eq!(app.gantt_state.selected, 2);
    assert_eq!(FocusedPane::Detail.toggle(), FocusedPane::TaskList);
    let fresh = App::default();
    assert!(fresh.running && fresh.retry_target.is_none() && fresh.tasks_path.is_none());
}
