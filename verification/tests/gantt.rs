use taskboard::ui::gantt::{status_icon, GanttState, GanttViewMode};
use taskboard::data::state::DashboardState;
use taskboard::data::tasks_parser::TaskStatus;

const SAMPLE_TASKS: &str = "# Phase 0: Setup\n\
\n\
### [x] P0-T0.1: Project initialization\n\
- **담당**: @backend-specialist\n\
- **스펙**: Cargo project, lint configuration\n\
\n\
### [x] P0-T0.2: Continuous integration\n\
- **담당**: @backend-specialist\n\
\n\
---\n\
\n\
# Phase 1: Data Engine\n\
\n\
### [InProgress] P1-R1-T1: Ledger parser\n\
- **담당**: @backend-specialist\n\
- **blocked_by**: P0-T0.1\n\
\n\
### [ ] P1-R2-T1: Event parser\n\
- **담당**: @backend-specialist\n\
\n\
### [Failed] P1-R3-T1: File watcher module\n\
- **담당**: @backend-specialist\n\
\n\
---\n\
\n\
# Phase 2: TUI Core\n\
\n\
### [Blocked] P2-S1-T1: Gantt chart widget\n\
- **담당**: @frontend-specialist\n\
- **blocked_by**: P1-R4-T1\n\
\n\
### [ ] P2-S2-T1: Detail panel\n\
- **담당**: @test-specialist\n\
\n\
### [ ] P2-S3-T1: Status bar\n";

fn fixture(path: &str) -> &'static str {
    match path {
        "../../tests/fixtures/sample_tasks.md" => SAMPLE_TASKS,
        other => panic!("no fixture {other}"),
    }
}

fn sample_state() -> DashboardState {
    let input = fixture("../../tests/fixtures/sample_tasks.md");
    DashboardState::from_tasks_content(input).unwrap()
}

#[test]
fn gantt_state_navigation() {
    let mut gs = GanttState {
        selected: 0,
        total_items: 5,
        ..Default::default()
    };
    gs.select_next();
    assert_eq!(gs.selected, 1);
    gs.select_prev();
    assert_eq!(gs.selected, 0);
    gs.select_prev(); // should not go below 0
    assert_eq!(gs.selected, 0);
}

#[test]
fn gantt_state_max_bound() {
    let mut gs = GanttState {
        selected: 4,
        total_items: 5,
        ..Default::default()
    };
    gs.select_next(); // should cap at 4
    assert_eq!(gs.selected, 4);
}

#[test]
fn selected_task_phase_header() {
    let state = sample_state();
    let gs = GanttState {
        selected: 0,
        total_items: 11,
        ..Default::default()
    };
    assert!(gs.selected_task(&state).is_none());
}

#[test]
fn selected_task_first_task() {
    let state = sample_state();
    let gs = GanttState {
        selected: 1,
        total_items: 11,
        ..Default::default()
    };
    assert_eq!(gs.selected_task(&state), Some((0, 0)));
}

#[test]
fn selected_task_second_phase() {
    let state = sample_state();
    // Phase 0: header(0) + 2 tasks(1,2) = 3 items
    // Phase 1: header(3)
    let gs = GanttState {
        selected: 3,
        total_items: 11,
        ..Default::default()
    };
    assert!(gs.selected_task(&state).is_none()); // phase 1 header
    let gs2 = GanttState {
        selected: 4,
        total_items: 11,
        ..Default::default()
    };
    assert_eq!(gs2.selected_task(&state), Some((1, 0)));
}

#[test]
fn status_icons_all_mapped() {
    assert_eq!(status_icon(&TaskStatus::Completed), "[x]");
    assert_eq!(status_icon(&TaskStatus::InProgress), "[/]");
    assert_eq!(status_icon(&TaskStatus::Pending), "[ ]");
    assert_eq!(status_icon(&TaskStatus::Failed), "[!]");
    assert_eq!(status_icon(&TaskStatus::Blocked), "[B]");
}

#[test]
fn selected_task_with_collapse() {
    let state = sample_state();
    let mut gs = GanttState {
        selected: 1,
        total_items: 9,
        ..Default::default()
    };
    gs.collapsed.insert(0); // collapse phase 0
    // selected=0 is phase 0 header
    // selected=1 is phase 1 header (tasks of phase 0 hidden)
    assert!(gs.selected_task(&state).is_none());
    assert_eq!(gs.selected_phase_index(&state), Some(1));

    gs.selected = 2;
    assert_eq!(gs.selected_task(&state), Some((1, 0)));
}

#[test]
fn toggle_collapse() {
    let mut gs = GanttState::default();
    assert!(!gs.collapsed.contains(&0));
    gs.toggle_collapse(0);
    assert!(gs.collapsed.contains(&0));
    gs.toggle_collapse(0);
    assert!(!gs.collapsed.contains(&0));
}

#[test]
fn toggle_view() {
    let mut gs = GanttState::default();
    assert_eq!(gs.view_mode, GanttViewMode::Tree);
    gs.toggle_view();
    assert_eq!(gs.view_mode, GanttViewMode::HorizontalBar);
    gs.toggle_view();
    assert_eq!(gs.view_mode, GanttViewMode::Tree);
}

#[test]
fn cursor_does_not_go_below_zero() {
    let mut gs = GanttState { total_items: 11, ..Default::default() };

    gs.select_prev();
    assert_eq!(gs.selected, 0);
}

#[test]
fn cursor_does_not_exceed_max() {
    let mut gs = GanttState { total_items: 11, ..Default::default() };

    gs.selected = gs.total_items - 1;
    gs.select_next();
    assert_eq!(gs.selected, gs.total_items - 1);
}

#[test]
fn selecting_phase_header_returns_none() {
    let state = sample_state();
    let gs = GanttState {
        selected: 0,
        total_items: 11,
        ..Default::default()
    };
    assert!(gs.selected_task(&state).is_none());
}

#[test]
fn selecting_task_returns_correct_indices() {
    let state = sample_state();
    // Phase 0 header = 0, task 0 = 1, task 1 = 2
    let gs = GanttState {
        selected: 1,
        total_items: 11,
        ..Default::default()
    };
    assert_eq!(gs.selected_task(&state), Some((0, 0)));

    let gs2 = GanttState {
        selected: 2,
        total_items: 11,
        ..Default::default()
    };
    assert_eq!(gs2.selected_task(&state), Some((0, 1)));
}

// ---- further cases ----

#[test]
fn every_row_of_the_sample_maps_to_its_phase_or_task() {
    let state = sample_state();
    let expected: Vec<(Option<usize>, Option<(usize, usize)>)> = vec![
        (Some(0), None),
        (None, Some((0, 0))),
        (None, Some((0, 1))),
        (Some(1), None),
        (None, Some((1, 0))),
        (None, Some((1, 1))),
        (None, Some((1, 2))),
        (Some(2), None),
        (None, Some((2, 0))),
        (None, Some((2, 1))),
        (None, Some((2, 2))),
        (None, None),
        (None, None),
    ];
    for (row, want) in expected.iter().enumerate() {
        let gs = GanttState { selected: row, total_items: 11, ..Default::default() };
        assert_eq!(gs.selected_phase_index(&state), want.0, "row {row}");
        assert_eq!(gs.selected_task(&state), want.1, "row {row}");
    }
}

#[test]
fn collapsed_phases_hide_their_tasks() {
    let state = sample_state();
    let mut gs = GanttState::default();
    gs.toggle_collapse(0);
    gs.toggle_collapse(2);
    // rows: P0, P1, P1 tasks 0..3, P2
    let expected: Vec<(Option<usize>, Option<(usize, usize)>)> = vec![
        (Some(0), None),
        (Some(1), None),
        (None, Some((1, 0))),
        (None, Some((1, 1))),
        (None, Some((1, 2))),
        (Some(2), None),
        (None, None),
    ];
    for (row, want) in expected.iter().enumerate() {
        gs.selected = row;
        assert_eq!(gs.selected_phase_index(&state), want.0, "row {row}");
        assert_eq!(gs.selected_task(&state), want.1, "row {row}");
    }
}

#[test]
fn selection_past_a_shrunken_ledger_selects_nothing() {
    let mut state = sample_state();
    let gs = GanttState { selected: 10, total_items: 11, ..Default::default() };
    assert_eq!(gs.selected_task(&state), Some((2, 2)));

    // Reload with smaller content
    let small = "# Phase 0: Setup\n### [x] T1: Done\n";
    state.reload_tasks(small).unwrap();
    assert_eq!(gs.selected, 10);
    assert_eq!(gs.selected_task(&state), None);
    assert_eq!(gs.selected_phase_index(&state), None);

    let huge = GanttState { selected: usize::MAX, total_items: 0, ..Default::default() };
    assert_eq!(huge.selected_task(&state), None);
    assert_eq!(huge.selected_task(&DashboardState::default()), None);
    assert_eq!(GanttState::default().selected_phase_index(&DashboardState::default()), None);
}

#[test]
fn select_next_without_rows_and_at_the_limits() {
    let mut gs = GanttState::default();
    gs.select_next();
    assert_eq!(gs.selected, 0);
    let mut gs = GanttState { selected: 7, total_items: 0, ..Default::default() };
    gs.select_next();
    assert_eq!(gs.selected, 7);
    let mut gs = GanttState { selected: usize::MAX, total_items: 3, ..Default::default() };
    gs.select_next();
    assert_eq!(gs.selected, 2);
    let mut gs = GanttState { selected: 0, total_items: 1, ..Default::default() };
    gs.select_next();
    assert_eq!(gs.selected, 0);
}

#[test]
fn default_state_is_an_expanded_tree() {
    let gs = GanttState::default();
    assert_eq!(gs.selected, 0);
    assert_eq!(gs.total_items, 0);
    assert_eq!(gs.offset, 0);
    assert!(gs.collapsed.is_empty());
    assert_eq!(gs.view_mode, GanttViewMode::Tree);
    assert_eq!(GanttViewMode::default(), GanttViewMode::Tree);
}

#[test]
fn scrolling_keeps_the_selection_visible() {
    let mut gs = GanttState { selected: 7, offset: 0, ..Default::default() };
    gs.scroll_into_view(11, 5);
    assert_eq!((gs.total_items, gs.offset, gs.selected), (11, 3, 7));
    gs.scroll_into_view(11, 5);
    assert_eq!(gs.offset, 3);
    gs.selected = 1;
    gs.scroll_into_view(9, 5);
    assert_eq!((gs.total_items, gs.offset), (9, 1));
    gs.selected = 5;
    gs.scroll_into_view(9, 5);
    assert_eq!(gs.offset, 1);
    gs.selected = 6;
    gs.scroll_into_view(9, 5);
    assert_eq!(gs.offset, 2);
    gs.selected = usize::MAX;
    gs.scroll_into_view(0, 1);
    assert_eq!(gs.offset, usize::MAX);
    // with nothing visible the list starts behind the selection
    let mut gs = GanttState { selected: 4, offset: 2, ..Default::default() };
    gs.scroll_into_view(9, 0);
    assert_eq!(gs.offset, 5);
    let mut gs = GanttState { selected: 1, offset: 2, ..Default::default() };
    gs.scroll_into_view(9, 0);
    assert_eq!(gs.offset, 1);
}
