use taskboard::data::tasks_parser::{parse_tasks_md, TaskStatus};
use taskboard::data::tasks_writer::rewrite_task_status;

#[test]
fn update_failed_to_in_progress() {
    let content = "# Phase 1: Data Engine\n\n### [Failed] P1-R3-T1: File watcher module\n- **담당**: @backend-specialist\n";
    let result = rewrite_task_status(content, "P1-R3-T1", "InProgress");
    let found = result.is_some();
    assert!(found);

    let result = result.unwrap();
    assert!(result.contains("### [InProgress] P1-R3-T1: File watcher module"));
    assert!(!result.contains("[Failed]"));
}

#[test]
fn update_blocked_to_in_progress() {
    let result =
        rewrite_task_status("### [Blocked] P2-S1-T1: Gantt chart widget\n", "P2-S1-T1", "InProgress");
    assert!(result.is_some());
    assert!(result
        .unwrap()
        .contains("### [InProgress] P2-S1-T1: Gantt chart widget"));
}

#[test]
fn no_match_returns_false() {
    let content = "# Phase 0\n\n### [x] P0-T1: Init\n";
    let found = rewrite_task_status(content, "NONEXISTENT", "InProgress");
    assert!(found.is_none());
    assert!(content.contains("[x] P0-T1"));
}

#[test]
fn preserves_other_lines() {
    let content = "# Phase 1\n\n### [Failed] T1: First\n- body\n\n### [x] T2: Second\n";
    let result = rewrite_task_status(content, "T1", "InProgress").unwrap();
    assert!(result.contains("[InProgress] T1: First"));
    assert!(result.contains("[x] T2: Second"));
    assert!(result.contains("- body"));
    assert_eq!(
        result,
        "# Phase 1\n\n### [InProgress] T1: First\n- body\n\n### [x] T2: Second\n"
    );
}

#[test]
fn single_line_is_rewritten_exactly() {
    assert_eq!(
        rewrite_task_status("### [Failed] T1: X\n", "T1", "InProgress"),
        Some("### [InProgress] T1: X\n".to_string())
    );
}

#[test]
fn an_identifier_does_not_match_a_longer_one() {
    // looking for T1 when only T10 exists changes nothing
    assert_eq!(rewrite_task_status("### [Failed] T10: X\n", "T1", "InProgress"), None);
    assert_eq!(rewrite_task_status("### [ ] T10: Ten\n", "T1", "x"), None);
    assert_eq!(rewrite_task_status("### [ ] T1.1: sub\n", "T1", "x"), None);
    assert_eq!(rewrite_task_status("### [ ] T1-a: sub\n", "T1", "x"), None);
    // nor a shorter one, nor one that only occurs later in the line
    assert_eq!(rewrite_task_status("### [ ] T1: One\n", "T10", "x"), None);
    assert_eq!(rewrite_task_status("### [ ] T2: after T1\n", "T1", "x"), None);
    assert_eq!(rewrite_task_status("### [ ] XT1: One\n", "T1", "x"), None);
    // the heading of T10 is passed over on the way to that of T1
    assert_eq!(
        rewrite_task_status("### [Failed] T10: a\n### [x] T1: b\n", "T1", "InProgress"),
        Some("### [Failed] T10: a\n### [InProgress] T1: b\n".to_string())
    );
}

#[test]
fn an_identifier_ends_at_a_colon_a_blank_or_the_end() {
    assert_eq!(
        rewrite_task_status("### [ ] T1: One\n", "T1", "x"),
        Some("### [x] T1: One\n".to_string())
    );
    assert_eq!(
        rewrite_task_status("### [ ] T1 : One\n", "T1", "x"),
        Some("### [x] T1 : One\n".to_string())
    );
    assert_eq!(
        rewrite_task_status("### [ ] T1\tOne\n", "T1", "x"),
        Some("### [x] T1\tOne\n".to_string())
    );
    assert_eq!(rewrite_task_status("### [ ] T1", "T1", "x"), Some("### [x] T1".to_string()));
    assert_eq!(
        rewrite_task_status("### [ ] T1  \r\n", "T1", "x"),
        Some("### [x] T1  \r\n".to_string())
    );
    assert_eq!(
        rewrite_task_status("### [ ] : nameless\n", "", "x"),
        Some("### [x] : nameless\n".to_string())
    );
    assert_eq!(rewrite_task_status("### [ ] T1: One\n", "", "x"), None);
}

#[test]
fn a_status_change_can_be_undone() {
    let first = "# Phase 1: Core\n\n### [Failed] T10: a\n- body\n### [x] T1: b\n### [ ] T2: c\n";
    let changed = rewrite_task_status(first, "T1", "InProgress").unwrap();
    assert_eq!(
        changed,
        "# Phase 1: Core\n\n### [Failed] T10: a\n- body\n### [InProgress] T1: b\n### [ ] T2: c\n"
    );
    assert_eq!(rewrite_task_status(&changed, "T1", "x").unwrap(), first);

    // the ledger reads the same but for the status of the task
    let before = parse_tasks_md(first).unwrap();
    let after = parse_tasks_md(&changed).unwrap();
    assert_eq!(before.len(), after.len());
    for (p, q) in before.iter().zip(after.iter()) {
        assert_eq!((&p.id, &p.name, p.tasks.len()), (&q.id, &q.name, q.tasks.len()));
        for (a, b) in p.tasks.iter().zip(q.tasks.iter()) {
            assert_eq!((&a.id, &a.name, &a.agent, &a.blocked_by), (&b.id, &b.name, &b.agent, &b.blocked_by));
            if a.id == "T1" {
                assert_eq!(a.status, TaskStatus::Completed);
                assert_eq!(b.status, TaskStatus::InProgress);
            } else {
                assert_eq!(a.status, b.status);
            }
        }
    }
}

#[test]
fn only_the_first_heading_is_rewritten() {
    let content = "### [ ] T1: a\n### [ ] T1: b\n";
    assert_eq!(
        rewrite_task_status(content, "T1", "x"),
        Some("### [x] T1: a\n### [ ] T1: b\n".to_string())
    );
}

#[test]
fn everything_around_the_tag_is_kept() {
    let content = "intro\r\n  \t### [Failed] T1: X  \t\r\nlast line without newline";
    assert_eq!(
        rewrite_task_status(content, "T1", "InProgress"),
        Some("intro\r\n  \t### [InProgress] T1: X  \t\r\nlast line without newline".to_string())
    );
    let content = "### [] T1: empty tag";
    assert_eq!(
        rewrite_task_status(content, "T1", "Blocked"),
        Some("### [Blocked] T1: empty tag".to_string())
    );
    let content = "### [a] b] T1: first close counts\n";
    assert_eq!(rewrite_task_status(content, "T1", "x"), None);
    assert_eq!(rewrite_task_status(content, "b", "x"), None);
    assert_eq!(
        rewrite_task_status(content, "b]", "x"),
        Some("### [x] b] T1: first close counts\n".to_string())
    );
}

#[test]
fn trailing_newline_is_preserved_either_way() {
    assert_eq!(
        rewrite_task_status("a\n### [ ] T: t", "T", "x").unwrap(),
        "a\n### [x] T: t"
    );
    assert_eq!(
        rewrite_task_status("a\n### [ ] T: t\n\n", "T", "x").unwrap(),
        "a\n### [x] T: t\n\n"
    );
    assert_eq!(rewrite_task_status("", "T", "x"), None);
    assert_eq!(rewrite_task_status("\n\n", "T", "x"), None);
}

#[test]
fn lines_that_are_no_task_headings_are_skipped() {
    assert_eq!(rewrite_task_status("## [ ] T1: two marks\n", "T1", "x"), None);
    assert_eq!(rewrite_task_status("###[ ] T1: no space\n", "T1", "x"), None);
    assert_eq!(rewrite_task_status("### [ ]T1: no space behind\n", "T1", "x"), None);
    assert_eq!(rewrite_task_status("text ### [ ] T1: not at start\n", "T1", "x"), None);
}

#[test]
fn rewritten_ledger_parses_with_the_new_status() {
    let content = "# Phase 1: Core\n\n### [Failed] P1-T1: Parser module\n- body\n";
    let phases = parse_tasks_md(content).unwrap();
    assert_eq!(phases[0].tasks[0].status, TaskStatus::Failed);
    let updated = rewrite_task_status(content, "P1-T1", "InProgress").unwrap();
    let phases = parse_tasks_md(&updated).unwrap();
    assert_eq!(phases[0].tasks[0].status, TaskStatus::InProgress);
    assert_eq!(phases[0].tasks[0].id, "P1-T1");
}
