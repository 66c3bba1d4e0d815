//! State of the dashboard as a whole: what is shown, what has the focus, and
//! the dialog that offers to retry a task.
//!
//! Nothing here reads or writes a file. Where the user confirms a retry,
//! `confirm_retry` returns the change to make to the ledger, and the caller
//! makes it.

use vstd::prelude::*;

use crate::data::state::{newest_first, DashboardModel, DashboardState, ErrorKey, ErrorModel};
use crate::data::tasks_parser::TaskStatus;
use crate::ui::gantt::{row_at, GanttState, Row};
use crate::ui::layout::FocusedPane;

verus! {

/// The task that the retry dialog is about.
#[derive(Debug, Clone)]
pub struct RetryTarget {
    pub task_id: String,
    pub task_name: String,
    pub retryable: bool,
}

/// Mathematical value of a `RetryTarget`.
pub struct RetryModel {
    pub task_id: Seq<char>,
    pub task_name: Seq<char>,
    pub retryable: bool,
}

impl View for RetryTarget {
    type V = RetryModel;

    open spec fn view(&self) -> RetryModel {
        RetryModel { task_id: self.task_id@, task_name: self.task_name@, retryable: self.retryable }
    }
}

pub open spec fn opt_retry_view(o: Option<RetryTarget>) -> Option<RetryModel> {
    match o {
        Some(t) => Some(t@),
        None => None,
    }
}

/// A status change to write to the ledger file.
#[derive(Debug, Clone, PartialEq, Eq)]
pub struct WriteBack {
    pub path: String,
    pub task_id: String,
    pub new_status: String,
}

/// State of the dashboard.
#[derive(Debug)]
pub struct App {
    pub running: bool,
    pub dashboard: DashboardState,
    pub gantt_state: GanttState,
    pub focused: FocusedPane,
    pub show_help: bool,
    pub show_retry_modal: bool,
    pub retry_target: Option<RetryTarget>,
    pub tasks_path: Option<String>,
}

/// Whether a task may be retried, going by the most recent error recorded for
/// it. A task without recorded error may.
pub open spec fn retryable_of(errors: Seq<ErrorModel>, task_id: Seq<char>) -> bool {
    let found = newest_first(errors, ErrorKey::Task, task_id);
    if found.len() == 0 {
        true
    } else {
        found[0].retryable
    }
}

/// The task that a retry dialog opened on row `selected` is about. There is
/// one only if the row is a task that has failed or is blocked.
pub open spec fn retry_target_of(m: DashboardModel, collapsed: Set<usize>, selected: int) -> Option<
    RetryModel,
> {
    match row_at(m.phases, collapsed, selected) {
        Some(Row::Task(pi, ti)) => {
            let task = m.phases[pi].tasks[ti];
            if task.status == TaskStatus::Failed || task.status == TaskStatus::Blocked {
                Some(
                    RetryModel {
                        task_id: task.id,
                        task_name: task.name,
                        retryable: retryable_of(m.errors, task.id),
                    },
                )
            } else {
                None
            }
        },
        _ => None,
    }
}

impl App {
    /// A running dashboard without ledger: nothing selected, the task list in
    /// focus, no dialog open.
    pub fn new() -> (r: Self)
        ensures
            r.running,
            r.dashboard.wf(),
            r.dashboard@ == crate::data::state::empty_model(),
            r.gantt_state.selected == 0,
            r.gantt_state.total_items == 0,
            r.gantt_state.collapsed@ == Set::<usize>::empty(),
            r.focused == FocusedPane::TaskList,
            !r.show_help,
            !r.show_retry_modal,
            r.retry_target is None,
            r.tasks_path is None,
    {
        App {
            running: true,
            dashboard: DashboardState::default(),
            gantt_state: GanttState::default(),
            focused: FocusedPane::TaskList,
            show_help: false,
            show_retry_modal: false,
            retry_target: None,
            tasks_path: None,
        }
    }

    /// The same dashboard showing `dashboard`.
    pub fn with_dashboard(self, dashboard: DashboardState) -> (r: Self)
        ensures
            r.dashboard == dashboard,
            r.running == self.running,
            r.gantt_state == self.gantt_state,
            r.focused == self.focused,
            r.show_help == self.show_help,
            r.show_retry_modal == self.show_retry_modal,
            r.retry_target == self.retry_target,
            r.tasks_path == self.tasks_path,
    {
        let mut r = self;
        r.dashboard = dashboard;
        r
    }

    /// The same dashboard with `path` as the ledger file to write back to.
    pub fn with_tasks_path(self, path: String) -> (r: Self)
        ensures
            r.tasks_path == Some(path),
            r.dashboard == self.dashboard,
            r.running == self.running,
            r.gantt_state == self.gantt_state,
            r.focused == self.focused,
            r.show_help == self.show_help,
            r.show_retry_modal == self.show_retry_modal,
            r.retry_target == self.retry_target,
    {
        let mut r = self;
        r.tasks_path = Some(path);
        r
    }

    /// Asks the main loop to end.
    pub fn quit(&mut self)
        ensures
            !final(self).running,
            final(self).dashboard == old(self).dashboard,
            final(self).gantt_state == old(self).gantt_state,
            final(self).focused == old(self).focused,
            final(self).show_help == old(self).show_help,
            final(self).show_retry_modal == old(self).show_retry_modal,
            final(self).retry_target == old(self).retry_target,
            final(self).tasks_path == old(self).tasks_path,
    {
        self.running = false;
    }

    /// Shows the help if it is hidden, and hides it if it is shown.
    pub fn toggle_help(&mut self)
        ensures
            final(self).show_help == !old(self).show_help,
            final(self).running == old(self).running,
            final(self).dashboard == old(self).dashboard,
            final(self).gantt_state == old(self).gantt_state,
            final(self).focused == old(self).focused,
            final(self).show_retry_modal == old(self).show_retry_modal,
            final(self).retry_target == old(self).retry_target,
            final(self).tasks_path == old(self).tasks_path,
    {
        self.show_help = !self.show_help;
    }

    /// Moves the focus to the other pane.
    pub fn toggle_focus(&mut self)
        ensures
            final(self).focused == (match old(self).focused {
                FocusedPane::TaskList => FocusedPane::Detail,
                FocusedPane::Detail => FocusedPane::TaskList,
            }),
            final(self).running == old(self).running,
            final(self).dashboard == old(self).dashboard,
            final(self).gantt_state == old(self).gantt_state,
            final(self).show_help == old(self).show_help,
            final(self).show_retry_modal == old(self).show_retry_modal,
            final(self).retry_target == old(self).retry_target,
            final(self).tasks_path == old(self).tasks_path,
    {
        self.focused = self.focused.toggle();
    }

    /// Moves the selection one row down; it stops at the last row.
    pub fn move_down(&mut self)
        ensures
            final(self).gantt_state.selected == (if old(self).gantt_state.total_items == 0 {
                old(self).gantt_state.selected as int
            } else if old(self).gantt_state.selected + 1 <= old(self).gantt_state.total_items - 1 {
                old(self).gantt_state.selected + 1
            } else {
                old(self).gantt_state.total_items - 1
            }),
            final(self).gantt_state.total_items == old(self).gantt_state.total_items,
            final(self).gantt_state.collapsed == old(self).gantt_state.collapsed,
            final(self).gantt_state.view_mode == old(self).gantt_state.view_mode,
            final(self).dashboard == old(self).dashboard,
            final(self).running == old(self).running,
            final(self).focused == old(self).focused,
    {
        self.gantt_state.select_next();
    }

    /// Moves the selection one row up; it stops at the first row.
    pub fn move_up(&mut self)
        ensures
            final(self).gantt_state.selected == (if old(self).gantt_state.selected == 0 {
                0
            } else {
                old(self).gantt_state.selected - 1
            }),
            final(self).gantt_state.total_items == old(self).gantt_state.total_items,
            final(self).gantt_state.collapsed == old(self).gantt_state.collapsed,
            final(self).gantt_state.view_mode == old(self).gantt_state.view_mode,
            final(self).dashboard == old(self).dashboard,
            final(self).running == old(self).running,
            final(self).focused == old(self).focused,
    {
        self.gantt_state.select_prev();
    }

    /// Collapses or expands the phase whose heading is selected. With a task
    /// selected, or nothing, nothing changes.
    pub fn toggle_collapse(&mut self)
        ensures
            final(self).gantt_state.collapsed@ == (match row_at(
                old(self).dashboard@.phases,
                old(self).gantt_state.collapsed@,
                old(self).gantt_state.selected as int,
            ) {
                Some(Row::Phase(pi)) => if old(self).gantt_state.collapsed@.contains(pi as usize) {
                    old(self).gantt_state.collapsed@.remove(pi as usize)
                } else {
                    old(self).gantt_state.collapsed@.insert(pi as usize)
                },
                _ => old(self).gantt_state.collapsed@,
            }),
            final(self).gantt_state.selected == old(self).gantt_state.selected,
            final(self).gantt_state.total_items == old(self).gantt_state.total_items,
            final(self).gantt_state.view_mode == old(self).gantt_state.view_mode,
            final(self).dashboard == old(self).dashboard,
    {
        match self.gantt_state.selected_phase_index(&self.dashboard) {
            Some(pi) => {
                self.gantt_state.toggle_collapse(pi);
            },
            None => {},
        }
    }

    /// Switches between the two ways of drawing the task list.
    pub fn toggle_view(&mut self)
        ensures
            final(self).gantt_state.view_mode != old(self).gantt_state.view_mode,
            final(self).gantt_state.selected == old(self).gantt_state.selected,
            final(self).gantt_state.total_items == old(self).gantt_state.total_items,
            final(self).gantt_state.collapsed == old(self).gantt_state.collapsed,
            final(self).dashboard == old(self).dashboard,
    {
        self.gantt_state.toggle_view();
    }

    /// Phase and task index of the selected task, if a task is selected.
    pub fn selected_task(&self) -> (r: Option<(usize, usize)>)
        ensures
            match r {
                Some((pi, ti)) => row_at(
                    self.dashboard@.phases,
                    self.gantt_state.collapsed@,
                    self.gantt_state.selected as int,
                ) == Some(Row::Task(pi as int, ti as int)) && pi < self.dashboard.phases@.len()
                    && ti < self.dashboard.phases@[pi as int].tasks@.len(),
                None => !(row_at(
                    self.dashboard@.phases,
                    self.gantt_state.collapsed@,
                    self.gantt_state.selected as int,
                ) matches Some(Row::Task(_, _))),
            },
    {
        self.gantt_state.selected_task(&self.dashboard)
    }

    /// Opens the retry dialog for the selected task, if that task has failed
    /// or is blocked. Whether the dialog offers the retry goes by the most
    /// recent error recorded for the task. In every other case nothing
    /// changes.
    pub fn open_retry_modal(&mut self)
        ensures
            match retry_target_of(
                old(self).dashboard@,
                old(self).gantt_state.collapsed@,
                old(self).gantt_state.selected as int,
            ) {
                Some(target) => final(self).show_retry_modal && opt_retry_view(
                    final(self).retry_target,
                ) == Some(target),
                None => final(self).show_retry_modal == old(self).show_retry_modal
                    && final(self).retry_target == old(self).retry_target,
            },
            final(self).dashboard == old(self).dashboard,
            final(self).gantt_state == old(self).gantt_state,
            final(self).running == old(self).running,
            final(self).focused == old(self).focused,
            final(self).show_help == old(self).show_help,
            final(self).tasks_path == old(self).tasks_path,
    {
        match self.selected_task() {
            Some((pi, ti)) => {
                let task = &self.dashboard.phases[pi].tasks[ti];
                let can_retry = match task.status {
                    TaskStatus::Failed => true,
                    TaskStatus::Blocked => true,
                    _ => false,
                };
                if can_retry {
                    let errors = self.dashboard.errors_for_task(task.id.as_str());
                    let retryable = if errors.len() == 0 {
                        true
                    } else {
                        errors[0].retryable
                    };
                    let target = RetryTarget {
                        task_id: task.id.clone(),
                        task_name: task.name.clone(),
                        retryable,
                    };
                    self.retry_target = Some(target);
                    self.show_retry_modal = true;
                }
            },
            None => {},
        }
    }

    /// Closes the retry dialog after the user has confirmed. Returns the status
    /// change to write to the ledger file: the task of the dialog becomes
    /// `InProgress`. Nothing is to be written if no task was up for retry, if
    /// the task may not be retried, or if no ledger file is known.
    pub fn confirm_retry(&mut self) -> (r: Option<WriteBack>)
        ensures
            !final(self).show_retry_modal,
            final(self).retry_target is None,
            match (old(self).retry_target, old(self).tasks_path) {
                (Some(target), Some(path)) => if target.retryable {
                    r matches Some(w) && w.path@ == path@ && w.task_id@ == target.task_id@
                        && w.new_status@ == "InProgress"@
                } else {
                    r is None
                },
                _ => r is None,
            },
            final(self).dashboard == old(self).dashboard,
            final(self).gantt_state == old(self).gantt_state,
            final(self).running == old(self).running,
            final(self).focused == old(self).focused,
            final(self).show_help == old(self).show_help,
            final(self).tasks_path == old(self).tasks_path,
    {
        let r = match (&self.retry_target, &self.tasks_path) {
            (Some(target), Some(path)) => {
                if target.retryable {
                    Some(
                        WriteBack {
                            path: path.clone(),
                            task_id: target.task_id.clone(),
                            new_status: "InProgress".to_owned(),
                        },
                    )
                } else {
                    None
                }
            },
            _ => None,
        };
        self.show_retry_modal = false;
        self.retry_target = None;
        r
    }

    /// Closes the retry dialog without retrying.
    pub fn cancel_retry(&mut self)
        ensures
            !final(self).show_retry_modal,
            final(self).retry_target is None,
            final(self).dashboard == old(self).dashboard,
            final(self).gantt_state == old(self).gantt_state,
            final(self).running == old(self).running,
            final(self).focused == old(self).focused,
            final(self).show_help == old(self).show_help,
            final(self).tasks_path == old(self).tasks_path,
    {
        self.show_retry_modal = false;
        self.retry_target = None;
    }
}

impl Default for App {
    fn default() -> (r: Self)
        ensures
            r.running,
            r.dashboard@ == crate::data::state::empty_model(),
            r.focused == FocusedPane::TaskList,
            !r.show_help,
            !r.show_retry_modal,
            r.retry_target is None,
            r.tasks_path is None,
    {
        App::new()
    }
}

} // verus!
