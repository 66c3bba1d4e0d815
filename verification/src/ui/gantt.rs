//! Selection state of the task list.
//!
//! The list shows one row per phase and, below it, one row per task of the
//! phase unless the phase is collapsed. The selection is an index into these
//! rows. The ledger may change under a selection: an index that refers to no
//! row any more selects nothing.

use std::collections::HashSet;
use vstd::prelude::*;

use crate::data::state::DashboardState;
use crate::data::tasks_parser::{phases_view, ParsedPhase, PhaseModel, TaskStatus};

verus! {

broadcast use vstd::std_specs::hash::group_hash_axioms;

/// How the task list is drawn.
#[derive(Debug, Clone, Copy, PartialEq, Eq, Structural)]
pub enum GanttViewMode {
    Tree,
    HorizontalBar,
}

impl Default for GanttViewMode {
    fn default() -> (r: Self)
        ensures
            r == GanttViewMode::Tree,
    {
        GanttViewMode::Tree
    }
}

/// Selection state of the task list.
#[derive(Debug)]
pub struct GanttState {
    /// Index of the selected row.
    pub selected: usize,
    /// Number of rows that can be selected.
    pub total_items: usize,
    /// Index of the first row shown.
    pub offset: usize,
    /// Indices of the collapsed phases.
    pub collapsed: HashSet<usize>,
    /// How the list is drawn.
    pub view_mode: GanttViewMode,
}

/// What a row of the list shows.
pub enum Row {
    /// The heading of phase `.0`.
    Phase(int),
    /// Task `.1` of phase `.0`.
    Task(int, int),
}

/// The rows of phase `pi`: its heading and, unless it is collapsed, its tasks.
pub open spec fn phase_rows(phases: Seq<PhaseModel>, collapsed: Set<usize>, pi: int) -> Seq<Row> {
    if collapsed.contains(pi as usize) {
        seq![Row::Phase(pi)]
    } else {
        seq![Row::Phase(pi)] + Seq::new(phases[pi].tasks.len(), |ti: int| Row::Task(pi, ti))
    }
}

/// The rows of the first `n` phases.
pub open spec fn rows_upto(phases: Seq<PhaseModel>, collapsed: Set<usize>, n: nat) -> Seq<Row>
    decreases n,
{
    if n == 0 {
        Seq::empty()
    } else {
        rows_upto(phases, collapsed, (n - 1) as nat) + phase_rows(phases, collapsed, n - 1)
    }
}

/// All rows of the list.
pub open spec fn rows(phases: Seq<PhaseModel>, collapsed: Set<usize>) -> Seq<Row> {
    rows_upto(phases, collapsed, phases.len())
}

/// The row that index `selected` refers to, if any.
pub open spec fn row_at(phases: Seq<PhaseModel>, collapsed: Set<usize>, selected: int) -> Option<
    Row,
> {
    if 0 <= selected < rows(phases, collapsed).len() {
        Some(rows(phases, collapsed)[selected])
    } else {
        None
    }
}

/// The rows of the first `n` phases stay where they are when more phases follow.
pub proof fn lemma_rows_prefix(phases: Seq<PhaseModel>, collapsed: Set<usize>, n: nat, m: nat)
    requires
        n <= m,
    ensures
        rows_upto(phases, collapsed, n).len() <= rows_upto(phases, collapsed, m).len(),
        forall|k: int|
            0 <= k < rows_upto(phases, collapsed, n).len() ==> rows_upto(phases, collapsed, m)[k]
                == rows_upto(phases, collapsed, n)[k],
    decreases m,
{
    if n < m {
        lemma_rows_prefix(phases, collapsed, n, (m - 1) as nat);
    }
}

/// Every task row refers to a task that exists, and every phase row to a phase
/// that exists.
pub proof fn lemma_rows_in_range(phases: Seq<PhaseModel>, collapsed: Set<usize>, n: nat, k: int)
    requires
        n <= phases.len(),
        0 <= k < rows_upto(phases, collapsed, n).len(),
    ensures
        match rows_upto(phases, collapsed, n)[k] {
            Row::Phase(pi) => 0 <= pi < n,
            Row::Task(pi, ti) => 0 <= pi < n && 0 <= ti < phases[pi].tasks.len(),
        },
    decreases n,
{
    if n > 0 {
        let before = rows_upto(phases, collapsed, (n - 1) as nat);
        if k < before.len() {
            lemma_rows_in_range(phases, collapsed, (n - 1) as nat, k);
        }
    }
}

/// The row with index `selected` in the list of `phases`: a phase heading
/// (phase index, `None`), a task (phase index, task index), or nothing when
/// the index is past the last row.
pub fn locate_row(phases: &Vec<ParsedPhase>, collapsed: &HashSet<usize>, selected: usize) -> (r:
    Option<(usize, Option<usize>)>)
    ensures
        match r {
            Some((pi, None)) => row_at(phases_view(phases@), collapsed@, selected as int) == Some(
                Row::Phase(pi as int),
            ) && pi < phases@.len(),
            Some((pi, Some(ti))) => row_at(phases_view(phases@), collapsed@, selected as int)
                == Some(Row::Task(pi as int, ti as int)) && pi < phases@.len() && ti
                < phases@[pi as int].tasks@.len(),
            None => row_at(phases_view(phases@), collapsed@, selected as int) is None,
        },
{
    let ghost model = phases_view(phases@);
    let n = phases.len();
    let mut idx: usize = 0;
    let mut pi: usize = 0;
    while pi < n
        invariant
            pi <= n,
            n == model.len(),
            model == phases_view(phases@),
            idx == rows_upto(model, collapsed@, pi as nat).len(),
            idx <= selected,
        decreases n - pi,
    {
        proof {
            lemma_rows_prefix(model, collapsed@, (pi + 1) as nat, n as nat);
        }
        if idx == selected {
            return Some((pi, None));
        }
        idx = idx + 1;
        if !collapsed.contains(&pi) {
            let count = phases[pi].tasks.len();
            if selected - idx < count {
                return Some((pi, Some(selected - idx)));
            }
            idx = idx + count;
        }
        pi = pi + 1;
    }
    None
}

impl Default for GanttState {
    fn default() -> (r: Self)
        ensures
            r.selected == 0,
            r.total_items == 0,
            r.offset == 0,
            r.collapsed@ == Set::<usize>::empty(),
            r.view_mode == GanttViewMode::Tree,
    {
        GanttState {
            selected: 0,
            total_items: 0,
            offset: 0,
            collapsed: HashSet::new(),
            view_mode: GanttViewMode::Tree,
        }
    }
}

/// `HashSet::clone`: a set with the same elements.
#[verifier::external_body]
fn clone_set(set: &HashSet<usize>) -> (r: HashSet<usize>)
    ensures
        r@ == set@,
{
    set.clone()
}

impl Clone for GanttState {
    fn clone(&self) -> (r: Self)
        ensures
            r.selected == self.selected,
            r.total_items == self.total_items,
            r.offset == self.offset,
            r.collapsed@ == self.collapsed@,
            r.view_mode == self.view_mode,
    {
        GanttState {
            selected: self.selected,
            total_items: self.total_items,
            offset: self.offset,
            collapsed: clone_set(&self.collapsed),
            view_mode: self.view_mode,
        }
    }
}

impl GanttState {
    /// Moves the selection one row down; it stops at the last row. Without
    /// rows nothing changes.
    pub fn select_next(&mut self)
        ensures
            final(self).selected == (if old(self).total_items == 0 {
                old(self).selected as int
            } else if old(self).selected + 1 <= old(self).total_items - 1 {
                old(self).selected + 1
            } else {
                old(self).total_items - 1
            }),
            final(self).total_items == old(self).total_items,
            final(self).offset == old(self).offset,
            final(self).collapsed == old(self).collapsed,
            final(self).view_mode == old(self).view_mode,
    {
        if self.total_items > 0 {
            if self.selected < self.total_items - 1 {
                self.selected = self.selected + 1;
            } else {
                self.selected = self.total_items - 1;
            }
        }
    }

    /// Moves the selection one row up; it stops at the first row.
    pub fn select_prev(&mut self)
        ensures
            final(self).selected == (if old(self).selected == 0 {
                0
            } else {
                old(self).selected - 1
            }),
            final(self).total_items == old(self).total_items,
            final(self).offset == old(self).offset,
            final(self).collapsed == old(self).collapsed,
            final(self).view_mode == old(self).view_mode,
    {
        if self.selected > 0 {
            self.selected = self.selected - 1;
        }
    }

    /// Collapses phase `phase_index` if it is expanded, and expands it if it is
    /// collapsed.
    pub fn toggle_collapse(&mut self, phase_index: usize)
        ensures
            final(self).collapsed@ == (if old(self).collapsed@.contains(phase_index) {
                old(self).collapsed@.remove(phase_index)
            } else {
                old(self).collapsed@.insert(phase_index)
            }),
            final(self).selected == old(self).selected,
            final(self).total_items == old(self).total_items,
            final(self).offset == old(self).offset,
            final(self).view_mode == old(self).view_mode,
    {
        if self.collapsed.contains(&phase_index) {
            self.collapsed.remove(&phase_index);
        } else {
            self.collapsed.insert(phase_index);
        }
    }

    /// Switches between the two ways of drawing the list.
    pub fn toggle_view(&mut self)
        ensures
            final(self).view_mode == (match old(self).view_mode {
                GanttViewMode::Tree => GanttViewMode::HorizontalBar,
                GanttViewMode::HorizontalBar => GanttViewMode::Tree,
            }),
            final(self).selected == old(self).selected,
            final(self).total_items == old(self).total_items,
            final(self).offset == old(self).offset,
            final(self).collapsed == old(self).collapsed,
    {
        self.view_mode = match self.view_mode {
            GanttViewMode::Tree => GanttViewMode::HorizontalBar,
            GanttViewMode::HorizontalBar => GanttViewMode::Tree,
        };
    }

    /// Takes note of the number of rows and moves the first row shown so that
    /// the selected row is among the `visible` rows shown: up to the selected
    /// row if that lies above, and down just far enough if it lies below.
    /// With no row visible the first row shown is the one behind the
    /// selection, which must exist as an index.
    pub fn scroll_into_view(&mut self, total_items: usize, visible: usize)
        requires
            visible > 0 || old(self).selected < usize::MAX,
        ensures
            final(self).total_items == total_items,
            final(self).offset == (if old(self).selected < old(self).offset {
                old(self).selected as int
            } else if old(self).selected >= old(self).offset + visible {
                old(self).selected - visible + 1
            } else {
                old(self).offset as int
            }),
            visible > 0 ==> final(self).offset <= final(self).selected < final(self).offset
                + visible,
            final(self).selected == old(self).selected,
            final(self).collapsed == old(self).collapsed,
            final(self).view_mode == old(self).view_mode,
    {
        self.total_items = total_items;
        if self.selected < self.offset {
            self.offset = self.selected;
        } else if self.selected - self.offset >= visible {
            self.offset = self.selected - visible + 1;
        }
    }

    /// The row that the selection refers to in the list of `state`.
    fn selected_row(&self, state: &DashboardState) -> (r: Option<(usize, Option<usize>)>)
        ensures
            match r {
                Some((pi, None)) => row_at(state@.phases, self.collapsed@, self.selected as int)
                    == Some(Row::Phase(pi as int)) && pi < state@.phases.len(),
                Some((pi, Some(ti))) => row_at(state@.phases, self.collapsed@, self.selected as int)
                    == Some(Row::Task(pi as int, ti as int)) && pi < state@.phases.len() && ti
                    < state@.phases[pi as int].tasks.len(),
                None => row_at(state@.phases, self.collapsed@, self.selected as int) is None,
            },
    {
        locate_row(&state.phases, &self.collapsed, self.selected)
    }

    /// The index of the phase whose heading is selected. `None` when a task is
    /// selected, or when the selection is past the last row.
    pub fn selected_phase_index(&self, state: &DashboardState) -> (r: Option<usize>)
        ensures
            match r {
                Some(pi) => row_at(state@.phases, self.collapsed@, self.selected as int) == Some(
                    Row::Phase(pi as int),
                ) && pi < state@.phases.len(),
                None => !(row_at(state@.phases, self.collapsed@, self.selected as int) matches Some(
                    Row::Phase(_),
                )),
            },
    {
        match self.selected_row(state) {
            Some((pi, None)) => Some(pi),
            _ => None,
        }
    }

    /// Phase and task index of the selected task. `None` when a phase heading
    /// is selected, or when the selection is past the last row. The indices
    /// returned always refer to a task that `state` holds.
    pub fn selected_task(&self, state: &DashboardState) -> (r: Option<(usize, usize)>)
        ensures
            match r {
                Some((pi, ti)) => row_at(state@.phases, self.collapsed@, self.selected as int)
                    == Some(Row::Task(pi as int, ti as int)) && pi < state.phases@.len() && ti
                    < state.phases@[pi as int].tasks@.len(),
                None => !(row_at(state@.phases, self.collapsed@, self.selected as int) matches Some(
                    Row::Task(_, _),
                )),
            },
    {
        match self.selected_row(state) {
            Some((pi, Some(ti))) => Some((pi, ti)),
            _ => None,
        }
    }
}

/// The mark that stands for a status in the list.
pub open spec fn icon_of(status: TaskStatus) -> Seq<char> {
    match status {
        TaskStatus::Completed => "[x]"@,
        TaskStatus::InProgress => "[/]"@,
        TaskStatus::Pending => "[ ]"@,
        TaskStatus::Failed => "[!]"@,
        TaskStatus::Blocked => "[B]"@,
    }
}

/// The mark that stands for a status in the list.
pub fn status_icon(status: &TaskStatus) -> (r: &'static str)
    ensures
        r@ == icon_of(*status),
{
    match status {
        TaskStatus::Completed => "[x]",
        TaskStatus::InProgress => "[/]",
        TaskStatus::Pending => "[ ]",
        TaskStatus::Failed => "[!]",
        TaskStatus::Blocked => "[B]",
    }
}

} // verus!
