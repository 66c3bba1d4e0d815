//! The figures of the status bar: tasks by status, and the time the dashboard
//! has been running.

use vstd::prelude::*;

use crate::data::state::{status_total, DashboardState};
use crate::data::tasks_parser::{
    count_status, phases_view, status_count, task_total, PhaseModel, TaskModel, TaskStatus,
};

verus! {

/// Every task has exactly one of the five statuses.
pub proof fn lemma_status_counts_add_up(tasks: Seq<TaskModel>)
    ensures
        status_count(tasks, TaskStatus::Pending) + status_count(tasks, TaskStatus::InProgress)
            + status_count(tasks, TaskStatus::Completed) + status_count(tasks, TaskStatus::Failed)
            + status_count(tasks, TaskStatus::Blocked) == tasks.len(),
    decreases tasks.len(),
{
    if tasks.len() > 0 {
        lemma_status_counts_add_up(tasks.drop_last());
    }
}

/// Over all phases, the five status totals add up to the number of tasks.
pub proof fn lemma_status_totals_add_up(phases: Seq<PhaseModel>)
    ensures
        status_total(phases, TaskStatus::Pending) + status_total(phases, TaskStatus::InProgress)
            + status_total(phases, TaskStatus::Completed) + status_total(
            phases,
            TaskStatus::Failed,
        ) + status_total(phases, TaskStatus::Blocked) == task_total(phases),
    decreases phases.len(),
{
    if phases.len() > 0 {
        lemma_status_totals_add_up(phases.drop_last());
        lemma_status_counts_add_up(phases.last().tasks);
    }
}

/// Tasks by status, over all phases: completed, in progress, failed, and the
/// rest, which are the pending and the blocked ones.
pub fn count_by_status(state: &DashboardState) -> (r: (usize, usize, usize, usize))
    requires
        state.wf(),
    ensures
        r.0 == status_total(state@.phases, TaskStatus::Completed),
        r.1 == status_total(state@.phases, TaskStatus::InProgress),
        r.2 == status_total(state@.phases, TaskStatus::Failed),
        r.3 == status_total(state@.phases, TaskStatus::Pending) + status_total(
            state@.phases,
            TaskStatus::Blocked,
        ),
        r.0 + r.1 + r.2 + r.3 == state.total_tasks,
{
    let mut completed: usize = 0;
    let mut in_progress: usize = 0;
    let mut failed: usize = 0;
    let mut rest: usize = 0;
    let ghost all = phases_view(state.phases@);
    let mut i: usize = 0;
    while i < state.phases.len()
        invariant
            i <= state.phases.len(),
            all == phases_view(state.phases@),
            task_total(all) <= usize::MAX,
            completed == status_total(all.take(i as int), TaskStatus::Completed),
            in_progress == status_total(all.take(i as int), TaskStatus::InProgress),
            failed == status_total(all.take(i as int), TaskStatus::Failed),
            rest == status_total(all.take(i as int), TaskStatus::Pending) + status_total(
                all.take(i as int),
                TaskStatus::Blocked,
            ),
        decreases state.phases.len() - i,
    {
        proof {
            let next = all.take(i + 1);
            assert(next.drop_last() == all.take(i as int));
            crate::data::state::lemma_totals(all, TaskStatus::Completed, i + 1);
            lemma_status_totals_add_up(next);
        }
        let tasks = &state.phases[i].tasks;
        completed = completed + count_status(tasks, TaskStatus::Completed);
        in_progress = in_progress + count_status(tasks, TaskStatus::InProgress);
        failed = failed + count_status(tasks, TaskStatus::Failed);
        rest = rest + count_status(tasks, TaskStatus::Pending);
        rest = rest + count_status(tasks, TaskStatus::Blocked);
        i += 1;
    }
    proof {
        assert(all.take(state.phases.len() as int) == all);
        lemma_status_totals_add_up(all);
    }
    (completed, in_progress, failed, rest)
}

/// The character for a decimal digit.
pub open spec fn digit_char(d: nat) -> char {
    if d == 0 {
        '0'
    } else if d == 1 {
        '1'
    } else if d == 2 {
        '2'
    } else if d == 3 {
        '3'
    } else if d == 4 {
        '4'
    } else if d == 5 {
        '5'
    } else if d == 6 {
        '6'
    } else if d == 7 {
        '7'
    } else if d == 8 {
        '8'
    } else {
        '9'
    }
}

/// `n` in decimal notation, without leading zeros.
pub open spec fn decimal(n: nat) -> Seq<char>
    decreases n,
{
    if n < 10 {
        seq![digit_char(n)]
    } else {
        decimal(n / 10).push(digit_char(n % 10))
    }
}

/// `n` in decimal notation with at least two digits.
pub open spec fn two_digits(n: nat) -> Seq<char> {
    if n < 10 {
        seq!['0'] + decimal(n)
    } else {
        decimal(n)
    }
}

/// A duration in seconds as hours, minutes and seconds, each with at least two
/// digits and separated by colons.
pub open spec fn uptime_text(seconds: nat) -> Seq<char> {
    two_digits(seconds / 3600) + seq![':'] + two_digits((seconds % 3600) / 60) + seq![':']
        + two_digits(seconds % 60)
}

fn digit_of(d: u64) -> (c: char)
    requires
        d < 10,
    ensures
        c == digit_char(d as nat),
{
    if d == 0 {
        '0'
    } else if d == 1 {
        '1'
    } else if d == 2 {
        '2'
    } else if d == 3 {
        '3'
    } else if d == 4 {
        '4'
    } else if d == 5 {
        '5'
    } else if d == 6 {
        '6'
    } else if d == 7 {
        '7'
    } else if d == 8 {
        '8'
    } else {
        '9'
    }
}

fn push_two_digits(out: &mut String, n: u64)
    ensures
        final(out)@ == old(out)@ + two_digits(n as nat),
{
    // Digits come out last first; they are collected and then written in
    // reverse.
    let mut digits: Vec<char> = Vec::new();
    let mut rest: u64 = n;
    while rest >= 10
        invariant
            decimal(rest as nat) + digits@.reverse() == decimal(n as nat),
        decreases rest,
    {
        let c = digit_of(rest % 10);
        digits.push(c);
        rest = rest / 10;
    }
    let first = digit_of(rest);
    if n < 10 {
        out.push('0');
    }
    out.push(first);
    let ghost head = out@;
    let mut k: usize = digits.len();
    while k > 0
        invariant
            k <= digits.len(),
            out@ == head + digits@.reverse().take(digits.len() - k),
        decreases k,
    {
        k -= 1;
        out.push(digits[k]);
    }
}

/// A duration in seconds as `HH:MM:SS`. Hours beyond 99 take more digits.
pub fn format_uptime(seconds: u64) -> (r: String)
    ensures
        r@ == uptime_text(seconds as nat),
{
    let mut out = String::new();
    push_two_digits(&mut out, seconds / 3600);
    out.push(':');
    push_two_digits(&mut out, (seconds % 3600) / 60);
    out.push(':');
    push_two_digits(&mut out, seconds % 60);
    out
}

} // verus!
