//! The dashboard state.
//!
//! The state is fed from two sides that never touch each other's data. Reading
//! a ledger replaces the phases and recomputes the task counters. Applying
//! activity events updates the agents, the task timings and the error log.
//!
//! The value of a state is a `DashboardModel`; `replace_ledger` and
//! `apply_event` say what the two sides do to it.

use vstd::prelude::*;

use crate::data::id_map::IdMap;
use crate::data::tasks_parser::{
    all_tasks, count_status, strings_view, opt_string_view, parse_document, parse_tasks_md, phases_view, status_count,
    task_total, ParsedPhase, PhaseModel, TaskStatus,
};

verus! {

/// A point in time, in milliseconds since the Unix epoch.
#[derive(Debug, Clone, Copy, PartialEq, Eq, Structural)]
pub struct Timestamp {
    pub millis: i64,
}

/// What an agent is doing, as far as its events tell.
#[derive(Debug, Clone, Copy, PartialEq, Eq, Structural)]
pub enum AgentStatus {
    Idle,
    Running,
    Error,
}

/// What is known of one agent.
#[derive(Debug, Clone)]
pub struct AgentState {
    pub agent_id: String,
    pub status: AgentStatus,
    pub current_task: Option<String>,
    pub current_tool: Option<String>,
    pub event_count: usize,
    pub error_count: usize,
}

/// Mathematical value of an `AgentState`.
pub struct AgentModel {
    pub agent_id: Seq<char>,
    pub status: AgentStatus,
    pub current_task: Option<Seq<char>>,
    pub current_tool: Option<Seq<char>>,
    pub event_count: nat,
    pub error_count: nat,
}

impl View for AgentState {
    type V = AgentModel;

    open spec fn view(&self) -> AgentModel {
        AgentModel {
            agent_id: self.agent_id@,
            status: self.status,
            current_task: opt_string_view(self.current_task),
            current_tool: opt_string_view(self.current_tool),
            event_count: self.event_count as nat,
            error_count: self.error_count as nat,
        }
    }
}

/// When work on a task began and when it ended.
#[derive(Debug, Clone, Copy, PartialEq, Eq, Structural)]
pub struct TaskTiming {
    pub started_at: Option<Timestamp>,
    pub completed_at: Option<Timestamp>,
}

impl View for TaskTiming {
    type V = TaskTiming;

    open spec fn view(&self) -> TaskTiming {
        *self
    }
}

impl Default for TaskTiming {
    fn default() -> (r: Self)
        ensures
            r == no_timing(),
    {
        TaskTiming { started_at: None, completed_at: None }
    }
}

/// Kind of an activity event.
#[derive(Debug, Clone, Copy, PartialEq, Eq, Structural)]
pub enum EventType {
    AgentStart,
    AgentEnd,
    ToolStart,
    ToolEnd,
    Error,
}

/// One activity event of an agent.
#[derive(Debug, Clone)]
pub struct HookEvent {
    pub event_type: EventType,
    pub agent_id: String,
    pub task_id: String,
    pub timestamp: Timestamp,
    pub tool_name: Option<String>,
    pub error_message: Option<String>,
}

/// Mathematical value of a `HookEvent`.
pub struct EventModel {
    pub event_type: EventType,
    pub agent_id: Seq<char>,
    pub task_id: Seq<char>,
    pub timestamp: Timestamp,
    pub tool_name: Option<Seq<char>>,
    pub error_message: Option<Seq<char>>,
}

impl View for HookEvent {
    type V = EventModel;

    open spec fn view(&self) -> EventModel {
        EventModel {
            event_type: self.event_type,
            agent_id: self.agent_id@,
            task_id: self.task_id@,
            timestamp: self.timestamp,
            tool_name: opt_string_view(self.tool_name),
            error_message: opt_string_view(self.error_message),
        }
    }
}

/// What an error classifier says of an error message.
#[derive(Debug, Clone)]
pub struct ErrorAnalysis {
    pub category: String,
    pub retryable: bool,
    pub suggestion: String,
}

/// Mathematical value of an `ErrorAnalysis`.
pub struct AnalysisModel {
    pub category: Seq<char>,
    pub retryable: bool,
    pub suggestion: Seq<char>,
}

impl View for ErrorAnalysis {
    type V = AnalysisModel;

    open spec fn view(&self) -> AnalysisModel {
        AnalysisModel {
            category: self.category@,
            retryable: self.retryable,
            suggestion: self.suggestion@,
        }
    }
}

/// An error that an agent reported, with its classification.
#[derive(Debug, Clone)]
pub struct ErrorRecord {
    pub agent_id: String,
    pub task_id: String,
    pub message: String,
    pub category: String,
    pub retryable: bool,
    pub suggestion: String,
    pub timestamp: Timestamp,
}

/// Mathematical value of an `ErrorRecord`.
pub struct ErrorModel {
    pub agent_id: Seq<char>,
    pub task_id: Seq<char>,
    pub message: Seq<char>,
    pub category: Seq<char>,
    pub retryable: bool,
    pub suggestion: Seq<char>,
    pub timestamp: Timestamp,
}

impl View for ErrorRecord {
    type V = ErrorModel;

    open spec fn view(&self) -> ErrorModel {
        ErrorModel {
            agent_id: self.agent_id@,
            task_id: self.task_id@,
            message: self.message@,
            category: self.category@,
            retryable: self.retryable,
            suggestion: self.suggestion@,
            timestamp: self.timestamp,
        }
    }
}

pub open spec fn errors_view(v: Seq<ErrorRecord>) -> Seq<ErrorModel> {
    Seq::new(v.len(), |i: int| v[i]@)
}

pub open spec fn events_view(v: Seq<HookEvent>) -> Seq<EventModel> {
    Seq::new(v.len(), |i: int| v[i]@)
}

/// Everything the dashboard shows.
#[derive(Debug, Clone)]
pub struct DashboardState {
    /// The phases of the ledger as last read.
    pub phases: Vec<ParsedPhase>,
    /// One entry for each agent ever seen, by agent identifier.
    pub agents: IdMap<AgentState>,
    /// Timings by task identifier.
    pub task_times: IdMap<TaskTiming>,
    /// Errors in the order in which they were reported.
    pub recent_errors: Vec<ErrorRecord>,
    pub total_tasks: usize,
    pub completed_tasks: usize,
    pub failed_tasks: usize,
}

/// Mathematical value of a `DashboardState`.
pub struct DashboardModel {
    pub phases: Seq<PhaseModel>,
    pub agents: Map<Seq<char>, AgentModel>,
    pub task_times: Map<Seq<char>, TaskTiming>,
    pub errors: Seq<ErrorModel>,
    pub total_tasks: nat,
    pub completed_tasks: nat,
    pub failed_tasks: nat,
}

impl View for DashboardState {
    type V = DashboardModel;

    open spec fn view(&self) -> DashboardModel {
        DashboardModel {
            phases: phases_view(self.phases@),
            agents: self.agents@,
            task_times: self.task_times@,
            errors: errors_view(self.recent_errors@),
            total_tasks: self.total_tasks as nat,
            completed_tasks: self.completed_tasks as nat,
            failed_tasks: self.failed_tasks as nat,
        }
    }
}

// ---------------------------------------------------------------------------
// The ledger side
// ---------------------------------------------------------------------------

/// Number of tasks with status `status` in all of `phases`.
pub open spec fn status_total(phases: Seq<PhaseModel>, status: TaskStatus) -> nat
    decreases phases.len(),
{
    if phases.len() == 0 {
        0
    } else {
        status_total(phases.drop_last(), status) + status_count(phases.last().tasks, status)
    }
}

/// The state without ledger, agents, timings or errors.
pub open spec fn empty_model() -> DashboardModel {
    DashboardModel {
        phases: Seq::empty(),
        agents: Map::empty(),
        task_times: Map::empty(),
        errors: Seq::empty(),
        total_tasks: 0,
        completed_tasks: 0,
        failed_tasks: 0,
    }
}

/// The state after a ledger has been read: the phases are replaced and the
/// counters recomputed from them; agents, timings and errors stay.
pub open spec fn replace_ledger(m: DashboardModel, phases: Seq<PhaseModel>) -> DashboardModel {
    DashboardModel {
        phases,
        agents: m.agents,
        task_times: m.task_times,
        errors: m.errors,
        total_tasks: task_total(phases),
        completed_tasks: status_total(phases, TaskStatus::Completed),
        failed_tasks: status_total(phases, TaskStatus::Failed),
    }
}

/// The counters agree with the phases, and every agent is filed under its own
/// identifier.
pub open spec fn model_wf(m: DashboardModel) -> bool {
    &&& m.total_tasks == task_total(m.phases)
    &&& m.completed_tasks == status_total(m.phases, TaskStatus::Completed)
    &&& m.failed_tasks == status_total(m.phases, TaskStatus::Failed)
    &&& forall|k: Seq<char>| #[trigger] m.agents.contains_key(k) ==> m.agents[k].agent_id == k
}

/// No status is counted more often than there are tasks, and a prefix of the
/// phases holds no more tasks than all of them.
pub proof fn lemma_totals(phases: Seq<PhaseModel>, status: TaskStatus, i: int)
    requires
        0 <= i <= phases.len(),
    ensures
        status_total(phases, status) <= task_total(phases),
        task_total(phases.take(i)) <= task_total(phases),
    decreases phases.len(),
{
    if phases.len() > 0 {
        crate::data::tasks_parser::lemma_status_count_bound(phases.last().tasks, status);
        if i < phases.len() {
            lemma_totals(phases.drop_last(), status, i);
            assert(phases.drop_last().take(i) == phases.take(i));
        } else {
            lemma_totals(phases.drop_last(), status, 0);
            assert(phases.take(i) == phases);
        }
    }
}

/// The three counters of a ledger: all tasks, the completed and the failed
/// ones. `None` if there are more tasks than can be counted.
pub fn count_ledger(phases: &Vec<ParsedPhase>) -> (r: Option<(usize, usize, usize)>)
    ensures
        match r {
            Some((total, completed, failed)) => {
                &&& total == task_total(phases_view(phases@))
                &&& completed == status_total(phases_view(phases@), TaskStatus::Completed)
                &&& failed == status_total(phases_view(phases@), TaskStatus::Failed)
            },
            None => task_total(phases_view(phases@)) > usize::MAX,
        },
{
    let mut total: usize = 0;
    let mut completed: usize = 0;
    let mut failed: usize = 0;
    let ghost all = phases_view(phases@);
    let mut i: usize = 0;
    assert(all.take(0) == Seq::<PhaseModel>::empty());
    while i < phases.len()
        invariant
            i <= phases.len(),
            all == phases_view(phases@),
            total == task_total(all.take(i as int)),
            completed == status_total(all.take(i as int), TaskStatus::Completed),
            failed == status_total(all.take(i as int), TaskStatus::Failed),
        decreases phases.len() - i,
    {
        proof {
            let next = all.take(i + 1);
            assert(next.drop_last() == all.take(i as int));
            assert(next.last() == phases@[i as int]@);
            lemma_totals(all, TaskStatus::Completed, i + 1);
            lemma_totals(next, TaskStatus::Completed, 0);
            lemma_totals(next, TaskStatus::Failed, 0);
        }
        let phase = &phases[i];
        if phase.tasks.len() > usize::MAX - total {
            return None;
        }
        total = total + phase.tasks.len();
        completed = completed + count_status(&phase.tasks, TaskStatus::Completed);
        failed = failed + count_status(&phase.tasks, TaskStatus::Failed);
        i += 1;
    }
    proof {
        assert(all.take(phases.len() as int) == all);
    }
    Some((total, completed, failed))
}

impl Default for DashboardState {
    fn default() -> (r: Self)
        ensures
            r.wf(),
            r@ == empty_model(),
    {
        let r = DashboardState {
            phases: Vec::new(),
            agents: IdMap::new(),
            task_times: IdMap::new(),
            recent_errors: Vec::new(),
            total_tasks: 0,
            completed_tasks: 0,
            failed_tasks: 0,
        };
        proof {
            assert(r@.phases =~= Seq::empty());
            assert(r@.errors =~= Seq::empty());
        }
        r
    }
}

impl DashboardState {
    /// The maps are well formed and the value satisfies `model_wf`.
    pub open spec fn wf(&self) -> bool {
        &&& self.agents.wf()
        &&& self.task_times.wf()
        &&& model_wf(self@)
    }

    /// Whether the state is well formed. A state that this library has made
    /// is; the check is for a state whose fields were set from outside.
    pub fn is_wf(&self) -> (r: bool)
        ensures
            r == self.wf(),
    {
        if !self.agents.is_wf() || !self.task_times.is_wf() {
            return false;
        }
        match count_ledger(&self.phases) {
            Some((total, completed, failed)) => {
                if total != self.total_tasks || completed != self.completed_tasks || failed
                    != self.failed_tasks {
                    return false;
                }
            },
            None => {
                return false;
            },
        }
        let n = self.agents.len();
        let mut i: usize = 0;
        while i < n
            invariant
                i <= n,
                n == self.agents.ids().len(),
                self.agents.wf(),
                forall|j: int|
                    0 <= j < i ==> (#[trigger] self@.agents[self.agents.ids()[j]]).agent_id
                        == self.agents.ids()[j],
            decreases n - i,
        {
            let agent = self.agents.value_at(i);
            if agent.agent_id != *self.agents.key_at(i) {
                return false;
            }
            i += 1;
        }
        proof {
            assert forall|k: Seq<char>| #[trigger] self@.agents.contains_key(k) implies self@.agents[k].agent_id
                == k by {
                let j = self.agents.ids().index_of(k);
                assert(self.agents.ids().contains(k));
                assert(self.agents.ids()[j] == k);
            }
        }
        true
    }

    /// The state that a ledger text gives on its own. Every text has one.
    pub fn from_tasks_content(content: &str) -> (r: Result<Self, String>)
        ensures
            r matches Ok(state) && state.wf() && state@ == replace_ledger(
                empty_model(),
                parse_document(content@),
            ),
    {
        match parse_tasks_md(content) {
            Ok(phases) => {
                let mut state = DashboardState::default();
                state.update_from_phases(phases);
                Ok(state)
            },
            Err(e) => Err(e),
        }
    }

    /// Replaces the phases and recomputes the counters from them. Agents,
    /// timings and errors are left as they are.
    pub fn update_from_phases(&mut self, phases: Vec<ParsedPhase>)
        requires
            old(self).wf(),
            task_total(phases_view(phases@)) <= usize::MAX,
        ensures
            final(self).wf(),
            final(self)@ == replace_ledger(old(self)@, phases_view(phases@)),
    {
        let mut total: usize = 0;
        let mut completed: usize = 0;
        let mut failed: usize = 0;
        let ghost all = phases_view(phases@);
        let mut i: usize = 0;
        while i < phases.len()
            invariant
                i <= phases.len(),
                all == phases_view(phases@),
                task_total(all) <= usize::MAX,
                total == task_total(all.take(i as int)),
                completed == status_total(all.take(i as int), TaskStatus::Completed),
                failed == status_total(all.take(i as int), TaskStatus::Failed),
            decreases phases.len() - i,
        {
            proof {
                let next = all.take(i + 1);
                assert(next.drop_last() == all.take(i as int));
                lemma_totals(all, TaskStatus::Completed, i + 1);
                lemma_totals(next, TaskStatus::Completed, 0);
                lemma_totals(next, TaskStatus::Failed, 0);
            }
            let phase = &phases[i];
            total = total + phase.tasks.len();
            completed = completed + count_status(&phase.tasks, TaskStatus::Completed);
            failed = failed + count_status(&phase.tasks, TaskStatus::Failed);
            i += 1;
        }
        proof {
            assert(all.take(phases.len() as int) == all);
        }
        self.phases = phases;
        self.total_tasks = total;
        self.completed_tasks = completed;
        self.failed_tasks = failed;
    }

    /// Reads the ledger anew. Every text is accepted; agents, timings and
    /// errors are left as they are.
    pub fn reload_tasks(&mut self, content: &str) -> (r: Result<(), String>)
        requires
            old(self).wf(),
        ensures
            r is Ok,
            final(self).wf(),
            final(self)@ == replace_ledger(old(self)@, parse_document(content@)),
    {
        match parse_tasks_md(content) {
            Ok(phases) => {
                self.update_from_phases(phases);
                Ok(())
            },
            Err(e) => Err(e),
        }
    }

    /// Completed tasks over all tasks, as a fraction. The numerator never
    /// exceeds the denominator; both are zero without tasks.
    pub fn overall_progress(&self) -> (r: (usize, usize))
        requires
            self.wf(),
        ensures
            r.0 == status_total(self@.phases, TaskStatus::Completed),
            r.1 == task_total(self@.phases),
            r.0 <= r.1,
    {
        proof {
            lemma_totals(self@.phases, TaskStatus::Completed, 0);
        }
        (self.completed_tasks, self.total_tasks)
    }
}

/// A timing without start or end.
pub open spec fn no_timing() -> TaskTiming {
    TaskTiming { started_at: None, completed_at: None }
}

// ---------------------------------------------------------------------------
// The activity side
// ---------------------------------------------------------------------------

/// An agent of which nothing has been seen yet.
pub open spec fn idle_agent(id: Seq<char>) -> AgentModel {
    AgentModel {
        agent_id: id,
        status: AgentStatus::Idle,
        current_task: None,
        current_tool: None,
        event_count: 0,
        error_count: 0,
    }
}

/// The entry of agent `id`, or that of an agent not yet seen.
pub open spec fn agent_or_idle(agents: Map<Seq<char>, AgentModel>, id: Seq<char>) -> AgentModel {
    if agents.contains_key(id) {
        agents[id]
    } else {
        idle_agent(id)
    }
}

/// The timing of task `id`, or an empty one.
pub open spec fn timing_or_none(times: Map<Seq<char>, TaskTiming>, id: Seq<char>) -> TaskTiming {
    if times.contains_key(id) {
        times[id]
    } else {
        no_timing()
    }
}

/// The message of an event; empty where the event carries none.
pub open spec fn message_of(e: EventModel) -> Seq<char> {
    match e.error_message {
        Some(m) => m,
        None => Seq::empty(),
    }
}

/// The record that is kept of an error event.
pub open spec fn record_of(e: EventModel, a: AnalysisModel) -> ErrorModel {
    ErrorModel {
        agent_id: e.agent_id,
        task_id: e.task_id,
        message: message_of(e),
        category: a.category,
        retryable: a.retryable,
        suggestion: a.suggestion,
        timestamp: e.timestamp,
    }
}

/// The agent's entry after event `e`. Every event counts; beyond that a start
/// sets the agent running on the event's task, an end sets it idle and clears
/// task and tool, a tool start or end sets or clears the tool, and an error
/// sets the error status and counts as an error.
pub open spec fn agent_after(seen: AgentModel, e: EventModel) -> AgentModel {
    let count = seen.event_count + 1;
    match e.event_type {
        EventType::AgentStart => AgentModel {
            agent_id: seen.agent_id,
            status: AgentStatus::Running,
            current_task: Some(e.task_id),
            current_tool: seen.current_tool,
            event_count: count,
            error_count: seen.error_count,
        },
        EventType::AgentEnd => AgentModel {
            agent_id: seen.agent_id,
            status: AgentStatus::Idle,
            current_task: None,
            current_tool: None,
            event_count: count,
            error_count: seen.error_count,
        },
        EventType::ToolStart => AgentModel {
            agent_id: seen.agent_id,
            status: seen.status,
            current_task: seen.current_task,
            current_tool: e.tool_name,
            event_count: count,
            error_count: seen.error_count,
        },
        EventType::ToolEnd => AgentModel {
            agent_id: seen.agent_id,
            status: seen.status,
            current_task: seen.current_task,
            current_tool: None,
            event_count: count,
            error_count: seen.error_count,
        },
        EventType::Error => AgentModel {
            agent_id: seen.agent_id,
            status: AgentStatus::Error,
            current_task: seen.current_task,
            current_tool: seen.current_tool,
            event_count: count,
            error_count: seen.error_count + 1,
        },
    }
}

/// The timings after event `e` of an agent whose entry was `seen`. A start
/// stamps the start of the event's task unless it has one already; an end
/// stamps the end of the task the agent was working on, replacing an earlier
/// end. Other events leave the timings alone.
pub open spec fn timings_after(
    times: Map<Seq<char>, TaskTiming>,
    seen: AgentModel,
    e: EventModel,
) -> Map<Seq<char>, TaskTiming> {
    match e.event_type {
        EventType::AgentStart => {
            let t = timing_or_none(times, e.task_id);
            times.insert(
                e.task_id,
                TaskTiming {
                    started_at: if t.started_at is None {
                        Some(e.timestamp)
                    } else {
                        t.started_at
                    },
                    completed_at: t.completed_at,
                },
            )
        },
        EventType::AgentEnd => match seen.current_task {
            Some(task) => times.insert(
                task,
                TaskTiming {
                    started_at: timing_or_none(times, task).started_at,
                    completed_at: Some(e.timestamp),
                },
            ),
            None => times,
        },
        _ => times,
    }
}

/// The state after event `e`, where `a` is what the classifier says of the
/// event's message. `a` matters for error events only.
pub open spec fn apply_event(m: DashboardModel, e: EventModel, a: AnalysisModel) -> DashboardModel {
    let seen = agent_or_idle(m.agents, e.agent_id);
    DashboardModel {
        phases: m.phases,
        agents: m.agents.insert(e.agent_id, agent_after(seen, e)),
        task_times: timings_after(m.task_times, seen, e),
        errors: if e.event_type == EventType::Error {
            m.errors.push(record_of(e, a))
        } else {
            m.errors
        },
        total_tasks: m.total_tasks,
        completed_tasks: m.completed_tasks,
        failed_tasks: m.failed_tasks,
    }
}

/// The state after the events `events`, in order, where `analyses[i]` is what
/// the classifier says of the message of `events[i]`.
pub open spec fn apply_events(
    m: DashboardModel,
    events: Seq<EventModel>,
    analyses: Seq<AnalysisModel>,
) -> DashboardModel
    recommends
        events.len() == analyses.len(),
    decreases events.len(),
{
    if events.len() == 0 {
        m
    } else {
        apply_event(
            apply_events(m, events.drop_last(), analyses.drop_last()),
            events.last(),
            analyses.last(),
        )
    }
}

/// Whether `classify` may answer `a` when asked about `message`.
pub open spec fn classified<F: Fn(&String) -> ErrorAnalysis>(
    classify: &F,
    message: Seq<char>,
    a: AnalysisModel,
) -> bool {
    exists|m: String, out: ErrorAnalysis|
        m@ == message && out@ == a && #[trigger] classify.ensures((&m,), out)
}

/// Whether `analyses` may be what `classify` answers for `events`: one answer
/// for each event, and for each error event an answer that `classify` may give
/// for its message.
pub open spec fn analyses_fit<F: Fn(&String) -> ErrorAnalysis>(
    classify: &F,
    events: Seq<HookEvent>,
    analyses: Seq<AnalysisModel>,
) -> bool {
    &&& analyses.len() == events.len()
    &&& forall|i: int|
        0 <= i < events.len() && events[i].event_type == EventType::Error ==> classified(
            classify,
            message_of(events[i]@),
            #[trigger] analyses[i],
        )
}

/// The state with its ledger side kept and its activity side empty: no
/// agents, no timings, no errors.
pub open spec fn without_activity(m: DashboardModel) -> DashboardModel {
    DashboardModel {
        phases: m.phases,
        agents: Map::empty(),
        task_times: Map::empty(),
        errors: Seq::empty(),
        total_tasks: m.total_tasks,
        completed_tasks: m.completed_tasks,
        failed_tasks: m.failed_tasks,
    }
}

/// Number of events counted for agent `id`; zero for an agent never seen.
pub open spec fn event_count_of(m: DashboardModel, id: Seq<char>) -> nat {
    agent_or_idle(m.agents, id).event_count
}

/// Number of events of agent `id` among `events`.
pub open spec fn events_of(events: Seq<EventModel>, id: Seq<char>) -> nat
    decreases events.len(),
{
    if events.len() == 0 {
        0
    } else {
        events_of(events.drop_last(), id) + if events.last().agent_id == id {
            1nat
        } else {
            0nat
        }
    }
}

fn clone_opt(o: &Option<String>) -> (r: Option<String>)
    ensures
        opt_string_view(r) == opt_string_view(*o),
{
    match o {
        Some(s) => Some(s.clone()),
        None => None,
    }
}

/// The events of one file, as far as the file could be read.
#[derive(Debug, Clone)]
pub struct EventFile {
    pub path: String,
    /// The events of the file, or `None` if the file could not be read.
    pub events: Option<Vec<HookEvent>>,
}

/// Mathematical value of an `EventFile`.
pub struct FileModel {
    pub path: Seq<char>,
    pub events: Option<Seq<EventModel>>,
}

impl View for EventFile {
    type V = FileModel;

    open spec fn view(&self) -> FileModel {
        FileModel {
            path: self.path@,
            events: match self.events {
                Some(events) => Some(events_view(events@)),
                None => None,
            },
        }
    }
}

/// The values of a sequence of files.
pub open spec fn files_view(v: Seq<EventFile>) -> Seq<FileModel> {
    Seq::new(v.len(), |i: int| v[i]@)
}

/// Whether the events of `file` are applied to state `m`: the file was read,
/// and the counters have room for its events.
pub open spec fn is_applied(m: DashboardModel, file: FileModel) -> bool {
    file.events is Some && counters_fit(m, file.events->0.len())
}

/// The state after the files `files`, where `analyses[i]` holds what the
/// classifier says of the events of `files[i]`. A file that is not applied
/// leaves the state as it is.
pub open spec fn after_files(
    m: DashboardModel,
    files: Seq<FileModel>,
    analyses: Seq<Seq<AnalysisModel>>,
) -> DashboardModel
    recommends
        files.len() == analyses.len(),
    decreases files.len(),
{
    if files.len() == 0 {
        m
    } else {
        let before = after_files(m, files.drop_last(), analyses.drop_last());
        if is_applied(before, files.last()) {
            apply_events(before, files.last().events->0, analyses.last())
        } else {
            before
        }
    }
}

/// The paths of the files among `files` that are not applied, in order.
pub open spec fn reported_files(
    m: DashboardModel,
    files: Seq<FileModel>,
    analyses: Seq<Seq<AnalysisModel>>,
) -> Seq<Seq<char>>
    recommends
        files.len() == analyses.len(),
    decreases files.len(),
{
    if files.len() == 0 {
        Seq::empty()
    } else {
        let before = after_files(m, files.drop_last(), analyses.drop_last());
        let listed = reported_files(m, files.drop_last(), analyses.drop_last());
        if is_applied(before, files.last()) {
            listed
        } else {
            listed.push(files.last().path)
        }
    }
}

/// Whether every counter of every agent can still grow by `n`.
pub open spec fn counters_fit(m: DashboardModel, n: nat) -> bool {
    forall|k: Seq<char>| #[trigger]
        m.agents.contains_key(k) ==> m.agents[k].event_count + n <= usize::MAX
            && m.agents[k].error_count + n <= usize::MAX
}

impl DashboardState {
    /// Applies one activity event, given what the classifier says of its
    /// message. The classification is used for error events only.
    pub fn apply_event(&mut self, event: &HookEvent, analysis: ErrorAnalysis)
        requires
            old(self).wf(),
            agent_or_idle(old(self)@.agents, event@.agent_id).event_count < usize::MAX,
            agent_or_idle(old(self)@.agents, event@.agent_id).error_count < usize::MAX,
        ensures
            final(self).wf(),
            final(self)@ == apply_event(old(self)@, event@, analysis@),
    {
        let seen = match self.agents.get(event.agent_id.as_str()) {
            Some(a) => AgentState {
                agent_id: a.agent_id.clone(),
                status: a.status,
                current_task: clone_opt(&a.current_task),
                current_tool: clone_opt(&a.current_tool),
                event_count: a.event_count,
                error_count: a.error_count,
            },
            None => AgentState {
                agent_id: event.agent_id.clone(),
                status: AgentStatus::Idle,
                current_task: None,
                current_tool: None,
                event_count: 0,
                error_count: 0,
            },
        };
        let count = seen.event_count + 1;
        let after = match event.event_type {
            EventType::AgentStart => {
                let timing = match self.task_times.get(event.task_id.as_str()) {
                    Some(t) => *t,
                    None => TaskTiming::default(),
                };
                let started_at = if timing.started_at.is_none() {
                    Some(event.timestamp)
                } else {
                    timing.started_at
                };
                self.task_times.insert(
                    event.task_id.clone(),
                    TaskTiming { started_at, completed_at: timing.completed_at },
                );
                AgentState {
                    agent_id: seen.agent_id,
                    status: AgentStatus::Running,
                    current_task: Some(event.task_id.clone()),
                    current_tool: seen.current_tool,
                    event_count: count,
                    error_count: seen.error_count,
                }
            },
            EventType::AgentEnd => {
                match seen.current_task {
                    Some(task) => {
                        let timing = match self.task_times.get(task.as_str()) {
                            Some(t) => *t,
                            None => TaskTiming::default(),
                        };
                        self.task_times.insert(
                            task,
                            TaskTiming {
                                started_at: timing.started_at,
                                completed_at: Some(event.timestamp),
                            },
                        );
                    },
                    None => {},
                }
                AgentState {
                    agent_id: seen.agent_id,
                    status: AgentStatus::Idle,
                    current_task: None,
                    current_tool: None,
                    event_count: count,
                    error_count: seen.error_count,
                }
            },
            EventType::ToolStart => AgentState {
                agent_id: seen.agent_id,
                status: seen.status,
                current_task: seen.current_task,
                current_tool: clone_opt(&event.tool_name),
                event_count: count,
                error_count: seen.error_count,
            },
            EventType::ToolEnd => AgentState {
                agent_id: seen.agent_id,
                status: seen.status,
                current_task: seen.current_task,
                current_tool: None,
                event_count: count,
                error_count: seen.error_count,
            },
            EventType::Error => {
                let message = match &event.error_message {
                    Some(m) => m.clone(),
                    None => String::new(),
                };
                let record = ErrorRecord {
                    agent_id: event.agent_id.clone(),
                    task_id: event.task_id.clone(),
                    message,
                    category: analysis.category,
                    retryable: analysis.retryable,
                    suggestion: analysis.suggestion,
                    timestamp: event.timestamp,
                };
                let ghost errors = errors_view(self.recent_errors@);
                self.recent_errors.push(record);
                proof {
                    assert(errors_view(self.recent_errors@) == errors.push(record@));
                }
                AgentState {
                    agent_id: seen.agent_id,
                    status: AgentStatus::Error,
                    current_task: seen.current_task,
                    current_tool: seen.current_tool,
                    event_count: count,
                    error_count: seen.error_count + 1,
                }
            },
        };
        self.agents.insert(event.agent_id.clone(), after);
    }

    /// Whether `n` more events can be applied without a counter running over.
    pub fn has_room_for(&self, n: usize) -> (r: bool)
        requires
            self.wf(),
        ensures
            r == counters_fit(self@, n as nat),
    {
        let count = self.agents.len();
        let mut i: usize = 0;
        while i < count
            invariant
                i <= count,
                count == self.agents.ids().len(),
                self.wf(),
                forall|j: int|
                    0 <= j < i ==> (#[trigger] self@.agents[self.agents.ids()[j]]).event_count + n
                        <= usize::MAX && self@.agents[self.agents.ids()[j]].error_count + n
                        <= usize::MAX,
            decreases count - i,
        {
            let agent = self.agents.value_at(i);
            if agent.event_count > usize::MAX - n || agent.error_count > usize::MAX - n {
                return false;
            }
            i += 1;
        }
        proof {
            assert forall|k: Seq<char>| #[trigger]
                self@.agents.contains_key(k) implies self@.agents[k].event_count + n <= usize::MAX
                && self@.agents[k].error_count + n <= usize::MAX by {
                assert(self.agents.ids().contains(k));
            }
        }
        true
    }

    /// Applies activity events in the order given. The message of each error
    /// event is handed to `classify`, and the answer goes into the error log.
    /// Nothing is reordered or left out: events applied twice count twice.
    pub fn update_from_events<F: Fn(&String) -> ErrorAnalysis>(
        &mut self,
        events: &[HookEvent],
        classify: &F,
    )
        requires
            old(self).wf(),
            forall|m: &String| #[trigger] classify.requires((m,)),
            counters_fit(old(self)@, events@.len()),
        ensures
            final(self).wf(),
            exists|analyses: Seq<AnalysisModel>|
                analyses_fit(classify, events@, analyses) && final(self)@ == #[trigger] apply_events(
                    old(self)@,
                    events_view(events@),
                    analyses,
                ),
            forall|k: Seq<char>| #[trigger]
                event_count_of(final(self)@, k) == event_count_of(old(self)@, k) + events_of(
                    events_view(events@),
                    k,
                ),
    {
        let n = events.len();
        let ghost all = events_view(events@);
        let ghost mut analyses: Seq<AnalysisModel> = Seq::empty();
        let mut i: usize = 0;
        while i < n
            invariant
                i <= n,
                n == events@.len(),
                all == events_view(events@),
                self.wf(),
                forall|m: &String| #[trigger] classify.requires((m,)),
                analyses.len() == i,
                forall|j: int|
                    0 <= j < i && events@[j].event_type == EventType::Error ==> classified(
                        classify,
                        message_of(events@[j]@),
                        #[trigger] analyses[j],
                    ),
                self@ == apply_events(old(self)@, all.take(i as int), analyses),
                counters_fit(self@, (n - i) as nat),
            decreases n - i,
        {
            let event = &events[i];
            let message = match &event.error_message {
                Some(m) => m.clone(),
                None => String::new(),
            };
            let analysis = if event.event_type == EventType::Error {
                classify(&message)
            } else {
                ErrorAnalysis {
                    category: String::new(),
                    retryable: false,
                    suggestion: String::new(),
                }
            };
            proof {
                let next = all.take(i + 1);
                assert(next.drop_last() == all.take(i as int));
                assert(analyses.push(analysis@).drop_last() == analyses);
                analyses = analyses.push(analysis@);
            }
            self.apply_event(event, analysis);
            i += 1;
        }
        proof {
            assert(all.take(n as int) == all);
            assert(analyses_fit(classify, events@, analyses));
            assert forall|k: Seq<char>| #[trigger]
                event_count_of(self@, k) == event_count_of(old(self)@, k) + events_of(all, k) by {
                lemma_event_count_adds(old(self)@, all, analyses, k);
            }
        }
    }

    /// Starts the activity side anew from the events of a whole file: agents,
    /// timings and errors are forgotten, and then the events are applied in
    /// order. Reading a file again after it has grown therefore counts each of
    /// its events once. The ledger side is left as it is.
    pub fn reload_from_events<F: Fn(&String) -> ErrorAnalysis>(
        &mut self,
        events: &[HookEvent],
        classify: &F,
    )
        requires
            old(self).wf(),
            forall|m: &String| #[trigger] classify.requires((m,)),
        ensures
            final(self).wf(),
            exists|analyses: Seq<AnalysisModel>|
                analyses_fit(classify, events@, analyses) && final(self)@ == #[trigger] apply_events(
                    without_activity(old(self)@),
                    events_view(events@),
                    analyses,
                ),
            forall|k: Seq<char>| #[trigger]
                event_count_of(final(self)@, k) == events_of(events_view(events@), k),
    {
        self.agents = IdMap::new();
        self.task_times = IdMap::new();
        self.recent_errors = Vec::new();
        proof {
            assert(self@.errors =~= Seq::<ErrorModel>::empty());
            assert(self@ == without_activity(old(self)@));
        }
        self.update_from_events(events, classify);
    }

    /// Applies the events of several files, one file after the other. A file
    /// that could not be read is passed over and reported, and so is a file
    /// with more events than the counters have room for; the files behind it
    /// are still applied. Returns the paths of the files reported, in order.
    pub fn load_event_files<F: Fn(&String) -> ErrorAnalysis>(
        &mut self,
        files: &[EventFile],
        classify: &F,
    ) -> (reported: Vec<String>)
        requires
            old(self).wf(),
            forall|m: &String| #[trigger] classify.requires((m,)),
        ensures
            final(self).wf(),
            exists|analyses: Seq<Seq<AnalysisModel>>|
                {
                    &&& analyses.len() == files@.len()
                    &&& forall|i: int|
                        0 <= i < files@.len() && is_applied(
                            after_files(
                                old(self)@,
                                files_view(files@).take(i),
                                analyses.take(i),
                            ),
                            files@[i]@,
                        ) ==> analyses_fit(classify, files@[i].events->0@, #[trigger] analyses[i])
                    &&& final(self)@ == after_files(old(self)@, files_view(files@), analyses)
                    &&& strings_view(reported@) == reported_files(
                        old(self)@,
                        files_view(files@),
                        analyses,
                    )
                },
    {
        let n = files.len();
        let ghost all = files_view(files@);
        let ghost mut analyses: Seq<Seq<AnalysisModel>> = Seq::empty();
        let mut reported: Vec<String> = Vec::new();
        let mut i: usize = 0;
        proof {
            assert(all.take(0) == Seq::<FileModel>::empty());
            assert(strings_view(reported@) == Seq::<Seq<char>>::empty());
        }
        while i < n
            invariant
                i <= n,
                n == files@.len(),
                all == files_view(files@),
                self.wf(),
                forall|m: &String| #[trigger] classify.requires((m,)),
                analyses.len() == i,
                forall|j: int|
                    0 <= j < i && is_applied(
                        after_files(old(self)@, all.take(j), analyses.take(j)),
                        files@[j]@,
                    ) ==> analyses_fit(classify, files@[j].events->0@, #[trigger] analyses[j]),
                self@ == after_files(old(self)@, all.take(i as int), analyses),
                strings_view(reported@) == reported_files(old(self)@, all.take(i as int), analyses),
            decreases n - i,
        {
            let file = &files[i];
            let ghost before = self@;
            let ghost listed = strings_view(reported@);
            let ghost mut answers: Seq<AnalysisModel> = Seq::empty();
            let applied = match &file.events {
                Some(events) => {
                    if self.has_room_for(events.len()) {
                        self.update_from_events(events.as_slice(), classify);
                        proof {
                            answers = choose|a: Seq<AnalysisModel>|
                                analyses_fit(classify, events@, a) && self@ == #[trigger] apply_events(
                                    before,
                                    events_view(events@),
                                    a,
                                );
                        }
                        true
                    } else {
                        false
                    }
                },
                None => false,
            };
            if !applied {
                reported.push(file.path.clone());
            }
            proof {
                let next = all.take(i + 1);
                assert(next.drop_last() == all.take(i as int));
                assert(next.last() == file@);
                let grown = analyses.push(answers);
                assert(grown.drop_last() == analyses);
                assert(grown.take(i as int) == analyses);
                assert forall|j: int|
                    0 <= j < i + 1 && is_applied(
                        after_files(old(self)@, all.take(j), grown.take(j)),
                        files@[j]@,
                    ) implies analyses_fit(classify, files@[j].events->0@, #[trigger] grown[j]) by {
                    if j < i {
                        assert(grown.take(j) == analyses.take(j));
                        assert(grown[j] == analyses[j]);
                    }
                }
                analyses = grown;
                if !applied {
                    assert(strings_view(reported@) == listed.push(file.path@));
                }
            }
            i += 1;
        }
        proof {
            assert(all.take(n as int) == all);
            assert forall|j: int| 0 <= j < n implies files_view(files@).take(j) == all.take(j) by {}
        }
        reported
    }
}

// ---------------------------------------------------------------------------
// The error log
// ---------------------------------------------------------------------------

/// By which identifier the error log is searched.
#[derive(Debug, Clone, Copy, PartialEq, Eq, Structural)]
pub enum ErrorKey {
    Task,
    Agent,
}

/// The identifier of `e` that `key` selects.
pub open spec fn key_of(e: ErrorModel, key: ErrorKey) -> Seq<char> {
    match key {
        ErrorKey::Task => e.task_id,
        ErrorKey::Agent => e.agent_id,
    }
}

/// The errors whose identifier is `id`, the most recent first.
pub open spec fn newest_first(errors: Seq<ErrorModel>, key: ErrorKey, id: Seq<char>) -> Seq<
    ErrorModel,
>
    decreases errors.len(),
{
    if errors.len() == 0 {
        Seq::empty()
    } else {
        (if key_of(errors.last(), key) == id {
            seq![errors.last()]
        } else {
            Seq::empty()
        }) + newest_first(errors.drop_last(), key, id)
    }
}

pub open spec fn error_refs_view(v: Seq<&ErrorRecord>) -> Seq<ErrorModel> {
    Seq::new(v.len(), |i: int| v[i]@)
}

impl DashboardState {
    /// The errors recorded under `id`, the most recent first.
    pub fn errors_for(&self, key: ErrorKey, id: &str) -> (r: Vec<&ErrorRecord>)
        ensures
            error_refs_view(r@) == newest_first(self@.errors, key, id@),
    {
        let wanted = id.to_owned();
        let ghost all = errors_view(self.recent_errors@);
        let mut out: Vec<&ErrorRecord> = Vec::new();
        let mut i: usize = self.recent_errors.len();
        proof {
            assert(all.take(i as int) == all);
        }
        while i > 0
            invariant
                i <= self.recent_errors.len(),
                all == errors_view(self.recent_errors@),
                wanted@ == id@,
                error_refs_view(out@) + newest_first(all.take(i as int), key, id@) == newest_first(
                    all,
                    key,
                    id@,
                ),
            decreases i,
        {
            let ghost rest = all.take(i as int);
            i -= 1;
            let record = &self.recent_errors[i];
            let hit = match key {
                ErrorKey::Task => record.task_id == wanted,
                ErrorKey::Agent => record.agent_id == wanted,
            };
            proof {
                assert(rest.drop_last() == all.take(i as int));
            }
            if hit {
                out.push(record);
            }
        }
        out
    }

    /// The errors of task `task_id`, the most recent first.
    pub fn errors_for_task(&self, task_id: &str) -> (r: Vec<&ErrorRecord>)
        ensures
            error_refs_view(r@) == newest_first(self@.errors, ErrorKey::Task, task_id@),
    {
        self.errors_for(ErrorKey::Task, task_id)
    }

    /// The errors of agent `agent_id`, the most recent first.
    pub fn errors_for_agent(&self, agent_id: &str) -> (r: Vec<&ErrorRecord>)
        ensures
            error_refs_view(r@) == newest_first(self@.errors, ErrorKey::Agent, agent_id@),
    {
        self.errors_for(ErrorKey::Agent, agent_id)
    }
}

// ---------------------------------------------------------------------------
// Laws
// ---------------------------------------------------------------------------

proof fn lemma_status_count_concat(
    a: Seq<crate::data::tasks_parser::TaskModel>,
    b: Seq<crate::data::tasks_parser::TaskModel>,
    status: TaskStatus,
)
    ensures
        status_count(a + b, status) == status_count(a, status) + status_count(b, status),
    decreases b.len(),
{
    if b.len() > 0 {
        lemma_status_count_concat(a, b.drop_last(), status);
        assert((a + b).drop_last() == a + b.drop_last());
    }
}

/// The counters of a state count the tasks of its phases: the total is the
/// number of tasks in all phases together, and each status counter is the
/// number of those tasks that have the status.
pub proof fn lemma_counters_count_tasks(phases: Seq<PhaseModel>, status: TaskStatus)
    ensures
        task_total(phases) == all_tasks(phases).len(),
        status_total(phases, status) == status_count(all_tasks(phases), status),
    decreases phases.len(),
{
    if phases.len() > 0 {
        lemma_counters_count_tasks(phases.drop_last(), status);
        lemma_status_count_concat(all_tasks(phases.drop_last()), phases.last().tasks, status);
    }
}

/// For every document, the total that a state built from it reports is the
/// number of tasks in the phases that the parser returns for it.
pub proof fn lemma_total_is_sum_of_phases(text: Seq<char>)
    ensures
        replace_ledger(empty_model(), parse_document(text)).total_tasks == all_tasks(
            parse_document(text),
        ).len(),
        model_wf(replace_ledger(empty_model(), parse_document(text))),
{
    lemma_counters_count_tasks(parse_document(text), TaskStatus::Completed);
}

/// Events never touch the ledger side: phases and counters stay.
pub proof fn lemma_events_keep_ledger(
    m: DashboardModel,
    events: Seq<EventModel>,
    analyses: Seq<AnalysisModel>,
)
    ensures
        apply_events(m, events, analyses).phases == m.phases,
        apply_events(m, events, analyses).total_tasks == m.total_tasks,
        apply_events(m, events, analyses).completed_tasks == m.completed_tasks,
        apply_events(m, events, analyses).failed_tasks == m.failed_tasks,
    decreases events.len(),
{
    if events.len() > 0 {
        lemma_events_keep_ledger(m, events.drop_last(), analyses.drop_last());
    }
}

/// What events do to agents, timings and errors depends on nothing else: two
/// states that agree on those three still agree on them after the same events,
/// whatever ledgers they hold. In particular two fresh states fed the same
/// events end with the same agents and timings.
pub proof fn lemma_events_ignore_ledger(
    m1: DashboardModel,
    m2: DashboardModel,
    events: Seq<EventModel>,
    analyses: Seq<AnalysisModel>,
)
    requires
        m1.agents == m2.agents,
        m1.task_times == m2.task_times,
        m1.errors == m2.errors,
    ensures
        apply_events(m1, events, analyses).agents == apply_events(m2, events, analyses).agents,
        apply_events(m1, events, analyses).task_times == apply_events(
            m2,
            events,
            analyses,
        ).task_times,
        apply_events(m1, events, analyses).errors == apply_events(m2, events, analyses).errors,
    decreases events.len(),
{
    if events.len() > 0 {
        lemma_events_ignore_ledger(m1, m2, events.drop_last(), analyses.drop_last());
    }
}

/// Every event of an agent adds one to its event count.
pub proof fn lemma_event_count_adds(
    m: DashboardModel,
    events: Seq<EventModel>,
    analyses: Seq<AnalysisModel>,
    id: Seq<char>,
)
    ensures
        event_count_of(apply_events(m, events, analyses), id) == event_count_of(m, id) + events_of(
            events,
            id,
        ),
    decreases events.len(),
{
    if events.len() > 0 {
        lemma_event_count_adds(m, events.drop_last(), analyses.drop_last(), id);
    }
}

/// Applying the same events a second time to the same state counts them a
/// second time, whatever the classifier answers either time.
pub proof fn lemma_replay_counts_twice(
    m: DashboardModel,
    events: Seq<EventModel>,
    first: Seq<AnalysisModel>,
    second: Seq<AnalysisModel>,
    id: Seq<char>,
)
    ensures
        event_count_of(apply_events(apply_events(m, events, first), events, second), id)
            == event_count_of(m, id) + 2 * events_of(events, id),
        event_count_of(
            apply_events(apply_events(empty_model(), events, first), events, second),
            id,
        ) == 2 * events_of(events, id),
{
    lemma_event_count_adds(m, events, first, id);
    lemma_event_count_adds(apply_events(m, events, first), events, second, id);
    lemma_event_count_adds(empty_model(), events, first, id);
    lemma_event_count_adds(apply_events(empty_model(), events, first), events, second, id);
}

/// Every file that is not applied is reported, and no other: the paths
/// reported are as many as the files not applied, and each such file finds its
/// path among them.
pub proof fn lemma_files_not_applied_are_reported(
    m: DashboardModel,
    files: Seq<FileModel>,
    analyses: Seq<Seq<AnalysisModel>>,
    i: int,
)
    requires
        analyses.len() == files.len(),
        0 <= i < files.len(),
        !is_applied(after_files(m, files.take(i), analyses.take(i)), files[i]),
    ensures
        reported_files(m, files, analyses).contains(files[i].path),
        reported_files(m, files, analyses).len() <= files.len(),
    decreases files.len(),
{
    lemma_reported_count(m, files, analyses);
    let listed = reported_files(m, files, analyses);
    if i == files.len() - 1 {
        assert(files.take(i) == files.drop_last());
        assert(analyses.take(i) == analyses.drop_last());
        assert(listed.last() == files[i].path);
    } else {
        let head = files.drop_last();
        assert(head.take(i) == files.take(i));
        assert(analyses.drop_last().take(i) == analyses.take(i));
        lemma_files_not_applied_are_reported(m, head, analyses.drop_last(), i);
        let before = reported_files(m, head, analyses.drop_last());
        let k = choose|k: int| 0 <= k < before.len() && before[k] == files[i].path;
        assert(listed[k] == files[i].path);
    }
}

proof fn lemma_reported_count(
    m: DashboardModel,
    files: Seq<FileModel>,
    analyses: Seq<Seq<AnalysisModel>>,
)
    ensures
        reported_files(m, files, analyses).len() <= files.len(),
    decreases files.len(),
{
    if files.len() > 0 {
        lemma_reported_count(m, files.drop_last(), analyses.drop_last());
    }
}

/// Reading the same ledger again changes nothing.
pub proof fn lemma_reload_is_idempotent(m: DashboardModel, phases: Seq<PhaseModel>)
    ensures
        replace_ledger(replace_ledger(m, phases), phases) == replace_ledger(m, phases),
{
}

/// Reading a ledger leaves agents, timings and errors as they are, and gives
/// a state whose counters agree with its phases.
pub proof fn lemma_reload_keeps_activity(m: DashboardModel, phases: Seq<PhaseModel>)
    requires
        model_wf(m),
    ensures
        replace_ledger(m, phases).agents == m.agents,
        replace_ledger(m, phases).task_times == m.task_times,
        replace_ledger(m, phases).errors == m.errors,
        model_wf(replace_ledger(m, phases)),
{
}

/// Events never remove anything: an agent once seen stays, a task once timed
/// stays, and the error log only grows at its end.
pub proof fn lemma_events_only_add(
    m: DashboardModel,
    events: Seq<EventModel>,
    analyses: Seq<AnalysisModel>,
)
    ensures
        forall|k: Seq<char>| #[trigger]
            m.agents.contains_key(k) ==> apply_events(m, events, analyses).agents.contains_key(k),
        forall|k: Seq<char>| #[trigger]
            m.task_times.contains_key(k) ==> apply_events(
                m,
                events,
                analyses,
            ).task_times.contains_key(k),
        m.errors.is_prefix_of(apply_events(m, events, analyses).errors),
    decreases events.len(),
{
    if events.len() > 0 {
        lemma_events_only_add(m, events.drop_last(), analyses.drop_last());
    }
}

/// The first start of a task wins: once a task has a start time, no event
/// changes it.
pub proof fn lemma_first_start_wins(
    m: DashboardModel,
    events: Seq<EventModel>,
    analyses: Seq<AnalysisModel>,
    task: Seq<char>,
)
    requires
        m.task_times.contains_key(task),
        m.task_times[task].started_at is Some,
    ensures
        apply_events(m, events, analyses).task_times.contains_key(task),
        apply_events(m, events, analyses).task_times[task].started_at
            == m.task_times[task].started_at,
    decreases events.len(),
{
    if events.len() > 0 {
        lemma_first_start_wins(m, events.drop_last(), analyses.drop_last(), task);
    }
}

/// The last end of a task wins: after an agent that was working on a task has
/// ended, the end time of the task is the time of that event.
pub proof fn lemma_last_end_wins(m: DashboardModel, e: EventModel, a: AnalysisModel)
    requires
        e.event_type == EventType::AgentEnd,
        agent_or_idle(m.agents, e.agent_id).current_task is Some,
    ensures
        ({
            let task = agent_or_idle(m.agents, e.agent_id).current_task->0;
            let after = apply_event(m, e, a);
            &&& after.task_times.contains_key(task)
            &&& after.task_times[task].completed_at == Some(e.timestamp)
            &&& after.task_times[task].started_at == timing_or_none(m.task_times, task).started_at
        }),
{
}

/// Events keep a well-formed state well formed.
pub proof fn lemma_events_keep_wf(
    m: DashboardModel,
    events: Seq<EventModel>,
    analyses: Seq<AnalysisModel>,
)
    requires
        model_wf(m),
    ensures
        model_wf(apply_events(m, events, analyses)),
    decreases events.len(),
{
    if events.len() > 0 {
        lemma_events_keep_wf(m, events.drop_last(), analyses.drop_last());
    }
}

} // verus!
