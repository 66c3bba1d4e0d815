//! Ledger parser.
//!
//! A ledger is a markdown document. Level-1 and level-2 headings of the form
//! `Phase <n>: <name>` open a phase; level-3 headings of the form
//! `[<status>] <id>: <name>` open a task inside the open phase; the lines below a
//! task heading are its body, from which the owning agent and the dependencies
//! are read. Anything else is skipped: the parser never rejects a document.
//!
//! The meaning of a document is `parse_document`, a left fold of `step` over its
//! lines; `parse_tasks_md` is proved to compute it.

use vstd::prelude::*;

use crate::text::{
    after_prefix, chars_of, index_of, is_space, is_whitespace, lemma_index_of_bounds, lines_of,
    position_of, push_chars, same_text, slices_view, split_lines, string_of, strip_prefix, trim,
    trimmed,
};

verus! {

/// Status of a task as written in its heading.
#[derive(Debug, Clone, Copy, PartialEq, Eq, Structural)]
pub enum TaskStatus {
    Pending,
    InProgress,
    Completed,
    Failed,
    Blocked,
}

/// A task of the ledger.
#[derive(Debug, Clone)]
pub struct ParsedTask {
    pub id: String,
    pub name: String,
    pub status: TaskStatus,
    pub agent: Option<String>,
    pub blocked_by: Vec<String>,
}

/// A phase of the ledger with its tasks, in document order.
#[derive(Debug, Clone)]
pub struct ParsedPhase {
    pub id: String,
    pub name: String,
    pub tasks: Vec<ParsedTask>,
}

/// Mathematical value of a task.
pub struct TaskModel {
    pub id: Seq<char>,
    pub name: Seq<char>,
    pub status: TaskStatus,
    pub agent: Option<Seq<char>>,
    pub blocked_by: Seq<Seq<char>>,
}

/// Mathematical value of a phase.
pub struct PhaseModel {
    pub id: Seq<char>,
    pub name: Seq<char>,
    pub tasks: Seq<TaskModel>,
}

/// A task heading that has been read while its body is still being collected:
/// identifier, name and status.
pub type PendingModel = (Seq<char>, Seq<char>, TaskStatus);

/// What the parser remembers between two lines.
pub struct LedgerState {
    /// Phases that are closed, in document order.
    pub phases: Seq<PhaseModel>,
    /// The phase that is open, if any.
    pub current: Option<PhaseModel>,
    /// The task whose body is being collected, if any.
    pub pending: Option<PendingModel>,
    /// The body collected so far for the pending task.
    pub body: Seq<char>,
}

/// The values of a sequence of strings.
pub open spec fn strings_view(v: Seq<String>) -> Seq<Seq<char>> {
    Seq::new(v.len(), |i: int| v[i]@)
}

/// The value of an optional string.
pub open spec fn opt_string_view(o: Option<String>) -> Option<Seq<char>> {
    match o {
        Some(s) => Some(s@),
        None => None,
    }
}

impl View for ParsedTask {
    type V = TaskModel;

    open spec fn view(&self) -> TaskModel {
        TaskModel {
            id: self.id@,
            name: self.name@,
            status: self.status,
            agent: opt_string_view(self.agent),
            blocked_by: strings_view(self.blocked_by@),
        }
    }
}

/// The values of a sequence of tasks.
pub open spec fn tasks_view(v: Seq<ParsedTask>) -> Seq<TaskModel> {
    Seq::new(v.len(), |i: int| v[i]@)
}

impl View for ParsedPhase {
    type V = PhaseModel;

    open spec fn view(&self) -> PhaseModel {
        PhaseModel { id: self.id@, name: self.name@, tasks: tasks_view(self.tasks@) }
    }
}

/// The values of a sequence of phases.
pub open spec fn phases_view(v: Seq<ParsedPhase>) -> Seq<PhaseModel> {
    Seq::new(v.len(), |i: int| v[i]@)
}

/// The value of an optional phase.
pub open spec fn opt_phase_view(o: Option<ParsedPhase>) -> Option<PhaseModel> {
    match o {
        Some(p) => Some(p@),
        None => None,
    }
}

/// The value of an optional pending task heading.
pub open spec fn pending_view(o: Option<(String, String, TaskStatus)>) -> Option<PendingModel> {
    match o {
        Some((id, name, status)) => Some((id@, name@, status)),
        None => None,
    }
}

/// Number of tasks among `tasks` whose status is `status`.
pub open spec fn status_count(tasks: Seq<TaskModel>, status: TaskStatus) -> nat
    decreases tasks.len(),
{
    if tasks.len() == 0 {
        0
    } else {
        status_count(tasks.drop_last(), status) + if tasks.last().status == status {
            1nat
        } else {
            0nat
        }
    }
}

/// Number of tasks among `tasks` whose status is `Completed`.
pub open spec fn completed_count(tasks: Seq<TaskModel>) -> nat {
    status_count(tasks, TaskStatus::Completed)
}

/// Number of tasks in all of `phases`.
pub open spec fn task_total(phases: Seq<PhaseModel>) -> nat
    decreases phases.len(),
{
    if phases.len() == 0 {
        0
    } else {
        task_total(phases.drop_last()) + phases.last().tasks.len()
    }
}

/// No status is counted more often than there are tasks.
pub proof fn lemma_status_count_bound(tasks: Seq<TaskModel>, status: TaskStatus)
    ensures
        status_count(tasks, status) <= tasks.len(),
    decreases tasks.len(),
{
    if tasks.len() > 0 {
        lemma_status_count_bound(tasks.drop_last(), status);
    }
}

// ---------------------------------------------------------------------------
// Status tags
// ---------------------------------------------------------------------------

/// Whether `tag` is made of spaces and tabs only.
pub open spec fn is_blank_tag(tag: Seq<char>) -> bool {
    forall|i: int| 0 <= i < tag.len() ==> tag[i] == ' ' || tag[i] == '\t'
}

/// The status that the text between the brackets of a task heading stands for.
pub open spec fn status_tag(tag: Seq<char>) -> Option<TaskStatus> {
    if tag == "x"@ {
        Some(TaskStatus::Completed)
    } else if tag == "InProgress"@ {
        Some(TaskStatus::InProgress)
    } else if tag == "Failed"@ {
        Some(TaskStatus::Failed)
    } else if tag == "Blocked"@ {
        Some(TaskStatus::Blocked)
    } else if tag == "/"@ {
        Some(TaskStatus::InProgress)
    } else if is_blank_tag(tag) {
        Some(TaskStatus::Pending)
    } else {
        None
    }
}

/// A bracketed status tag at the front of `s`: the index just behind the
/// closing bracket, and the status.
pub open spec fn status_prefix(s: Seq<char>) -> Option<(int, TaskStatus)> {
    if s.len() == 0 || s[0] != '[' {
        None
    } else {
        let close = index_of(s, ']', 1);
        if close >= s.len() {
            None
        } else {
            match status_tag(s.subrange(1, close)) {
                Some(status) => Some((close + 1, status)),
                None => None,
            }
        }
    }
}

fn blank_tag(tag: &[char]) -> (r: bool)
    ensures
        r == is_blank_tag(tag@),
{
    let mut i: usize = 0;
    while i < tag.len()
        invariant
            i <= tag.len(),
            forall|k: int| 0 <= k < i ==> tag@[k] == ' ' || tag@[k] == '\t',
        decreases tag.len() - i,
    {
        if tag[i] != ' ' && tag[i] != '\t' {
            return false;
        }
        i += 1;
    }
    true
}

fn status_of_tag(tag: &[char]) -> (r: Option<TaskStatus>)
    ensures
        r == status_tag(tag@),
{
    if same_text(tag, "x") {
        Some(TaskStatus::Completed)
    } else if same_text(tag, "InProgress") {
        Some(TaskStatus::InProgress)
    } else if same_text(tag, "Failed") {
        Some(TaskStatus::Failed)
    } else if same_text(tag, "Blocked") {
        Some(TaskStatus::Blocked)
    } else if same_text(tag, "/") {
        Some(TaskStatus::InProgress)
    } else if blank_tag(tag) {
        Some(TaskStatus::Pending)
    } else {
        None
    }
}

fn status_prefix_of(s: &[char]) -> (r: Option<(usize, TaskStatus)>)
    ensures
        match r {
            Some((k, status)) => status_prefix(s@) == Some((k as int, status)) && 2 <= k <= s@.len(),
            None => status_prefix(s@) is None,
        },
{
    if s.len() == 0 || s[0] != '[' {
        return None;
    }
    let close = position_of(s, ']', 1);
    if close >= s.len() {
        return None;
    }
    match status_of_tag(&s[1..close]) {
        Some(status) => Some((close + 1, status)),
        None => None,
    }
}

/// Reads a bracketed status tag at the front of `input` and returns what
/// follows it together with the status.
pub fn parse_status(input: &str) -> (r: Option<(&str, TaskStatus)>)
    ensures
        match status_prefix(input@) {
            Some((k, status)) => r matches Some((rest, found)) && found == status && rest@
                == input@.skip(k),
            None => r is None,
        },
{
    let chars = chars_of(input);
    match status_prefix_of(chars.as_slice()) {
        Some((k, status)) => {
            let rest = input.substring_char(k, chars.len());
            Some((rest, status))
        },
        None => None,
    }
}

// ---------------------------------------------------------------------------
// Headings
// ---------------------------------------------------------------------------

/// What a task heading says, given the text behind `### `: identifier, name
/// and status. Without a colon the whole text serves as both identifier and name.
pub open spec fn task_header(rest: Seq<char>) -> Option<PendingModel> {
    match status_prefix(rest) {
        None => None,
        Some((k, status)) => {
            let remaining = trimmed(rest.skip(k));
            let colon = index_of(remaining, ':', 0);
            if colon < remaining.len() {
                Some((trimmed(remaining.take(colon)), trimmed(remaining.skip(colon + 1)), status))
            } else {
                Some((remaining, remaining, status))
            }
        },
    }
}

fn task_header_of(rest: &[char]) -> (r: Option<(String, String, TaskStatus)>)
    ensures
        pending_view(r) == task_header(rest@),
{
    match status_prefix_of(rest) {
        None => None,
        Some((k, status)) => {
            let remaining = trim(&rest[k..rest.len()]);
            let colon = position_of(remaining, ':', 0);
            if colon < remaining.len() {
                let id = string_of(trim(&remaining[0..colon]));
                let name = string_of(trim(&remaining[colon + 1..remaining.len()]));
                Some((id, name, status))
            } else {
                Some((string_of(remaining), string_of(remaining), status))
            }
        },
    }
}

/// The phase that a heading text such as `Phase 0: Setup` opens. The text must
/// begin with `Phase` and hold a colon; the identifier is `P` followed by what
/// stands between `Phase` and the first colon, the name is what follows that colon.
pub open spec fn phase_header(header: Seq<char>) -> Option<PhaseModel> {
    let h = trimmed(header);
    match after_prefix(h, "Phase"@) {
        None => None,
        Some(tail) => {
            let colon = index_of(tail, ':', 0);
            if colon >= tail.len() {
                None
            } else {
                Some(
                    PhaseModel {
                        id: seq!['P'] + trimmed(tail.take(colon)),
                        name: trimmed(tail.skip(colon + 1)),
                        tasks: Seq::empty(),
                    },
                )
            }
        },
    }
}

fn phase_header_of(header: &[char]) -> (r: Option<ParsedPhase>)
    ensures
        opt_phase_view(r) == phase_header(header@),
{
    let h = trim(header);
    match strip_prefix(h, "Phase") {
        None => None,
        Some(tail) => {
            let colon = position_of(tail, ':', 0);
            if colon >= tail.len() {
                None
            } else {
                let mut id = String::new();
                id.push('P');
                push_chars(&mut id, trim(&tail[0..colon]));
                let name = string_of(trim(&tail[colon + 1..tail.len()]));
                let phase = ParsedPhase { id, name, tasks: Vec::new() };
                proof {
                    assert(phase@.tasks =~= Seq::empty());
                }
                Some(phase)
            }
        },
    }
}

/// Reads the text of a phase heading, without its `#` marks.
pub fn parse_phase_header(header: &str) -> (r: Option<ParsedPhase>)
    ensures
        opt_phase_view(r) == phase_header(header@),
{
    let chars = chars_of(header);
    phase_header_of(chars.as_slice())
}

/// The text of a level-1 or level-2 heading, given the trimmed line.
pub open spec fn heading_text(t: Seq<char>) -> Option<Seq<char>> {
    match after_prefix(t, "# "@) {
        Some(h) => Some(h),
        None => after_prefix(t, "## "@),
    }
}

// ---------------------------------------------------------------------------
// Task bodies
// ---------------------------------------------------------------------------

/// Whether `c` ends an agent name.
pub open spec fn is_token_end(c: char) -> bool {
    is_space(c) || c == ','
}

/// Number of characters at the front of `s` that belong to one token.
pub open spec fn token_len(s: Seq<char>) -> nat
    decreases s.len(),
{
    if s.len() > 0 && !is_token_end(s[0]) {
        1 + token_len(s.drop_first())
    } else {
        0
    }
}

/// The agent named on one line: the token behind the first `@`, if that token
/// is not empty.
pub open spec fn agent_in_line(line: Seq<char>) -> Option<Seq<char>> {
    let t = trimmed(line);
    let at = index_of(t, '@', 0);
    if at >= t.len() {
        None
    } else {
        let rest = t.skip(at + 1);
        let n = token_len(rest);
        if n == 0 {
            None
        } else {
            Some(rest.take(n as int))
        }
    }
}

/// The agent named on the first of `lines` that names one.
pub open spec fn first_agent(lines: Seq<Seq<char>>) -> Option<Seq<char>>
    decreases lines.len(),
{
    if lines.len() == 0 {
        None
    } else {
        match agent_in_line(lines[0]) {
            Some(a) => Some(a),
            None => first_agent(lines.drop_first()),
        }
    }
}

/// The agent that a task body names.
pub open spec fn agent_of(body: Seq<char>) -> Option<Seq<char>> {
    first_agent(lines_of(body))
}

/// `s` without any `**`.
pub open spec fn strip_bold(s: Seq<char>) -> Seq<char>
    decreases s.len(),
{
    if s.len() == 0 {
        s
    } else if s.len() >= 2 && s[0] == '*' && s[1] == '*' {
        strip_bold(s.skip(2))
    } else {
        seq![s[0]] + strip_bold(s.skip(1))
    }
}

/// The entries of a comma-separated list that starts at index `from`: each
/// trimmed, the empty ones left out.
pub open spec fn deps_from(s: Seq<char>, from: int) -> Seq<Seq<char>>
    decreases s.len() - from,
{
    if from < 0 || from > s.len() {
        Seq::empty()
    } else {
        let end = index_of(s, ',', from);
        proof {
            lemma_index_of_bounds(s, ',', from);
        }
        let piece = trimmed(s.subrange(from, end));
        let head = if piece.len() == 0 {
            Seq::<Seq<char>>::empty()
        } else {
            seq![piece]
        };
        if end >= s.len() {
            head
        } else {
            head + deps_from(s, end + 1)
        }
    }
}

/// The dependencies that one line lists behind `blocked_by:`.
pub open spec fn blocked_in_line(line: Seq<char>) -> Seq<Seq<char>> {
    let t = strip_bold(trimmed(line));
    match crate::text::find(t, "blocked_by:"@) {
        None => Seq::empty(),
        Some(pos) => deps_from(trimmed(t.skip(pos + "blocked_by:"@.len())), 0),
    }
}

/// The dependencies that `lines` list, in order of appearance.
pub open spec fn blocked_in_lines(lines: Seq<Seq<char>>) -> Seq<Seq<char>>
    decreases lines.len(),
{
    if lines.len() == 0 {
        Seq::empty()
    } else {
        blocked_in_lines(lines.drop_last()) + blocked_in_line(lines.last())
    }
}

/// The dependencies that a task body lists.
pub open spec fn blocked_of(body: Seq<char>) -> Seq<Seq<char>> {
    blocked_in_lines(lines_of(body))
}

fn agent_in(line: &[char]) -> (r: Option<String>)
    ensures
        opt_string_view(r) == agent_in_line(line@),
{
    let t = trim(line);
    let at = position_of(t, '@', 0);
    if at >= t.len() {
        return None;
    }
    let rest = &t[at + 1..t.len()];
    let n = rest.len();
    let mut k: usize = 0;
    assert(rest@.subrange(0, n as int) == rest@);
    while k < n && !(is_whitespace(rest[k]) || rest[k] == ',')
        invariant
            k <= n,
            n == rest@.len(),
            token_len(rest@) == k + token_len(rest@.subrange(k as int, n as int)),
        decreases n - k,
    {
        proof {
            let u = rest@.subrange(k as int, n as int);
            assert(u.drop_first() == rest@.subrange(k + 1, n as int));
        }
        k += 1;
    }
    if k == 0 {
        None
    } else {
        Some(string_of(&rest[0..k]))
    }
}

/// The agent that a task body names: the token behind the first `@` of the
/// first line on which that token is not empty.
pub fn extract_agent(body: &str) -> (r: Option<String>)
    ensures
        opt_string_view(r) == agent_of(body@),
{
    let chars = chars_of(body);
    let lines = split_lines(chars.as_slice());
    let ghost all = slices_view(lines@);
    let mut i: usize = 0;
    assert(all.skip(0) == all);
    while i < lines.len()
        invariant
            i <= lines.len(),
            all == slices_view(lines@),
            all == lines_of(body@),
            first_agent(all) == first_agent(all.skip(i as int)),
        decreases lines.len() - i,
    {
        let found = agent_in(lines[i]);
        proof {
            let rest = all.skip(i as int);
            assert(rest.drop_first() == all.skip(i + 1));
        }
        if found.is_some() {
            return found;
        }
        i += 1;
    }
    None
}

fn without_bold(s: &[char]) -> (out: Vec<char>)
    ensures
        out@ == strip_bold(s@),
{
    let n = s.len();
    let mut out: Vec<char> = Vec::new();
    let mut i: usize = 0;
    assert(s@.skip(0) == s@);
    while i < n
        invariant
            i <= n,
            n == s@.len(),
            strip_bold(s@) == out@ + strip_bold(s@.skip(i as int)),
        decreases n - i,
    {
        let ghost rest = s@.skip(i as int);
        if i + 1 < n && s[i] == '*' && s[i + 1] == '*' {
            proof {
                assert(rest.skip(2) == s@.skip(i + 2));
            }
            i += 2;
        } else {
            proof {
                assert(rest.skip(1) == s@.skip(i + 1));
            }
            out.push(s[i]);
            i += 1;
        }
    }
    out
}

fn push_deps(out: &mut Vec<String>, s: &[char])
    ensures
        strings_view(final(out)@) == strings_view(old(out)@) + deps_from(s@, 0),
{
    let n = s.len();
    let mut from: usize = 0;
    let mut done = false;
    while !done
        invariant
            from <= n,
            n == s@.len(),
            !done ==> strings_view(old(out)@) + deps_from(s@, 0) == strings_view(out@) + deps_from(
                s@,
                from as int,
            ),
            done ==> strings_view(old(out)@) + deps_from(s@, 0) == strings_view(out@),
        decreases (n - from) + (if done { 0int } else { 1int }),
    {
        let end = position_of(s, ',', from);
        let piece = trim(&s[from..end]);
        if piece.len() > 0 {
            let dep = string_of(piece);
            out.push(dep);
        }
        if end >= n {
            done = true;
        } else {
            from = end + 1;
        }
    }
}

fn push_blocked(out: &mut Vec<String>, line: &[char])
    ensures
        strings_view(final(out)@) == strings_view(old(out)@) + blocked_in_line(line@),
{
    let plain = without_bold(trim(line));
    let key = chars_of("blocked_by:");
    let text = plain.as_slice();
    match crate::text::find_in(text, key.as_slice(), 0) {
        None => {},
        Some(pos) => {
            let n = text.len();
            let rest = trim(&text[pos + key.len()..n]);
            push_deps(out, rest);
        },
    }
}

/// The dependencies that a task body lists behind `blocked_by:`, in order of
/// appearance. Bold marks around the word are ignored.
pub fn extract_blocked_by(body: &str) -> (r: Vec<String>)
    ensures
        strings_view(r@) == blocked_of(body@),
{
    let chars = chars_of(body);
    let lines = split_lines(chars.as_slice());
    let ghost all = slices_view(lines@);
    let mut blocked: Vec<String> = Vec::new();
    let mut i: usize = 0;
    while i < lines.len()
        invariant
            i <= lines.len(),
            all == slices_view(lines@),
            all == lines_of(body@),
            strings_view(blocked@) == blocked_in_lines(all.take(i as int)),
        decreases lines.len() - i,
    {
        proof {
            assert(all.take(i + 1).drop_last() == all.take(i as int));
        }
        push_blocked(&mut blocked, lines[i]);
        i += 1;
    }
    proof {
        assert(all.take(lines.len() as int) == all);
    }
    blocked
}

// ---------------------------------------------------------------------------
// The line-by-line state machine
// ---------------------------------------------------------------------------

/// The state before the first line.
pub open spec fn initial_state() -> LedgerState {
    LedgerState { phases: Seq::empty(), current: None, pending: None, body: Seq::empty() }
}

/// The task that a heading and the body collected below it make.
pub open spec fn task_from(p: PendingModel, body: Seq<char>) -> TaskModel {
    TaskModel {
        id: p.0,
        name: p.1,
        status: p.2,
        agent: agent_of(body),
        blocked_by: blocked_of(body),
    }
}

/// The open phase after `task` has been added to it. Without an open phase the
/// task is dropped.
pub open spec fn with_task(current: Option<PhaseModel>, task: TaskModel) -> Option<PhaseModel> {
    match current {
        Some(p) => Some(PhaseModel { id: p.id, name: p.name, tasks: p.tasks.push(task) }),
        None => None,
    }
}

/// The state after the pending task, if there is one, has been completed from
/// its body and handed to the open phase.
pub open spec fn flushed(st: LedgerState) -> LedgerState {
    match st.pending {
        None => st,
        Some(p) => LedgerState {
            phases: st.phases,
            current: with_task(st.current, task_from(p, st.body)),
            pending: None,
            body: Seq::empty(),
        },
    }
}

/// The closed phases followed by the open one.
pub open spec fn closed(st: LedgerState) -> Seq<PhaseModel> {
    match st.current {
        Some(p) => st.phases.push(p),
        None => st.phases,
    }
}

/// The phase that a line opens, if it is a phase heading.
pub open spec fn opened_phase(line: Seq<char>) -> Option<PhaseModel> {
    match heading_text(trimmed(line)) {
        Some(h) => phase_header(h),
        None => None,
    }
}

/// The state after one more line.
///
/// A phase heading completes the pending task, closes the open phase and opens
/// a new one. Any other level-1 or level-2 heading changes nothing. A level-3
/// heading completes the pending task and, if its status tag is known, makes its
/// task the pending one. Any other line joins the body of the pending task.
pub open spec fn step(st: LedgerState, line: Seq<char>) -> LedgerState {
    let t = trimmed(line);
    if opened_phase(line) is Some {
        let f = flushed(st);
        LedgerState { phases: closed(f), current: opened_phase(line), pending: None, body: f.body }
    } else if heading_text(t) is Some {
        st
    } else {
        match after_prefix(t, "### "@) {
            Some(rest) => {
                let f = flushed(st);
                LedgerState {
                    phases: f.phases,
                    current: f.current,
                    pending: task_header(rest),
                    body: f.body,
                }
            },
            None => if st.pending is Some {
                LedgerState {
                    phases: st.phases,
                    current: st.current,
                    pending: st.pending,
                    body: st.body + line + seq!['\n'],
                }
            } else {
                st
            },
        }
    }
}

/// The state after all of `lines`.
pub open spec fn run(lines: Seq<Seq<char>>) -> LedgerState {
    lines.fold_left(initial_state(), |st: LedgerState, line: Seq<char>| step(st, line))
}

/// The phases that a document describes.
pub open spec fn parse_document(text: Seq<char>) -> Seq<PhaseModel> {
    closed(flushed(run(lines_of(text))))
}

proof fn lemma_run_step(lines: Seq<Seq<char>>, i: int)
    requires
        0 <= i < lines.len(),
    ensures
        run(lines.take(i + 1)) == step(run(lines.take(i)), lines[i]),
{
    let l = lines.take(i + 1);
    assert(l.drop_last() == lines.take(i));
}

proof fn lemma_task_total_push(phases: Seq<PhaseModel>, p: PhaseModel)
    ensures
        task_total(phases.push(p)) == task_total(phases) + p.tasks.len(),
{
    assert(phases.push(p).drop_last() == phases);
}

/// The value of the parser's variables as a state.
pub open spec fn ledger_view(
    phases: Seq<ParsedPhase>,
    current: Option<ParsedPhase>,
    pending: Option<(String, String, TaskStatus)>,
    body: Seq<char>,
) -> LedgerState {
    LedgerState {
        phases: phases_view(phases),
        current: opt_phase_view(current),
        pending: pending_view(pending),
        body,
    }
}

/// Completes the pending task, if there is one, from the body collected for it
/// and adds it to the open phase; without an open phase the task is dropped.
/// The body is emptied whenever a task was pending.
pub fn flush_task(
    pending_task: &mut Option<(String, String, TaskStatus)>,
    body: &mut String,
    phase: &mut Option<ParsedPhase>,
)
    ensures
        ledger_view(Seq::empty(), *final(phase), *final(pending_task), final(body)@) == flushed(
            ledger_view(Seq::empty(), *old(phase), *old(pending_task), old(body)@),
        ),
{
    let taken = pending_task.take();
    match taken {
        Some((id, name, status)) => {
            let current = phase.take();
            match current {
                Some(mut p) => {
                    let agent = extract_agent(body.as_str());
                    let blocked_by = extract_blocked_by(body.as_str());
                    let task = ParsedTask { id, name, status, agent, blocked_by };
                    let ghost before = tasks_view(p.tasks@);
                    p.tasks.push(task);
                    proof {
                        assert(tasks_view(p.tasks@) == before.push(task@));
                    }
                    *phase = Some(p);
                },
                None => {},
            }
            *body = String::new();
        },
        None => {},
    }
}

fn heading_of<'a>(t: &'a [char]) -> (r: Option<&'a [char]>)
    ensures
        match r {
            Some(h) => heading_text(t@) == Some(h@),
            None => heading_text(t@) is None,
        },
{
    match strip_prefix(t, "# ") {
        Some(h) => Some(h),
        None => strip_prefix(t, "## "),
    }
}

/// Reads a ledger. Every document has a reading: lines that fit no rule are
/// skipped, and the result is always `Ok`.
pub fn parse_tasks_md(input: &str) -> (r: Result<Vec<ParsedPhase>, String>)
    ensures
        r matches Ok(phases) && phases_view(phases@) == parse_document(input@),
        task_total(parse_document(input@)) <= usize::MAX,
{
    let chars = chars_of(input);
    let lines = split_lines(chars.as_slice());
    let ghost all = slices_view(lines@);
    let mut phases: Vec<ParsedPhase> = Vec::new();
    let mut current_phase: Option<ParsedPhase> = None;
    let mut current_task_body = String::new();
    let mut pending_task: Option<(String, String, TaskStatus)> = None;
    let mut i: usize = 0;
    proof {
        assert(phases_view(phases@) == Seq::<PhaseModel>::empty());
    }
    while i < lines.len()
        invariant
            i <= lines.len(),
            all == slices_view(lines@),
            all == lines_of(input@),
            chars@ == input@,
            ledger_view(phases@, current_phase, pending_task, current_task_body@) == run(
                all.take(i as int),
            ),
        decreases lines.len() - i,
    {
        let line = lines[i];
        let t = trim(line);
        let heading = heading_of(t);
        let opened = match heading {
            Some(h) => phase_header_of(h),
            None => None,
        };
        proof {
            lemma_run_step(all, i as int);
        }
        let ghost before = phases_view(phases@);
        match opened {
            Some(phase) => {
                flush_task(&mut pending_task, &mut current_task_body, &mut current_phase);
                match current_phase.take() {
                    Some(prev) => {
                        phases.push(prev);
                        proof {
                            assert(phases_view(phases@) == before.push(prev@));
                        }
                    },
                    None => {},
                }
                current_phase = Some(phase);
            },
            None => {
                if heading.is_none() {
                    match strip_prefix(t, "### ") {
                        Some(rest) => {
                            flush_task(
                                &mut pending_task,
                                &mut current_task_body,
                                &mut current_phase,
                            );
                            pending_task = task_header_of(rest);
                        },
                        None => {
                            if pending_task.is_some() {
                                let ghost body = current_task_body@;
                                push_chars(&mut current_task_body, line);
                                current_task_body.push('\n');
                                proof {
                                    assert(current_task_body@ == body + line@ + seq!['\n']);
                                }
                            }
                        },
                    }
                }
            },
        }
        i += 1;
    }
    // The text has no more tasks than characters, and those can be counted.
    let count = chars.len();
    proof {
        assert(input@.len() == count);
        lemma_task_total_bounded(input@);
    }
    flush_task(&mut pending_task, &mut current_task_body, &mut current_phase);
    match current_phase.take() {
        Some(phase) => {
            phases.push(phase);
        },
        None => {},
    }
    Ok(phases)
}

/// Number of tasks among `tasks` whose status is `status`.
pub fn count_status(tasks: &Vec<ParsedTask>, status: TaskStatus) -> (r: usize)
    ensures
        r == status_count(tasks_view(tasks@), status),
        r <= tasks@.len(),
{
    let mut count: usize = 0;
    let mut i: usize = 0;
    let ghost all = tasks_view(tasks@);
    while i < tasks.len()
        invariant
            i <= tasks.len(),
            all == tasks_view(tasks@),
            count == status_count(all.take(i as int), status),
            count <= i,
        decreases tasks.len() - i,
    {
        proof {
            assert(all.take(i + 1).drop_last() == all.take(i as int));
        }
        if tasks[i].status == status {
            count += 1;
        }
        i += 1;
    }
    proof {
        assert(all.take(tasks.len() as int) == all);
    }
    count
}

/// The phases that the phase headings among `lines` open, in order, each still
/// without tasks.
pub open spec fn opened_phases(lines: Seq<Seq<char>>) -> Seq<PhaseModel>
    decreases lines.len(),
{
    if lines.len() == 0 {
        Seq::empty()
    } else {
        match opened_phase(lines.last()) {
            Some(p) => opened_phases(lines.drop_last()).push(p),
            None => opened_phases(lines.drop_last()),
        }
    }
}

/// Whether `phases` are the phases `heads`, with tasks added.
pub open spec fn same_headings(phases: Seq<PhaseModel>, heads: Seq<PhaseModel>) -> bool {
    &&& phases.len() == heads.len()
    &&& forall|i: int|
        0 <= i < phases.len() ==> (#[trigger] phases[i]).id == heads[i].id && phases[i].name
            == heads[i].name
}

proof fn lemma_run_headings(lines: Seq<Seq<char>>)
    ensures
        same_headings(closed(run(lines)), opened_phases(lines)),
    decreases lines.len(),
{
    if lines.len() > 0 {
        let head = lines.drop_last();
        lemma_run_headings(head);
        lemma_run_step(lines, lines.len() - 1);
        let st = run(head);
        let f = flushed(st);
        assert(same_headings(closed(f), closed(st)));
    }
}

/// A document has one phase for each of its phase headings, in the order of
/// the headings and with their identifiers and names. Headings with the same
/// number give separate phases.
pub proof fn lemma_phases_follow_headings(text: Seq<char>)
    ensures
        same_headings(parse_document(text), opened_phases(lines_of(text))),
{
    let st = run(lines_of(text));
    lemma_run_headings(lines_of(text));
    assert(same_headings(closed(flushed(st)), closed(st)));
}

/// Whether a line is a task heading with a known status tag.
pub open spec fn is_task_line(line: Seq<char>) -> bool {
    &&& heading_text(trimmed(line)) is None
    &&& after_prefix(trimmed(line), "### "@) matches Some(rest) && task_header(rest) is Some
}

/// Number of task headings among `lines` that stand behind a phase heading.
pub open spec fn tasks_under_phases(lines: Seq<Seq<char>>) -> nat
    decreases lines.len(),
{
    if lines.len() == 0 {
        0
    } else {
        tasks_under_phases(lines.drop_last()) + if is_task_line(lines.last()) && opened_phases(
            lines.drop_last(),
        ).len() > 0 {
            1nat
        } else {
            0nat
        }
    }
}

proof fn lemma_run_tasks(lines: Seq<Seq<char>>)
    ensures
        run(lines).current is Some <==> opened_phases(lines).len() > 0,
        task_total(closed(run(lines))) + (if run(lines).pending is Some && run(lines).current
            is Some {
            1nat
        } else {
            0nat
        }) == tasks_under_phases(lines),
    decreases lines.len(),
{
    if lines.len() > 0 {
        let head = lines.drop_last();
        lemma_run_tasks(head);
        lemma_run_step(lines, lines.len() - 1);
        let st = run(head);
        let f = flushed(st);
        if st.current is Some {
            lemma_task_total_push(st.phases, st.current->0);
            lemma_task_total_push(f.phases, f.current->0);
        }
        let next = step(st, lines.last());
        if next.current is Some {
            lemma_task_total_push(next.phases, next.current->0);
        }
    }
}

/// A document has one task for each task heading with a known status tag that
/// stands behind a phase heading.
pub proof fn lemma_tasks_follow_headings(text: Seq<char>)
    ensures
        task_total(parse_document(text)) == tasks_under_phases(lines_of(text)),
{
    let st = run(lines_of(text));
    lemma_run_tasks(lines_of(text));
    let f = flushed(st);
    if st.current is Some {
        lemma_task_total_push(st.phases, st.current->0);
        lemma_task_total_push(f.phases, f.current->0);
    }
}

proof fn lemma_tasks_under_phases_bound(lines: Seq<Seq<char>>)
    ensures
        tasks_under_phases(lines) <= lines.len(),
    decreases lines.len(),
{
    if lines.len() > 0 {
        lemma_tasks_under_phases_bound(lines.drop_last());
    }
}

/// A document describes at most as many tasks as it has characters.
pub proof fn lemma_task_total_bounded(text: Seq<char>)
    ensures
        task_total(parse_document(text)) <= text.len(),
{
    lemma_tasks_follow_headings(text);
    lemma_tasks_under_phases_bound(lines_of(text));
    crate::text::lemma_lines_count(text, 0);
}

/// All tasks of `phases`, phase after phase.
pub open spec fn all_tasks(phases: Seq<PhaseModel>) -> Seq<TaskModel>
    decreases phases.len(),
{
    if phases.len() == 0 {
        Seq::empty()
    } else {
        all_tasks(phases.drop_last()) + phases.last().tasks
    }
}

/// What the headings of `tasks` said: identifier, name and status of each.
pub open spec fn headings_of(tasks: Seq<TaskModel>) -> Seq<PendingModel> {
    Seq::new(tasks.len(), |i: int| (tasks[i].id, tasks[i].name, tasks[i].status))
}

/// What the task headings among `lines` that stand behind a phase heading
/// say, in order.
pub open spec fn task_headings(lines: Seq<Seq<char>>) -> Seq<PendingModel>
    decreases lines.len(),
{
    if lines.len() == 0 {
        Seq::empty()
    } else if is_task_line(lines.last()) && opened_phases(lines.drop_last()).len() > 0 {
        task_headings(lines.drop_last()).push(
            task_header(after_prefix(trimmed(lines.last()), "### "@)->0)->0,
        )
    } else {
        task_headings(lines.drop_last())
    }
}

/// The headings of the tasks that a state accounts for: those in its phases,
/// and the pending one if a phase is open to take it.
pub open spec fn accounted(st: LedgerState) -> Seq<PendingModel> {
    headings_of(all_tasks(closed(st))) + (if st.pending is Some && st.current is Some {
        seq![st.pending->0]
    } else {
        Seq::empty()
    })
}

proof fn lemma_all_tasks_push(phases: Seq<PhaseModel>, p: PhaseModel)
    ensures
        all_tasks(phases.push(p)) == all_tasks(phases) + p.tasks,
{
    assert(phases.push(p).drop_last() == phases);
}

proof fn lemma_flush_accounts(st: LedgerState)
    ensures
        accounted(flushed(st)) == accounted(st),
        flushed(st).pending is None,
{
    let f = flushed(st);
    if st.current is Some {
        lemma_all_tasks_push(st.phases, st.current->0);
        lemma_all_tasks_push(f.phases, f.current->0);
    }
}

proof fn lemma_run_accounts(lines: Seq<Seq<char>>)
    ensures
        accounted(run(lines)) == task_headings(lines),
    decreases lines.len(),
{
    if lines.len() > 0 {
        let head = lines.drop_last();
        let line = lines.last();
        lemma_run_accounts(head);
        lemma_run_tasks(head);
        lemma_run_step(lines, lines.len() - 1);
        let st = run(head);
        let f = flushed(st);
        lemma_flush_accounts(st);
        if opened_phase(line) is Some {
            if f.current is Some {
                lemma_all_tasks_push(f.phases, f.current->0);
            }
            lemma_all_tasks_push(closed(f), opened_phase(line)->0);
        }
    }
}

/// The tasks of a document are its task headings with a known status tag that
/// stand behind a phase heading: one task for each, in order, with the
/// identifier, the name and the status that the heading gives.
pub proof fn lemma_tasks_are_the_headings(text: Seq<char>)
    ensures
        headings_of(all_tasks(parse_document(text))) == task_headings(lines_of(text)),
{
    let st = run(lines_of(text));
    lemma_run_accounts(lines_of(text));
    lemma_flush_accounts(st);
}

/// For each phase heading among `lines`, what the task headings say that
/// stand between it and the next phase heading, in order.
pub open spec fn task_headings_by_phase(lines: Seq<Seq<char>>) -> Seq<Seq<PendingModel>>
    decreases lines.len(),
{
    if lines.len() == 0 {
        Seq::empty()
    } else {
        let before = task_headings_by_phase(lines.drop_last());
        if opened_phase(lines.last()) is Some {
            before.push(Seq::empty())
        } else if is_task_line(lines.last()) && before.len() > 0 {
            before.update(
                before.len() - 1,
                before.last().push(
                    task_header(after_prefix(trimmed(lines.last()), "### "@)->0)->0,
                ),
            )
        } else {
            before
        }
    }
}

/// What the headings of the tasks of each phase said.
pub open spec fn headings_by_phase(phases: Seq<PhaseModel>) -> Seq<Seq<PendingModel>> {
    Seq::new(phases.len(), |i: int| headings_of(phases[i].tasks))
}

/// The headings that a state accounts for, phase by phase; the pending one
/// counts for the open phase.
pub open spec fn accounted_by_phase(st: LedgerState) -> Seq<Seq<PendingModel>> {
    let done = headings_by_phase(closed(st));
    if st.pending is Some && st.current is Some {
        done.update(done.len() - 1, done.last().push(st.pending->0))
    } else {
        done
    }
}

proof fn lemma_flush_accounts_by_phase(st: LedgerState)
    ensures
        accounted_by_phase(flushed(st)) == accounted_by_phase(st),
{
    let f = flushed(st);
    if st.pending is Some && st.current is Some {
        let n = closed(st).len() - 1;
        let task = task_from(st.pending->0, st.body);
        assert(closed(f).len() == closed(st).len());
        assert(closed(f)[n].tasks == closed(st)[n].tasks.push(task));
        assert(headings_of(closed(st)[n].tasks.push(task)) == headings_of(
            closed(st)[n].tasks,
        ).push(st.pending->0));
        assert forall|i: int| 0 <= i < n implies closed(f)[i] == closed(st)[i] by {}
        assert(accounted_by_phase(f) =~= accounted_by_phase(st));
    }
}

proof fn lemma_run_accounts_by_phase(lines: Seq<Seq<char>>)
    ensures
        accounted_by_phase(run(lines)) == task_headings_by_phase(lines),
        run(lines).current is Some <==> closed(run(lines)).len() > 0,
    decreases lines.len(),
{
    if lines.len() == 0 {
        assert(accounted_by_phase(run(lines)) =~= Seq::<Seq<PendingModel>>::empty());
    } else {
        let head = lines.drop_last();
        let line = lines.last();
        lemma_run_accounts_by_phase(head);
        lemma_run_step(lines, lines.len() - 1);
        let st = run(head);
        let f = flushed(st);
        lemma_flush_accounts_by_phase(st);
        let next = step(st, line);
        if opened_phase(line) is Some {
            assert(headings_of(opened_phase(line)->0.tasks) =~= Seq::<PendingModel>::empty());
            assert(closed(next) == closed(f).push(opened_phase(line)->0));
            assert(accounted_by_phase(next) =~= accounted_by_phase(f).push(Seq::empty()));
        } else if heading_text(trimmed(line)) is None && after_prefix(trimmed(line), "### "@)
            is Some {
            assert(closed(next) == closed(f));
            assert(accounted_by_phase(next) =~= task_headings_by_phase(lines));
        } else {
            assert(closed(next) == closed(st));
        }
    }
}

/// Each task stands in the phase that was opened last before its heading: the
/// tasks of a phase are the task headings between its phase heading and the
/// next, in order, with the identifier, name and status that they give.
pub proof fn lemma_tasks_stand_in_their_phase(text: Seq<char>)
    ensures
        headings_by_phase(parse_document(text)) == task_headings_by_phase(lines_of(text)),
{
    let st = run(lines_of(text));
    lemma_run_accounts_by_phase(lines_of(text));
    lemma_flush_accounts_by_phase(st);
}

/// Reading is a function of the text: whatever two readings of the same text
/// return has the same value, phase for phase and task for task.
pub proof fn lemma_reading_is_repeatable(a: Vec<ParsedPhase>, b: Vec<ParsedPhase>, text: Seq<char>)
    requires
        phases_view(a@) == parse_document(text),
        phases_view(b@) == parse_document(text),
    ensures
        a@.len() == b@.len(),
        forall|i: int| 0 <= i < a@.len() ==> a@[i]@ == b@[i]@,
{
    assert(phases_view(b@).len() == b@.len());
    assert forall|i: int| 0 <= i < a@.len() implies a@[i]@ == b@[i]@ by {
        assert(phases_view(b@)[i] == b@[i]@);
    }
}

impl ParsedPhase {
    /// Progress of the phase as a fraction: the number of completed tasks over
    /// the number of tasks. The numerator never exceeds the denominator, and
    /// both are zero for a phase without tasks.
    pub fn progress(&self) -> (r: (usize, usize))
        ensures
            r.0 == completed_count(self@.tasks),
            r.1 == self@.tasks.len(),
            r.0 <= r.1,
    {
        (count_status(&self.tasks, TaskStatus::Completed), self.tasks.len())
    }
}

} // verus!
