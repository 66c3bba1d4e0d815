//! What the detail pane shows, and the inline markup of task bodies.

use std::collections::HashSet;
use vstd::prelude::*;

use crate::ui::gantt::{locate_row, row_at, Row};
use crate::data::state::{
    error_refs_view, newest_first, DashboardModel, DashboardState, ErrorKey, ErrorModel,
    ErrorRecord,
};
use crate::data::tasks_parser::{ParsedPhase, ParsedTask, PhaseModel, TaskModel};
use crate::text::{chars_of, find, find_in, lemma_find_from, string_of};

verus! {

broadcast use vstd::std_specs::hash::group_hash_axioms;

/// How a piece of a line is to be drawn.
#[derive(Debug, Clone, Copy, PartialEq, Eq, Structural)]
pub enum SpanKind {
    Plain,
    Bold,
    Code,
}

/// A piece of a line with the way to draw it.
#[derive(Debug, Clone, PartialEq, Eq)]
pub struct MdSpan {
    pub kind: SpanKind,
    pub text: String,
}

/// Mathematical value of an `MdSpan`.
pub struct SpanModel {
    pub kind: SpanKind,
    pub text: Seq<char>,
}

impl View for MdSpan {
    type V = SpanModel;

    open spec fn view(&self) -> SpanModel {
        SpanModel { kind: self.kind, text: self.text@ }
    }
}

pub open spec fn spans_view(v: Seq<MdSpan>) -> Seq<SpanModel> {
    Seq::new(v.len(), |i: int| v[i]@)
}

/// The mark that opens and closes bold text.
pub open spec fn bold_mark() -> Seq<char> {
    seq!['*', '*']
}

/// The mark that opens and closes code.
pub open spec fn code_mark() -> Seq<char> {
    seq!['`']
}

/// A plain span, or nothing for an empty text.
pub open spec fn lead_span(text: Seq<char>) -> Seq<SpanModel> {
    if text.len() == 0 {
        Seq::empty()
    } else {
        seq![SpanModel { kind: SpanKind::Plain, text }]
    }
}

/// The spans of `rest`, where `mark` delimits spans of kind `kind` and the
/// first `mark` stands at index `start`. If the mark is never closed, the rest
/// of the line from the mark on is plain.
pub open spec fn marked_spans(rest: Seq<char>, mark: Seq<char>, kind: SpanKind, start: int) -> Seq<
    SpanModel,
>
    recommends
        mark.len() > 0,
        0 <= start,
        start + mark.len() <= rest.len(),
    decreases rest.len(), 0nat,
    when mark.len() > 0 && 0 <= start && start + mark.len() <= rest.len()
{
    let after = rest.skip(start + mark.len());
    match find(after, mark) {
        Some(end) => {
            proof {
                lemma_find_from(after, mark, 0);
            }
            lead_span(rest.take(start)) + seq![SpanModel { kind, text: after.take(end) }]
                + md_spans_of(after.skip(end + mark.len()))
        },
        None => lead_span(rest.take(start)) + seq![
            SpanModel { kind: SpanKind::Plain, text: rest.skip(start) },
        ],
    }
}

/// The spans of a line. Text between two `**` is bold, text between two
/// backticks is code, everything else is plain. As long as the line holds a
/// `**`, bold text is looked for first, and what stands before it is plain
/// whatever it holds.
pub open spec fn md_spans_of(rest: Seq<char>) -> Seq<SpanModel>
    decreases rest.len(), 1nat,
{
    if rest.len() == 0 {
        Seq::empty()
    } else {
        match find(rest, bold_mark()) {
            Some(start) => {
                proof {
                    lemma_find_from(rest, bold_mark(), 0);
                }
                marked_spans(rest, bold_mark(), SpanKind::Bold, start)
            },
            None => match find(rest, code_mark()) {
                Some(start) => {
                    proof {
                        lemma_find_from(rest, code_mark(), 0);
                    }
                    marked_spans(rest, code_mark(), SpanKind::Code, start)
                },
                None => seq![SpanModel { kind: SpanKind::Plain, text: rest }],
            },
        }
    }
}

/// The spans of a line: bold text, code and plain text.
pub fn parse_md_spans(line: &str) -> (spans: Vec<MdSpan>)
    ensures
        spans_view(spans@) == md_spans_of(line@),
{
    let text = chars_of(line);
    let s = text.as_slice();
    let n = s.len();
    let bold: Vec<char> = vec!['*', '*'];
    let code: Vec<char> = vec!['`'];
    let mut spans: Vec<MdSpan> = Vec::new();
    let mut pos: usize = 0;
    proof {
        assert(s@.skip(0) == s@);
    }
    while pos < n
        invariant
            pos <= n,
            n == s@.len(),
            s@ == line@,
            bold@ == bold_mark(),
            code@ == code_mark(),
            spans_view(spans@) + md_spans_of(s@.skip(pos as int)) == md_spans_of(s@),
        decreases n - pos,
    {
        let rest = &s[pos..n];
        let (mark, kind, start) = match find_in(rest, bold.as_slice(), 0) {
            Some(start) => (&bold, SpanKind::Bold, Some(start)),
            None => (&code, SpanKind::Code, find_in(rest, code.as_slice(), 0)),
        };
        match start {
            None => {
                spans.push(MdSpan { kind: SpanKind::Plain, text: string_of(rest) });
                return spans;
            },
            Some(start) => {
                let m = mark.len();
                if start > 0 {
                    spans.push(
                        MdSpan { kind: SpanKind::Plain, text: string_of(&rest[0..start]) },
                    );
                }
                let rest_len = rest.len();
                let after = &rest[start + m..rest_len];
                match find_in(after, mark.as_slice(), 0) {
                    Some(end) => {
                        spans.push(MdSpan { kind, text: string_of(&after[0..end]) });
                        proof {
                            assert(after@.skip(end + m) == s@.skip(pos + start + m + end + m));
                        }
                        pos = pos + start + m + end + m;
                    },
                    None => {
                        spans.push(
                            MdSpan {
                                kind: SpanKind::Plain,
                                text: string_of(&rest[start..rest_len]),
                            },
                        );
                        return spans;
                    },
                }
            },
        }
    }
    spans
}

/// What the detail pane shows.
#[derive(Debug)]
pub enum DetailContent<'a> {
    /// A phase.
    Phase(&'a ParsedPhase),
    /// A task, the name of its phase, and its most recent errors, the latest
    /// first.
    Task(&'a ParsedTask, &'a str, Vec<&'a ErrorRecord>),
    /// Nothing is selected.
    Empty,
}

/// Mathematical value of a `DetailContent`.
pub enum ContentModel {
    Phase(PhaseModel),
    Task(TaskModel, Seq<char>, Seq<ErrorModel>),
    Empty,
}

impl<'a> View for DetailContent<'a> {
    type V = ContentModel;

    open spec fn view(&self) -> ContentModel {
        match self {
            DetailContent::Phase(p) => ContentModel::Phase(p@),
            DetailContent::Task(t, name, errors) => ContentModel::Task(
                t@,
                name@,
                error_refs_view(errors@),
            ),
            DetailContent::Empty => ContentModel::Empty,
        }
    }
}

/// The detail pane: its content, and whether it has the focus.
#[derive(Debug)]
pub struct DetailWidget<'a> {
    pub content: DetailContent<'a>,
    pub focused: bool,
}

/// The first `n` elements of `errors`, or all of them if there are fewer.
pub open spec fn at_most(errors: Seq<ErrorModel>, n: nat) -> Seq<ErrorModel> {
    if errors.len() <= n {
        errors
    } else {
        errors.take(n as int)
    }
}

/// What the detail pane shows for a selection. With a task selected, the
/// task, the name of its phase and the three most recent errors of the task;
/// otherwise the phase whose heading has index `selected_index` in the fully
/// expanded list, if there is one.
pub open spec fn detail_of(
    m: DashboardModel,
    selected_task: Option<(usize, usize)>,
    selected_index: usize,
) -> ContentModel {
    match selected_task {
        Some((pi, ti)) => {
            let task = m.phases[pi as int].tasks[ti as int];
            ContentModel::Task(
                task,
                m.phases[pi as int].name,
                at_most(newest_first(m.errors, ErrorKey::Task, task.id), 3),
            )
        },
        None => match row_at(m.phases, Set::empty(), selected_index as int) {
            Some(Row::Phase(pi)) => ContentModel::Phase(m.phases[pi]),
            _ => ContentModel::Empty,
        },
    }
}

impl<'a> DetailWidget<'a> {
    /// A detail pane with the given content.
    pub fn new(content: DetailContent<'a>, focused: bool) -> (r: Self)
        ensures
            r.content == content,
            r.focused == focused,
    {
        DetailWidget { content, focused }
    }

    /// The detail pane for a selection. `selected_task` must refer to a task
    /// that `state` holds.
    pub fn from_selection(
        state: &'a DashboardState,
        selected_task: Option<(usize, usize)>,
        selected_index: usize,
        focused: bool,
    ) -> (r: Self)
        requires
            selected_task matches Some((pi, ti)) ==> pi < state.phases@.len() && ti
                < state.phases@[pi as int].tasks@.len(),
        ensures
            r.content@ == detail_of(state@, selected_task, selected_index),
            r.focused == focused,
    {
        let content = match selected_task {
            Some((pi, ti)) => {
                let phase = &state.phases[pi];
                let task = &phase.tasks[ti];
                let mut errors = state.errors_for_task(task.id.as_str());
                let ghost all = error_refs_view(errors@);
                if errors.len() > 3 {
                    errors.truncate(3);
                }
                proof {
                    assert(error_refs_view(errors@) == at_most(all, 3));
                }
                DetailContent::Task(task, phase.name.as_str(), errors)
            },
            None => {
                let expanded: HashSet<usize> = HashSet::new();
                match locate_row(&state.phases, &expanded, selected_index) {
                    Some((pi, None)) => DetailContent::Phase(&state.phases[pi]),
                    _ => DetailContent::Empty,
                }
            },
        };
        DetailWidget { content, focused }
    }
}

} // verus!
