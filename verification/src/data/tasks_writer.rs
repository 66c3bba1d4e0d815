//! Write-back of a task status.
//!
//! A status change touches one spot of the ledger: the text between the
//! brackets of the first heading line that belongs to the task. Everything
//! before and behind that spot stays as it is, character for character.

use vstd::prelude::*;

use crate::data::tasks_parser::opt_string_view;
use crate::text::{
    chars_of, find, find_in, is_space, is_whitespace, leading_space, lemma_find_from,
    lemma_find_is, lemma_index_of_bounds, lemma_index_of_is, lemma_leading_space_is,
    lemma_trailing_space_is, lemma_trimmed_bounds, line_end, occurs_at, position_of, push_chars,
    starts_with, trailing_space, trim_range, trimmed,
};

verus! {

/// Whether the identifier of a heading ends where `rest` begins: nothing
/// follows, or a colon, or whitespace.
pub open spec fn identifier_ends(rest: Seq<char>) -> bool {
    rest.len() == 0 || rest[0] == ':' || is_space(rest[0])
}

/// Whether `text`, which is what follows the status tag of a heading, begins
/// with the identifier `task_id` and with no longer one: `T1` is the
/// identifier of `T1: name` and of `T1`, not of `T10: name`.
pub open spec fn names_task(text: Seq<char>, task_id: Seq<char>) -> bool {
    task_id.is_prefix_of(text) && identifier_ends(text.skip(task_id.len() as int))
}

/// Where the status of task `task_id` stands in `line`, if `line` is a heading
/// of that task: the indices of the first character behind `[` and of the `]`
/// that closes the tag.
///
/// The trimmed line must begin with `### [`, and what follows the first `] `
/// must be the identifier `task_id`, ended by a colon, by whitespace or by the
/// end of the line. A line in which `task_id` only occurs further on, or in
/// which it is the beginning of a longer identifier, is no heading of the task.
pub open spec fn status_span(line: Seq<char>, task_id: Seq<char>) -> Option<(int, int)> {
    let t = trimmed(line);
    if !"### ["@.is_prefix_of(t) {
        None
    } else {
        match find(t, "] "@) {
            None => None,
            Some(close) => if names_task(t.skip(close + "] "@.len()), task_id) {
                Some(
                    (
                        (leading_space(line) + "### ["@.len()) as int,
                        leading_space(line) + close,
                    ),
                )
            } else {
                None
            },
        }
    }
}

/// The status span of the first line at or after index `from` that is a heading
/// of task `task_id`, as indices into `content`.
pub open spec fn find_span(content: Seq<char>, task_id: Seq<char>, from: int) -> Option<(int, int)>
    decreases content.len() - from,
{
    if from < 0 || from >= content.len() {
        None
    } else {
        let end = line_end(content, from);
        proof {
            lemma_index_of_bounds(content, '\n', from);
        }
        match status_span(content.subrange(from, end), task_id) {
            Some((a, b)) => Some((from + a, from + b)),
            None => if end >= content.len() {
                None
            } else {
                find_span(content, task_id, end + 1)
            },
        }
    }
}

/// The ledger with the status of task `task_id` replaced by `new_status`, or
/// `None` when no heading of that task is found. Only the first such heading
/// is changed.
pub open spec fn rewritten(content: Seq<char>, task_id: Seq<char>, new_status: Seq<char>) -> Option<
    Seq<char>,
> {
    match find_span(content, task_id, 0) {
        Some((a, b)) => Some(content.take(a) + new_status + content.skip(b)),
        None => None,
    }
}

/// A status span lies inside its line, behind the five characters `### [`.
pub proof fn lemma_status_span_bounds(line: Seq<char>, task_id: Seq<char>)
    ensures
        status_span(line, task_id) matches Some((a, b)) ==> 5 <= a <= b && b + 2 <= line.len()
            && line[a - 1] == '[' && line[b] == ']' && line[b + 1] == ' ',
{
    if let Some((a, b)) = status_span(line, task_id) {
        let t = trimmed(line);
        reveal_strlit("### [");
        reveal_strlit("] ");
        lemma_trimmed_bounds(line);
        lemma_find_from(t, "] "@, 0);
        let close = find(t, "] "@)->0;
        let hit = t.subrange(close, close + 2);
        assert(hit[0] == ']' && hit[1] == ' ');
        assert(t[4] == "### ["@[4]);
        if close < 5 {
            assert(t[close] == "### ["@[close]);
        }
    }
}

/// A status change leaves every character before and behind the tag where it
/// was: the new text is the old one up to the tag, the new status, and the old
/// text from the closing bracket on. In particular the text keeps its line
/// ends, and it keeps or lacks a final line end as before.
pub proof fn lemma_change_touches_only_tag(
    content: Seq<char>,
    task_id: Seq<char>,
    new_status: Seq<char>,
)
    requires
        rewritten(content, task_id, new_status) is Some,
    ensures
        ({
            let (a, b) = find_span(content, task_id, 0)->0;
            let out = rewritten(content, task_id, new_status)->0;
            &&& 0 <= a <= b < content.len()
            &&& out.len() == content.len() - (b - a) + new_status.len()
            &&& forall|i: int| 0 <= i < a ==> out[i] == content[i]
            &&& forall|i: int| 0 <= i < new_status.len() ==> out[a + i] == new_status[i]
            &&& forall|i: int|
                b <= i < content.len() ==> out[i - (b - a) + new_status.len()] == content[i]
            &&& content[a - 1] == '[' && content[b] == ']'
        }),
{
    lemma_span_in_content(content, task_id, 0);
}

/// A status span that is found lies inside the text, between `[` and `]`.
proof fn lemma_span_in_content(content: Seq<char>, task_id: Seq<char>, from: int)
    requires
        0 <= from,
    ensures
        find_span(content, task_id, from) matches Some((a, b)) ==> from < a <= b < content.len()
            && content[a - 1] == '[' && content[b] == ']',
    decreases content.len() - from,
{
    if from < content.len() {
        lemma_index_of_bounds(content, '\n', from);
        let end = line_end(content, from);
        let line = content.subrange(from, end);
        lemma_status_span_bounds(line, task_id);
        if status_span(line, task_id) is None && end < content.len() {
            lemma_span_in_content(content, task_id, end + 1);
        }
    }
}

/// Whether `tag` can stand between the brackets of a heading without
/// changing where the tag ends: it holds no line feed and no `] `.
pub open spec fn is_plain_tag(tag: Seq<char>) -> bool {
    &&& forall|i: int| 0 <= i < tag.len() ==> tag[i] != '\n'
    &&& forall|i: int| !(#[trigger] occurs_at(tag, "] "@, i))
}

/// A heading whose tag was replaced by a plain tag is still a heading of the
/// task, and the new tag stands where the old one stood.
proof fn lemma_span_of_changed_line(line: Seq<char>, task_id: Seq<char>, tag: Seq<char>)
    requires
        status_span(line, task_id) is Some,
        is_plain_tag(tag),
    ensures
        ({
            let (x, y) = status_span(line, task_id)->0;
            status_span(line.take(x) + tag + line.skip(y), task_id) == Some((x, x + tag.len()))
        }),
{
    let (x, y) = status_span(line, task_id)->0;
    let changed = line.take(x) + tag + line.skip(y);
    let lead = leading_space(line) as int;
    let trail = trailing_space(line) as int;
    let t = trimmed(line);
    reveal_strlit("### [");
    reveal_strlit("] ");
    lemma_status_span_bounds(line, task_id);
    lemma_trimmed_bounds(line);
    lemma_find_from(t, "] "@, 0);
    let close = find(t, "] "@)->0;
    let mark = t.subrange(close, close + 2);
    assert(mark[0] == ']' && mark[1] == ' ');
    assert(t[close] == ']' && t[close + 1] == ' ');
    assert(x == lead + 5 && y == lead + close);
    let shift = tag.len() - (y - x);
    // The whitespace around the line is what it was.
    assert forall|k: int| 0 <= k < x implies changed[k] == line[k] by {}
    assert forall|k: int| y <= k < line.len() implies changed[k + shift] == line[k] by {}
    assert(t[0] == "### ["@[0]);
    assert(line[lead] == t[0]);
    lemma_leading_space_is(changed, lead);
    assert(t.len() > close + 2) by {
        assert(!is_space(t[t.len() - 1]));
    }
    assert(line.len() - trail - 1 >= y + 2);
    assert forall|k: int| changed.len() - trail <= k < changed.len() implies is_space(
        #[trigger] changed[k],
    ) by {
        assert(changed[k] == line[k - shift]);
    }
    assert(changed[changed.len() - trail - 1] == line[line.len() - trail - 1]);
    lemma_trailing_space_is(changed, trail);
    // So the trimmed line is the old one with the new tag.
    let t2 = trimmed(changed);
    assert(t2 =~= t.take(5) + tag + t.skip(close));
    assert("### ["@.is_prefix_of(t2)) by {
        assert forall|k: int| 0 <= k < 5 implies t2[k] == "### ["@[k] by {
            assert(t2[k] == t[k]);
        }
    }
    let at: int = (5 + tag.len()) as int;
    assert(t2[at] == ']' && t2[at + 1] == ' ');
    assert(t2.subrange(at, at + 2) =~= "] "@);
    assert forall|k: int| 0 <= k < at implies !occurs_at(t2, "] "@, k) by {
        if occurs_at(t2, "] "@, k) {
            let found = t2.subrange(k, k + 2);
            assert(found[0] == ']' && found[1] == ' ');
            assert(t2[k] == ']' && t2[k + 1] == ' ');
            if k < 5 {
                assert(t2[k] == "### ["@[k]);
            } else {
                assert(t2[k] == tag[k - 5]);
                if k + 1 < at {
                    assert(t2[k + 1] == tag[k + 1 - 5]);
                    assert(tag.subrange(k - 5, k - 3) =~= "] "@);
                    assert(occurs_at(tag, "] "@, k - 5));
                } else {
                    assert(t2[k + 1] == ']');
                }
            }
        }
    }
    lemma_find_is(t2, "] "@, at);
    assert(t2.skip(at + 2) =~= t.skip(close + 2));
}

/// The span found in a ledger is found again, at the place of the new tag,
/// after the status has been replaced by a plain tag.
proof fn lemma_span_after_change(
    content: Seq<char>,
    task_id: Seq<char>,
    tag: Seq<char>,
    from: int,
)
    requires
        0 <= from,
        find_span(content, task_id, from) is Some,
        is_plain_tag(tag),
    ensures
        ({
            let (a, b) = find_span(content, task_id, from)->0;
            let changed = content.take(a) + tag + content.skip(b);
            find_span(changed, task_id, from) == Some((a, a + tag.len()))
        }),
    decreases content.len() - from,
{
    let (a, b) = find_span(content, task_id, from)->0;
    let changed = content.take(a) + tag + content.skip(b);
    let shift = tag.len() - (b - a);
    lemma_span_in_content(content, task_id, from);
    lemma_index_of_bounds(content, '\n', from);
    let end = line_end(content, from);
    let line = content.subrange(from, end);
    assert forall|k: int| 0 <= k < a implies changed[k] == content[k] by {}
    assert forall|k: int| b <= k < content.len() implies changed[k + shift] == content[k] by {}
    if status_span(line, task_id) is Some {
        let (x, y) = status_span(line, task_id)->0;
        lemma_status_span_bounds(line, task_id);
        lemma_span_of_changed_line(line, task_id, tag);
        assert(a == from + x && b == from + y);
        assert forall|k: int| from <= k < end + shift implies changed[k] != '\n' by {
            if k < a {
                assert(changed[k] == content[k]);
            } else if k < a + tag.len() {
                assert(changed[k] == tag[k - a]);
            } else {
                assert(changed[k] == content[k - shift]);
            }
        }
        if end < content.len() {
            assert(changed[end + shift] == content[end]);
        }
        lemma_index_of_is(changed, '\n', from, end + shift);
        assert(changed.subrange(from, end + shift) =~= line.take(x) + tag + line.skip(y));
    } else {
        lemma_span_in_content(content, task_id, end + 1);
        assert forall|k: int| from <= k < end implies changed[k] != '\n' by {
            assert(changed[k] == content[k]);
        }
        assert(changed[end] == content[end]);
        lemma_index_of_is(changed, '\n', from, end);
        assert(changed.subrange(from, end) =~= line);
        lemma_span_after_change(content, task_id, tag, end + 1);
    }
}

/// A status change can be undone: after the status of a task has been
/// replaced by a plain tag, putting the old tag back for the same task gives
/// the first text again, character for character.
pub proof fn lemma_change_can_be_undone(
    content: Seq<char>,
    task_id: Seq<char>,
    new_status: Seq<char>,
)
    requires
        rewritten(content, task_id, new_status) is Some,
        is_plain_tag(new_status),
    ensures
        ({
            let (a, b) = find_span(content, task_id, 0)->0;
            let changed = rewritten(content, task_id, new_status)->0;
            rewritten(changed, task_id, content.subrange(a, b)) == Some(content)
        }),
{
    let (a, b) = find_span(content, task_id, 0)->0;
    let changed = rewritten(content, task_id, new_status)->0;
    lemma_span_in_content(content, task_id, 0);
    lemma_span_after_change(content, task_id, new_status, 0);
    assert(changed.take(a) + content.subrange(a, b) + changed.skip(a + new_status.len())
        =~= content);
}

/// Whether a line begins at index `start` of `content`.
pub open spec fn is_line_start(content: Seq<char>, start: int) -> bool {
    0 <= start < content.len() && (start == 0 || content[start - 1] == '\n')
}

/// A ledger in which no line is a heading of the task is left alone. This
/// holds in particular where the identifier only occurs further on in a
/// heading, where it is the beginning of a longer identifier, and where the
/// identifier of a heading is the beginning of it.
pub proof fn lemma_no_heading_no_change(
    content: Seq<char>,
    task_id: Seq<char>,
    new_status: Seq<char>,
    from: int,
)
    requires
        from >= content.len() || is_line_start(content, from),
        forall|start: int|
            from <= start && #[trigger] is_line_start(content, start) ==> status_span(
                content.subrange(start, line_end(content, start)),
                task_id,
            ) is None,
    ensures
        find_span(content, task_id, from) is None,
        from == 0 ==> rewritten(content, task_id, new_status) is None,
    decreases content.len() - from,
{
    if from < content.len() {
        lemma_index_of_bounds(content, '\n', from);
        let end = line_end(content, from);
        if end < content.len() {
            lemma_no_heading_no_change(content, task_id, new_status, end + 1);
        }
    }
}

fn names(text: &[char], task_id: &[char]) -> (r: bool)
    ensures
        r == names_task(text@, task_id@),
{
    if !starts_with(text, task_id) {
        return false;
    }
    let k = task_id.len();
    let n = text.len();
    if k == n {
        return true;
    }
    let next = text[k];
    assert(text@.skip(k as int)[0] == next);
    next == ':' || is_whitespace(next)
}

/// Looking for an identifier does not find the heading of a longer one: where
/// the identifier in the heading goes on with a character that is neither a
/// colon nor whitespace, the line is no heading of the task.
pub proof fn lemma_longer_identifier_is_skipped(line: Seq<char>, task_id: Seq<char>)
    requires
        find(trimmed(line), "] "@) matches Some(close) && ({
            let text = trimmed(line).skip(close + "] "@.len());
            &&& task_id.is_prefix_of(text)
            &&& text.len() > task_id.len()
            &&& text[task_id.len() as int] != ':'
            &&& !is_space(text[task_id.len() as int])
        }),
    ensures
        status_span(line, task_id) is None,
{
}

fn status_span_of(line: &[char], task_id: &[char]) -> (r: Option<(usize, usize)>)
    ensures
        match r {
            Some((a, b)) => status_span(line@, task_id@) == Some((a as int, b as int)),
            None => status_span(line@, task_id@) is None,
        },
        r matches Some((a, b)) ==> a <= b <= line@.len(),
{
    let (lo, hi) = trim_range(line);
    let t = &line[lo..hi];
    let head = chars_of("### [");
    let close_mark = chars_of("] ");
    if !starts_with(t, head.as_slice()) {
        return None;
    }
    match find_in(t, close_mark.as_slice(), 0) {
        None => None,
        Some(close) => {
            let n = t.len();
            let rest = &t[close + close_mark.len()..n];
            if names(rest, task_id) {
                proof {
                    lemma_status_span_bounds(line@, task_id@);
                    reveal_strlit("### [");
                }
                Some((lo + head.len(), lo + close))
            } else {
                None
            }
        },
    }
}

/// Replaces the status of task `task_id` in a ledger by `new_status`.
///
/// Returns the new text, which differs from `content` in the status tag of the
/// first heading of that task and nowhere else, or `None` when the ledger has
/// no heading of that task.
pub fn rewrite_task_status(content: &str, task_id: &str, new_status: &str) -> (r: Option<String>)
    ensures
        opt_string_view(r) == rewritten(content@, task_id@, new_status@),
{
    let text = chars_of(content);
    let id = chars_of(task_id);
    let status = chars_of(new_status);
    let s = text.as_slice();
    let n = s.len();
    let mut from: usize = 0;
    while from < n
        invariant
            from <= n,
            n == s@.len(),
            s@ == content@,
            id@ == task_id@,
            status@ == new_status@,
            find_span(s@, id@, 0) == find_span(s@, id@, from as int),
        decreases n - from,
    {
        let end = position_of(s, '\n', from);
        match status_span_of(&s[from..end], id.as_slice()) {
            Some((a, b)) => {
                let mut out = String::new();
                push_chars(&mut out, &s[0..from + a]);
                push_chars(&mut out, status.as_slice());
                push_chars(&mut out, &s[from + b..n]);
                return Some(out);
            },
            None => {
                if end >= n {
                    return None;
                }
                from = end + 1;
            },
        }
    }
    None
}

} // verus!
