//! Character-level text primitives.
//!
//! Every routine works on a sequence of Unicode scalar values and comes with a
//! mathematical definition over `Seq<char>`, so that the grammar built on top of
//! them can be stated and proved without reference to byte offsets.

use vstd::prelude::*;

verus! {

/// `String::push` appends exactly one character to the end of the string and
/// leaves the characters already present untouched.
pub assume_specification[ String::push ](s: &mut String, c: char)
    ensures
        final(s)@ == old(s)@.push(c),
;

/// Whether `c` carries the Unicode property `White_Space`.
pub open spec fn is_space(c: char) -> bool {
    let n = c as u32;
    ||| (0x09 <= n && n <= 0x0D)
    ||| n == 0x20
    ||| n == 0x85
    ||| n == 0xA0
    ||| n == 0x1680
    ||| (0x2000 <= n && n <= 0x200A)
    ||| n == 0x2028
    ||| n == 0x2029
    ||| n == 0x202F
    ||| n == 0x205F
    ||| n == 0x3000
}

/// Number of whitespace characters at the front of `s`.
pub open spec fn leading_space(s: Seq<char>) -> nat
    decreases s.len(),
{
    if s.len() > 0 && is_space(s[0]) {
        1 + leading_space(s.drop_first())
    } else {
        0
    }
}

/// Number of whitespace characters at the back of `s`.
pub open spec fn trailing_space(s: Seq<char>) -> nat
    decreases s.len(),
{
    if s.len() > 0 && is_space(s.last()) {
        1 + trailing_space(s.drop_last())
    } else {
        0
    }
}

/// `s` without its leading and trailing whitespace.
pub open spec fn trimmed(s: Seq<char>) -> Seq<char> {
    let lo = leading_space(s);
    if lo >= s.len() {
        Seq::empty()
    } else {
        s.subrange(lo as int, s.len() - trailing_space(s))
    }
}

/// Whether `pat` occurs in `s` starting at index `i`.
pub open spec fn occurs_at(s: Seq<char>, pat: Seq<char>, i: int) -> bool {
    0 <= i && i + pat.len() <= s.len() && s.subrange(i, i + pat.len()) == pat
}

/// Index of the first occurrence of `pat` in `s` at or after `from`.
pub open spec fn find_from(s: Seq<char>, pat: Seq<char>, from: int) -> Option<int>
    decreases s.len() + 1 - from,
{
    if from < 0 || from + pat.len() > s.len() {
        None
    } else if occurs_at(s, pat, from) {
        Some(from)
    } else {
        find_from(s, pat, from + 1)
    }
}

/// Index of the first occurrence of `pat` in `s`.
pub open spec fn find(s: Seq<char>, pat: Seq<char>) -> Option<int> {
    find_from(s, pat, 0)
}

/// Index of the first `c` in `s` at or after `from`, or the length of `s` when
/// there is none.
pub open spec fn index_of(s: Seq<char>, c: char, from: int) -> int
    decreases s.len() - from,
{
    if 0 <= from < s.len() && s[from] != c {
        index_of(s, c, from + 1)
    } else {
        from
    }
}

/// Index of the first line feed at or after `from`, or the length of `s`
/// when there is none.
pub open spec fn line_end(s: Seq<char>, from: int) -> int {
    index_of(s, '\n', from)
}

/// What follows `pat` in `s`, if `s` begins with `pat`.
pub open spec fn after_prefix(s: Seq<char>, pat: Seq<char>) -> Option<Seq<char>> {
    if pat.is_prefix_of(s) {
        Some(s.skip(pat.len() as int))
    } else {
        None
    }
}

/// A line without the carriage return that may precede its line feed.
pub open spec fn chomp_cr(line: Seq<char>) -> Seq<char> {
    if line.len() > 0 && line.last() == '\r' {
        line.drop_last()
    } else {
        line
    }
}

/// The lines of `s` from index `from` on. Lines end at a line feed or at a
/// carriage return directly followed by a line feed; the terminator is not part
/// of the line. The last line needs no terminator, and is then kept as it is.
pub open spec fn lines_from(s: Seq<char>, from: int) -> Seq<Seq<char>>
    decreases s.len() - from,
{
    if from < 0 || from >= s.len() {
        Seq::empty()
    } else {
        let end = line_end(s, from);
        proof {
            lemma_index_of_bounds(s, '\n', from);
        }
        if end >= s.len() {
            seq![s.subrange(from, s.len() as int)]
        } else {
            seq![chomp_cr(s.subrange(from, end))] + lines_from(s, end + 1)
        }
    }
}

/// The lines of `s`.
pub open spec fn lines_of(s: Seq<char>) -> Seq<Seq<char>> {
    lines_from(s, 0)
}

/// The views of a vector of slices.
pub open spec fn slices_view(v: Seq<&[char]>) -> Seq<Seq<char>> {
    Seq::new(v.len(), |i: int| v[i]@)
}

/// `index_of` stays within the sequence, stops at a `c`, and passes none.
pub proof fn lemma_index_of_bounds(s: Seq<char>, c: char, from: int)
    requires
        0 <= from <= s.len(),
    ensures
        from <= index_of(s, c, from) <= s.len(),
        index_of(s, c, from) < s.len() ==> s[index_of(s, c, from)] == c,
        forall|k: int| from <= k < index_of(s, c, from) ==> s[k] != c,
    decreases s.len() - from,
{
    if from < s.len() && s[from] != c {
        lemma_index_of_bounds(s, c, from + 1);
    }
}

/// A sequence holds at most as many lines as characters.
pub proof fn lemma_lines_count(s: Seq<char>, from: int)
    requires
        0 <= from <= s.len(),
    ensures
        lines_from(s, from).len() <= s.len() - from,
    decreases s.len() - from,
{
    if from < s.len() {
        lemma_index_of_bounds(s, '\n', from);
        let end = line_end(s, from);
        if end < s.len() {
            lemma_lines_count(s, end + 1);
        }
    }
}

/// The characters around a trimmed sequence are whitespace, and its ends are not.
pub proof fn lemma_trimmed_bounds(s: Seq<char>)
    ensures
        leading_space(s) <= s.len(),
        trailing_space(s) <= s.len(),
        leading_space(s) < s.len() ==> leading_space(s) + trailing_space(s) < s.len(),
        leading_space(s) < s.len() ==> !is_space(s[leading_space(s) as int]),
        leading_space(s) == s.len() ==> trailing_space(s) == s.len(),
        forall|k: int| 0 <= k < leading_space(s) ==> is_space(#[trigger] s[k]),
        forall|k: int| s.len() - trailing_space(s) <= k < s.len() ==> is_space(#[trigger] s[k]),
        trailing_space(s) < s.len() ==> !is_space(s[s.len() - trailing_space(s) - 1]),
    decreases s.len(),
{
    if s.len() > 0 {
        let a = s.drop_first();
        let b = s.drop_last();
        lemma_trimmed_bounds(a);
        lemma_trimmed_bounds(b);
        if is_space(s[0]) {
            assert forall|k: int| 0 <= k < leading_space(s) implies is_space(#[trigger] s[k]) by {
                if k > 0 {
                    assert(s[k] == a[k - 1]);
                }
            }
        }
        if is_space(s.last()) {
            assert forall|k: int| s.len() - trailing_space(s) <= k < s.len() implies is_space(
                #[trigger] s[k],
            ) by {
                if k < s.len() - 1 {
                    assert(s[k] == b[k]);
                }
            }
        }
        // The two counts meet only when every character is whitespace.
        if leading_space(s) >= s.len() {
            lemma_all_space_trailing(s);
        }
    }
}

proof fn lemma_all_space_trailing(s: Seq<char>)
    requires
        forall|k: int| 0 <= k < s.len() ==> is_space(#[trigger] s[k]),
    ensures
        trailing_space(s) == s.len(),
    decreases s.len(),
{
    if s.len() > 0 {
        let b = s.drop_last();
        assert forall|k: int| 0 <= k < b.len() implies is_space(#[trigger] b[k]) by {}
        lemma_all_space_trailing(b);
    }
}

/// The leading whitespace ends at the first character that is none.
pub proof fn lemma_leading_space_is(s: Seq<char>, n: int)
    requires
        0 <= n <= s.len(),
        forall|k: int| 0 <= k < n ==> is_space(#[trigger] s[k]),
        n == s.len() || !is_space(s[n]),
    ensures
        leading_space(s) == n,
    decreases n,
{
    if n > 0 {
        let rest = s.drop_first();
        assert forall|k: int| 0 <= k < n - 1 implies is_space(#[trigger] rest[k]) by {
            assert(rest[k] == s[k + 1]);
        }
        lemma_leading_space_is(rest, n - 1);
    }
}

/// The trailing whitespace begins behind the last character that is none.
pub proof fn lemma_trailing_space_is(s: Seq<char>, n: int)
    requires
        0 <= n <= s.len(),
        forall|k: int| s.len() - n <= k < s.len() ==> is_space(#[trigger] s[k]),
        n == s.len() || !is_space(s[s.len() - n - 1]),
    ensures
        trailing_space(s) == n,
    decreases n,
{
    if n > 0 {
        let rest = s.drop_last();
        assert forall|k: int| rest.len() - (n - 1) <= k < rest.len() implies is_space(
            #[trigger] rest[k],
        ) by {
            assert(rest[k] == s[k]);
        }
        lemma_trailing_space_is(rest, n - 1);
    }
}

/// The first `c` at or after `from` stands at `at` if none stands before it.
pub proof fn lemma_index_of_is(s: Seq<char>, c: char, from: int, at: int)
    requires
        0 <= from <= at <= s.len(),
        forall|k: int| from <= k < at ==> s[k] != c,
        at == s.len() || s[at] == c,
    ensures
        index_of(s, c, from) == at,
    decreases at - from,
{
    if from < at {
        lemma_index_of_is(s, c, from + 1, at);
    }
}

/// An occurrence with none before it is the one that `find` reports.
pub proof fn lemma_find_is(s: Seq<char>, pat: Seq<char>, at: int)
    requires
        occurs_at(s, pat, at),
        forall|k: int| 0 <= k < at ==> !occurs_at(s, pat, k),
    ensures
        find(s, pat) == Some(at),
{
    lemma_find_from(s, pat, 0);
}

/// A match reported by `find_from` is the leftmost one.
pub proof fn lemma_find_from(s: Seq<char>, pat: Seq<char>, from: int)
    requires
        0 <= from,
    ensures
        match find_from(s, pat, from) {
            Some(i) => from <= i && occurs_at(s, pat, i) && forall|k: int|
                from <= k < i ==> !occurs_at(s, pat, k),
            None => forall|k: int| from <= k ==> !occurs_at(s, pat, k),
        },
    decreases s.len() + 1 - from,
{
    if from + pat.len() <= s.len() && !occurs_at(s, pat, from) {
        lemma_find_from(s, pat, from + 1);
    }
}

/// Whether `c` is a whitespace character.
pub fn is_whitespace(c: char) -> (r: bool)
    ensures
        r == is_space(c),
{
    let n: u32 = c as u32;
    (0x09 <= n && n <= 0x0D) || n == 0x20 || n == 0x85 || n == 0xA0 || n == 0x1680 || (0x2000 <= n
        && n <= 0x200A) || n == 0x2028 || n == 0x2029 || n == 0x202F || n == 0x205F || n == 0x3000
}

/// The characters of a string slice, in order.
pub fn chars_of(s: &str) -> (out: Vec<char>)
    ensures
        out@ == s@,
{
    let mut out: Vec<char> = Vec::new();
    for c in it: s.chars()
        invariant
            out@ == it.seq().take(it.index() as int),
            it.seq() == s@,
    {
        out.push(c);
    }
    out
}

/// The string made of the given characters, in order.
pub fn string_of(s: &[char]) -> (out: String)
    ensures
        out@ == s@,
{
    let mut out = String::new();
    let mut i: usize = 0;
    while i < s.len()
        invariant
            i <= s.len(),
            out@ == s@.take(i as int),
        decreases s.len() - i,
    {
        out.push(s[i]);
        i += 1;
    }
    out
}

/// Where the trimmed part of `s` begins and ends. For a sequence of
/// whitespace only, both indices are the length of `s`.
pub fn trim_range(s: &[char]) -> (r: (usize, usize))
    ensures
        r.0 == leading_space(s@),
        r.0 <= r.1 <= s@.len(),
        s@.subrange(r.0 as int, r.1 as int) == trimmed(s@),
        r.0 < s@.len() ==> r.1 == s@.len() - trailing_space(s@),
{
    let n = s.len();
    let mut lo: usize = 0;
    assert(s@.subrange(0, n as int) == s@);
    while lo < n && is_whitespace(s[lo])
        invariant
            lo <= n,
            n == s@.len(),
            leading_space(s@) == lo + leading_space(s@.subrange(lo as int, n as int)),
        decreases n - lo,
    {
        proof {
            let t = s@.subrange(lo as int, n as int);
            assert(t.drop_first() == s@.subrange(lo + 1, n as int));
        }
        lo += 1;
    }
    proof {
        lemma_trimmed_bounds(s@);
    }
    if lo == n {
        return (n, n);
    }
    let mut hi: usize = n;
    while hi > lo && is_whitespace(s[hi - 1])
        invariant
            lo < hi <= n,
            n == s@.len(),
            trailing_space(s@) == (n - hi) + trailing_space(s@.subrange(0, hi as int)),
            !is_space(s@[lo as int]),
        decreases hi,
    {
        proof {
            let t = s@.subrange(0, hi as int);
            assert(t.drop_last() == s@.subrange(0, hi - 1));
        }
        hi -= 1;
    }
    (lo, hi)
}

/// `s` without its leading and trailing whitespace.
pub fn trim(s: &[char]) -> (r: &[char])
    ensures
        r@ == trimmed(s@),
{
    let (lo, hi) = trim_range(s);
    &s[lo..hi]
}

/// Whether `s` begins with `pat`.
pub fn starts_with(s: &[char], pat: &[char]) -> (r: bool)
    ensures
        r == pat@.is_prefix_of(s@),
{
    if pat.len() > s.len() {
        return false;
    }
    let mut i: usize = 0;
    while i < pat.len()
        invariant
            i <= pat.len() <= s.len(),
            forall|k: int| 0 <= k < i ==> s@[k] == pat@[k],
        decreases pat.len() - i,
    {
        if s[i] != pat[i] {
            return false;
        }
        i += 1;
    }
    true
}

/// Index of the first occurrence of `pat` in `s` at or after `from`.
pub fn find_in(s: &[char], pat: &[char], from: usize) -> (r: Option<usize>)
    ensures
        find_from(s@, pat@, from as int) == match r {
            Some(i) => Some(i as int),
            None => None,
        },
        r matches Some(i) ==> from <= i && i + pat@.len() <= s@.len(),
{
    let n = s.len();
    let m = pat.len();
    if m > n {
        return None;
    }
    let last: usize = n - m;
    let mut i: usize = from;
    while i <= last
        invariant
            from <= i,
            n == s@.len(),
            m == pat@.len(),
            last == n - m,
            find_from(s@, pat@, from as int) == find_from(s@, pat@, i as int),
        decreases last + 1 - i,
    {
        let window = &s[i..i + m];
        if starts_with(window, pat) {
            assert(window@ == pat@);
            return Some(i);
        }
        i += 1;
    }
    None
}

/// Index of the first `c` in `s` at or after `from`, or the length of `s` when
/// there is none.
pub fn position_of(s: &[char], c: char, from: usize) -> (r: usize)
    requires
        from <= s@.len(),
    ensures
        r == index_of(s@, c, from as int),
        from <= r <= s@.len(),
{
    let n = s.len();
    let mut i: usize = from;
    while i < n && s[i] != c
        invariant
            from <= i <= n,
            n == s@.len(),
            index_of(s@, c, from as int) == index_of(s@, c, i as int),
        decreases n - i,
    {
        i += 1;
    }
    i
}

/// What follows `pat` in `s`, if `s` begins with `pat`.
pub fn strip_prefix<'a>(s: &'a [char], pat: &str) -> (r: Option<&'a [char]>)
    ensures
        match r {
            Some(rest) => after_prefix(s@, pat@) == Some(rest@),
            None => after_prefix(s@, pat@) is None,
        },
{
    let p = chars_of(pat);
    if starts_with(s, p.as_slice()) {
        Some(&s[p.len()..s.len()])
    } else {
        None
    }
}

/// Whether `s` holds exactly the characters of `lit`.
pub fn same_text(s: &[char], lit: &str) -> (r: bool)
    ensures
        r == (s@ == lit@),
{
    let p = chars_of(lit);
    if s.len() != p.len() {
        return false;
    }
    let r = starts_with(s, p.as_slice());
    proof {
        if r {
            assert(s@ =~= lit@);
        }
    }
    r
}

/// Appends the characters of `s` to `out`.
pub fn push_chars(out: &mut String, s: &[char])
    ensures
        final(out)@ == old(out)@ + s@,
{
    let mut i: usize = 0;
    while i < s.len()
        invariant
            i <= s.len(),
            out@ == old(out)@ + s@.take(i as int),
        decreases s.len() - i,
    {
        out.push(s[i]);
        i += 1;
    }
}

/// `s` if it has at most `limit` characters; else its first `limit - 3`
/// characters followed by three dots, which together make `limit` characters
/// where `limit` is at least three.
pub open spec fn shortened(s: Seq<char>, limit: nat) -> Seq<char> {
    if s.len() <= limit {
        s
    } else if limit >= 3 {
        s.take(limit - 3) + seq!['.', '.', '.']
    } else {
        seq!['.', '.', '.']
    }
}

/// A text cut to `limit` characters, with dots where it was cut.
pub fn shorten(text: &str, limit: usize) -> (r: String)
    ensures
        r@ == shortened(text@, limit as nat),
        limit >= 3 ==> r@.len() <= limit,
{
    let chars = chars_of(text);
    if chars.len() <= limit {
        return string_of(chars.as_slice());
    }
    let keep: usize = if limit >= 3 {
        limit - 3
    } else {
        0
    };
    let mut out = string_of(&chars.as_slice()[0..keep]);
    out.push('.');
    out.push('.');
    out.push('.');
    out
}

/// The lines of `s`, as slices of it.
pub fn split_lines(s: &[char]) -> (out: Vec<&[char]>)
    ensures
        slices_view(out@) == lines_of(s@),
{
    let n = s.len();
    let mut out: Vec<&[char]> = Vec::new();
    let mut pos: usize = 0;
    while pos < n
        invariant
            pos <= n,
            n == s@.len(),
            lines_of(s@) == slices_view(out@) + lines_from(s@, pos as int),
        decreases n - pos,
    {
        let end = position_of(s, '\n', pos);
        if end == n {
            let line = &s[pos..n];
            out.push(line);
            pos = n;
        } else {
            let stop: usize = if end > pos && s[end - 1] == '\r' {
                end - 1
            } else {
                end
            };
            let line = &s[pos..stop];
            out.push(line);
            proof {
                let full = s@.subrange(pos as int, end as int);
                assert(line@ == chomp_cr(full));
            }
            pos = end + 1;
        }
    }
    out
}

} // verus!
