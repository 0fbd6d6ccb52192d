//! The boot log as text: splitting it into lines and keeping the most
//! recent ones.

use vstd::prelude::*;
use crate::text::{chars_of, string_of};

verus! {

/// Lines kept when a start is judged.
pub const BOOT_TAIL_LINES: usize = 20;

/// Lines kept in a status snapshot.
pub const STATUS_TAIL_LINES: usize = 30;

/// Lines kept when the log is fetched on demand.
pub const FULL_TAIL_LINES: usize = 100;

/// The text reported in place of a log that cannot be read.
pub open spec fn no_log_text() -> Seq<char> {
    "(no log file found)"@
}

/// How many characters stand between `from` and the next line feed (or the
/// end of the text).
pub open spec fn line_len(s: Seq<char>, from: int) -> nat
    decreases s.len() - from,
{
    if from < 0 || from >= s.len() || s[from] == '\n' {
        0
    } else {
        1 + line_len(s, from + 1)
    }
}

/// A line without the carriage return that may end it.
pub open spec fn without_cr(line: Seq<char>) -> Seq<char> {
    if line.len() > 0 && line.last() == '\r' {
        line.drop_last()
    } else {
        line
    }
}

/// The lines of `s` from position `from` on. A line ends at a line feed,
/// which is dropped together with a carriage return just before it; text
/// after the last line feed is a line of its own, kept as it is.
pub open spec fn lines_from(s: Seq<char>, from: int) -> Seq<Seq<char>>
    decreases s.len() - from,
{
    if from < 0 || from >= s.len() {
        Seq::empty()
    } else {
        let end = from + line_len(s, from);
        if end >= s.len() {
            seq![s.subrange(from, s.len() as int)]
        } else {
            seq![without_cr(s.subrange(from, end))] + lines_from(s, end + 1)
        }
    }
}

/// The lines of a text.
pub open spec fn lines_of(s: Seq<char>) -> Seq<Seq<char>> {
    lines_from(s, 0)
}

/// The lines joined again, one line feed between two neighbours.
pub open spec fn join_lines(lines: Seq<Seq<char>>) -> Seq<char>
    decreases lines.len(),
{
    if lines.len() == 0 {
        Seq::empty()
    } else if lines.len() == 1 {
        lines[0]
    } else {
        join_lines(lines.drop_last()) + seq!['\n'] + lines.last()
    }
}

/// The last `n` of `lines`, or all of them where there are no more than `n`.
pub open spec fn last_lines(lines: Seq<Seq<char>>, n: nat) -> Seq<Seq<char>> {
    if lines.len() > n {
        lines.subrange(lines.len() - n, lines.len() as int)
    } else {
        lines
    }
}

/// The last `n` lines of `content`, joined by line feeds.
pub open spec fn tail_of(content: Seq<char>, n: nat) -> Seq<char> {
    join_lines(last_lines(lines_of(content), n))
}

/// A stretch without a line feed that ends at one, or at the end of the
/// text, is exactly what `line_len` measures.
proof fn lemma_line_len(s: Seq<char>, from: int, to: int)
    requires
        0 <= from <= to <= s.len(),
        forall|k: int| from <= k < to ==> s[k] != '\n',
        to == s.len() || s[to] == '\n',
    ensures
        line_len(s, from) == to - from,
    decreases to - from,
{
    if from < to {
        lemma_line_len(s, from + 1, to);
    }
}

/// Where each line of the text begins and ends.
spec fn spans_cover(s: Seq<char>, spans: Seq<(usize, usize)>, lines: Seq<Seq<char>>) -> bool {
    &&& spans.len() == lines.len()
    &&& forall|k: int|
        0 <= k < spans.len() ==> {
            &&& (#[trigger] spans[k]).0 <= spans[k].1 <= s.len()
            &&& s.subrange(spans[k].0 as int, spans[k].1 as int) == lines[k]
        }
}

fn line_spans(s: &Vec<char>) -> (spans: Vec<(usize, usize)>)
    ensures
        spans_cover(s@, spans@, lines_of(s@)),
{
    let n: usize = s.len();
    let mut spans: Vec<(usize, usize)> = Vec::new();
    let ghost mut done: Seq<Seq<char>> = Seq::empty();
    let mut start: usize = 0;
    let mut i: usize = 0;
    while i < n
        invariant
            n == s@.len(),
            start <= i <= n,
            forall|k: int| start <= k < i ==> s@[k] != '\n',
            lines_of(s@) =~= done + lines_from(s@, start as int),
            spans_cover(s@, spans@, done),
        decreases n - i,
    {
        if s[i] == '\n' {
            let mut end: usize = i;
            if end > start && s[end - 1] == '\r' {
                end = end - 1;
            }
            proof {
                lemma_line_len(s@, start as int, i as int);
                let line = s@.subrange(start as int, i as int);
                assert(s@.subrange(start as int, end as int) =~= without_cr(line));
                done = done.push(without_cr(line));
            }
            spans.push((start, end));
            start = i + 1;
        }
        i = i + 1;
    }
    if start < n {
        proof {
            lemma_line_len(s@, start as int, n as int);
            done = done.push(s@.subrange(start as int, n as int));
        }
        spans.push((start, n));
    }
    spans
}

fn join_spans(s: &Vec<char>, spans: &Vec<(usize, usize)>, first: usize, Ghost(lines): Ghost<
    Seq<Seq<char>>,
>) -> (out: Vec<char>)
    requires
        spans_cover(s@, spans@, lines),
        first <= spans@.len(),
    ensures
        out@ == join_lines(lines.subrange(first as int, lines.len() as int)),
{
    let mut out: Vec<char> = Vec::new();
    let mut k: usize = first;
    while k < spans.len()
        invariant
            spans_cover(s@, spans@, lines),
            first <= k <= spans@.len(),
            out@ == join_lines(lines.subrange(first as int, k as int)),
        decreases spans@.len() - k,
    {
        let ghost before = out@;
        if k > first {
            out.push('\n');
        }
        let ghost base = out@;
        let (a, b) = spans[k];
        let mut j: usize = a;
        while j < b
            invariant
                a <= j <= b <= s@.len(),
                out@ == base + s@.subrange(a as int, j as int),
            decreases b - j,
        {
            out.push(s[j]);
            proof {
                assert(s@.subrange(a as int, j + 1) =~= s@.subrange(a as int, j as int).push(
                    s@[j as int],
                ));
            }
            j = j + 1;
        }
        proof {
            let upto = lines.subrange(first as int, k + 1);
            assert(upto.last() == lines[k as int]);
            assert(upto.drop_last() =~= lines.subrange(first as int, k as int));
            assert(s@.subrange(a as int, a as int) =~= Seq::<char>::empty());
            if k == first {
                assert(out@ =~= lines[k as int]);
            } else {
                assert(out@ =~= before + seq!['\n'] + lines[k as int]);
            }
        }
        k = k + 1;
    }
    proof {
        assert(lines.subrange(first as int, k as int) =~= lines.subrange(
            first as int,
            lines.len() as int,
        ));
    }
    out
}

/// The last `lines` lines of `content`, in their order, joined by line feeds.
pub fn tail_text(content: &str, lines: usize) -> (out: String)
    ensures
        out@ == tail_of(content@, lines as nat),
{
    let s = chars_of(content);
    let spans = line_spans(&s);
    let count: usize = spans.len();
    let first: usize = if count > lines {
        count - lines
    } else {
        0
    };
    let joined = join_spans(&s, &spans, first, Ghost(lines_of(s@)));
    proof {
        let all = lines_of(s@);
        assert(all.subrange(first as int, all.len() as int) =~= last_lines(all, lines as nat));
    }
    string_of(&joined)
}

/// The tail of the boot log for a snapshot: the last `lines` lines of what
/// was read, or a fixed notice where the file could not be read.
pub fn read_log_tail(content: Option<&str>, lines: usize) -> (out: String)
    ensures
        match content {
            Some(c) => out@ == tail_of(c@, lines as nat),
            None => out@ == no_log_text(),
        },
{
    match content {
        Some(c) => tail_text(c, lines),
        None => "(no log file found)".to_string(),
    }
}

/// The log as fetched on demand: its last hundred lines, or the error with
/// which it could not be opened.
pub fn read_log_tail_full(content: Result<String, String>) -> (out: Result<String, String>)
    ensures
        match content {
            Ok(c) => out is Ok && out->Ok_0@ == tail_of(c@, FULL_TAIL_LINES as nat),
            Err(e) => out == Err::<String, String>(e),
        },
{
    match content {
        Ok(c) => Ok(tail_text(c.as_str(), FULL_TAIL_LINES)),
        Err(e) => Err(e),
    }
}


/// A text whose lines come back as they were written: it does not end with
/// a line feed, and no line feed follows a carriage return.
pub open spec fn is_plain(s: Seq<char>) -> bool {
    &&& s.len() > 0 ==> s.last() != '\n'
    &&& forall|k: int| 0 < k < s.len() && #[trigger] s[k] == '\n' ==> s[k - 1] != '\r'
}

proof fn lemma_line_len_ends(s: Seq<char>, from: int)
    requires
        0 <= from <= s.len(),
    ensures
        from + line_len(s, from) <= s.len(),
        forall|k: int| from <= k < from + line_len(s, from) ==> s[k] != '\n',
        from + line_len(s, from) < s.len() ==> s[from + line_len(s, from)] == '\n',
    decreases s.len() - from,
{
    if from < s.len() && s[from] != '\n' {
        lemma_line_len_ends(s, from + 1);
    }
}

proof fn lemma_join_front(first: Seq<char>, rest: Seq<Seq<char>>)
    requires
        rest.len() > 0,
    ensures
        join_lines(seq![first] + rest) == first + seq!['\n'] + join_lines(rest),
    decreases rest.len(),
{
    let all = seq![first] + rest;
    if rest.len() == 1 {
        assert(all.drop_last() =~= seq![first]);
        assert(all.last() == rest[0]);
        assert(join_lines(seq![first]) == first);
        assert(join_lines(rest) == rest[0]);
        assert(join_lines(all) =~= first + seq!['\n'] + join_lines(rest));
    } else {
        assert(all.drop_last() =~= seq![first] + rest.drop_last());
        assert(all.last() == rest.last());
        lemma_join_front(first, rest.drop_last());
        assert(join_lines(all) =~= first + seq!['\n'] + join_lines(rest));
    }
}

proof fn lemma_plain_lines_join(s: Seq<char>, from: int)
    requires
        is_plain(s),
        0 <= from < s.len(),
    ensures
        lines_from(s, from).len() > 0,
        join_lines(lines_from(s, from)) == s.subrange(from, s.len() as int),
    decreases s.len() - from,
{
    lemma_line_len_ends(s, from);
    let end = from + line_len(s, from);
    if end < s.len() {
        let line = s.subrange(from, end);
        assert(without_cr(line) == line) by {
            if line.len() > 0 {
                assert(line.last() == s[end - 1]);
            }
        }
        lemma_plain_lines_join(s, end + 1);
        lemma_join_front(line, lines_from(s, end + 1));
        assert(line + seq!['\n'] + s.subrange(end + 1, s.len() as int) =~= s.subrange(
            from,
            s.len() as int,
        ));
    }
}

/// The tail holds the most recent lines and nothing else: all the lines of
/// a text that has no more than `n`, and exactly the last `n` of a longer
/// one, each in its place, joined by line feeds.
pub proof fn lemma_tail_keeps_last_lines(content: Seq<char>, n: nat)
    ensures
        tail_of(content, n) == join_lines(last_lines(lines_of(content), n)),
        lines_of(content).len() <= n ==> last_lines(lines_of(content), n) == lines_of(content),
        lines_of(content).len() > n ==> {
            &&& last_lines(lines_of(content), n).len() == n
            &&& forall|i: int|
                0 <= i < n ==> #[trigger] last_lines(lines_of(content), n)[i] == lines_of(
                    content,
                )[lines_of(content).len() - n + i]
        },
{
}

/// The tail of a plain text that has no more than `n` lines is the whole
/// text, unchanged.
pub proof fn lemma_short_plain_text_unchanged(content: Seq<char>, n: nat)
    requires
        is_plain(content),
        lines_of(content).len() <= n,
    ensures
        tail_of(content, n) == content,
{
    if content.len() > 0 {
        lemma_plain_lines_join(content, 0);
        assert(content.subrange(0, content.len() as int) =~= content);
    } else {
        assert(join_lines(lines_of(content)) =~= content);
    }
}

} // verus!
