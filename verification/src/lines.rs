//! Splitting text into lines.
//!
//! A line ends at a line feed, or at a carriage return directly followed by a
//! line feed. The terminator is not part of the line, and a terminator at the
//! very end of the text does not open another, empty line.

use vstd::prelude::*;

verus! {

/// How many characters of `text` stand before its first line feed: the whole
/// length when it has none.
pub open spec fn line_len(text: Seq<char>) -> nat
    decreases text.len(),
{
    if text.len() == 0 || text.first() == '\n' {
        0
    } else {
        1 + line_len(text.drop_first())
    }
}

/// `line` without one carriage return at its end, if it has one there.
pub open spec fn trim_cr(line: Seq<char>) -> Seq<char> {
    if line.len() > 0 && line.last() == '\r' {
        line.drop_last()
    } else {
        line
    }
}

/// The lines of `text`, in order.
///
/// Text that stops without a terminator ends in a last line that is kept as it
/// is, a carriage return at its end included.
pub open spec fn lines_of(text: Seq<char>) -> Seq<Seq<char>>
    decreases text.len(),
{
    let n = line_len(text) as int;
    if text.len() == 0 {
        Seq::empty()
    } else if n >= text.len() {
        seq![text]
    } else {
        seq![trim_cr(text.take(n))] + lines_of(text.skip(n + 1))
    }
}

/// `line_len` is the position of the first line feed.
pub proof fn lemma_line_len(text: Seq<char>, k: int)
    requires
        0 <= k <= text.len(),
        forall|j: int| 0 <= j < k ==> text[j] != '\n',
        k == text.len() || text[k] == '\n',
    ensures
        line_len(text) == k,
    decreases k,
{
    if k > 0 {
        lemma_line_len(text.drop_first(), k - 1);
    }
}

/// `line_len` never exceeds the length, and no line feed stands before it.
pub proof fn lemma_line_len_bounds(text: Seq<char>)
    ensures
        line_len(text) <= text.len(),
        forall|j: int| 0 <= j < line_len(text) ==> text[j] != '\n',
        line_len(text) < text.len() ==> text[line_len(text) as int] == '\n',
    decreases text.len(),
{
    if text.len() > 0 && text.first() != '\n' {
        let rest = text.drop_first();
        lemma_line_len_bounds(rest);
        assert forall|j: int| 0 <= j < line_len(text) implies text[j] != '\n' by {
            if j > 0 {
                assert(text[j] == rest[j - 1]);
            }
        }
    }
}

/// No line holds a line feed.
pub proof fn lines_hold_no_line_feed(text: Seq<char>)
    ensures
        forall|i: int|
            0 <= i < lines_of(text).len() ==> !(#[trigger] lines_of(text)[i]).contains('\n'),
    decreases text.len(),
{
    let n = line_len(text) as int;
    lemma_line_len_bounds(text);
    if text.len() > 0 && n < text.len() {
        let rest = text.skip(n + 1);
        lines_hold_no_line_feed(rest);
        assert forall|i: int| 0 <= i < lines_of(text).len() implies !(#[trigger] lines_of(
            text,
        )[i]).contains('\n') by {
            if i > 0 {
                assert(lines_of(text)[i] == lines_of(rest)[i - 1]);
            }
        }
    }
}

/// Text without a line feed that is not empty is its own single line.
pub proof fn text_without_line_feed_is_one_line(text: Seq<char>)
    requires
        text.len() > 0,
        !text.contains('\n'),
    ensures
        lines_of(text) == seq![text],
{
    lemma_line_len(text, text.len() as int);
}

/// Text in front of a line feed, with none of its own, is the first line of
/// the whole, less a carriage return at its end; the lines of what follows the
/// line feed come after it.
pub proof fn first_line_ends_at_line_feed(first: Seq<char>, rest: Seq<char>)
    requires
        !first.contains('\n'),
    ensures
        lines_of(first + "\n"@ + rest) == seq![trim_cr(first)] + lines_of(rest),
{
    reveal_strlit("\n");
    let text = first + "\n"@ + rest;
    let n = first.len() as int;
    lemma_line_len(text, n);
    assert(text.take(n) == first);
    assert(text.skip(n + 1) == rest);
}

/// Behind text that ends in a line feed a new line starts: the lines of the
/// whole are the lines of that text and then the lines of what follows.
pub proof fn lines_start_anew_behind_line_feed(front: Seq<char>, back: Seq<char>)
    requires
        front.len() == 0 || front.last() == '\n',
    ensures
        lines_of(front + back) == lines_of(front) + lines_of(back),
    decreases front.len(),
{
    if front.len() > 0 {
        let whole = front + back;
        let n = line_len(front) as int;
        lemma_line_len_bounds(front);
        lemma_line_len(whole, n);
        let rest = front.skip(n + 1);
        assert(whole.take(n) == front.take(n));
        assert(whole.skip(n + 1) == rest + back);
        lines_start_anew_behind_line_feed(rest, back);
    }
}

/// Whether `text` holds a line feed.
pub fn contains_line_break(text: &str) -> (found: bool)
    ensures
        found == text@.contains('\n'),
{
    let mut found = false;
    for c in it: text.chars()
        invariant
            it.seq() == text@,
            found == text@.take(it.index()).contains('\n'),
    {
        if c == '\n' {
            found = true;
            assert(text@.take(it.index() + 1)[it.index()] == '\n');
        }
    }
    assert(text@.take(text@.len() as int) == text@);
    found
}

/// Splits `text` into its lines.
///
/// Each line is copied out of `text`, which takes time in proportion to the
/// length of `text` for every line.
pub fn split_lines(text: &str) -> (lines: Vec<String>)
    ensures
        lines.deep_view() == lines_of(text@),
{
    let n = text.unicode_len();
    let mut lines: Vec<String> = Vec::new();
    let mut start: usize = 0;
    let mut pos: usize = 0;
    let mut after_cr = false;
    assert(text@.skip(0) == text@);
    for c in it: text.chars()
        invariant
            it.seq() == text@,
            n == text@.len(),
            pos == it.index(),
            start <= pos <= n,
            forall|j: int| start <= j < pos ==> text@[j] != '\n',
            after_cr == (start < pos && text@[pos - 1] == '\r'),
            lines_of(text@) == lines.deep_view() + lines_of(text@.skip(start as int)),
    {
        if c == '\n' {
            let end = if after_cr { pos - 1 } else { pos };
            let line = String::from_str(text.substring_char(start, end));
            proof {
                let rest = text@.skip(start as int);
                let k = pos - start;
                lemma_line_len(rest, k);
                assert(trim_cr(rest.take(k)) == line@);
                assert(rest.skip(k + 1) == text@.skip(pos + 1));
            }
            lines.push(line);
            start = pos + 1;
            after_cr = false;
        } else {
            after_cr = c == '\r';
        }
        pos = pos + 1;
    }
    if start < n {
        let line = String::from_str(text.substring_char(start, n));
        proof {
            let rest = text@.skip(start as int);
            lemma_line_len(rest, rest.len() as int);
        }
        lines.push(line);
    }
    lines
}

} // verus!
