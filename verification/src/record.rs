//! The text of one rule record.
//!
//! A rule whose replacement fits on one line is written with the replacement
//! in quotes. A replacement that holds a line feed is written as a block: its
//! lines follow, each indented by four spaces. Nothing in the trigger or the
//! replacement is escaped.

use crate::lines::{
    contains_line_break, first_line_ends_at_line_feed, lines_hold_no_line_feed, lines_of,
    split_lines, text_without_line_feed_is_one_line, trim_cr,
};
use vstd::prelude::*;

verus! {

/// One text-expansion rule: what is typed, and what takes its place.
#[derive(Debug, PartialEq, Eq)]
pub struct Rule {
    pub trigger: String,
    pub replace: String,
}

/// A rule as two character sequences.
pub struct RuleView {
    pub trigger: Seq<char>,
    pub replace: Seq<char>,
}

impl View for Rule {
    type V = RuleView;

    open spec fn view(&self) -> RuleView {
        RuleView { trigger: self.trigger@, replace: self.replace@ }
    }
}

/// The record of a rule whose replacement is written on one line.
pub open spec fn single_line_record(trigger: Seq<char>, replace: Seq<char>) -> Seq<char> {
    "\n- trigger: '"@ + trigger + "'\n  replace: '"@ + replace + "'\n"@
}

/// A line of a block, with its indentation.
pub open spec fn indent(line: Seq<char>) -> Seq<char> {
    "    "@ + line
}

/// Every line indented, in the same order.
pub open spec fn indent_all(lines: Seq<Seq<char>>) -> Seq<Seq<char>> {
    lines.map_values(|line: Seq<char>| indent(line))
}

/// The lines with one line feed between each two neighbours.
pub open spec fn join_lines(lines: Seq<Seq<char>>) -> Seq<char>
    decreases lines.len(),
{
    if lines.len() == 0 {
        Seq::empty()
    } else if lines.len() == 1 {
        lines.last()
    } else {
        join_lines(lines.drop_last()) + "\n"@ + lines.last()
    }
}

/// The body of a block: the lines of `replace`, indented and joined again.
pub open spec fn block_body(replace: Seq<char>) -> Seq<char> {
    join_lines(indent_all(lines_of(replace)))
}

/// The record of a rule whose replacement is written as a block.
pub open spec fn block_record(trigger: Seq<char>, replace: Seq<char>) -> Seq<char> {
    "\n- trigger: '"@ + trigger + "'\n  replace: |\n"@ + block_body(replace) + "\n"@
}

/// The record of a rule: a block exactly when the replacement holds a line
/// feed.
pub open spec fn record_text(trigger: Seq<char>, replace: Seq<char>) -> Seq<char> {
    if replace.contains('\n') {
        block_record(trigger, replace)
    } else {
        single_line_record(trigger, replace)
    }
}

/// Indents each line of `text` by four spaces and joins the lines with line
/// feeds.
pub fn indent_block(text: &str) -> (body: String)
    ensures
        body@ == block_body(text@),
{
    let lines = split_lines(text);
    let ghost all = lines.deep_view();
    let mut body = String::new();
    let mut i: usize = 0;
    while i < lines.len()
        invariant
            i <= lines.len(),
            all == lines.deep_view(),
            body@ == join_lines(indent_all(all.take(i as int))),
        decreases lines.len() - i,
    {
        assert(indent_all(all.take(i + 1)).drop_last() == indent_all(all.take(i as int)));
        if i > 0 {
            body.append("\n");
        }
        body.append("    ");
        body.append(lines[i].as_str());
        i = i + 1;
    }
    assert(all.take(i as int) == all);
    body
}

/// Writes the record of the rule `trigger`, `replace`.
pub fn format_record(trigger: &str, replace: &str) -> (text: String)
    ensures
        text@ == record_text(trigger@, replace@),
{
    let mut text = String::from_str("\n- trigger: '");
    text.append(trigger);
    if contains_line_break(replace) {
        let body = indent_block(replace);
        text.append("'\n  replace: |\n");
        text.append(body.as_str());
        text.append("\n");
    } else {
        text.append("'\n  replace: '");
        text.append(replace);
        text.append("'\n");
    }
    text
}

/// The record of a replacement that holds a line feed is a block: behind the
/// trigger and the block marker stand the lines of the replacement, as many as
/// it has and in their order, each behind exactly four spaces, with one line
/// feed between two of them and one at the end.
pub proof fn block_holds_each_line_indented(trigger: Seq<char>, replace: Seq<char>)
    requires
        replace.contains('\n'),
    ensures
        record_text(trigger, replace) == "\n- trigger: '"@ + trigger + "'\n  replace: |\n"@
            + join_lines(indent_all(lines_of(replace))) + "\n"@,
        lines_of(replace).len() >= 1,
        indent_all(lines_of(replace)).len() == lines_of(replace).len(),
        forall|i: int|
            0 <= i < lines_of(replace).len() ==> #[trigger] indent_all(lines_of(replace))[i]
                == "    "@ + lines_of(replace)[i],
{
}

/// Read line by line, the body of a block gives the lines of the replacement
/// again, each behind four spaces. This holds where no line of the replacement
/// but the last ends in a carriage return: such a one would be taken for a
/// part of the line ending when the body is read.
pub proof fn block_body_reads_back(replace: Seq<char>)
    requires
        forall|i: int|
            0 <= i < lines_of(replace).len() - 1 ==> trim_cr(#[trigger] lines_of(replace)[i])
                == lines_of(replace)[i],
    ensures
        lines_of(block_body(replace)) == indent_all(lines_of(replace)),
{
    lines_hold_no_line_feed(replace);
    reveal_strlit("    ");
    lemma_joined_lines_read_back(indent_all(lines_of(replace)));
}

/// Indented lines are never empty, and they hold no line feed where the lines
/// themselves hold none.
pub proof fn indented_lines_hold_no_line_feed(lines: Seq<Seq<char>>)
    requires
        forall|i: int| 0 <= i < lines.len() ==> !(#[trigger] lines[i]).contains('\n'),
    ensures
        forall|i: int|
            0 <= i < lines.len() ==> {
                &&& (#[trigger] indent_all(lines)[i]).len() >= 4
                &&& !indent_all(lines)[i].contains('\n')
            },
{
    reveal_strlit("    ");
    assert forall|i: int| 0 <= i < lines.len() implies !(#[trigger] indent_all(lines)[i]).contains(
        '\n',
    ) by {}
}

/// The first line stands in front of the others, behind it a line feed.
proof fn lemma_join_from_the_front(lines: Seq<Seq<char>>)
    requires
        lines.len() >= 2,
    ensures
        join_lines(lines) == lines.first() + "\n"@ + join_lines(lines.drop_first()),
    decreases lines.len(),
{
    let tail = lines.drop_first();
    if lines.len() == 2 {
        assert(join_lines(lines.drop_last()) == lines.first());
    } else {
        let front = lines.drop_last();
        lemma_join_from_the_front(front);
        assert(front.drop_first() == tail.drop_last());
    }
}

/// Lines that are not empty and hold no line feed, and of which only the last
/// may end in a carriage return, are read back from their joined text.
proof fn lemma_joined_lines_read_back(lines: Seq<Seq<char>>)
    requires
        forall|i: int|
            0 <= i < lines.len() ==> {
                &&& (#[trigger] lines[i]).len() > 0
                &&& !lines[i].contains('\n')
                &&& i < lines.len() - 1 ==> trim_cr(lines[i]) == lines[i]
            },
    ensures
        lines_of(join_lines(lines)) == lines,
    decreases lines.len(),
{
    if lines.len() == 1 {
        text_without_line_feed_is_one_line(lines[0]);
    } else if lines.len() >= 2 {
        let tail = lines.drop_first();
        assert forall|i: int| 0 <= i < tail.len() implies {
            &&& (#[trigger] tail[i]).len() > 0
            &&& !tail[i].contains('\n')
            &&& i < tail.len() - 1 ==> trim_cr(tail[i]) == tail[i]
        } by {}
        lemma_joined_lines_read_back(tail);
        lemma_join_from_the_front(lines);
        first_line_ends_at_line_feed(lines.first(), join_lines(tail));
    }
}

/// Joined lines with a line feed behind the last are read back one by one,
/// each less a carriage return at its end.
pub proof fn terminated_lines_read_back(lines: Seq<Seq<char>>)
    requires
        lines.len() >= 1,
        forall|i: int| 0 <= i < lines.len() ==> !(#[trigger] lines[i]).contains('\n'),
    ensures
        lines_of(join_lines(lines) + "\n"@) == lines.map_values(|line: Seq<char>| trim_cr(line)),
    decreases lines.len(),
{
    if lines.len() == 1 {
        first_line_ends_at_line_feed(lines[0], Seq::empty());
    } else {
        let tail = lines.drop_first();
        terminated_lines_read_back(tail);
        lemma_join_from_the_front(lines);
        first_line_ends_at_line_feed(lines.first(), join_lines(tail) + "\n"@);
        assert(lines.first() + "\n"@ + (join_lines(tail) + "\n"@) == join_lines(lines) + "\n"@);
    }
}

impl Rule {
    /// A rule of the given trigger and replacement.
    pub fn new(trigger: String, replace: String) -> (rule: Rule)
        ensures
            rule.trigger == trigger,
            rule.replace == replace,
    {
        Rule { trigger, replace }
    }

    /// Whether the trigger is empty. Such a rule is never written.
    pub fn is_blank(&self) -> (blank: bool)
        ensures
            blank == (self@.trigger.len() == 0),
    {
        self.trigger.as_str().is_empty()
    }

    /// The record of this rule.
    pub fn record(&self) -> (text: String)
        ensures
            text@ == record_text(self@.trigger, self@.replace),
    {
        format_record(self.trigger.as_str(), self.replace.as_str())
    }
}

impl Clone for Rule {
    fn clone(&self) -> (copy: Rule)
        ensures
            copy@ == self@,
    {
        Rule { trigger: self.trigger.clone(), replace: self.replace.clone() }
    }
}

impl Default for Rule {
    /// The blank rule: an empty trigger and an empty replacement.
    fn default() -> (rule: Rule)
        ensures
            rule@.trigger == Seq::<char>::empty(),
            rule@.replace == Seq::<char>::empty(),
    {
        Rule { trigger: String::new(), replace: String::new() }
    }
}

} // verus!
