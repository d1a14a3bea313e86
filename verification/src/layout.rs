//! The lines of a snippet file.
//!
//! A record starts with a line feed and ends with one. Behind text that ends
//! its last line, a record whose trigger holds no line feed therefore adds
//! whole lines of its own and changes none that stood before: an empty line,
//! the trigger line, and the replacement on one line or as a block.

use crate::lines::{
    first_line_ends_at_line_feed, lines_hold_no_line_feed, lines_of,
    lines_start_anew_behind_line_feed, trim_cr,
};
use crate::record::{
    block_body, block_record, indent, indent_all, indented_lines_hold_no_line_feed, record_text,
    single_line_record, terminated_lines_read_back,
};
use crate::snippet::{after_append, header_is_the_first_line, header_text, lemma_written};
use vstd::prelude::*;

verus! {

/// Whether every line of `text` is ended: it is empty or stops with a line
/// feed.
pub open spec fn ends_its_lines(text: Seq<char>) -> bool {
    text.len() == 0 || text.last() == '\n'
}

/// The line of a record that holds the trigger.
pub open spec fn trigger_line(trigger: Seq<char>) -> Seq<char> {
    "- trigger: '"@ + trigger + "'"@
}

/// The lines of a record, for a trigger without a line feed.
///
/// One carriage return at the end of a line of a block is read as a part of
/// the line ending, so the line is listed without it.
pub open spec fn record_lines(trigger: Seq<char>, replace: Seq<char>) -> Seq<Seq<char>> {
    if replace.contains('\n') {
        seq![Seq::empty(), trigger_line(trigger), "  replace: |"@] + indent_all(
            lines_of(replace),
        ).map_values(|line: Seq<char>| trim_cr(line))
    } else {
        seq![Seq::empty(), trigger_line(trigger), "  replace: '"@ + replace + "'"@]
    }
}

/// How many of the lines are the header line.
pub open spec fn header_line_count(lines: Seq<Seq<char>>) -> nat
    decreases lines.len(),
{
    if lines.len() == 0 {
        0
    } else {
        header_line_count(lines.drop_last()) + if lines.last() == "matches:"@ {
            1nat
        } else {
            0nat
        }
    }
}

/// Behind text that ends its last line, the record of a trigger without a line
/// feed adds its own lines and the text ends its last line again.
pub proof fn record_adds_its_lines(text: Seq<char>, trigger: Seq<char>, replace: Seq<char>)
    requires
        ends_its_lines(text),
        !trigger.contains('\n'),
    ensures
        lines_of(text + record_text(trigger, replace)) == lines_of(text) + record_lines(
            trigger,
            replace,
        ),
        ends_its_lines(text + record_text(trigger, replace)),
{
    lines_start_anew_behind_line_feed(text, record_text(trigger, replace));
    lemma_record_lines(trigger, replace);
    reveal_strlit("'\n");
    reveal_strlit("\n");
}

/// No line of a record is the header line: behind text that ends its last
/// line, the record of a trigger without a line feed leaves the number of
/// header lines as it was.
pub proof fn record_adds_no_header_line(text: Seq<char>, trigger: Seq<char>, replace: Seq<char>)
    requires
        ends_its_lines(text),
        !trigger.contains('\n'),
    ensures
        header_line_count(lines_of(text + record_text(trigger, replace))) == header_line_count(
            lines_of(text),
        ),
{
    record_adds_its_lines(text, trigger, replace);
    lemma_record_has_no_header_line(trigger, replace);
    lemma_count_adds_up(lines_of(text), record_lines(trigger, replace));
}

/// After two appends to a file that did not exist, with triggers that hold no
/// line feed, exactly one line of the file is the header line, and it is the
/// first.
pub proof fn two_appends_leave_one_header_line(
    first_trigger: Seq<char>,
    first_replace: Seq<char>,
    second_trigger: Seq<char>,
    second_replace: Seq<char>,
)
    requires
        !first_trigger.contains('\n'),
        !second_trigger.contains('\n'),
    ensures
        after_append(
            after_append(None, first_trigger, first_replace),
            second_trigger,
            second_replace,
        ) matches Some(text) ==> {
            &&& header_line_count(lines_of(text)) == 1
            &&& lines_of(text).first() == "matches:"@
        },
{
    let once = after_append(None, first_trigger, first_replace);
    let twice = after_append(once, second_trigger, second_replace);
    lemma_written(None, first_trigger, first_replace);
    lemma_written(once, second_trigger, second_replace);
    lemma_header_alone();
    if twice is Some {
        let text = twice->0;
        if first_trigger.len() > 0 {
            record_adds_its_lines(header_text(), first_trigger, first_replace);
            record_adds_no_header_line(header_text(), first_trigger, first_replace);
            if second_trigger.len() > 0 {
                record_adds_no_header_line(once->0, second_trigger, second_replace);
            }
        } else {
            record_adds_no_header_line(header_text(), second_trigger, second_replace);
        }
        header_is_the_first_line(text);
    }
}

/// The header alone is one header line, and it ends its line.
proof fn lemma_header_alone()
    ensures
        ends_its_lines(header_text()),
        header_line_count(lines_of(header_text())) == 1,
{
    reveal_strlit("matches:\n");
    reveal_strlit("matches:");
    reveal_strlit("\n");
    reveal_with_fuel(header_line_count, 2);
    assert("matches:"@ + "\n"@ + Seq::empty() == header_text());
    first_line_ends_at_line_feed("matches:"@, Seq::empty());
}

/// Counting over two lists of lines adds up.
proof fn lemma_count_adds_up(front: Seq<Seq<char>>, back: Seq<Seq<char>>)
    ensures
        header_line_count(front + back) == header_line_count(front) + header_line_count(back),
    decreases back.len(),
{
    if back.len() > 0 {
        lemma_count_adds_up(front, back.drop_last());
        assert((front + back).drop_last() == front + back.drop_last());
    }
}

/// Lines of which none is the header line count as none.
proof fn lemma_count_of_other_lines(lines: Seq<Seq<char>>)
    requires
        forall|i: int| 0 <= i < lines.len() ==> #[trigger] lines[i] != "matches:"@,
    ensures
        header_line_count(lines) == 0,
    decreases lines.len(),
{
    if lines.len() > 0 {
        lemma_count_of_other_lines(lines.drop_last());
    }
}

/// The lines of a record are not the header line: the first is empty, and the
/// others start with a hyphen or a space.
proof fn lemma_record_has_no_header_line(trigger: Seq<char>, replace: Seq<char>)
    ensures
        header_line_count(record_lines(trigger, replace)) == 0,
{
    reveal_strlit("matches:");
    reveal_strlit("- trigger: '");
    reveal_strlit("  replace: |");
    reveal_strlit("  replace: '");
    reveal_strlit("    ");
    let lines = record_lines(trigger, replace);
    assert forall|i: int| 0 <= i < lines.len() implies #[trigger] lines[i] != "matches:"@ by {
        if i == 0 {
            assert(lines[i].len() == 0);
        } else if i >= 3 {
            let line = indent(lines_of(replace)[i - 3]);
            assert(lines[i] == trim_cr(line));
            assert(trim_cr(line)[0] == ' ');
        }
    }
    lemma_count_of_other_lines(lines);
}

/// A record of a trigger without a line feed, read line by line.
proof fn lemma_record_lines(trigger: Seq<char>, replace: Seq<char>)
    requires
        !trigger.contains('\n'),
    ensures
        lines_of(record_text(trigger, replace)) == record_lines(trigger, replace),
{
    reveal_strlit("\n- trigger: '");
    reveal_strlit("- trigger: '");
    reveal_strlit("'\n  replace: |\n");
    reveal_strlit("'\n  replace: '");
    reveal_strlit("  replace: |");
    reveal_strlit("  replace: '");
    reveal_strlit("'\n");
    reveal_strlit("'");
    reveal_strlit("\n");
    let nothing = Seq::<char>::empty();
    let first = trigger_line(trigger);
    if replace.contains('\n') {
        let marker = "  replace: |"@;
        let rest = block_body(replace) + "\n"@;
        assert(block_record(trigger, replace) == nothing + "\n"@ + (first + "\n"@ + (marker + "\n"@
            + rest)));
        first_line_ends_at_line_feed(nothing, first + "\n"@ + (marker + "\n"@ + rest));
        first_line_ends_at_line_feed(first, marker + "\n"@ + rest);
        first_line_ends_at_line_feed(marker, rest);
        lines_hold_no_line_feed(replace);
        indented_lines_hold_no_line_feed(lines_of(replace));
        terminated_lines_read_back(indent_all(lines_of(replace)));
    } else {
        let second = "  replace: '"@ + replace + "'"@;
        assert(single_line_record(trigger, replace) == nothing + "\n"@ + (first + "\n"@ + (second
            + "\n"@ + nothing)));
        first_line_ends_at_line_feed(nothing, first + "\n"@ + (second + "\n"@ + nothing));
        first_line_ends_at_line_feed(first, second + "\n"@ + nothing);
        first_line_ends_at_line_feed(second, nothing);
    }
}

} // verus!
