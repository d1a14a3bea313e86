//! What one append does to the snippet file.
//!
//! The file is only ever written at its end. An append of a blank rule writes
//! nothing. Any other append writes the header first when it finds no file,
//! and then the record of the rule, each as a write of its own.

use crate::lines::{first_line_ends_at_line_feed, lines_of};
use crate::record::{record_text, single_line_record, Rule};
use vstd::prelude::*;

verus! {

/// The header line of a snippet file.
pub open spec fn header_text() -> Seq<char> {
    "matches:\n"@
}

/// The pieces of text that an append of the rule writes, in order, to a file
/// that does or does not exist yet.
pub open spec fn writes_of(trigger: Seq<char>, replace: Seq<char>, file_exists: bool) -> Seq<
    Seq<char>,
> {
    if trigger.len() == 0 {
        Seq::empty()
    } else if file_exists {
        seq![record_text(trigger, replace)]
    } else {
        seq![header_text(), record_text(trigger, replace)]
    }
}

/// The text of a file; a file that does not exist has none.
pub open spec fn content_of(file: Option<Seq<char>>) -> Seq<char> {
    match file {
        Some(text) => text,
        None => Seq::empty(),
    }
}

/// The file after the pieces were written at its end, one after the other.
/// The first write creates a file that did not exist.
pub open spec fn written(file: Option<Seq<char>>, pieces: Seq<Seq<char>>) -> Option<Seq<char>>
    decreases pieces.len(),
{
    if pieces.len() == 0 {
        file
    } else {
        Some(content_of(written(file, pieces.drop_last())) + pieces.last())
    }
}

/// The file after one append of the rule.
pub open spec fn after_append(file: Option<Seq<char>>, trigger: Seq<char>, replace: Seq<char>)
    -> Option<Seq<char>> {
    written(file, writes_of(trigger, replace, file is Some))
}

/// Whether a file, if there is one, starts with the header.
pub open spec fn starts_with_header(file: Option<Seq<char>>) -> bool {
    file matches Some(text) ==> header_text().is_prefix_of(text)
}

/// The header line that starts a fresh snippet file.
pub fn header() -> (text: String)
    ensures
        text@ == header_text(),
{
    String::from_str("matches:\n")
}

impl Rule {
    /// The pieces of text to write, in order, to append this rule to a file
    /// that does or does not exist yet. A blank rule has none.
    pub fn writes(&self, file_exists: bool) -> (pieces: Vec<String>)
        ensures
            pieces.deep_view() == writes_of(self@.trigger, self@.replace, file_exists),
    {
        let mut pieces: Vec<String> = Vec::new();
        if !self.is_blank() {
            if !file_exists {
                pieces.push(header());
            }
            pieces.push(self.record());
        }
        pieces
    }
}

/// A snippet file held in memory: its text, or nothing while it does not
/// exist.
#[derive(Debug, PartialEq, Eq)]
pub struct SnippetFile {
    pub content: Option<String>,
}

impl View for SnippetFile {
    type V = Option<Seq<char>>;

    open spec fn view(&self) -> Option<Seq<char>> {
        match self.content {
            Some(text) => Some(text@),
            None => None,
        }
    }
}

impl Clone for SnippetFile {
    fn clone(&self) -> (copy: SnippetFile)
        ensures
            copy@ == self@,
    {
        match &self.content {
            Some(text) => SnippetFile { content: Some(text.clone()) },
            None => SnippetFile { content: None },
        }
    }
}

impl SnippetFile {
    /// The file that does not exist yet.
    pub fn missing() -> (file: SnippetFile)
        ensures
            file@ is None,
    {
        SnippetFile { content: None }
    }

    /// A file that exists and holds `text`.
    pub fn holding(text: String) -> (file: SnippetFile)
        ensures
            file@ == Some(text@),
    {
        SnippetFile { content: Some(text) }
    }

    /// Whether the file exists.
    pub fn is_present(&self) -> (found: bool)
        ensures
            found == (self@ is Some),
    {
        self.content.is_some()
    }

    /// Writes `piece` at the end of the file, which exists afterwards.
    pub fn write(&mut self, piece: &str)
        ensures
            final(self)@ == Some(content_of(old(self)@) + piece@),
    {
        let mut text = match self.content.take() {
            Some(text) => text,
            None => String::new(),
        };
        text.append(piece);
        self.content = Some(text);
    }

    /// Appends `rule` as the tool does on disk: nothing for a blank rule, else
    /// the header if the file is new, and the record.
    pub fn append(&mut self, rule: &Rule)
        ensures
            final(self)@ == after_append(old(self)@, rule@.trigger, rule@.replace),
            starts_with_header(old(self)@) ==> starts_with_header(final(self)@),
    {
        let pieces = rule.writes(self.is_present());
        let ghost all = pieces.deep_view();
        let mut i: usize = 0;
        while i < pieces.len()
            invariant
                i <= pieces.len(),
                all == pieces.deep_view(),
                self@ == written(old(self)@, all.take(i as int)),
            decreases pieces.len() - i,
        {
            assert(all.take(i + 1).drop_last() == all.take(i as int));
            self.write(pieces[i].as_str());
            i = i + 1;
        }
        assert(all.take(i as int) == all);
        proof {
            if starts_with_header(old(self)@) {
                header_stays_in_front(old(self)@, rule@.trigger, rule@.replace);
            }
        }
    }
}

/// Appending a rule with a one-line replacement to a file adds exactly the
/// one-line record behind what the file held, which stays in front, and what
/// it held is shorter than what it holds now. A file that did not exist holds
/// the header and that record.
pub proof fn single_line_append_adds_one_record(
    file: Option<Seq<char>>,
    trigger: Seq<char>,
    replace: Seq<char>,
)
    requires
        trigger.len() > 0,
        !replace.contains('\n'),
    ensures
        writes_of(trigger, replace, true) == seq![single_line_record(trigger, replace)],
        match file {
            Some(text) => {
                &&& after_append(file, trigger, replace) == Some(
                    text + single_line_record(trigger, replace),
                )
                &&& text.is_prefix_of(text + single_line_record(trigger, replace))
                &&& text.len() < (text + single_line_record(trigger, replace)).len()
            },
            None => after_append(file, trigger, replace) == Some(
                header_text() + single_line_record(trigger, replace),
            ),
        },
{
    lemma_written(file, trigger, replace);
}

/// Appending never changes what a file already held: that text stays at the
/// front, whatever the rule.
pub proof fn append_keeps_what_was_there(
    file: Option<Seq<char>>,
    trigger: Seq<char>,
    replace: Seq<char>,
)
    ensures
        content_of(file).is_prefix_of(content_of(after_append(file, trigger, replace))),
        file is Some ==> after_append(file, trigger, replace) is Some,
{
    lemma_written(file, trigger, replace);
}

/// Appending a blank rule leaves everything as it was: nothing is written, a
/// file that did not exist still does not, and one that did holds what it
/// held.
pub proof fn blank_rule_is_ignored(file: Option<Seq<char>>, replace: Seq<char>)
    ensures
        writes_of(Seq::empty(), replace, file is Some) == Seq::<Seq<char>>::empty(),
        after_append(file, Seq::empty(), replace) == file,
{
}

/// Two appends to a file that did not exist write the header once, in front of
/// everything else: the first rule that is not blank brings it, and an append
/// that finds the file never writes it.
pub proof fn header_is_written_once(
    first_trigger: Seq<char>,
    first_replace: Seq<char>,
    second_trigger: Seq<char>,
    second_replace: Seq<char>,
)
    ensures
        after_append(
            after_append(None, first_trigger, first_replace),
            second_trigger,
            second_replace,
        ) == if first_trigger.len() == 0 && second_trigger.len() == 0 {
            None
        } else {
            Some(
                header_text() + if first_trigger.len() == 0 {
                    Seq::empty()
                } else {
                    record_text(first_trigger, first_replace)
                } + if second_trigger.len() == 0 {
                    Seq::empty()
                } else {
                    record_text(second_trigger, second_replace)
                },
            )
        },
        !writes_of(second_trigger, second_replace, true).contains(header_text()),
{
    let once = after_append(None, first_trigger, first_replace);
    lemma_written(None, first_trigger, first_replace);
    lemma_written(once, second_trigger, second_replace);
    lemma_record_is_no_header(second_trigger, second_replace);
}

/// A file that starts with the header still does after an append, and a file
/// that an append creates starts with it.
pub proof fn header_stays_in_front(
    file: Option<Seq<char>>,
    trigger: Seq<char>,
    replace: Seq<char>,
)
    requires
        starts_with_header(file),
    ensures
        starts_with_header(after_append(file, trigger, replace)),
{
    lemma_written(file, trigger, replace);
}

/// An append that stops between two of its writes leaves a beginning of what
/// it would have left: what the file held is still in front, and what was
/// written so far is where the whole would have it.
pub proof fn interrupted_append_leaves_a_beginning(
    file: Option<Seq<char>>,
    trigger: Seq<char>,
    replace: Seq<char>,
    done: int,
)
    requires
        0 <= done <= writes_of(trigger, replace, file is Some).len(),
    ensures
        content_of(file).is_prefix_of(
            content_of(written(file, writes_of(trigger, replace, file is Some).take(done))),
        ),
        content_of(
            written(file, writes_of(trigger, replace, file is Some).take(done)),
        ).is_prefix_of(content_of(after_append(file, trigger, replace))),
{
    let pieces = writes_of(trigger, replace, file is Some);
    lemma_written_grows(file, pieces.take(done), 0);
    lemma_written_grows(file, pieces, done);
}

/// A file that starts with the header has the header as its first line.
pub proof fn header_is_the_first_line(text: Seq<char>)
    requires
        header_text().is_prefix_of(text),
    ensures
        lines_of(text).len() >= 1,
        lines_of(text).first() == "matches:"@,
{
    reveal_strlit("matches:\n");
    reveal_strlit("matches:");
    reveal_strlit("\n");
    let rest = text.skip(header_text().len() as int);
    assert("matches:"@ + "\n"@ == header_text());
    assert(text == "matches:"@ + "\n"@ + rest);
    first_line_ends_at_line_feed("matches:"@, rest);
}

/// Writing more pieces only adds at the end.
proof fn lemma_written_grows(file: Option<Seq<char>>, pieces: Seq<Seq<char>>, done: int)
    requires
        0 <= done <= pieces.len(),
    ensures
        content_of(written(file, pieces.take(done))).is_prefix_of(
            content_of(written(file, pieces)),
        ),
    decreases pieces.len() - done,
{
    if done == pieces.len() {
        assert(pieces.take(done) == pieces);
    } else {
        let front = pieces.drop_last();
        assert(front.take(done) == pieces.take(done));
        lemma_written_grows(file, front, done);
    }
}

/// An append, case by case: a blank rule changes nothing, any other rule adds
/// its record, behind the header where there was no file.
pub proof fn lemma_written(file: Option<Seq<char>>, trigger: Seq<char>, replace: Seq<char>)
    ensures
        after_append(file, trigger, replace) == if trigger.len() == 0 {
            file
        } else {
            match file {
                Some(text) => Some(text + record_text(trigger, replace)),
                None => Some(header_text() + record_text(trigger, replace)),
            }
        },
{
    reveal_with_fuel(written, 3);
}

/// No record is the header: a record starts with a line feed.
pub proof fn lemma_record_is_no_header(trigger: Seq<char>, replace: Seq<char>)
    ensures
        record_text(trigger, replace) != header_text(),
{
    reveal_strlit("\n- trigger: '");
    reveal_strlit("matches:\n");
    assert(header_text()[0] == 'm');
}

} // verus!
