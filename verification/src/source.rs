//! The line source: the lines of a log that have not been read yet.

use vstd::prelude::*;
use crate::text::chars_of;

verus! {

/// The contents of each of `lines`.
pub open spec fn texts(lines: Seq<String>) -> Seq<Seq<char>> {
    Seq::new(lines.len(), |i: int| lines[i]@)
}

/// The index of the first line feed of `text` at or after `from`, or the
/// length of `text` where there is none.
pub open spec fn line_end(text: Seq<char>, from: int) -> int
    decreases text.len() - from,
{
    if from < 0 || from >= text.len() {
        text.len() as int
    } else if text[from] == '\n' {
        from
    } else {
        line_end(text, from + 1)
    }
}

/// The lines of `text` from the index `from` on. A line ends in front of a
/// line feed or at the end of the text, and the next one starts behind that
/// line feed; behind the last line feed of a text no empty line follows.
pub open spec fn lines_from(text: Seq<char>, from: int) -> Seq<Seq<char>>
    decreases text.len() - from + 1,
    via lines_from_decreases
{
    if from < 0 || from >= text.len() {
        Seq::empty()
    } else {
        let end = line_end(text, from);
        seq![text.subrange(from, end)] + lines_from(text, end + 1)
    }
}

#[via_fn]
proof fn lines_from_decreases(text: Seq<char>, from: int) {
    if 0 <= from < text.len() {
        lemma_line_end(text, from);
    }
}

/// The lines of `text`.
pub open spec fn lines_of(text: Seq<char>) -> Seq<Seq<char>> {
    lines_from(text, 0)
}

/// A line ends at or behind the index at which it starts, and within the
/// text.
pub proof fn lemma_line_end(text: Seq<char>, from: int)
    requires
        0 <= from <= text.len(),
    ensures
        from <= line_end(text, from) <= text.len(),
    decreases text.len() - from,
{
    if from < text.len() && text[from] != '\n' {
        lemma_line_end(text, from + 1);
    }
}

/// An ordered sequence of lines that is read from the front, one line at a
/// time, with a look at the next line. A line that was read does not come
/// back. The view is the sequence of the lines that are still unread.
pub struct LineSource {
    lines: Vec<String>,
    next: usize,
}

impl View for LineSource {
    type V = Seq<Seq<char>>;

    closed spec fn view(&self) -> Seq<Seq<char>> {
        Seq::new(
            (self.lines.len() - self.next) as nat,
            |i: int| self.lines@[self.next + i]@,
        )
    }
}

impl LineSource {
    #[verifier::type_invariant]
    spec fn within(self) -> bool {
        self.next <= self.lines.len()
    }

    /// A source that hands out `lines` in their order.
    pub fn new(lines: Vec<String>) -> (source: LineSource)
        ensures
            source@ == texts(lines@),
    {
        let source = LineSource { lines, next: 0 };
        assert(source@ =~= texts(lines@));
        source
    }

    /// A source that hands out the lines of `text`.
    pub fn from_text(text: &str) -> (source: LineSource)
        ensures
            source@ == lines_of(text@),
    {
        let chars = chars_of(text);
        let mut lines: Vec<String> = Vec::new();
        let mut from: usize = 0;
        assert(texts(lines@) + lines_from(chars@, 0) =~= lines_from(chars@, 0));
        while from < chars.len()
            invariant
                chars@ == text@,
                from <= chars.len(),
                lines_of(chars@) == texts(lines@) + lines_from(chars@, from as int),
            decreases chars.len() - from,
        {
            let mut end: usize = from;
            while end < chars.len() && chars[end] != '\n'
                invariant
                    from <= end <= chars.len(),
                    line_end(chars@, from as int) == line_end(chars@, end as int),
                decreases chars.len() - end,
            {
                end += 1;
            }
            let ghost before = texts(lines@);
            let line = text.substring_char(from, end).to_owned();
            lines.push(line);
            assert(texts(lines@) =~= before + seq![chars@.subrange(from as int, end as int)]);
            assert((before + seq![chars@.subrange(from as int, end as int)]) + lines_from(
                chars@,
                end + 1,
            ) =~= before + (seq![chars@.subrange(from as int, end as int)] + lines_from(
                chars@,
                end + 1,
            )));
            if end == chars.len() {
                from = end;
            } else {
                from = end + 1;
            }
        }
        assert(texts(lines@) + lines_from(chars@, from as int) =~= texts(lines@));
        LineSource::new(lines)
    }

    /// Whether every line has been read.
    pub fn is_exhausted(&self) -> (b: bool)
        ensures
            b == (self@.len() == 0),
    {
        proof {
            use_type_invariant(self);
        }
        self.next >= self.lines.len()
    }

    /// The next unread line, which stays unread.
    pub fn peek(&self) -> (line: Option<&String>)
        ensures
            self@.len() == 0 ==> line is None,
            self@.len() > 0 ==> line is Some && line->Some_0@ == self@[0],
    {
        proof {
            use_type_invariant(self);
        }
        if self.next < self.lines.len() {
            Some(&self.lines[self.next])
        } else {
            None
        }
    }

    /// Reads the next line: at the end of the input nothing is read and
    /// nothing changes.
    pub fn next_line(&mut self) -> (line: Option<String>)
        ensures
            old(self)@.len() == 0 ==> line is None && final(self)@ == old(self)@,
            old(self)@.len() > 0 ==> line is Some && line->Some_0@ == old(self)@[0],
            old(self)@.len() > 0 ==> final(self)@ == old(self)@.skip(1),
    {
        proof {
            use_type_invariant(&*self);
        }
        if self.next < self.lines.len() {
            let line = self.lines[self.next].clone();
            self.next = self.next + 1;
            assert(self@ =~= old(self)@.skip(1));
            Some(line)
        } else {
            None
        }
    }
}

} // verus!
