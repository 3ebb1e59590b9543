//! The two rules by which a step takes the lines of its body out of the
//! source.

use vstd::prelude::*;
use crate::source::LineSource;
use crate::text::{blank, is_blank};

verus! {

/// What is left of `lines` when a body has been taken out: everything behind
/// the first blank line, or nothing where no line is blank.
pub open spec fn after_block(lines: Seq<Seq<char>>) -> Seq<Seq<char>>
    decreases lines.len(),
{
    if lines.len() == 0 {
        lines
    } else if is_blank(lines[0]) {
        lines.skip(1)
    } else {
        after_block(lines.skip(1))
    }
}

/// What is left of `lines` when the blank lines at their front have been
/// taken out.
pub open spec fn after_blanks(lines: Seq<Seq<char>>) -> Seq<Seq<char>>
    decreases lines.len(),
{
    if lines.len() == 0 || !is_blank(lines[0]) {
        lines
    } else {
        after_blanks(lines.skip(1))
    }
}

/// A body ends with its first blank line: every line up to and including that
/// line is taken, and no line behind it.
pub proof fn lemma_block_ends_at_first_blank(lines: Seq<Seq<char>>, k: int)
    requires
        0 <= k < lines.len(),
        is_blank(lines[k]),
        forall|i: int| 0 <= i < k ==> !is_blank(#[trigger] lines[i]),
    ensures
        after_block(lines) == lines.skip(k + 1),
    decreases k,
{
    if k > 0 {
        let rest = lines.skip(1);
        assert forall|i: int| 0 <= i < k - 1 implies !is_blank(#[trigger] rest[i]) by {
            assert(rest[i] == lines[i + 1]);
        }
        lemma_block_ends_at_first_blank(rest, k - 1);
        assert(rest.skip(k) =~= lines.skip(k + 1));
    }
}

/// Where no line is blank, a body takes every line.
pub proof fn lemma_block_without_blank(lines: Seq<Seq<char>>)
    requires
        forall|i: int| 0 <= i < lines.len() ==> !is_blank(#[trigger] lines[i]),
    ensures
        after_block(lines).len() == 0,
    decreases lines.len(),
{
    if lines.len() > 0 {
        let rest = lines.skip(1);
        assert forall|i: int| 0 <= i < rest.len() implies !is_blank(#[trigger] rest[i]) by {
            assert(rest[i] == lines[i + 1]);
        }
        lemma_block_without_blank(rest);
    }
}

/// Blank lines in front of a line that is not blank are taken, and that line
/// stays: it is the first of what is left.
pub proof fn lemma_blanks_leave_first_text(lines: Seq<Seq<char>>, k: int)
    requires
        0 <= k < lines.len(),
        !is_blank(lines[k]),
        forall|i: int| 0 <= i < k ==> is_blank(#[trigger] lines[i]),
    ensures
        after_blanks(lines) == lines.skip(k),
        after_blanks(lines).len() > 0,
        after_blanks(lines)[0] == lines[k],
    decreases k,
{
    if k > 0 {
        let rest = lines.skip(1);
        assert forall|i: int| 0 <= i < k - 1 implies is_blank(#[trigger] rest[i]) by {
            assert(rest[i] == lines[i + 1]);
        }
        lemma_blanks_leave_first_text(rest, k - 1);
        assert(rest.skip(k - 1) =~= lines.skip(k));
    } else {
        assert(lines.skip(0) =~= lines);
    }
}

/// Where every line is blank, every line is taken.
pub proof fn lemma_blanks_only(lines: Seq<Seq<char>>)
    requires
        forall|i: int| 0 <= i < lines.len() ==> is_blank(#[trigger] lines[i]),
    ensures
        after_blanks(lines).len() == 0,
    decreases lines.len(),
{
    if lines.len() > 0 {
        let rest = lines.skip(1);
        assert forall|i: int| 0 <= i < rest.len() implies is_blank(#[trigger] rest[i]) by {
            assert(rest[i] == lines[i + 1]);
        }
        lemma_blanks_only(rest);
    }
}

/// Neither rule hands lines back: what is left is no longer than what was
/// there.
pub proof fn lemma_rules_shorten(lines: Seq<Seq<char>>)
    ensures
        after_block(lines).len() <= lines.len(),
        after_blanks(lines).len() <= lines.len(),
    decreases lines.len(),
{
    if lines.len() > 0 {
        lemma_rules_shorten(lines.skip(1));
    }
}

/// Reads and drops lines up to and including the first blank one, or to the
/// end of the input.
pub fn consume_till_empty_line(source: &mut LineSource)
    ensures
        final(source)@ == after_block(old(source)@),
{
    loop
        invariant
            after_block(old(source)@) == after_block(source@),
        decreases source@.len(),
    {
        match source.next_line() {
            None => {
                return ;
            },
            Some(line) => {
                if blank(line.as_str()) {
                    return ;
                }
            },
        }
    }
}

/// Reads and drops the blank lines at the front of the source; the first line
/// that is not blank stays unread.
pub fn consume_empty_lines(source: &mut LineSource)
    ensures
        final(source)@ == after_blanks(old(source)@),
{
    loop
        invariant
            after_blanks(old(source)@) == after_blanks(source@),
        decreases source@.len(),
    {
        let more = match source.peek() {
            None => false,
            Some(line) => blank(line.as_str()),
        };
        if !more {
            return ;
        }
        let _ = source.next_line();
    }
}

} // verus!
