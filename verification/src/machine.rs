//! The engine as a state machine that is fed one line at a time, for a log
//! whose lines arrive while the build is still running.

use vstd::prelude::*;
use crate::consume::{after_blanks, after_block};
use crate::engine::{header_of, kind_of, next_of, outcome_view, recognize, steps_of};
use crate::error::{Error, StepKind};
use crate::steps::{views, CompileC, CompileStoryboard, Ld, Step, StepView};
use crate::text::{blank, is_blank};

verus! {

/// The rule by which a step takes its body.
#[derive(Clone, Copy, Debug, PartialEq, Eq, Structural)]
pub enum Rule {
    /// The lines up to and including the first blank one.
    TillEmptyLine,
    /// The blank lines in front of the first line that is not blank.
    EmptyLines,
}

/// The state of the engine between two lines.
#[derive(Clone, Copy, Debug, PartialEq, Eq, Structural)]
pub enum State {
    /// No block is open: the next line may be a header line.
    Scanning,
    /// A header line was read, and its step takes its body by the given rule.
    Delegating(Rule),
}

/// The rule by which a step of the given kind takes its body.
pub open spec fn rule_of(kind: StepKind) -> Rule {
    match kind {
        StepKind::CompileC => Rule::EmptyLines,
        StepKind::Ld | StepKind::CompileStoryboard => Rule::TillEmptyLine,
    }
}

/// What a line does that no open block takes: a header line yields its steps
/// or its error and opens a block, any other line is passed over.
pub open spec fn scan_of(line: Seq<char>) -> (State, Option<Result<Seq<StepView>, Error>>) {
    match kind_of(line) {
        None => (State::Scanning, None),
        Some(kind) => (State::Delegating(rule_of(kind)), Some(header_of(kind, line))),
    }
}

/// The state after `line`, and what the line yields. A body that runs to the
/// first blank line takes every line and ends with a blank one. A body of
/// blank lines takes a blank line; a line that is not blank ends it and is
/// itself scanned.
pub open spec fn feed_of(state: State, line: Seq<char>) -> (
    State,
    Option<Result<Seq<StepView>, Error>>,
) {
    match state {
        State::Scanning => scan_of(line),
        State::Delegating(Rule::TillEmptyLine) => if is_blank(line) {
            (State::Scanning, None)
        } else {
            (state, None)
        },
        State::Delegating(Rule::EmptyLines) => if is_blank(line) {
            (state, None)
        } else {
            scan_of(line)
        },
    }
}

/// The steps that come out when `lines` are fed one after the other, from
/// `state` on.
pub open spec fn run_of(state: State, lines: Seq<Seq<char>>) -> Seq<StepView>
    decreases lines.len(),
{
    if lines.len() == 0 {
        Seq::empty()
    } else {
        let (next, out) = feed_of(state, lines[0]);
        match out {
            Some(Ok(steps)) => steps + run_of(next, lines.skip(1)),
            _ => run_of(next, lines.skip(1)),
        }
    }
}

/// What is left of `lines` for the scan, when the block that is open in
/// `state` has taken its body.
pub open spec fn left_of(state: State, lines: Seq<Seq<char>>) -> Seq<Seq<char>> {
    match state {
        State::Scanning => lines,
        State::Delegating(Rule::TillEmptyLine) => after_block(lines),
        State::Delegating(Rule::EmptyLines) => after_blanks(lines),
    }
}

/// Feeding lines one by one gives the steps that a traversal of the same
/// lines gives, once the open block has taken its body.
pub proof fn lemma_run_from(state: State, lines: Seq<Seq<char>>)
    ensures
        run_of(state, lines) == steps_of(left_of(state, lines)),
    decreases lines.len(),
{
    if lines.len() == 0 {
        assert(next_of(lines) is None);
    } else {
        let line = lines[0];
        let rest = lines.skip(1);
        let (next, out) = feed_of(state, line);
        lemma_run_from(next, rest);
    }
}

/// Fed line by line from the start, the machine gives the steps that a
/// traversal of the whole log gives.
pub proof fn lemma_run_is_traversal(lines: Seq<Seq<char>>)
    ensures
        run_of(State::Scanning, lines) == steps_of(lines),
{
    lemma_run_from(State::Scanning, lines);
}

/// Reads a header line of the given kind, without its body.
pub fn parse_header(kind: StepKind, line: &str) -> (r: Result<Vec<Step>, Error>)
    ensures
        outcome_view(r) == header_of(kind, line@),
{
    let step = match kind {
        StepKind::Ld => match Ld::from_header(line) {
            Ok(step) => Step::Ld(step),
            Err(e) => {
                return Err(e);
            },
        },
        StepKind::CompileC => match CompileC::from_header(line) {
            Ok(step) => Step::CompileC(step),
            Err(e) => {
                return Err(e);
            },
        },
        StepKind::CompileStoryboard => match CompileStoryboard::from_header(line) {
            Ok(step) => Step::CompileStoryboard(step),
            Err(e) => {
                return Err(e);
            },
        },
    };
    let mut steps: Vec<Step> = Vec::new();
    steps.push(step);
    assert(views(steps@) =~= seq![step@]);
    Ok(steps)
}

/// The rule by which a step of the given kind takes its body.
pub fn rule(kind: StepKind) -> (r: Rule)
    ensures
        r == rule_of(kind),
{
    match kind {
        StepKind::CompileC => Rule::EmptyLines,
        StepKind::Ld | StepKind::CompileStoryboard => Rule::TillEmptyLine,
    }
}

/// Takes the next line of the log: returns the state after it and, for a
/// header line, the steps it yields or its error.
pub fn feed(state: State, line: &str) -> (r: (State, Option<Result<Vec<Step>, Error>>))
    ensures
        r.0 == feed_of(state, line@).0,
        match feed_of(state, line@).1 {
            Some(outcome) => r.1 is Some && outcome_view(r.1->Some_0) == outcome,
            None => r.1 is None,
        },
{
    let taken = match state {
        State::Scanning => false,
        State::Delegating(Rule::TillEmptyLine) => true,
        State::Delegating(Rule::EmptyLines) => blank(line),
    };
    if taken {
        match state {
            State::Delegating(Rule::TillEmptyLine) => {
                if blank(line) {
                    (State::Scanning, None)
                } else {
                    (state, None)
                }
            },
            _ => (state, None),
        }
    } else {
        match recognize(line) {
            None => (State::Scanning, None),
            Some(kind) => (State::Delegating(rule(kind)), Some(parse_header(kind, line))),
        }
    }
}

} // verus!
