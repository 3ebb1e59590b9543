//! The dispatch engine: it finds the header lines in a source, hands each to
//! the parser of its kind, and gathers the steps in the order of the input.

use vstd::prelude::*;
use crate::consume::{after_blanks, after_block, lemma_rules_shorten};
use crate::description::{
    annotated, description_of, lemma_description_verbatim, DescriptionView,
};
use crate::error::{Error, StepKind};
use crate::source::LineSource;
use crate::steps::compile_c::compile_c_of;
use crate::steps::compile_storyboard::compile_storyboard_of;
use crate::steps::ld::ld_of;
use crate::steps::{views, CompileC, CompileStoryboard, Ld, Step, StepView};
use crate::text::{nth_word, word};

verus! {

/// The word that opens the header line of a step of the given kind.
pub open spec fn keyword_of(kind: StepKind) -> Seq<char> {
    match kind {
        StepKind::Ld => "Ld"@,
        StepKind::CompileC => "CompileC"@,
        StepKind::CompileStoryboard => "CompileStoryboard"@,
    }
}

/// The kind of step that `line` is the header of: the kind whose keyword is
/// the first word of the line. A line with another first word, or with none,
/// is the header of nothing.
pub open spec fn kind_of(line: Seq<char>) -> Option<StepKind> {
    match word(line, 0) {
        None => None,
        Some(first) => if first == keyword_of(StepKind::Ld) {
            Some(StepKind::Ld)
        } else if first == keyword_of(StepKind::CompileC) {
            Some(StepKind::CompileC)
        } else if first == keyword_of(StepKind::CompileStoryboard) {
            Some(StepKind::CompileStoryboard)
        } else {
            None
        },
    }
}

/// The steps that a header line of the given kind yields, or why it yields
/// none.
pub open spec fn header_of(kind: StepKind, line: Seq<char>) -> Result<Seq<StepView>, Error> {
    match kind {
        StepKind::Ld => match ld_of(line) {
            Ok(step) => Ok(seq![StepView::Ld(step)]),
            Err(e) => Err(e),
        },
        StepKind::CompileC => match compile_c_of(line) {
            Ok(step) => Ok(seq![StepView::CompileC(step)]),
            Err(e) => Err(e),
        },
        StepKind::CompileStoryboard => match compile_storyboard_of(line) {
            Ok(step) => Ok(seq![StepView::CompileStoryboard(step)]),
            Err(e) => Err(e),
        },
    }
}

/// What is left of the lines behind a header line of the given kind, once the
/// step has taken its body.
pub open spec fn body_rest(kind: StepKind, lines: Seq<Seq<char>>) -> Seq<Seq<char>> {
    match kind {
        StepKind::CompileC => after_blanks(lines),
        StepKind::Ld | StepKind::CompileStoryboard => after_block(lines),
    }
}

/// A block as plain sequences of characters, with the lines behind it.
pub ghost struct BlockView {
    /// The kind that the header line was recognised as.
    pub kind: StepKind,
    /// The header line.
    pub header: Seq<char>,
    /// What the header line yields.
    pub outcome: Result<Seq<StepView>, Error>,
    /// The lines that are left behind the block.
    pub rest: Seq<Seq<char>>,
}

/// The first block of `lines`. Lines in front of it that are the header of
/// nothing are passed over. `None` where no line is a header.
pub open spec fn next_of(lines: Seq<Seq<char>>) -> Option<BlockView>
    decreases lines.len(),
{
    if lines.len() == 0 {
        None
    } else {
        match kind_of(lines[0]) {
            None => next_of(lines.skip(1)),
            Some(kind) => Some(
                BlockView {
                    kind,
                    header: lines[0],
                    outcome: header_of(kind, lines[0]),
                    rest: body_rest(kind, lines.skip(1)),
                },
            ),
        }
    }
}

/// The steps of all blocks of `lines` whose header could be read, in the
/// order of the input. A block whose header could not be read adds nothing.
pub open spec fn steps_of(lines: Seq<Seq<char>>) -> Seq<StepView>
    decreases lines.len(),
    via steps_of_decreases
{
    match next_of(lines) {
        None => Seq::empty(),
        Some(block) => match block.outcome {
            Ok(steps) => steps + steps_of(block.rest),
            Err(_) => steps_of(block.rest),
        },
    }
}

#[via_fn]
proof fn steps_of_decreases(lines: Seq<Seq<char>>) {
    lemma_next_shortens(lines);
}

/// The steps of the blocks of `lines` up to the first whose header cannot be
/// read, or that header's error; and the lines that are left: none after the
/// last block, those behind the failed block after an error.
pub open spec fn strict_of(lines: Seq<Seq<char>>) -> (Result<Seq<StepView>, Error>, Seq<Seq<char>>)
    decreases lines.len(),
    via strict_of_decreases
{
    match next_of(lines) {
        None => (Ok(Seq::empty()), Seq::empty()),
        Some(block) => match block.outcome {
            Err(e) => (Err(e), block.rest),
            Ok(steps) => match strict_of(block.rest) {
                (Ok(more), left) => (Ok(steps + more), left),
                (Err(e), left) => (Err(e), left),
            },
        },
    }
}

#[via_fn]
proof fn strict_of_decreases(lines: Seq<Seq<char>>) {
    lemma_next_shortens(lines);
}

/// A block takes at least its header line: what is left behind it is shorter
/// than what was there.
pub proof fn lemma_next_shortens(lines: Seq<Seq<char>>)
    ensures
        next_of(lines) is Some ==> next_of(lines)->Some_0.rest.len() < lines.len(),
    decreases lines.len(),
{
    if lines.len() > 0 {
        lemma_rules_shorten(lines.skip(1));
        lemma_next_shortens(lines.skip(1));
    }
}

/// A line that is the header of nothing changes nothing: the steps are those
/// of the lines behind it.
pub proof fn lemma_noise_is_skipped(lines: Seq<Seq<char>>)
    requires
        lines.len() > 0,
        kind_of(lines[0]) is None,
    ensures
        next_of(lines) == next_of(lines.skip(1)),
        steps_of(lines) == steps_of(lines.skip(1)),
        strict_of(lines) == strict_of(lines.skip(1)),
{
}

/// The steps depend on the lines alone: two traversals of the same lines give
/// the same steps.
pub proof fn lemma_same_lines_same_steps(
    first: Seq<Seq<char>>,
    second: Seq<Seq<char>>,
    first_steps: Seq<Step>,
    second_steps: Seq<Step>,
)
    requires
        first == second,
        views(first_steps) == steps_of(first),
        views(second_steps) == steps_of(second),
    ensures
        views(first_steps) == views(second_steps),
{
}

/// Whatever the kind of step, a header line that can be read yields one step,
/// and that step carries the description of the line.
pub proof fn lemma_header_keeps_description(kind: StepKind, line: Seq<char>)
    ensures
        match header_of(kind, line) {
            Ok(steps) => steps.len() == 1 && Some(steps[0].description()) == description_of(line),
            Err(Error::MalformedDescription) => description_of(line) is None,
            Err(Error::UnexpectedEndOfInput(of, _)) => of == kind,
        },
{
}

/// Whatever the kind of step, the target and the project of a header line
/// come out as they are written in its last annotation: where neither name is
/// empty or holds a quote, and no quote stands behind the annotation, the step
/// carries these two names, and the line fails only for want of a field.
pub proof fn lemma_step_description_verbatim(
    kind: StepKind,
    before: Seq<char>,
    target: Seq<char>,
    project: Seq<char>,
    after: Seq<char>,
)
    requires
        target.len() > 0,
        project.len() > 0,
        !target.contains('\''),
        !project.contains('\''),
        !after.contains('\''),
    ensures
        match header_of(kind, annotated(before, target, project, after)) {
            Ok(steps) => steps.len() == 1 && steps[0].description() == (DescriptionView {
                target,
                project,
            }),
            Err(e) => e is UnexpectedEndOfInput,
        },
{
    lemma_description_verbatim(before, target, project, after);
    lemma_header_keeps_description(kind, annotated(before, target, project, after));
}

/// The result of a parser as plain sequences of characters.
pub open spec fn outcome_view(r: Result<Vec<Step>, Error>) -> Result<Seq<StepView>, Error> {
    match r {
        Ok(steps) => Ok(views(steps@)),
        Err(e) => Err(e),
    }
}

/// The word that opens the header line of a step of the given kind.
pub fn keyword(kind: StepKind) -> (word: &'static str)
    ensures
        word@ == keyword_of(kind),
{
    match kind {
        StepKind::Ld => "Ld",
        StepKind::CompileC => "CompileC",
        StepKind::CompileStoryboard => "CompileStoryboard",
    }
}

/// Finds the kind of step that `line` is the header of.
pub fn recognize(line: &str) -> (kind: Option<StepKind>)
    ensures
        kind == kind_of(line@),
{
    match nth_word(line, 0) {
        None => None,
        Some(first) => {
            if first == keyword(StepKind::Ld).to_owned() {
                Some(StepKind::Ld)
            } else if first == keyword(StepKind::CompileC).to_owned() {
                Some(StepKind::CompileC)
            } else if first == keyword(StepKind::CompileStoryboard).to_owned() {
                Some(StepKind::CompileStoryboard)
            } else {
                None
            }
        },
    }
}

/// Hands a header line to the parser of its kind, which also takes the body
/// of the block out of `source`.
pub fn parse_block(kind: StepKind, line: String, source: &mut LineSource) -> (r: Result<
    Vec<Step>,
    Error,
>)
    ensures
        final(source)@ == body_rest(kind, old(source)@),
        outcome_view(r) == header_of(kind, line@),
{
    match kind {
        StepKind::Ld => {
            let r = Ld::parse_from_stream(line, source);
            proof {
                if r is Ok {
                    assert(views(r->Ok_0@) =~= seq![r->Ok_0@[0]@]);
                }
            }
            r
        },
        StepKind::CompileC => match CompileC::parse_from_stream(line, source) {
            Ok(step) => {
                let mut steps: Vec<Step> = Vec::new();
                steps.push(Step::CompileC(step));
                assert(views(steps@) =~= seq![StepView::CompileC(step@)]);
                Ok(steps)
            },
            Err(e) => Err(e),
        },
        StepKind::CompileStoryboard => match CompileStoryboard::parse_from_stream(line, source) {
            Ok(step) => {
                let mut steps: Vec<Step> = Vec::new();
                steps.push(Step::CompileStoryboard(step));
                assert(views(steps@) =~= seq![StepView::CompileStoryboard(step@)]);
                Ok(steps)
            },
            Err(e) => Err(e),
        },
    }
}

/// A block that was read: its header line, the kind that the line was
/// recognised as, and what the line yields.
#[derive(Debug)]
pub struct Block {
    pub kind: StepKind,
    pub header: String,
    pub outcome: Result<Vec<Step>, Error>,
}

/// Reads lines until one is a header line, and parses the block of that
/// line. Returns `None` at the end of the input, when every line has been
/// read and none was a header.
pub fn next_block(source: &mut LineSource) -> (r: Option<Block>)
    ensures
        match next_of(old(source)@) {
            None => r is None && final(source)@.len() == 0,
            Some(block) => {
                &&& r is Some
                &&& r->Some_0.kind == block.kind
                &&& r->Some_0.header@ == block.header
                &&& outcome_view(r->Some_0.outcome) == block.outcome
                &&& final(source)@ == block.rest
            },
        },
{
    loop
        invariant
            next_of(old(source)@) == next_of(source@),
        decreases source@.len(),
    {
        match source.next_line() {
            None => {
                return None;
            },
            Some(line) => {
                if let Some(kind) = recognize(line.as_str()) {
                    let outcome = parse_block(kind, line.clone(), source);
                    return Some(Block { kind, header: line, outcome });
                }
            },
        }
    }
}

/// Reads the source to its end and returns the steps of every block whose
/// header could be read, in the order of the input. A block whose header
/// could not be read is passed over.
pub fn parse_steps(source: &mut LineSource) -> (steps: Vec<Step>)
    ensures
        views(steps@) == steps_of(old(source)@),
        final(source)@.len() == 0,
{
    let mut steps: Vec<Step> = Vec::new();
    assert(views(steps@) =~= Seq::empty());
    loop
        invariant
            steps_of(old(source)@) == views(steps@) + steps_of(source@),
        decreases source@.len(),
    {
        proof {
            lemma_next_shortens(source@);
        }
        let ghost before = views(steps@);
        match next_block(source) {
            None => {
                assert(views(steps@) + Seq::<StepView>::empty() =~= views(steps@));
                return steps;
            },
            Some(block) => match block.outcome {
                Ok(mut found) => {
                    let ghost added = views(found@);
                    append_steps(&mut steps, &mut found);
                    assert((before + added) + steps_of(source@) =~= before + (added + steps_of(
                        source@,
                    )));
                },
                Err(_) => {},
            },
        }
    }
}

/// Reads the source block by block and returns the steps of all blocks, or
/// the error of the first block whose header could not be read. After an
/// error the source stands behind the block that failed.
pub fn parse_steps_strict(source: &mut LineSource) -> (r: Result<Vec<Step>, Error>)
    ensures
        outcome_view(r) == strict_of(old(source)@).0,
        final(source)@ == strict_of(old(source)@).1,
{
    let mut steps: Vec<Step> = Vec::new();
    assert(views(steps@) =~= Seq::empty());
    loop
        invariant
            strict_of(old(source)@) == match strict_of(source@) {
                (Ok(more), left) => (Ok(views(steps@) + more), left),
                (Err(e), left) => (Err(e), left),
            },
        decreases source@.len(),
    {
        proof {
            lemma_next_shortens(source@);
        }
        let ghost before = views(steps@);
        match next_block(source) {
            None => {
                assert(views(steps@) + Seq::<StepView>::empty() =~= views(steps@));
                assert(source@ =~= Seq::empty());
                return Ok(steps);
            },
            Some(block) => match block.outcome {
                Ok(mut found) => {
                    let ghost added = views(found@);
                    append_steps(&mut steps, &mut found);
                    proof {
                        if let (Ok(more), _) = strict_of(source@) {
                            assert((before + added) + more =~= before + (added + more));
                        }
                    }
                },
                Err(e) => {
                    return Err(e);
                },
            },
        }
    }
}

/// Moves the steps of `found` to the end of `steps`.
fn append_steps(steps: &mut Vec<Step>, found: &mut Vec<Step>)
    ensures
        views(final(steps)@) == views(old(steps)@) + views(old(found)@),
{
    steps.append(found);
    assert(views(steps@) =~= views(old(steps)@) + views(old(found)@));
}

} // verus!
