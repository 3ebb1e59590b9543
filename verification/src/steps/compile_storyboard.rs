//! Compilation of a storyboard.

use vstd::prelude::*;
use crate::consume::{after_block, consume_till_empty_line};
use crate::description::{description_of, Description, DescriptionView};
use crate::error::{Error, Field, StepKind};
use crate::source::LineSource;
use crate::text::{file_name, file_name_of, nth_word, word};

verus! {

/// Compilation of a storyboard.
#[derive(Clone, Debug)]
pub struct CompileStoryboard {
    pub description: Description,
    pub path: String,
}

/// A storyboard step as plain sequences of characters.
pub ghost struct CompileStoryboardView {
    pub description: DescriptionView,
    pub path: Seq<char>,
}

impl View for CompileStoryboard {
    type V = CompileStoryboardView;

    open spec fn view(&self) -> CompileStoryboardView {
        CompileStoryboardView { description: self.description@, path: self.path@ }
    }
}

/// What the header line of a storyboard step says. The word behind the
/// keyword is the path of the storyboard; the description is read from the
/// whole line.
pub open spec fn compile_storyboard_of(line: Seq<char>) -> Result<CompileStoryboardView, Error> {
    match word(line, 1) {
        None => Err(Error::UnexpectedEndOfInput(StepKind::CompileStoryboard, Field::Path)),
        Some(path) => match description_of(line) {
            None => Err(Error::MalformedDescription),
            Some(description) => Ok(CompileStoryboardView { description, path }),
        },
    }
}

impl CompileStoryboard {
    /// Reads a storyboard step from its header line.
    pub fn from_header(line: &str) -> (r: Result<CompileStoryboard, Error>)
        ensures
            match compile_storyboard_of(line@) {
                Ok(step) => r is Ok && r->Ok_0@ == step,
                Err(e) => r is Err && r->Err_0 == e,
            },
    {
        let path = match nth_word(line, 1) {
            Some(word) => word,
            None => {
                return Err(Error::UnexpectedEndOfInput(StepKind::CompileStoryboard, Field::Path));
            },
        };
        match Description::from_line(line) {
            Ok(description) => Ok(CompileStoryboard { description, path }),
            Err(e) => Err(e),
        }
    }

    /// Reads a storyboard step from its header line and takes its body out of
    /// `stream`: the lines up to and including the first blank one. The body
    /// is taken whether or not the header could be read.
    pub fn parse_from_stream(line: String, stream: &mut LineSource) -> (r: Result<
        CompileStoryboard,
        Error,
    >)
        ensures
            final(stream)@ == after_block(old(stream)@),
            match compile_storyboard_of(line@) {
                Ok(step) => r is Ok && r->Ok_0@ == step,
                Err(e) => r is Err && r->Err_0 == e,
            },
    {
        let header = CompileStoryboard::from_header(line.as_str());
        consume_till_empty_line(stream);
        header
    }

    /// The step as it is shown: the description, then the word `Compiling`, then
    /// the file name of the storyboard between backticks. The path has a file
    /// name.
    pub fn to_string(&self) -> (s: String)
        requires
            file_name_of(self.path@) is Some,
        ensures
            s@ == seq!['['] + self.description.project@ + seq!['.'] + self.description.target@
                + seq![']'] + " Compiling `"@ + file_name_of(self.path@)->Some_0 + seq!['`'],
    {
        proof {
            reveal_strlit("`");
            assert("`"@ =~= seq!['`']);
        }
        let mut s = self.description.to_string();
        s.append(" Compiling `");
        let name = file_name(self.path.as_str()).unwrap();
        s.append(name.as_str());
        s.append("`");
        s
    }
}

} // verus!
