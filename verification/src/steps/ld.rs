//! Linking of a binary.

use vstd::prelude::*;
use crate::consume::{after_block, consume_till_empty_line};
use crate::description::{description_of, Description, DescriptionView};
use crate::error::{Error, Field, StepKind};
use crate::source::LineSource;
use crate::steps::{Step, StepView};
use crate::text::{file_name, file_name_of, nth_word, word};

verus! {

/// Linking of a binary.
#[derive(Clone, Debug)]
pub struct Ld {
    pub description: Description,
    pub output_path: String,
}

/// A linking step as plain sequences of characters.
pub ghost struct LdView {
    pub description: DescriptionView,
    pub output_path: Seq<char>,
}

impl View for Ld {
    type V = LdView;

    open spec fn view(&self) -> LdView {
        LdView { description: self.description@, output_path: self.output_path@ }
    }
}

/// What the header line of a linking step says. The word behind the keyword
/// is the path of the binary; the description is read from the whole line.
pub open spec fn ld_of(line: Seq<char>) -> Result<LdView, Error> {
    match word(line, 1) {
        None => Err(Error::UnexpectedEndOfInput(StepKind::Ld, Field::OutputPath)),
        Some(output_path) => match description_of(line) {
            None => Err(Error::MalformedDescription),
            Some(description) => Ok(LdView { description, output_path }),
        },
    }
}

impl Ld {
    /// Reads a linking step from its header line.
    pub fn from_header(line: &str) -> (r: Result<Ld, Error>)
        ensures
            match ld_of(line@) {
                Ok(step) => r is Ok && r->Ok_0@ == step,
                Err(e) => r is Err && r->Err_0 == e,
            },
    {
        let output_path = match nth_word(line, 1) {
            Some(word) => word,
            None => {
                return Err(Error::UnexpectedEndOfInput(StepKind::Ld, Field::OutputPath));
            },
        };
        match Description::from_line(line) {
            Ok(description) => Ok(Ld { description, output_path }),
            Err(e) => Err(e),
        }
    }

    /// Reads a linking step from its header line and takes its body out of
    /// `stream`: the lines up to and including the first blank one. The body
    /// is taken whether or not the header could be read.
    pub fn parse_from_stream(line: String, stream: &mut LineSource) -> (r: Result<Vec<Step>, Error>)
        ensures
            final(stream)@ == after_block(old(stream)@),
            match ld_of(line@) {
                Ok(step) => r is Ok && r->Ok_0@.len() == 1 && r->Ok_0@[0]@ == StepView::Ld(step),
                Err(e) => r is Err && r->Err_0 == e,
            },
    {
        let header = Ld::from_header(line.as_str());
        consume_till_empty_line(stream);
        match header {
            Ok(step) => {
                let mut steps: Vec<Step> = Vec::new();
                steps.push(Step::Ld(step));
                Ok(steps)
            },
            Err(e) => Err(e),
        }
    }

    /// The step as it is shown: the description, then the word `Linking`, then
    /// the file name of the binary between backticks. The path has a file
    /// name.
    pub fn to_string(&self) -> (s: String)
        requires
            file_name_of(self.output_path@) is Some,
        ensures
            s@ == seq!['['] + self.description.project@ + seq!['.'] + self.description.target@
                + seq![']'] + " Linking `"@ + file_name_of(self.output_path@)->Some_0 + seq!['`'],
    {
        proof {
            reveal_strlit("`");
            assert("`"@ =~= seq!['`']);
        }
        let mut s = self.description.to_string();
        s.append(" Linking `");
        let name = file_name(self.output_path.as_str()).unwrap();
        s.append(name.as_str());
        s.append("`");
        s
    }
}

} // verus!
