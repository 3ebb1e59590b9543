//! Compilation of a C-family source file.

use vstd::prelude::*;
use crate::consume::{after_blanks, consume_empty_lines};
use crate::description::{description_of, Description, DescriptionView};
use crate::error::{Error, Field, StepKind};
use crate::source::LineSource;
use crate::text::{nth_word, word};

verus! {

/// Compilation of a C-family source file.
#[derive(Clone, Debug)]
pub struct CompileC {
    pub compiler: String,
    pub description: Description,
    pub output_path: String,
    pub path: String,
    pub arch: String,
    pub lang: String,
}

/// A C compilation step as plain sequences of characters.
pub ghost struct CompileCView {
    pub compiler: Seq<char>,
    pub description: DescriptionView,
    pub output_path: Seq<char>,
    pub path: Seq<char>,
    pub arch: Seq<char>,
    pub lang: Seq<char>,
}

impl View for CompileC {
    type V = CompileCView;

    open spec fn view(&self) -> CompileCView {
        CompileCView {
            compiler: self.compiler@,
            description: self.description@,
            output_path: self.output_path@,
            path: self.path@,
            arch: self.arch@,
            lang: self.lang@,
        }
    }
}

/// The first of the five fields that the header line lacks, if it lacks one.
/// Behind the keyword stand the output path, the path of the source, a word
/// that is not read, the architecture, the language and the compiler.
pub open spec fn compile_c_missing(line: Seq<char>) -> Option<Field> {
    if word(line, 1) is None {
        Some(Field::OutputPath)
    } else if word(line, 2) is None {
        Some(Field::Path)
    } else if word(line, 4) is None {
        Some(Field::Arch)
    } else if word(line, 5) is None {
        Some(Field::Lang)
    } else if word(line, 6) is None {
        Some(Field::Compiler)
    } else {
        None
    }
}

/// What the header line of a C compilation step says. The description is read
/// from the whole line, once the five fields were found.
pub open spec fn compile_c_of(line: Seq<char>) -> Result<CompileCView, Error> {
    match compile_c_missing(line) {
        Some(field) => Err(Error::UnexpectedEndOfInput(StepKind::CompileC, field)),
        None => match description_of(line) {
            None => Err(Error::MalformedDescription),
            Some(description) => Ok(
                CompileCView {
                    compiler: word(line, 6)->Some_0,
                    description,
                    output_path: word(line, 1)->Some_0,
                    path: word(line, 2)->Some_0,
                    arch: word(line, 4)->Some_0,
                    lang: word(line, 5)->Some_0,
                },
            ),
        },
    }
}

impl CompileC {
    /// Reads a C compilation step from its header line.
    pub fn from_header(line: &str) -> (r: Result<CompileC, Error>)
        ensures
            match compile_c_of(line@) {
                Ok(step) => r is Ok && r->Ok_0@ == step,
                Err(e) => r is Err && r->Err_0 == e,
            },
    {
        let output_path = match nth_word(line, 1) {
            Some(word) => word,
            None => {
                return Err(Error::UnexpectedEndOfInput(StepKind::CompileC, Field::OutputPath));
            },
        };
        let path = match nth_word(line, 2) {
            Some(word) => word,
            None => {
                return Err(Error::UnexpectedEndOfInput(StepKind::CompileC, Field::Path));
            },
        };
        let arch = match nth_word(line, 4) {
            Some(word) => word,
            None => {
                return Err(Error::UnexpectedEndOfInput(StepKind::CompileC, Field::Arch));
            },
        };
        let lang = match nth_word(line, 5) {
            Some(word) => word,
            None => {
                return Err(Error::UnexpectedEndOfInput(StepKind::CompileC, Field::Lang));
            },
        };
        let compiler = match nth_word(line, 6) {
            Some(word) => word,
            None => {
                return Err(Error::UnexpectedEndOfInput(StepKind::CompileC, Field::Compiler));
            },
        };
        match Description::from_line(line) {
            Ok(description) => Ok(
                CompileC { compiler, description, output_path, path, arch, lang },
            ),
            Err(e) => Err(e),
        }
    }

    /// Reads a C compilation step from its header line and takes the blank
    /// lines that follow it out of `stream`; the first line that is not blank
    /// stays unread. The blank lines are taken whether or not the header could
    /// be read.
    pub fn parse_from_stream(line: String, stream: &mut LineSource) -> (r: Result<CompileC, Error>)
        ensures
            final(stream)@ == after_blanks(old(stream)@),
            match compile_c_of(line@) {
                Ok(step) => r is Ok && r->Ok_0@ == step,
                Err(e) => r is Err && r->Err_0 == e,
            },
    {
        let header = CompileC::from_header(line.as_str());
        consume_empty_lines(stream);
        header
    }
}

} // verus!
