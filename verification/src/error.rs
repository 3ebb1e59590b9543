//! The kinds of step, the fields of their header lines, and what can go wrong
//! while a block is read.

use vstd::prelude::*;

verus! {

/// The kinds of step that are recognised.
#[derive(Clone, Copy, Debug, PartialEq, Eq, Structural)]
pub enum StepKind {
    /// Linking of a binary.
    Ld,
    /// Compilation of a C-family source file.
    CompileC,
    /// Compilation of a storyboard.
    CompileStoryboard,
}

/// The positional fields that header lines carry.
#[derive(Clone, Copy, Debug, PartialEq, Eq, Structural)]
pub enum Field {
    Path,
    OutputPath,
    Arch,
    Lang,
    Compiler,
}

impl Field {
    /// The name of the field as a sequence of characters.
    pub open spec fn name_of(self) -> Seq<char> {
        match self {
            Field::Path => "path"@,
            Field::OutputPath => "output_path"@,
            Field::Arch => "arch"@,
            Field::Lang => "lang"@,
            Field::Compiler => "compiler"@,
        }
    }

    /// The name of the field.
    pub fn name(self) -> (name: &'static str)
        ensures
            name@ == self.name_of(),
    {
        match self {
            Field::Path => "path",
            Field::OutputPath => "output_path",
            Field::Arch => "arch",
            Field::Lang => "lang",
            Field::Compiler => "compiler",
        }
    }
}

/// Why a header line could not be turned into a step.
#[derive(Clone, Copy, Debug, PartialEq, Eq, Structural)]
pub enum Error {
    /// The header line of a step of the given kind ended before the given
    /// field was found.
    UnexpectedEndOfInput(StepKind, Field),
    /// The annotation that names target and project is missing or incomplete.
    MalformedDescription,
}

} // verus!
