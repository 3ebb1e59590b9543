//! The steps that are recognised, one type for each kind.

use vstd::prelude::*;
use crate::description::{Description, DescriptionView};

pub mod compile_c;
pub mod compile_storyboard;
pub mod ld;

pub use compile_c::{CompileC, CompileCView};
pub use compile_storyboard::{CompileStoryboard, CompileStoryboardView};
pub use ld::{Ld, LdView};

verus! {

/// One build action that was read from the log.
#[derive(Clone, Debug)]
pub enum Step {
    Ld(Ld),
    CompileC(CompileC),
    CompileStoryboard(CompileStoryboard),
}

/// A step as plain sequences of characters.
pub ghost enum StepView {
    Ld(LdView),
    CompileC(CompileCView),
    CompileStoryboard(CompileStoryboardView),
}

impl View for Step {
    type V = StepView;

    open spec fn view(&self) -> StepView {
        match self {
            Step::Ld(step) => StepView::Ld(step@),
            Step::CompileC(step) => StepView::CompileC(step@),
            Step::CompileStoryboard(step) => StepView::CompileStoryboard(step@),
        }
    }
}

impl StepView {
    /// The target and the project that the step is attributed to.
    pub open spec fn description(self) -> DescriptionView {
        match self {
            StepView::Ld(step) => step.description,
            StepView::CompileC(step) => step.description,
            StepView::CompileStoryboard(step) => step.description,
        }
    }
}

impl Step {
    /// The target and the project that the step is attributed to.
    pub fn description(&self) -> (d: &Description)
        ensures
            d@ == self@.description(),
    {
        match self {
            Step::Ld(step) => &step.description,
            Step::CompileC(step) => &step.description,
            Step::CompileStoryboard(step) => &step.description,
        }
    }
}

/// The views of `steps`, in their order.
pub open spec fn views(steps: Seq<Step>) -> Seq<StepView> {
    Seq::new(steps.len(), |i: int| steps[i]@)
}

} // verus!
