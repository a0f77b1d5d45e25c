//! The error of code generation.

use vstd::prelude::*;
use crate::machinst::CompiledCode;
use crate::machinst::CompiledCodeView;

verus! {

/// Why a function could not be lowered as given. The error concerns that
/// function alone.
#[derive(Debug, PartialEq, Eq)]
pub enum CodegenError {
    /// The target of this name has no lowering for the function of this
    /// name.
    Unsupported { target: String, function: String },
}

/// The model of a [`CodegenError`].
pub enum CodegenErrorView {
    Unsupported { target: Seq<char>, function: Seq<char> },
}

impl View for CodegenError {
    type V = CodegenErrorView;

    open spec fn view(&self) -> CodegenErrorView {
        match self {
            CodegenError::Unsupported { target, function } => CodegenErrorView::Unsupported {
                target: target@,
                function: function@,
            },
        }
    }
}

/// The model of the outcome of a compilation.
pub open spec fn outcome_view(outcome: Result<CompiledCode, CodegenError>) -> Result<
    CompiledCodeView,
    CodegenErrorView,
> {
    match outcome {
        Ok(code) => Ok(code@),
        Err(e) => Err(e@),
    }
}

} // verus!
