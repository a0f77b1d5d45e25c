//! The little of the intermediate representation that the backend contract
//! names. What a function holds is the business of the lowering pipelines.

use vstd::prelude::*;

verus! {

/// A value type of the intermediate representation, by its code.
#[derive(Clone, Copy, Debug, PartialEq, Eq, Hash, Structural)]
pub struct Type {
    pub code: u16,
}

/// How a calling convention widens an integer argument that is narrower
/// than a register.
#[derive(Clone, Copy, Debug, PartialEq, Eq, Structural)]
pub enum ArgumentExtension {
    /// The argument is passed as it is.
    Unextended,
    /// The argument is zero-extended.
    Uext,
    /// The argument is sign-extended.
    Sext,
}

/// A function to compile, known to this crate by its name only.
#[derive(Debug)]
pub struct Function {
    pub name: String,
}

/// The model of a [`Function`].
pub struct FunctionView {
    pub name: Seq<char>,
}

impl View for Function {
    type V = FunctionView;

    open spec fn view(&self) -> FunctionView {
        FunctionView { name: self.name@ }
    }
}

/// The dominator tree of a function: for each block the block that
/// immediately dominates it, if any.
#[derive(Debug)]
pub struct DominatorTree {
    pub immediate_dominators: Vec<Option<u32>>,
}

} // verus!
