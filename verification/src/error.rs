//! The reasons for which a kernel is rejected.

use vstd::prelude::*;

verus! {

/// Why a kernel cannot be compiled.
#[derive(Clone, Copy, Debug, PartialEq, Eq)]
pub enum CompileError {
    /// An operation that cannot be expressed, such as a 64-bit constant.
    UnsupportedInstruction,
    /// A global other than the one that stands for the thread id.
    UnsupportedGlobal,
    /// A branch to a label other than that of the innermost loop.
    MultiLevelBranch,
    /// A `Break` or `Continue` that no loop encloses.
    BranchOutsideLoop,
    /// A call of a function that has not been lowered yet.
    UnknownFunction,
    /// The module would need more ids than 32 bits can number.
    TooManyIds,
}

impl CompileError {
    /// The words that describe the error.
    pub open spec fn description(self) -> Seq<char> {
        match self {
            CompileError::UnsupportedInstruction => "unsupported instruction"@,
            CompileError::UnsupportedGlobal => "unsupported global"@,
            CompileError::MultiLevelBranch => "branch out of more than one level"@,
            CompileError::BranchOutsideLoop => "branch outside of any loop"@,
            CompileError::UnknownFunction => "call of an unknown function"@,
            CompileError::TooManyIds => "too many ids"@,
        }
    }

    /// A short description of the error.
    pub fn message(&self) -> (s: &'static str)
        ensures
            s@ == self.description(),
    {
        match self {
            CompileError::UnsupportedInstruction => "unsupported instruction",
            CompileError::UnsupportedGlobal => "unsupported global",
            CompileError::MultiLevelBranch => "branch out of more than one level",
            CompileError::BranchOutsideLoop => "branch outside of any loop",
            CompileError::UnknownFunction => "call of an unknown function",
            CompileError::TooManyIds => "too many ids",
        }
    }
}

} // verus!
