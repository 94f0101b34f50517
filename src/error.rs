//! The errors that stop compilation; the first one wins.
use vstd::prelude::*;

verus! {

/// Why semantic analysis rejected a program.
#[derive(Clone, Copy, Debug, PartialEq, Eq, Structural)]
pub enum SemanticError {
    DuplicateDeclaration,
    UndeclaredVariable,
    InvalidLvalue,
    DuplicateLabel,
    /// A `goto` names no label of the function.
    UndefinedLabel,
    LabelWithoutStatement,
    BreakOutsideLoop,
    ContinueOutsideLoop,
    /// The name counter cannot mint another name.
    TooManyNames,
}

#[derive(Debug)]
pub enum Error {
    Lexer { ch: char },
    Parser { expected: String, found: String },
    Semantic(SemanticError),
    /// A pseudo-operand reached the emitter.
    CodeEmission,
    /// The program needs more fresh names or stack slots than the counters hold.
    TooLarge,
}

impl SemanticError {
    pub fn message(&self) -> (r: &'static str) {
        match self {
            SemanticError::DuplicateDeclaration => "duplicate declaration",
            SemanticError::UndeclaredVariable => "undeclared variable",
            SemanticError::InvalidLvalue => "invalid lvalue",
            SemanticError::DuplicateLabel => "duplicate label",
            SemanticError::UndefinedLabel => "goto to an undeclared label",
            SemanticError::LabelWithoutStatement => "must have statement after goto label",
            SemanticError::BreakOutsideLoop => "break outside of loop",
            SemanticError::ContinueOutsideLoop => "continue outside of loop",
            SemanticError::TooManyNames => "too many names",
        }
    }
}

} // verus!
