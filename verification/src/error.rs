//! The ways in which a launch fails: input that is refused before any
//! engine is involved, and runs that yield no values.

use vstd::prelude::*;

verus! {

/// Launch input that was refused before any engine was involved.
#[derive(Debug, PartialEq, Eq)]
pub enum ParseError {
    /// An environment entry without `=`.
    MissingDelimiter,
    /// An environment binding with an empty name.
    EmptyName,
    /// A feature token that is not in the feature table; it holds the token.
    UnknownFeature(String),
}

/// `ParseError` over mathematical text.
pub enum ParseErrorView {
    MissingDelimiter,
    EmptyName,
    UnknownFeature(Seq<char>),
}

impl View for ParseError {
    type V = ParseErrorView;

    open spec fn view(&self) -> ParseErrorView {
        match self {
            ParseError::MissingDelimiter => ParseErrorView::MissingDelimiter,
            ParseError::EmptyName => ParseErrorView::EmptyName,
            ParseError::UnknownFeature(token) => ParseErrorView::UnknownFeature(token@),
        }
    }
}

/// The stages of a run.
#[derive(Clone, Copy, Debug, PartialEq, Eq, Structural)]
pub enum Stage {
    Validation,
    Instantiation,
    Resolution,
    Execution,
}

/// Why a run yields no values.
#[derive(Debug, PartialEq, Eq)]
pub enum InvocationError {
    /// The bytes are no valid module under the capabilities enabled.
    InvalidModule,
    /// The module has no export for the entry point; it holds the name
    /// looked for, which is empty where the module names no default.
    FunctionNotFound(String),
    /// The module is valid but could not be linked or instantiated.
    InstantiationFailed,
    /// The guest faulted while it ran.
    Trap,
}

/// `InvocationError` over mathematical text.
pub enum InvocationErrorView {
    InvalidModule,
    FunctionNotFound(Seq<char>),
    InstantiationFailed,
    Trap,
}

impl View for InvocationError {
    type V = InvocationErrorView;

    open spec fn view(&self) -> InvocationErrorView {
        match self {
            InvocationError::InvalidModule => InvocationErrorView::InvalidModule,
            InvocationError::FunctionNotFound(name) => InvocationErrorView::FunctionNotFound(name@),
            InvocationError::InstantiationFailed => InvocationErrorView::InstantiationFailed,
            InvocationError::Trap => InvocationErrorView::Trap,
        }
    }
}

impl InvocationErrorView {
    /// The stage at which a run fails with this error.
    pub open spec fn stage(self) -> Stage {
        match self {
            InvocationErrorView::InvalidModule => Stage::Validation,
            InvocationErrorView::InstantiationFailed => Stage::Instantiation,
            InvocationErrorView::FunctionNotFound(_) => Stage::Resolution,
            InvocationErrorView::Trap => Stage::Execution,
        }
    }
}

impl InvocationError {
    /// The stage that failed. Each error belongs to one stage, so bad input
    /// can be told from bad execution.
    pub fn stage(&self) -> (stage: Stage)
        ensures
            stage == self@.stage(),
    {
        match self {
            InvocationError::InvalidModule => Stage::Validation,
            InvocationError::InstantiationFailed => Stage::Instantiation,
            InvocationError::FunctionNotFound(_) => Stage::Resolution,
            InvocationError::Trap => Stage::Execution,
        }
    }
}

} // verus!
