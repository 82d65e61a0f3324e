//! The error kinds the generator surfaces. All of them propagate to the
//! top-level caller; none is recovered inside the pipeline.

use vstd::prelude::*;

verus! {

/// A project file that could not be understood.
#[derive(Clone, Copy, PartialEq, Eq, Structural, Debug)]
pub struct ConfigError;

/// Why a paper could not be produced.
#[derive(Clone, Copy, PartialEq, Eq, Structural, Debug)]
pub enum GenError {
    /// The project is semantically invalid: the question at the given
    /// rendered position declares more than the allowed 16 answers.
    TooManyAnswers { index: usize },
    /// The font family could not be located, opened, or parsed.
    Font,
    /// A layout element was rejected (a bullet past the last code point).
    Render,
    /// The output file could not be created or written.
    Io,
}

impl GenError {
    /// A single human-readable line describing the error.
    pub fn message(&self) -> (r: &'static str)
        ensures
            *self matches GenError::TooManyAnswers { .. } ==> r@
                == "a question declares more than 16 answers"@,
            *self is Font ==> r@ == "the font family could not be loaded"@,
            *self is Render ==> r@ == "a layout element was rejected"@,
            *self is Io ==> r@ == "the output file could not be written"@,
    {
        match self {
            GenError::TooManyAnswers { .. } => "a question declares more than 16 answers",
            GenError::Font => "the font family could not be loaded",
            GenError::Render => "a layout element was rejected",
            GenError::Io => "the output file could not be written",
        }
    }
}

} // verus!
