use vstd::prelude::*;

verus! {

/// A recoverable lexical failure, with the line and column where it was found.
///
/// `S` is the text type: `String` at run time, `Seq<char>` in the view.
#[derive(Clone, Debug, PartialEq)]
pub enum ScannerError<S = String> {
    /// A character that begins no token.
    UnexpectedCharacter(usize, usize, char),
    /// A `"` with no closing `"` before the end of the input.
    UnterminatedString(usize, usize),
    /// A `/*` with no closing `*/` before the end of the input.
    UnterminatedBlockComment(usize, usize),
    /// A backslash followed by a character outside `\\`, `"`, `n`, `t`; carries the
    /// two-character sequence.
    UnknownStringEscapeSequence(usize, usize, S),
    /// A numeric literal that could not be turned into a number; carries the reason.
    UnableToParseNumber(usize, usize, S),
}

/// A style finding of the linter.
#[derive(Clone, Copy, Debug, PartialEq, Eq)]
pub enum LinterError {
    /// Two spaces in a row; carries the position of the first.
    DoubleSpaceDetected(usize, usize),
}

#[derive(Clone, Debug, PartialEq)]
pub enum LoxError<S = String> {
    ScannerError(ScannerError<S>),
    LinterError(LinterError),
}

pub type LoxResult<T> = Result<T, LoxError>;

impl View for ScannerError<String> {
    type V = ScannerError<Seq<char>>;

    open spec fn view(&self) -> ScannerError<Seq<char>> {
        match self {
            ScannerError::UnexpectedCharacter(l, c, ch) => ScannerError::UnexpectedCharacter(
                *l,
                *c,
                *ch,
            ),
            ScannerError::UnterminatedString(l, c) => ScannerError::UnterminatedString(*l, *c),
            ScannerError::UnterminatedBlockComment(l, c) => ScannerError::UnterminatedBlockComment(
                *l,
                *c,
            ),
            ScannerError::UnknownStringEscapeSequence(l, c, s) =>
                ScannerError::UnknownStringEscapeSequence(*l, *c, s@),
            ScannerError::UnableToParseNumber(l, c, s) => ScannerError::UnableToParseNumber(
                *l,
                *c,
                s@,
            ),
        }
    }
}

impl View for LoxError<String> {
    type V = LoxError<Seq<char>>;

    open spec fn view(&self) -> LoxError<Seq<char>> {
        match self {
            LoxError::ScannerError(e) => LoxError::ScannerError(e@),
            LoxError::LinterError(e) => LoxError::LinterError(*e),
        }
    }
}

impl From<ScannerError> for LoxError {
    fn from(e: ScannerError) -> (r: LoxError) {
        LoxError::ScannerError(e)
    }
}

impl vstd::std_specs::convert::FromSpecImpl<ScannerError> for LoxError {
    open spec fn obeys_from_spec() -> bool {
        true
    }

    open spec fn from_spec(e: ScannerError) -> LoxError {
        LoxError::ScannerError(e)
    }
}

impl From<LinterError> for LoxError {
    fn from(e: LinterError) -> (r: LoxError) {
        LoxError::LinterError(e)
    }
}

impl vstd::std_specs::convert::FromSpecImpl<LinterError> for LoxError {
    open spec fn obeys_from_spec() -> bool {
        true
    }

    open spec fn from_spec(e: LinterError) -> LoxError {
        LoxError::LinterError(e)
    }
}

} // verus!
