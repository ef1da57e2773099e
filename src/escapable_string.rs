use vstd::prelude::*;

use crate::error::LoxResult;
use crate::utils::{text_result_view, unescape_result};

verus! {

/// Text that can be read as the body of a string literal.
pub trait UnEscapableString {
    /// The characters of the text.
    spec fn text(&self) -> Seq<char>;

    /// Unescapes the text; an unknown escape sequence is reported at
    /// `(lineno, columno)`.
    fn unescape_string(&self, lineno: usize, columno: usize) -> (r: LoxResult<String>)
        ensures
            text_result_view(r) == unescape_result(self.text(), lineno, columno),
    ;
}

impl UnEscapableString for str {
    open spec fn text(&self) -> Seq<char> {
        self@
    }

    fn unescape_string(&self, lineno: usize, columno: usize) -> (r: LoxResult<String>) {
        crate::utils::unescape_string(self, lineno, columno)
    }
}

} // verus!
