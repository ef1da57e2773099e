use vstd::prelude::*;

use crate::error::{LinterError, LoxError, LoxResult};
use crate::grammar::{entries_view, entry_view, Entry};
use crate::tokens::{LoxToken, TokenType};

verus! {

/// Whether an entry is a space token.
pub open spec fn is_space_entry(e: Entry) -> bool {
    e matches Ok(t) && t.token_type is Space
}

/// The double-space findings among the pairs of neighbours `(v[k], v[k + 1])` with
/// `k < n`, in order: one for each pair of two space tokens, at the first of them.
pub open spec fn double_spaces_before(v: Seq<Entry>, n: int) -> Seq<LoxError<Seq<char>>>
    decreases n,
{
    if n <= 0 {
        Seq::empty()
    } else {
        let found = double_spaces_before(v, n - 1);
        let k = n - 1;
        if k + 1 < v.len() && is_space_entry(v[k]) && is_space_entry(v[k + 1]) {
            let first = v[k]->Ok_0;
            found.push(
                LoxError::LinterError(LinterError::DoubleSpaceDetected(first.line, first.column)),
            )
        } else {
            found
        }
    }
}

/// The double-space findings of a token stream.
pub open spec fn double_spaces(v: Seq<Entry>) -> Seq<LoxError<Seq<char>>> {
    double_spaces_before(v, v.len() - 1)
}

/// Finds each place where two space tokens follow each other, and reports it at the
/// first of the two.
pub fn lint_tokens(tokens: &[LoxResult<LoxToken>]) -> (r: Vec<LoxError>)
    ensures
        r@.map_values(|e: LoxError| e@) == double_spaces(entries_view(tokens@)),
{
    let ghost v = entries_view(tokens@);
    let mut findings: Vec<LoxError> = Vec::new();
    if tokens.len() == 0 {
        assert(findings@.map_values(|e: LoxError| e@) =~= Seq::<LoxError<Seq<char>>>::empty());
        return findings;
    }
    let last = tokens.len() - 1;
    let mut k: usize = 0;
    while k < last
        invariant
            v == entries_view(tokens@),
            last == tokens@.len() - 1,
            k <= last,
            findings@.map_values(|e: LoxError| e@) == double_spaces_before(v, k as int),
        decreases last - k,
    {
        let pair = match (&tokens[k], &tokens[k + 1]) {
            (Ok(first), Ok(second)) => match (&first.token_type, &second.token_type) {
                (TokenType::Space, TokenType::Space) => Some((first.line, first.column)),
                _ => None,
            },
            _ => None,
        };
        proof {
            assert(v[k as int] == entry_view(tokens@[k as int]));
            assert(v[k + 1] == entry_view(tokens@[k + 1]));
        }
        if let Some((line, column)) = pair {
            let finding = LoxError::LinterError(LinterError::DoubleSpaceDetected(line, column));
            let ghost before = findings@;
            findings.push(finding);
            proof {
                assert(findings@.map_values(|e: LoxError| e@) =~= before.map_values(
                    |e: LoxError| e@,
                ).push(finding@));
            }
        }
        k = k + 1;
    }
    findings
}

} // verus!
