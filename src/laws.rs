use vstd::prelude::*;

use crate::error::ScannerError;
use crate::grammar::{
    advance, alpha_numeric_run, entry_at, is_ambiguous, is_whitespace_entry, keyword_kind,
    lemma_alpha_numeric_run_bound, lemma_lexeme_end_bound, lexeme_end, scan_error, scan_from,
    scanned, single_char_kind, token, Entry,
};
use crate::tokens::TokenType;
use crate::utils::{is_alpha_char, is_alpha_numeric_char, is_digit_char};

verus! {

/// Reading `a` and then `b` ends where reading `a + b` does.
pub proof fn lemma_advance_concat(line: nat, column: nat, a: Seq<char>, b: Seq<char>)
    ensures
        advance(line, column, a + b) == advance(
            advance(line, column, a).0,
            advance(line, column, a).1,
            b,
        ),
    decreases b.len(),
{
    if b.len() == 0 {
        assert(a + b =~= a);
    } else {
        lemma_advance_concat(line, column, a, b.drop_last());
        assert((a + b).drop_last() =~= a + b.drop_last());
        assert((a + b).last() == b.last());
    }
}

/// The `Eof` token of a scan of `s` from `(1, 1)`: empty, just past the last character.
pub open spec fn final_eof(s: Seq<char>) -> Entry {
    token(TokenType::Eof, Seq::empty(), advance(1, 1, s).0, advance(1, 1, s).1)
}

proof fn lemma_scan_from_last(s: Seq<char>, i: int, line: nat, column: nat)
    requires
        0 <= i <= s.len(),
    ensures
        scan_from(s, i, line, column).len() >= 1,
        scan_from(s, i, line, column).last() == token(
            TokenType::Eof,
            Seq::empty(),
            advance(line, column, s.subrange(i, s.len() as int)).0,
            advance(line, column, s.subrange(i, s.len() as int)).1,
        ),
    decreases s.len() - i,
{
    if i == s.len() {
        assert(s.subrange(i, i) =~= Seq::<char>::empty());
    } else {
        let e = lexeme_end(s, i);
        lemma_lexeme_end_bound(s, i);
        let p = advance(line, column, s.subrange(i, e));
        lemma_scan_from_last(s, e, p.0, p.1);
        lemma_advance_concat(line, column, s.subrange(i, e), s.subrange(e, s.len() as int));
        assert(s.subrange(i, e) + s.subrange(e, s.len() as int) =~= s.subrange(i, s.len() as int));
    }
}

/// Every scan ends with an `Eof` token, never an error, at the position just past the
/// last character of the input; with or without whitespace tokens.
pub proof fn lemma_scan_ends_with_eof(s: Seq<char>, remove_whitespace: bool)
    ensures
        scanned(s, remove_whitespace).len() >= 1,
        scanned(s, remove_whitespace).last() == final_eof(s),
{
    lemma_scan_from_last(s, 0, 1, 1);
    assert(s.subrange(0, s.len() as int) =~= s);
    let v = scan_from(s, 0, 1, 1);
    assert(!is_whitespace_entry(v.last()));
}

/// The lexemes of the tokens among `v`, joined in order.
pub open spec fn joined_lexemes(v: Seq<Entry>) -> Seq<char>
    decreases v.len(),
{
    if v.len() == 0 {
        Seq::empty()
    } else {
        let first = match v[0] {
            Ok(t) => t.lexeme,
            Err(_) => Seq::empty(),
        };
        first + joined_lexemes(v.drop_first())
    }
}

/// A token's lexeme is the text from where it starts to where the next one starts.
pub proof fn lemma_token_lexeme(s: Seq<char>, i: int, line: nat, column: nat)
    requires
        0 <= i < s.len(),
    ensures
        entry_at(s, i, line, column) matches Ok(t) ==> t.lexeme == s.subrange(
            i,
            lexeme_end(s, i),
        ),
{
}

proof fn lemma_joined_from(s: Seq<char>, i: int, line: nat, column: nat)
    requires
        0 <= i <= s.len(),
        forall|k: int|
            0 <= k < scan_from(s, i, line, column).len() ==> #[trigger] scan_from(
                s,
                i,
                line,
                column,
            )[k] is Ok,
    ensures
        joined_lexemes(scan_from(s, i, line, column)) == s.subrange(i, s.len() as int),
    decreases s.len() - i,
{
    let v = scan_from(s, i, line, column);
    if i == s.len() {
        assert(v.drop_first() =~= Seq::<Entry>::empty());
        assert(s.subrange(i, i) =~= Seq::<char>::empty());
        assert(joined_lexemes(v.drop_first()) == Seq::<char>::empty());
        assert(v[0] == token(TokenType::Eof, Seq::empty(), line, column));
        assert(Seq::<char>::empty() + Seq::<char>::empty() =~= Seq::<char>::empty());
    } else {
        let e = lexeme_end(s, i);
        lemma_lexeme_end_bound(s, i);
        let p = advance(line, column, s.subrange(i, e));
        let rest = scan_from(s, e, p.0, p.1);
        assert(v.drop_first() =~= rest);
        assert forall|k: int| 0 <= k < rest.len() implies #[trigger] rest[k] is Ok by {
            assert(rest[k] == v[k + 1]);
        }
        lemma_joined_from(s, e, p.0, p.1);
        assert(v[0] is Ok);
        assert(v[0] == entry_at(s, i, line, column));
        lemma_token_lexeme(s, i, line, column);
        assert(joined_lexemes(v) == s.subrange(i, e) + joined_lexemes(rest));
        assert(s.subrange(i, e) + s.subrange(e, s.len() as int) =~= s.subrange(i, s.len() as int));
    }
}

/// Where a scan of `s` holds no error, its lexemes, joined in order, are `s` itself.
pub proof fn lemma_lossless(s: Seq<char>)
    requires
        forall|k: int| 0 <= k < scanned(s, false).len() ==> #[trigger] scanned(s, false)[k] is Ok,
    ensures
        joined_lexemes(scanned(s, false)) == s,
{
    let v = scan_from(s, 0, 1, 1);
    assert forall|k: int| 0 <= k < v.len() implies #[trigger] v[k] is Ok by {
        assert(scanned(s, false)[k] is Ok);
    }
    lemma_joined_from(s, 0, 1, 1);
    assert(s.subrange(0, s.len() as int) =~= s);
}

/// Whether a character can begin a token.
pub open spec fn begins_token(c: char) -> bool {
    single_char_kind(c) is Some || is_ambiguous(c) || c == '/' || c == '"' || is_digit_char(c)
        || is_alpha_char(c)
}

/// A character that begins no token gives exactly one error, and the scan goes on at
/// the next character, one column further on.
pub proof fn lemma_unexpected_character(s: Seq<char>, i: int, line: nat, column: nat)
    requires
        0 <= i < s.len(),
        !begins_token(s[i]),
    ensures
        lexeme_end(s, i) == i + 1,
        scan_from(s, i, line, column) == seq![
            scan_error(ScannerError::UnexpectedCharacter(line as usize, column as usize, s[i])),
        ] + scan_from(s, i + 1, line, column + 1),
{
    let t = s.subrange(i, i + 1);
    assert(t.drop_last() =~= Seq::<char>::empty());
    assert(advance(line, column, t.drop_last()) == (line, column));
}

/// An identifier or a reserved word takes the longest run of letters, digits and
/// underscores, and is a reserved word only where the whole run is one.
pub proof fn lemma_maximal_munch(s: Seq<char>, i: int, line: nat, column: nat)
    requires
        0 <= i < s.len(),
        is_alpha_char(s[i]),
    ensures
        forall|k: int| i <= k < lexeme_end(s, i) ==> is_alpha_numeric_char(#[trigger] s[k]),
        lexeme_end(s, i) == s.len() || !is_alpha_numeric_char(s[lexeme_end(s, i)]),
        entry_at(s, i, line, column) == token(
            match keyword_kind(s.subrange(i, lexeme_end(s, i))) {
                Some(k) => k,
                None => TokenType::Identifier,
            },
            s.subrange(i, lexeme_end(s, i)),
            line,
            column,
        ),
{
    lemma_alpha_numeric_run_bound(s, i + 1);
    assert(lexeme_end(s, i) == i + 1 + alpha_numeric_run(s, i + 1));
}

} // verus!
