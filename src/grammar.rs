use vstd::prelude::*;

use crate::error::{LoxError, LoxResult, ScannerError};
use crate::tokens::{is_whitespace_kind, LoxToken, TokenType};
use crate::utils::{is_alpha_char, is_alpha_numeric_char, is_digit_char, unescape_result};

verus! {

/// One entry of a scan, as a mathematical value: a token or a lexical error.
pub type Entry = Result<LoxToken<Seq<char>>, LoxError<Seq<char>>>;

/// The mathematical value of one entry of a scan.
pub open spec fn entry_view(e: LoxResult<LoxToken>) -> Entry {
    match e {
        Ok(t) => Ok(t@),
        Err(x) => Err(x@),
    }
}

/// The mathematical value of the entries of a scan.
pub open spec fn entries_view(v: Seq<LoxResult<LoxToken>>) -> Seq<Entry> {
    v.map_values(|e: LoxResult<LoxToken>| entry_view(e))
}

/// The position after reading `t` from `(line, column)`: a line feed moves to column 1
/// of the next line, any other character one column to the right.
pub open spec fn advance(line: nat, column: nat, t: Seq<char>) -> (nat, nat)
    decreases t.len(),
{
    if t.len() == 0 {
        (line, column)
    } else {
        let p = advance(line, column, t.drop_last());
        if t.last() == '\n' {
            (p.0 + 1, 1)
        } else {
            (p.0, p.1 + 1)
        }
    }
}

/// The number of digits in a row from `i`.
pub open spec fn digit_run(s: Seq<char>, i: int) -> nat
    decreases s.len() - i,
{
    if 0 <= i < s.len() && is_digit_char(s[i]) {
        1 + digit_run(s, i + 1)
    } else {
        0
    }
}

/// The number of letters, digits and underscores in a row from `i`.
pub open spec fn alpha_numeric_run(s: Seq<char>, i: int) -> nat
    decreases s.len() - i,
{
    if 0 <= i < s.len() && is_alpha_numeric_char(s[i]) {
        1 + alpha_numeric_run(s, i + 1)
    } else {
        0
    }
}

/// The number of characters from `i` up to the next line feed or the end.
pub open spec fn line_run(s: Seq<char>, i: int) -> nat
    decreases s.len() - i,
{
    if 0 <= i < s.len() && s[i] != '\n' {
        1 + line_run(s, i + 1)
    } else {
        0
    }
}

/// The end (just past the `*/`) of the first `*/` that starts at `j` or later.
pub open spec fn block_close(s: Seq<char>, j: int) -> Option<int>
    decreases s.len() - j,
{
    if j < 0 || j + 1 >= s.len() {
        None
    } else if s[j] == '*' && s[j + 1] == '/' {
        Some(j + 2)
    } else {
        block_close(s, j + 1)
    }
}

/// The index of the first `"` at `j` or later that no backslash escapes.
pub open spec fn string_close(s: Seq<char>, j: int) -> Option<int>
    decreases s.len() - j,
{
    if j < 0 || j >= s.len() {
        None
    } else if s[j] == '"' {
        Some(j)
    } else if s[j] == '\\' && j + 1 < s.len() {
        string_close(s, j + 2)
    } else if s[j] == '\\' {
        None
    } else {
        string_close(s, j + 1)
    }
}

/// The length of a number that starts at `i`: a run of digits, and a `.` with a second
/// run only where a digit follows the `.`.
pub open spec fn number_len(s: Seq<char>, i: int) -> nat {
    let a = digit_run(s, i);
    if i + a + 1 < s.len() && s[i + a] == '.' && is_digit_char(s[i + a + 1]) {
        a + 1 + digit_run(s, i + a + 1)
    } else {
        a
    }
}

/// The kind of a token that is exactly one character, whatever follows.
pub open spec fn single_char_kind(c: char) -> Option<TokenType<Seq<char>>> {
    if c == ' ' {
        Some(TokenType::Space)
    } else if c == '\r' {
        Some(TokenType::CarriageReturn)
    } else if c == '\n' {
        Some(TokenType::Linefeed)
    } else if c == '\t' {
        Some(TokenType::Tab)
    } else if c == '(' {
        Some(TokenType::LeftParen)
    } else if c == ')' {
        Some(TokenType::RightParen)
    } else if c == '{' {
        Some(TokenType::LeftBrace)
    } else if c == '}' {
        Some(TokenType::RightBrace)
    } else if c == ',' {
        Some(TokenType::Comma)
    } else if c == '.' {
        Some(TokenType::Dot)
    } else if c == '-' {
        Some(TokenType::Minus)
    } else if c == '+' {
        Some(TokenType::Plus)
    } else if c == ';' {
        Some(TokenType::Semicolon)
    } else if c == '*' {
        Some(TokenType::Star)
    } else {
        None
    }
}

/// A character that is an operator alone and another one when `=` follows.
pub open spec fn is_ambiguous(c: char) -> bool {
    c == '!' || c == '=' || c == '<' || c == '>'
}

/// The operator of an ambiguous character alone.
pub open spec fn one_char_operator(c: char) -> TokenType<Seq<char>> {
    if c == '!' {
        TokenType::Bang
    } else if c == '=' {
        TokenType::Equal
    } else if c == '<' {
        TokenType::Less
    } else {
        TokenType::Greater
    }
}

/// The operator of an ambiguous character followed by `=`.
pub open spec fn two_char_operator(c: char) -> TokenType<Seq<char>> {
    if c == '!' {
        TokenType::BangEqual
    } else if c == '=' {
        TokenType::EqualEqual
    } else if c == '<' {
        TokenType::LessEqual
    } else {
        TokenType::GreaterEqual
    }
}

/// The reserved words, each with its kind; any other word is an identifier.
pub open spec fn keyword_kind(w: Seq<char>) -> Option<TokenType<Seq<char>>> {
    if w == seq!['a', 'n', 'd'] {
        Some(TokenType::And)
    } else if w == seq!['c', 'l', 'a', 's', 's'] {
        Some(TokenType::Class)
    } else if w == seq!['e', 'l', 's', 'e'] {
        Some(TokenType::Else)
    } else if w == seq!['f', 'a', 'l', 's', 'e'] {
        Some(TokenType::False)
    } else if w == seq!['f', 'o', 'r'] {
        Some(TokenType::For)
    } else if w == seq!['f', 'u', 'n'] {
        Some(TokenType::Fun)
    } else if w == seq!['i', 'f'] {
        Some(TokenType::If)
    } else if w == seq!['n', 'i', 'l'] {
        Some(TokenType::Nil)
    } else if w == seq!['o', 'r'] {
        Some(TokenType::Or)
    } else if w == seq!['p', 'r', 'i', 'n', 't'] {
        Some(TokenType::Print)
    } else if w == seq!['r', 'e', 't', 'u', 'r', 'n'] {
        Some(TokenType::Return)
    } else if w == seq!['s', 'u', 'p', 'e', 'r'] {
        Some(TokenType::Super)
    } else if w == seq!['t', 'h', 'i', 's'] {
        Some(TokenType::This)
    } else if w == seq!['t', 'r', 'u', 'e'] {
        Some(TokenType::True)
    } else if w == seq!['v', 'a', 'r'] {
        Some(TokenType::Var)
    } else if w == seq!['w', 'h', 'i', 'l', 'e'] {
        Some(TokenType::While)
    } else {
        None
    }
}

/// The end (exclusive) of the lexeme that starts at `i`, where `0 <= i < s.len()`.
pub open spec fn lexeme_end(s: Seq<char>, i: int) -> int {
    let c = s[i];
    if is_ambiguous(c) {
        if i + 1 < s.len() && s[i + 1] == '=' {
            i + 2
        } else {
            i + 1
        }
    } else if c == '/' {
        if i + 1 < s.len() && s[i + 1] == '/' {
            i + 2 + line_run(s, i + 2)
        } else if i + 1 < s.len() && s[i + 1] == '*' {
            match block_close(s, i + 2) {
                Some(e) => e,
                None => s.len() as int,
            }
        } else {
            i + 1
        }
    } else if c == '"' {
        match string_close(s, i + 1) {
            Some(q) => q + 1,
            None => s.len() as int,
        }
    } else if is_digit_char(c) {
        i + number_len(s, i)
    } else if is_alpha_char(c) {
        i + 1 + alpha_numeric_run(s, i + 1)
    } else {
        i + 1
    }
}

/// A token at `(line, column)`.
pub open spec fn token(kind: TokenType<Seq<char>>, lexeme: Seq<char>, line: nat, column: nat) -> Entry {
    Ok(LoxToken { token_type: kind, lexeme, line: line as usize, column: column as usize })
}

pub open spec fn scan_error(e: ScannerError<Seq<char>>) -> Entry {
    Err(LoxError::ScannerError(e))
}

/// The entry for the lexeme that starts at `i`, where `0 <= i < s.len()`, at
/// `(line, column)`.
pub open spec fn entry_at(s: Seq<char>, i: int, line: nat, column: nat) -> Entry {
    let c = s[i];
    let lexeme = s.subrange(i, lexeme_end(s, i));
    if let Some(k) = single_char_kind(c) {
        token(k, lexeme, line, column)
    } else if is_ambiguous(c) {
        if lexeme.len() == 2 {
            token(two_char_operator(c), lexeme, line, column)
        } else {
            token(one_char_operator(c), lexeme, line, column)
        }
    } else if c == '/' {
        if i + 1 < s.len() && s[i + 1] == '/' {
            token(TokenType::Comment, lexeme, line, column)
        } else if i + 1 < s.len() && s[i + 1] == '*' {
            if block_close(s, i + 2) is Some {
                token(TokenType::BlockComment, lexeme, line, column)
            } else {
                scan_error(ScannerError::UnterminatedBlockComment(line as usize, column as usize))
            }
        } else {
            token(TokenType::Slash, lexeme, line, column)
        }
    } else if c == '"' {
        match string_close(s, i + 1) {
            Some(q) => match unescape_result(s.subrange(i + 1, q), line as usize, column as usize) {
                Ok(v) => token(TokenType::String(v), lexeme, line, column),
                Err(e) => Err(e),
            },
            None => scan_error(ScannerError::UnterminatedString(line as usize, column as usize)),
        }
    } else if is_digit_char(c) {
        token(TokenType::Number(lexeme), lexeme, line, column)
    } else if is_alpha_char(c) {
        match keyword_kind(lexeme) {
            Some(k) => token(k, lexeme, line, column),
            None => token(TokenType::Identifier, lexeme, line, column),
        }
    } else {
        scan_error(ScannerError::UnexpectedCharacter(line as usize, column as usize, c))
    }
}

pub proof fn lemma_digit_run_bound(s: Seq<char>, i: int)
    requires
        0 <= i <= s.len(),
    ensures
        i + digit_run(s, i) <= s.len(),
        forall|k: int| i <= k < i + digit_run(s, i) ==> is_digit_char(#[trigger] s[k]),
        i + digit_run(s, i) == s.len() || !is_digit_char(s[i + digit_run(s, i)]),
    decreases s.len() - i,
{
    if i < s.len() && is_digit_char(s[i]) {
        lemma_digit_run_bound(s, i + 1);
    }
}

pub proof fn lemma_alpha_numeric_run_bound(s: Seq<char>, i: int)
    requires
        0 <= i <= s.len(),
    ensures
        i + alpha_numeric_run(s, i) <= s.len(),
        forall|k: int|
            i <= k < i + alpha_numeric_run(s, i) ==> is_alpha_numeric_char(#[trigger] s[k]),
        i + alpha_numeric_run(s, i) == s.len() || !is_alpha_numeric_char(
            s[i + alpha_numeric_run(s, i)],
        ),
    decreases s.len() - i,
{
    if i < s.len() && is_alpha_numeric_char(s[i]) {
        lemma_alpha_numeric_run_bound(s, i + 1);
    }
}

pub proof fn lemma_line_run_bound(s: Seq<char>, i: int)
    requires
        0 <= i <= s.len(),
    ensures
        i + line_run(s, i) <= s.len(),
        forall|k: int| i <= k < i + line_run(s, i) ==> #[trigger] s[k] != '\n',
        i + line_run(s, i) == s.len() || s[i + line_run(s, i)] == '\n',
    decreases s.len() - i,
{
    if i < s.len() && s[i] != '\n' {
        lemma_line_run_bound(s, i + 1);
    }
}

pub proof fn lemma_block_close_bound(s: Seq<char>, j: int)
    requires
        0 <= j,
    ensures
        block_close(s, j) matches Some(e) ==> j + 2 <= e <= s.len(),
    decreases s.len() - j,
{
    if j + 1 < s.len() && !(s[j] == '*' && s[j + 1] == '/') {
        lemma_block_close_bound(s, j + 1);
    }
}

pub proof fn lemma_string_close_bound(s: Seq<char>, j: int)
    requires
        0 <= j,
    ensures
        string_close(s, j) matches Some(q) ==> j <= q < s.len(),
    decreases s.len() - j,
{
    if 0 <= j < s.len() && s[j] != '"' {
        if s[j] == '\\' && j + 1 < s.len() {
            lemma_string_close_bound(s, j + 2);
        } else if s[j] != '\\' {
            lemma_string_close_bound(s, j + 1);
        }
    }
}

/// A lexeme takes at least one character and ends within the input.
pub proof fn lemma_lexeme_end_bound(s: Seq<char>, i: int)
    requires
        0 <= i < s.len(),
    ensures
        i < lexeme_end(s, i) <= s.len(),
{
    lemma_digit_run_bound(s, i);
    if i + digit_run(s, i) + 1 < s.len() {
        lemma_digit_run_bound(s, i + digit_run(s, i) + 1);
    }
    lemma_alpha_numeric_run_bound(s, i + 1);
    if i + 2 <= s.len() {
        lemma_line_run_bound(s, i + 2);
    }
    lemma_block_close_bound(s, i + 2);
    lemma_string_close_bound(s, i + 1);
    if is_digit_char(s[i]) {
        assert(digit_run(s, i) >= 1);
    }
}

/// The entries of a scan from index `i` at `(line, column)`: one per lexeme, then `Eof`.
pub open spec fn scan_from(s: Seq<char>, i: int, line: nat, column: nat) -> Seq<Entry>
    decreases s.len() - i,
    via scan_from_decreases
{
    if i < 0 || i >= s.len() {
        seq![token(TokenType::Eof, Seq::empty(), line, column)]
    } else {
        let e = lexeme_end(s, i);
        let p = advance(line, column, s.subrange(i, e));
        seq![entry_at(s, i, line, column)] + scan_from(s, e, p.0, p.1)
    }
}

#[via_fn]
proof fn scan_from_decreases(s: Seq<char>, i: int, line: nat, column: nat) {
    if 0 <= i < s.len() {
        lemma_lexeme_end_bound(s, i);
    }
}

/// Whether an entry is a whitespace token.
pub open spec fn is_whitespace_entry(e: Entry) -> bool {
    e matches Ok(t) && is_whitespace_kind(t.token_type)
}

/// The entries of `v` that are not whitespace tokens, in order.
pub open spec fn drop_whitespace(v: Seq<Entry>) -> Seq<Entry>
    decreases v.len(),
{
    if v.len() == 0 {
        Seq::empty()
    } else if is_whitespace_entry(v.last()) {
        drop_whitespace(v.drop_last())
    } else {
        drop_whitespace(v.drop_last()).push(v.last())
    }
}

/// The entries of a scan of `s` from its start, without whitespace tokens where asked.
pub open spec fn scanned(s: Seq<char>, remove_whitespace: bool) -> Seq<Entry> {
    if remove_whitespace {
        drop_whitespace(scan_from(s, 0, 1, 1))
    } else {
        scan_from(s, 0, 1, 1)
    }
}

} // verus!
