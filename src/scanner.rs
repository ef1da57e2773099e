use vstd::prelude::*;

use crate::error::{LoxError, LoxResult, ScannerError};
use crate::grammar::{
    advance, alpha_numeric_run, block_close, digit_run, drop_whitespace, entries_view, entry_at,
    entry_view, is_ambiguous, keyword_kind, lemma_lexeme_end_bound, lexeme_end, line_run,
    one_char_operator, scan_from, scanned, single_char_kind, string_close, token,
    two_char_operator,
};
use crate::laws::{final_eof, lemma_scan_ends_with_eof};
use crate::tokens::{LoxToken, TokenType};
use crate::utils::{
    chars_of, is_alpha, is_alpha_char, is_alpha_numeric, is_digit, is_digit_char, text_of,
    unescape_range,
};

verus! {

/// The scanner's cursor: the index of the next character, and its line and column.
#[derive(Clone, Copy, Debug)]
struct TokenizerState {
    line: usize,
    column: usize,
    offset: usize,
}

impl TokenizerState {
    /// A cursor within an input of `len` characters; `line + column` grows by at most
    /// one per character read, which keeps both within `usize`.
    spec fn wf(self, len: nat) -> bool {
        &&& self.offset <= len < usize::MAX
        &&& 1 <= self.line
        &&& 1 <= self.column
        &&& self.line + self.column <= self.offset + 2
    }

    /// `next` is this cursor moved past `s[self.offset..end]`.
    spec fn moved_to(self, s: Seq<char>, end: int, next: TokenizerState) -> bool {
        &&& next.offset == end
        &&& (next.line as nat, next.column as nat) == advance(
            self.line as nat,
            self.column as nat,
            s.subrange(self.offset as int, end),
        )
        &&& next.wf(s.len())
    }

    /// `next` is this cursor moved past the lexeme that starts under it.
    spec fn stepped(self, s: Seq<char>, next: TokenizerState) -> bool {
        self.moved_to(s, lexeme_end(s, self.offset as int), next)
    }

    fn new() -> (r: TokenizerState)
        ensures
            r.line == 1 && r.column == 1 && r.offset == 0,
    {
        TokenizerState { line: 1, column: 1, offset: 0 }
    }

    /// Moves past a line feed.
    fn consume_newline(self, chars: &Vec<char>) -> (r: TokenizerState)
        requires
            self.wf(chars@.len()),
            self.offset < chars@.len(),
            chars@[self.offset as int] == '\n',
        ensures
            self.moved_to(chars@, self.offset + 1, r),
    {
        let r = TokenizerState { column: 1, line: self.line + 1, offset: self.offset + 1 };
        let ghost t = chars@.subrange(self.offset as int, self.offset + 1);
        assert(t.drop_last() =~= Seq::<char>::empty());
        assert(advance(self.line as nat, self.column as nat, t.drop_last()) == (
            self.line as nat,
            self.column as nat,
        ));
        r
    }

    /// Moves past a character other than a line feed.
    fn consume_single_char(self, chars: &Vec<char>) -> (r: TokenizerState)
        requires
            self.wf(chars@.len()),
            self.offset < chars@.len(),
            chars@[self.offset as int] != '\n',
        ensures
            self.moved_to(chars@, self.offset + 1, r),
    {
        let r = TokenizerState { column: self.column + 1, line: self.line, offset: self.offset + 1 };
        let ghost t = chars@.subrange(self.offset as int, self.offset + 1);
        assert(t.drop_last() =~= Seq::<char>::empty());
        assert(advance(self.line as nat, self.column as nat, t.drop_last()) == (
            self.line as nat,
            self.column as nat,
        ));
        r
    }

    /// Moves past the next `n` characters, counting the line feeds among them.
    fn consume_n_chars(self, chars: &Vec<char>, n: usize) -> (r: TokenizerState)
        requires
            self.wf(chars@.len()),
            self.offset + n <= chars@.len(),
        ensures
            self.moved_to(chars@, self.offset + n, r),
    {
        let end = self.offset + n;
        let mut line = self.line;
        let mut column = self.column;
        let mut k = self.offset;
        while k < end
            invariant
                self.wf(chars@.len()),
                self.offset <= k <= end <= chars@.len() < usize::MAX,
                1 <= line,
                1 <= column,
                line + column <= k + 2,
                (line as nat, column as nat) == advance(
                    self.line as nat,
                    self.column as nat,
                    chars@.subrange(self.offset as int, k as int),
                ),
            decreases end - k,
        {
            assert(chars@.subrange(self.offset as int, k + 1).drop_last() =~= chars@.subrange(
                self.offset as int,
                k as int,
            ));
            if chars[k] == '\n' {
                line = line + 1;
                column = 1;
            } else {
                column = column + 1;
            }
            k = k + 1;
        }
        TokenizerState { line, column, offset: end }
    }
}

/// Whether the character `n` places after the cursor exists and is `ch`.
fn nth_char_matches(chars: &Vec<char>, state: &TokenizerState, n: usize, ch: char) -> (r: bool)
    requires
        state.offset <= chars@.len(),
    ensures
        r == (state.offset + n < chars@.len() && chars@[state.offset + n] == ch),
{
    n < chars.len() - state.offset && chars[state.offset + n] == ch
}

/// Whether the character after the cursor's exists and is `ch`.
fn second_char_matches(chars: &Vec<char>, state: &TokenizerState, ch: char) -> (r: bool)
    requires
        state.offset <= chars@.len(),
    ensures
        r == (state.offset + 1 < chars@.len() && chars@[state.offset + 1] == ch),
{
    nth_char_matches(chars, state, 1, ch)
}

/// A token for `chars[state.offset..end]` at the cursor.
fn make_token(chars: &Vec<char>, state: &TokenizerState, end: usize, token_type: TokenType) -> (r:
    LoxToken)
    requires
        state.offset <= end <= chars@.len(),
    ensures
        r@ == (LoxToken {
            token_type: token_type@,
            lexeme: chars@.subrange(state.offset as int, end as int),
            line: state.line,
            column: state.column,
        }),
{
    LoxToken {
        token_type,
        lexeme: text_of(chars, state.offset, end),
        line: state.line,
        column: state.column,
    }
}

/// Reads a token of exactly one character, `first`, of the kind `token_type`.
fn consume_single_char_token(
    chars: &Vec<char>,
    state: &TokenizerState,
    first: char,
    token_type: TokenType,
) -> (r: (LoxResult<LoxToken>, TokenizerState))
    requires
        state.wf(chars@.len()),
        state.offset < chars@.len(),
        first == chars@[state.offset as int],
        single_char_kind(first) == Some(token_type@),
    ensures
        entry_view(r.0) == entry_at(chars@, state.offset as int, state.line as nat, state.column as nat),
        state.stepped(chars@, r.1),
{
    let token = make_token(chars, state, state.offset + 1, token_type);
    let next = if first == '\n' {
        state.consume_newline(chars)
    } else {
        state.consume_single_char(chars)
    };
    (Ok(token), next)
}

/// The operator that an ambiguous character is alone.
fn get_disambiguated_single_char_lexeme(ch: char) -> (r: TokenType)
    requires
        is_ambiguous(ch),
    ensures
        r@ == one_char_operator(ch),
{
    if ch == '!' {
        TokenType::Bang
    } else if ch == '=' {
        TokenType::Equal
    } else if ch == '<' {
        TokenType::Less
    } else {
        TokenType::Greater
    }
}

/// The operator that an ambiguous character is when `=` follows it.
fn get_compound_operator(ch: char) -> (r: TokenType)
    requires
        is_ambiguous(ch),
    ensures
        r@ == two_char_operator(ch),
{
    if ch == '!' {
        TokenType::BangEqual
    } else if ch == '=' {
        TokenType::EqualEqual
    } else if ch == '<' {
        TokenType::LessEqual
    } else {
        TokenType::GreaterEqual
    }
}

/// Reads `!`, `=`, `<` or `>`, together with a `=` that follows it.
fn consume_ambiguous_single_char_token(
    chars: &Vec<char>,
    state: &TokenizerState,
    first: char,
) -> (r: (LoxResult<LoxToken>, TokenizerState))
    requires
        state.wf(chars@.len()),
        state.offset < chars@.len(),
        first == chars@[state.offset as int],
        is_ambiguous(first),
    ensures
        entry_view(r.0) == entry_at(chars@, state.offset as int, state.line as nat, state.column as nat),
        state.stepped(chars@, r.1),
{
    if !second_char_matches(chars, state, '=') {
        let token_type = get_disambiguated_single_char_lexeme(first);
        let token = make_token(chars, state, state.offset + 1, token_type);
        return (Ok(token), state.consume_single_char(chars));
    }
    let token_type = get_compound_operator(first);
    let token = make_token(chars, state, state.offset + 2, token_type);
    (Ok(token), state.consume_n_chars(chars, 2))
}

/// Reads a line comment: `//` and what follows up to, not including, the next line
/// feed or the end of the input.
fn consume_line_comment(chars: &Vec<char>, state: &TokenizerState) -> (r: (
    LoxResult<LoxToken>,
    TokenizerState,
))
    requires
        state.wf(chars@.len()),
        state.offset + 1 < chars@.len(),
        chars@[state.offset as int] == '/',
        chars@[state.offset + 1] == '/',
    ensures
        entry_view(r.0) == entry_at(chars@, state.offset as int, state.line as nat, state.column as nat),
        state.stepped(chars@, r.1),
{
    let ghost s = chars@;
    let mut end = state.offset + 2;
    while end < chars.len() && chars[end] != '\n'
        invariant
            state.wf(chars@.len()),
            state.offset + 2 <= end <= chars@.len(),
            s == chars@,
            state.offset + 2 + line_run(s, state.offset + 2) == end + line_run(s, end as int),
        decreases chars@.len() - end,
    {
        end = end + 1;
    }
    let token = make_token(chars, state, end, TokenType::Comment);
    (Ok(token), state.consume_n_chars(chars, end - state.offset))
}

/// Reads a block comment, from `/*` to the first `*/` after it; without one, reports
/// the comment unterminated and reads to the end of the input.
fn consume_block_comment(chars: &Vec<char>, state: &TokenizerState) -> (r: (
    LoxResult<LoxToken>,
    TokenizerState,
))
    requires
        state.wf(chars@.len()),
        state.offset + 1 < chars@.len(),
        chars@[state.offset as int] == '/',
        chars@[state.offset + 1] == '*',
    ensures
        entry_view(r.0) == entry_at(chars@, state.offset as int, state.line as nat, state.column as nat),
        state.stepped(chars@, r.1),
{
    let ghost s = chars@;
    let mut j = state.offset + 2;
    while j + 1 < chars.len()
        invariant
            state.wf(chars@.len()),
            state.offset + 2 <= j <= chars@.len(),
            s == chars@,
            s[state.offset as int] == '/',
            s[state.offset + 1] == '*',
            block_close(s, state.offset + 2) == block_close(s, j as int),
        decreases chars@.len() - j,
    {
        if chars[j] == '*' && chars[j + 1] == '/' {
            let token = make_token(chars, state, j + 2, TokenType::BlockComment);
            return (Ok(token), state.consume_n_chars(chars, j + 2 - state.offset));
        }
        j = j + 1;
    }
    let error = LoxError::ScannerError(
        ScannerError::UnterminatedBlockComment(state.line, state.column),
    );
    (Err(error), state.consume_n_chars(chars, chars.len() - state.offset))
}

/// Reads a lexeme that begins with `/`: a comment, or the `/` operator.
fn consume_lexeme_beginning_with_forward_slash(chars: &Vec<char>, state: &TokenizerState) -> (r: (
    LoxResult<LoxToken>,
    TokenizerState,
))
    requires
        state.wf(chars@.len()),
        state.offset < chars@.len(),
        chars@[state.offset as int] == '/',
    ensures
        entry_view(r.0) == entry_at(chars@, state.offset as int, state.line as nat, state.column as nat),
        state.stepped(chars@, r.1),
{
    if second_char_matches(chars, state, '/') {
        return consume_line_comment(chars, state);
    } else if second_char_matches(chars, state, '*') {
        return consume_block_comment(chars, state);
    }
    let token = make_token(chars, state, state.offset + 1, TokenType::Slash);
    (Ok(token), state.consume_single_char(chars))
}

/// Reports a string that the input ends inside, and reads to the end of the input.
fn unterminated_string(chars: &Vec<char>, state: &TokenizerState) -> (r: (
    LoxResult<LoxToken>,
    TokenizerState,
))
    requires
        state.wf(chars@.len()),
    ensures
        r.0 == LoxResult::<LoxToken>::Err(
            LoxError::ScannerError(ScannerError::UnterminatedString(state.line, state.column)),
        ),
        state.moved_to(chars@, chars@.len() as int, r.1),
{
    let error = LoxError::ScannerError(ScannerError::UnterminatedString(state.line, state.column));
    (Err(error), state.consume_n_chars(chars, chars.len() - state.offset))
}

/// Reads a string literal, from `"` to the next `"` that no backslash escapes, and
/// unescapes its body.
fn consume_string(chars: &Vec<char>, state: &TokenizerState) -> (r: (
    LoxResult<LoxToken>,
    TokenizerState,
))
    requires
        state.wf(chars@.len()),
        state.offset < chars@.len(),
        chars@[state.offset as int] == '"',
    ensures
        entry_view(r.0) == entry_at(chars@, state.offset as int, state.line as nat, state.column as nat),
        state.stepped(chars@, r.1),
{
    let ghost s = chars@;
    let mut j = state.offset + 1;
    while j < chars.len()
        invariant
            state.wf(chars@.len()),
            state.offset + 1 <= j <= chars@.len(),
            s == chars@,
            s[state.offset as int] == '"',
            string_close(s, state.offset + 1) == string_close(s, j as int),
        decreases chars@.len() - j,
    {
        let c = chars[j];
        if c == '"' {
            let next = state.consume_n_chars(chars, j + 1 - state.offset);
            let entry = match unescape_range(chars, state.offset + 1, j, state.line, state.column) {
                Ok(value) => Ok(make_token(chars, state, j + 1, TokenType::String(value))),
                Err(e) => Err(e),
            };
            return (entry, next);
        } else if c == '\\' && j + 1 < chars.len() {
            j = j + 2;
        } else if c == '\\' {
            return unterminated_string(chars, state);
        } else {
            j = j + 1;
        }
    }
    unterminated_string(chars, state)
}

/// The end of the run of digits that starts at `start`.
fn digits_end(chars: &Vec<char>, start: usize) -> (end: usize)
    requires
        start <= chars@.len(),
    ensures
        start <= end <= chars@.len(),
        end == start + digit_run(chars@, start as int),
{
    let mut end = start;
    while end < chars.len() && is_digit(chars[end])
        invariant
            start <= end <= chars@.len(),
            start + digit_run(chars@, start as int) == end + digit_run(chars@, end as int),
        decreases chars@.len() - end,
    {
        end = end + 1;
    }
    end
}

/// Reads a number: a run of digits, and a `.` with a second run where a digit follows
/// the `.`. The token carries the digits as written.
fn consume_digit(chars: &Vec<char>, state: &TokenizerState) -> (r: (
    LoxResult<LoxToken>,
    TokenizerState,
))
    requires
        state.wf(chars@.len()),
        state.offset < chars@.len(),
        is_digit_char(chars@[state.offset as int]),
    ensures
        entry_view(r.0) == entry_at(chars@, state.offset as int, state.line as nat, state.column as nat),
        state.stepped(chars@, r.1),
{
    let mut end = digits_end(chars, state.offset);
    if end + 1 < chars.len() && chars[end] == '.' && is_digit(chars[end + 1]) {
        end = digits_end(chars, end + 1);
    }
    let digits = text_of(chars, state.offset, end);
    let token = make_token(chars, state, end, TokenType::Number(digits));
    (Ok(token), state.consume_n_chars(chars, end - state.offset))
}

/// Whether `chars[start..end]` is `word`.
fn range_is(chars: &Vec<char>, start: usize, end: usize, word: &[char]) -> (r: bool)
    requires
        start <= end <= chars@.len(),
    ensures
        r == (chars@.subrange(start as int, end as int) == word@),
{
    if end - start != word.len() {
        return false;
    }
    let mut k: usize = 0;
    while k < word.len()
        invariant
            start <= end <= chars@.len(),
            end - start == word@.len(),
            k <= word@.len(),
            forall|i: int| 0 <= i < k ==> chars@[start + i] == word@[i],
        decreases word@.len() - k,
    {
        if chars[start + k] != word[k] {
            assert(chars@.subrange(start as int, end as int)[k as int] != word@[k as int]);
            return false;
        }
        k = k + 1;
    }
    assert(chars@.subrange(start as int, end as int) =~= word@);
    true
}

/// The kind of the reserved word `chars[start..end]`, if it is one.
fn keyword(chars: &Vec<char>, start: usize, end: usize) -> (r: Option<TokenType>)
    requires
        start <= end <= chars@.len(),
    ensures
        match r {
            Some(k) => keyword_kind(chars@.subrange(start as int, end as int)) == Some(k@),
            None => keyword_kind(chars@.subrange(start as int, end as int)) is None,
        },
{
    if range_is(chars, start, end, &['a', 'n', 'd']) {
        Some(TokenType::And)
    } else if range_is(chars, start, end, &['c', 'l', 'a', 's', 's']) {
        Some(TokenType::Class)
    } else if range_is(chars, start, end, &['e', 'l', 's', 'e']) {
        Some(TokenType::Else)
    } else if range_is(chars, start, end, &['f', 'a', 'l', 's', 'e']) {
        Some(TokenType::False)
    } else if range_is(chars, start, end, &['f', 'o', 'r']) {
        Some(TokenType::For)
    } else if range_is(chars, start, end, &['f', 'u', 'n']) {
        Some(TokenType::Fun)
    } else if range_is(chars, start, end, &['i', 'f']) {
        Some(TokenType::If)
    } else if range_is(chars, start, end, &['n', 'i', 'l']) {
        Some(TokenType::Nil)
    } else if range_is(chars, start, end, &['o', 'r']) {
        Some(TokenType::Or)
    } else if range_is(chars, start, end, &['p', 'r', 'i', 'n', 't']) {
        Some(TokenType::Print)
    } else if range_is(chars, start, end, &['r', 'e', 't', 'u', 'r', 'n']) {
        Some(TokenType::Return)
    } else if range_is(chars, start, end, &['s', 'u', 'p', 'e', 'r']) {
        Some(TokenType::Super)
    } else if range_is(chars, start, end, &['t', 'h', 'i', 's']) {
        Some(TokenType::This)
    } else if range_is(chars, start, end, &['t', 'r', 'u', 'e']) {
        Some(TokenType::True)
    } else if range_is(chars, start, end, &['v', 'a', 'r']) {
        Some(TokenType::Var)
    } else if range_is(chars, start, end, &['w', 'h', 'i', 'l', 'e']) {
        Some(TokenType::While)
    } else {
        None
    }
}

/// Reads the longest run of letters, digits and underscores, and classifies it as a
/// reserved word or an identifier.
fn consume_identifier(chars: &Vec<char>, state: &TokenizerState) -> (r: (
    LoxResult<LoxToken>,
    TokenizerState,
))
    requires
        state.wf(chars@.len()),
        state.offset < chars@.len(),
        is_alpha_char(chars@[state.offset as int]),
    ensures
        entry_view(r.0) == entry_at(chars@, state.offset as int, state.line as nat, state.column as nat),
        state.stepped(chars@, r.1),
{
    let mut end = state.offset + 1;
    while end < chars.len() && is_alpha_numeric(chars[end])
        invariant
            state.offset + 1 <= end <= chars@.len(),
            state.offset + 1 + alpha_numeric_run(chars@, state.offset + 1) == end
                + alpha_numeric_run(chars@, end as int),
        decreases chars@.len() - end,
    {
        end = end + 1;
    }
    let token_type = match keyword(chars, state.offset, end) {
        Some(k) => k,
        None => TokenType::Identifier,
    };
    let token = make_token(chars, state, end, token_type);
    (Ok(token), state.consume_n_chars(chars, end - state.offset))
}

/// Reads the lexeme under the cursor: a token, or a lexical error. Either way the
/// cursor moves past at least one character.
fn tokenize_next(chars: &Vec<char>, state: &TokenizerState) -> (r: (
    LoxResult<LoxToken>,
    TokenizerState,
))
    requires
        state.wf(chars@.len()),
        state.offset < chars@.len(),
    ensures
        entry_view(r.0) == entry_at(chars@, state.offset as int, state.line as nat, state.column as nat),
        state.stepped(chars@, r.1),
{
    let first = chars[state.offset];
    match first {
        // Whitespace, kept for tools that need the layout.
        ' ' => consume_single_char_token(chars, state, first, TokenType::Space),
        '\r' => consume_single_char_token(chars, state, first, TokenType::CarriageReturn),
        '\n' => consume_single_char_token(chars, state, first, TokenType::Linefeed),
        '\t' => consume_single_char_token(chars, state, first, TokenType::Tab),
        // Unambiguous single characters.
        '(' => consume_single_char_token(chars, state, first, TokenType::LeftParen),
        ')' => consume_single_char_token(chars, state, first, TokenType::RightParen),
        '{' => consume_single_char_token(chars, state, first, TokenType::LeftBrace),
        '}' => consume_single_char_token(chars, state, first, TokenType::RightBrace),
        ',' => consume_single_char_token(chars, state, first, TokenType::Comma),
        '.' => consume_single_char_token(chars, state, first, TokenType::Dot),
        '-' => consume_single_char_token(chars, state, first, TokenType::Minus),
        '+' => consume_single_char_token(chars, state, first, TokenType::Plus),
        ';' => consume_single_char_token(chars, state, first, TokenType::Semicolon),
        '*' => consume_single_char_token(chars, state, first, TokenType::Star),
        // Single characters that may take a second one.
        '!' | '=' | '<' | '>' => consume_ambiguous_single_char_token(chars, state, first),
        '/' => consume_lexeme_beginning_with_forward_slash(chars, state),
        // Multi-character tokens.
        '"' => consume_string(chars, state),
        _ => {
            if is_digit(first) {
                consume_digit(chars, state)
            } else if is_alpha(first) {
                consume_identifier(chars, state)
            } else {
                let error = LoxError::ScannerError(
                    ScannerError::UnexpectedCharacter(state.line, state.column, first),
                );
                (Err(error), state.consume_single_char(chars))
            }
        },
    }
}

/// All the entries of a scan of `chars`, ending with `Eof`.
fn tokenize(chars: &Vec<char>) -> (r: Vec<LoxResult<LoxToken>>)
    requires
        chars@.len() < usize::MAX,
    ensures
        entries_view(r@) == scan_from(chars@, 0, 1, 1),
{
    let ghost s = chars@;
    let mut tokens: Vec<LoxResult<LoxToken>> = Vec::new();
    let mut state = TokenizerState::new();
    assert(entries_view(tokens@) + scan_from(s, 0, 1, 1) =~= scan_from(s, 0, 1, 1));
    while state.offset < chars.len()
        invariant
            s == chars@,
            state.wf(s.len()),
            scan_from(s, 0, 1, 1) == entries_view(tokens@) + scan_from(
                s,
                state.offset as int,
                state.line as nat,
                state.column as nat,
            ),
        decreases s.len() - state.offset,
    {
        let (entry, next) = tokenize_next(chars, &state);
        proof {
            lemma_lexeme_end_bound(s, state.offset as int);
            assert(entries_view(tokens@.push(entry)) =~= entries_view(tokens@).push(
                entry_view(entry),
            ));
            assert(entries_view(tokens@) + scan_from(
                s,
                state.offset as int,
                state.line as nat,
                state.column as nat,
            ) =~= entries_view(tokens@).push(entry_view(entry)) + scan_from(
                s,
                next.offset as int,
                next.line as nat,
                next.column as nat,
            ));
        }
        tokens.push(entry);
        state = next;
    }
    let eof = LoxToken {
        token_type: TokenType::Eof,
        lexeme: String::new(),
        line: state.line,
        column: state.column,
    };
    proof {
        assert(entry_view(Ok(eof)) == token(TokenType::Eof, Seq::empty(), state.line as nat, state.column as nat));
        assert(entries_view(tokens@.push(Ok(eof))) =~= entries_view(tokens@).push(entry_view(Ok(eof))));
    }
    tokens.push(Ok(eof));
    proof {
        assert(entries_view(tokens@) =~= scan_from(s, 0, 1, 1));
    }
    tokens
}

/// Scans `source` into tokens and lexical errors, in order, ending with an `Eof` token
/// at the position just past the input. Whitespace tokens (space, line feed, carriage
/// return, tab) are dropped where `remove_whitespace` holds; comments are kept.
pub fn scan_with_whitespace(source: &str, remove_whitespace: bool) -> (r: Vec<LoxResult<LoxToken>>)
    requires
        source@.len() < usize::MAX,
    ensures
        entries_view(r@) == scanned(source@, remove_whitespace),
        r@.len() >= 1,
        entries_view(r@).last() == final_eof(source@),
{
    proof {
        lemma_scan_ends_with_eof(source@, remove_whitespace);
    }
    let chars = chars_of(source);
    let tokens = tokenize(&chars);
    if !remove_whitespace {
        return tokens;
    }
    let ghost all = tokens@;
    let mut kept: Vec<LoxResult<LoxToken>> = Vec::new();
    for entry in it: tokens.into_iter()
        invariant
            it.seq() == all,
            entries_view(kept@) == drop_whitespace(entries_view(all.take(it.index() as int))),
    {
        let ghost k = it.index();
        proof {
            assert(entries_view(all.take(k + 1)).drop_last() =~= entries_view(all.take(k as int)));
            assert(entries_view(all.take(k + 1)).last() == entry_view(entry));
        }
        let whitespace = match &entry {
            Ok(t) => t.is_whitespace(),
            Err(_) => false,
        };
        if !whitespace {
            kept.push(entry);
            proof {
                assert(entries_view(kept@) =~= entries_view(kept@.drop_last()).push(entry_view(entry)));
            }
        }
    }
    proof {
        assert(all.take(all.len() as int) =~= all);
    }
    kept
}

/// Scans `source` into tokens and lexical errors, without whitespace tokens.
pub fn scan(source: &str) -> (r: Vec<LoxResult<LoxToken>>)
    requires
        source@.len() < usize::MAX,
    ensures
        entries_view(r@) == scanned(source@, true),
        r@.len() >= 1,
        entries_view(r@).last() == final_eof(source@),
{
    scan_with_whitespace(source, true)
}

} // verus!
