use vstd::prelude::*;

use crate::error::{LoxError, LoxResult, ScannerError};

verus! {

/// An ASCII decimal digit.
pub open spec fn is_digit_char(c: char) -> bool {
    '0' <= c && c <= '9'
}

/// An ASCII letter or an underscore.
pub open spec fn is_alpha_char(c: char) -> bool {
    ('a' <= c && c <= 'z') || ('A' <= c && c <= 'Z') || c == '_'
}

pub open spec fn is_alpha_numeric_char(c: char) -> bool {
    is_digit_char(c) || is_alpha_char(c)
}

pub fn is_digit(d: char) -> (r: bool)
    ensures
        r == is_digit_char(d),
{
    '0' <= d && d <= '9'
}

pub fn is_alpha(c: char) -> (r: bool)
    ensures
        r == is_alpha_char(c),
{
    ('a' <= c && c <= 'z') || ('A' <= c && c <= 'Z') || c == '_'
}

pub fn is_alpha_numeric(c: char) -> (r: bool)
    ensures
        r == is_alpha_numeric_char(c),
{
    is_digit(c) || is_alpha(c)
}

/// The characters of `s`, in order.
pub fn chars_of(s: &str) -> (r: Vec<char>)
    ensures
        r@ == s@,
{
    let mut v: Vec<char> = Vec::new();
    for c in it: s.chars()
        invariant
            v@ == it.seq().take(it.index() as int),
            it.seq() == s@,
    {
        v.push(c);
    }
    assert(v@ =~= s@);
    v
}

/// Relies on String::push, which appends one character to the end of the string.
#[verifier::external_body]
pub(crate) fn push_char(s: &mut String, c: char)
    ensures
        final(s)@ == old(s)@.push(c),
{
    s.push(c)
}

/// The characters `chars[start..end]` as a string.
pub fn text_of(chars: &Vec<char>, start: usize, end: usize) -> (r: String)
    requires
        start <= end <= chars@.len(),
    ensures
        r@ == chars@.subrange(start as int, end as int),
{
    let mut r = String::new();
    let mut k: usize = start;
    while k < end
        invariant
            start <= k <= end <= chars@.len(),
            r@ == chars@.subrange(start as int, k as int),
        decreases end - k,
    {
        push_char(&mut r, chars[k]);
        assert(chars@.subrange(start as int, k + 1) =~= chars@.subrange(start as int, k as int).push(chars@[k as int]));
        k = k + 1;
    }
    r
}

/// The character that a backslash followed by `c` stands for in a string literal.
pub open spec fn escape_value(c: char) -> Option<char> {
    if c == '\\' {
        Some('\\')
    } else if c == '"' {
        Some('"')
    } else if c == 'n' {
        Some('\n')
    } else if c == 't' {
        Some('\t')
    } else {
        None
    }
}

/// `r` with `acc` put in front of its value; an error passes through unchanged.
pub open spec fn prepend(acc: Seq<char>, r: Result<Seq<char>, Seq<char>>) -> Result<
    Seq<char>,
    Seq<char>,
> {
    match r {
        Ok(v) => Ok(acc + v),
        Err(e) => Err(e),
    }
}

/// The unescaped value of `body[k..]`, or the first unknown escape sequence in it.
/// A backslash that ends the text stands for itself.
pub open spec fn unescape_from(body: Seq<char>, k: int) -> Result<Seq<char>, Seq<char>>
    decreases body.len() - k,
{
    if k < 0 || k >= body.len() {
        Ok(Seq::empty())
    } else if body[k] == '\\' && k + 1 < body.len() {
        match escape_value(body[k + 1]) {
            Some(c) => prepend(seq![c], unescape_from(body, k + 2)),
            None => Err(seq!['\\', body[k + 1]]),
        }
    } else {
        prepend(seq![body[k]], unescape_from(body, k + 1))
    }
}

/// The value of a string literal's body, or its first unknown escape sequence.
pub open spec fn unescape(body: Seq<char>) -> Result<Seq<char>, Seq<char>> {
    unescape_from(body, 0)
}

/// What unescaping `body` gives, an unknown escape reported at `(line, column)`.
pub open spec fn unescape_result(body: Seq<char>, line: usize, column: usize) -> Result<
    Seq<char>,
    LoxError<Seq<char>>,
> {
    match unescape(body) {
        Ok(v) => Ok(v),
        Err(e) => Err(
            LoxError::ScannerError(ScannerError::UnknownStringEscapeSequence(line, column, e)),
        ),
    }
}

pub open spec fn text_result_view(r: LoxResult<String>) -> Result<Seq<char>, LoxError<Seq<char>>> {
    match r {
        Ok(s) => Ok(s@),
        Err(e) => Err(e@),
    }
}

proof fn lemma_prepend_push(acc: Seq<char>, c: char, r: Result<Seq<char>, Seq<char>>)
    ensures
        prepend(acc, prepend(seq![c], r)) == prepend(acc.push(c), r),
{
    if let Ok(v) = r {
        assert(acc + (seq![c] + v) =~= acc.push(c) + v);
    }
}

/// Unescapes `chars[start..end]`; an unknown escape is reported at `(lineno, columno)`.
pub(crate) fn unescape_range(
    chars: &Vec<char>,
    start: usize,
    end: usize,
    lineno: usize,
    columno: usize,
) -> (r: LoxResult<String>)
    requires
        start <= end <= chars@.len(),
    ensures
        text_result_view(r) == unescape_result(
            chars@.subrange(start as int, end as int),
            lineno,
            columno,
        ),
{
    let ghost body = chars@.subrange(start as int, end as int);
    let mut result = String::new();
    let mut i: usize = start;
    while i < end
        invariant
            start <= i <= end <= chars@.len(),
            body == chars@.subrange(start as int, end as int),
            unescape(body) == prepend(result@, unescape_from(body, i - start)),
        decreases end - i,
    {
        let c = chars[i];
        if c == '\\' && i + 1 < end {
            let next = chars[i + 1];
            let value = if next == '\\' {
                '\\'
            } else if next == '"' {
                '"'
            } else if next == 'n' {
                '\n'
            } else if next == 't' {
                '\t'
            } else {
                let mut sequence = String::new();
                push_char(&mut sequence, '\\');
                push_char(&mut sequence, next);
                assert(sequence@ =~= seq!['\\', next]);
                return Err(
                    LoxError::ScannerError(
                        ScannerError::UnknownStringEscapeSequence(lineno, columno, sequence),
                    ),
                );
            };
            proof {
                lemma_prepend_push(result@, value, unescape_from(body, i + 2 - start));
            }
            push_char(&mut result, value);
            i = i + 2;
        } else {
            proof {
                lemma_prepend_push(result@, c, unescape_from(body, i + 1 - start));
            }
            push_char(&mut result, c);
            i = i + 1;
        }
    }
    assert(result@ + Seq::<char>::empty() =~= result@);
    Ok(result)
}

/// Unescapes a string literal's body: `\\`, `\"`, `\n` and `\t` become a backslash,
/// a quote, a line feed and a tab. An unknown escape sequence is reported at
/// `(lineno, columno)`, the position given for the start of the string.
pub fn unescape_string(string: &str, lineno: usize, columno: usize) -> (r: LoxResult<String>)
    ensures
        text_result_view(r) == unescape_result(string@, lineno, columno),
{
    let chars = chars_of(string);
    assert(chars@.subrange(0, chars@.len() as int) =~= string@);
    unescape_range(&chars, 0, chars.len(), lineno, columno)
}

} // verus!
