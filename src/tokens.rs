use vstd::prelude::*;

verus! {

/// The kind of a token.
///
/// `S` is the text type: `String` at run time, `Seq<char>` in the view.
#[derive(Clone, Debug, PartialEq)]
pub enum TokenType<S = String> {
    // Single character tokens.
    LeftParen,
    RightParen,
    LeftBrace,
    RightBrace,
    Comma,
    Dot,
    Minus,
    Plus,
    Semicolon,
    Slash,
    Star,
    // One or two character tokens.
    Bang,
    BangEqual,
    Equal,
    EqualEqual,
    Greater,
    GreaterEqual,
    Less,
    LessEqual,
    // Literals. A string carries its unescaped value; a number carries its decimal
    // digits as written (one run of digits, optionally `.` and a second run).
    Identifier,
    String(S),
    Number(S),
    // Keywords.
    And,
    Class,
    Else,
    False,
    Fun,
    For,
    If,
    Nil,
    Or,
    Print,
    Return,
    Super,
    This,
    True,
    Var,
    While,
    // Layout, kept for tools that need the source text as written.
    Space,
    Linefeed,
    CarriageReturn,
    Comment,
    BlockComment,
    Tab,
    Eof,
}

/// A token: its kind, the exact source text it was built from, and the line and
/// column (both from 1) of its first character.
#[derive(Clone, Debug, PartialEq)]
pub struct LoxToken<S = String> {
    pub token_type: TokenType<S>,
    pub lexeme: S,
    pub line: usize,
    pub column: usize,
}

impl View for TokenType<String> {
    type V = TokenType<Seq<char>>;

    open spec fn view(&self) -> TokenType<Seq<char>> {
        match self {
            TokenType::LeftParen => TokenType::LeftParen,
            TokenType::RightParen => TokenType::RightParen,
            TokenType::LeftBrace => TokenType::LeftBrace,
            TokenType::RightBrace => TokenType::RightBrace,
            TokenType::Comma => TokenType::Comma,
            TokenType::Dot => TokenType::Dot,
            TokenType::Minus => TokenType::Minus,
            TokenType::Plus => TokenType::Plus,
            TokenType::Semicolon => TokenType::Semicolon,
            TokenType::Slash => TokenType::Slash,
            TokenType::Star => TokenType::Star,
            TokenType::Bang => TokenType::Bang,
            TokenType::BangEqual => TokenType::BangEqual,
            TokenType::Equal => TokenType::Equal,
            TokenType::EqualEqual => TokenType::EqualEqual,
            TokenType::Greater => TokenType::Greater,
            TokenType::GreaterEqual => TokenType::GreaterEqual,
            TokenType::Less => TokenType::Less,
            TokenType::LessEqual => TokenType::LessEqual,
            TokenType::Identifier => TokenType::Identifier,
            TokenType::String(s) => TokenType::String(s@),
            TokenType::Number(s) => TokenType::Number(s@),
            TokenType::And => TokenType::And,
            TokenType::Class => TokenType::Class,
            TokenType::Else => TokenType::Else,
            TokenType::False => TokenType::False,
            TokenType::Fun => TokenType::Fun,
            TokenType::For => TokenType::For,
            TokenType::If => TokenType::If,
            TokenType::Nil => TokenType::Nil,
            TokenType::Or => TokenType::Or,
            TokenType::Print => TokenType::Print,
            TokenType::Return => TokenType::Return,
            TokenType::Super => TokenType::Super,
            TokenType::This => TokenType::This,
            TokenType::True => TokenType::True,
            TokenType::Var => TokenType::Var,
            TokenType::While => TokenType::While,
            TokenType::Space => TokenType::Space,
            TokenType::Linefeed => TokenType::Linefeed,
            TokenType::CarriageReturn => TokenType::CarriageReturn,
            TokenType::Comment => TokenType::Comment,
            TokenType::BlockComment => TokenType::BlockComment,
            TokenType::Tab => TokenType::Tab,
            TokenType::Eof => TokenType::Eof,
        }
    }
}

impl View for LoxToken<String> {
    type V = LoxToken<Seq<char>>;

    open spec fn view(&self) -> LoxToken<Seq<char>> {
        LoxToken {
            token_type: self.token_type@,
            lexeme: self.lexeme@,
            line: self.line,
            column: self.column,
        }
    }
}

/// Whether a token kind is one of the four whitespace kinds.
pub open spec fn is_whitespace_kind<S>(k: TokenType<S>) -> bool {
    k is Space || k is Linefeed || k is CarriageReturn || k is Tab
}

impl LoxToken {
    /// Whether this is a space, line feed, carriage return or tab token.
    pub fn is_whitespace(&self) -> (r: bool)
        ensures
            r == is_whitespace_kind(self@.token_type),
    {
        match self.token_type {
            TokenType::Space | TokenType::Linefeed | TokenType::CarriageReturn | TokenType::Tab => {
                true
            },
            _ => false,
        }
    }
}

} // verus!
