use vstd::prelude::*;

verus! {

/// What sort of token a lexeme is, without its payload.
#[derive(Debug, Clone, Copy, PartialEq, Eq, Structural)]
pub enum TokenKind {
    LeftParen,
    RightParen,
    LeftBrace,
    RightBrace,
    Comma,
    Dot,
    Minus,
    Plus,
    Semicolon,
    Slash,
    Star,
    Bang,
    BangEqual,
    Equal,
    EqualEqual,
    Greater,
    GreaterEqual,
    Less,
    LessEqual,
    Identifier,
    String,
    Number,
    And,
    Class,
    Else,
    False,
    For,
    Fun,
    If,
    Nil,
    Or,
    Print,
    Return,
    Super,
    This,
    True,
    Var,
    While,
    Comment,
    Error,
    EOF,
}

/// A token of the language.
#[derive(Debug, PartialEq, Clone)]
pub enum Token {
    // Single-character tokens.
    LeftParen,
    RightParen,
    LeftBrace,
    RightBrace,
    Comma,
    Dot,
    Minus,
    Plus,
    Semicolon,
    Slash,
    Star,
    // One or two character tokens.
    Bang,
    BangEqual,
    Equal,
    EqualEqual,
    Greater,
    GreaterEqual,
    Less,
    LessEqual,
    // Literals.
    /// A name, with its exact text.
    Identifier(String),
    /// A string literal, with what stands between its quotes.
    String(String),
    /// A number, with its text as written: digits, optionally a dot and
    /// further digits.
    Number(String),
    // Keywords.
    And,
    Class,
    Else,
    False,
    For,
    Fun,
    If,
    Nil,
    Or,
    Print,
    Return,
    Super,
    This,
    True,
    Var,
    While,
    // Utility
    /// A line comment, with its text after the two slashes.
    Comment(String),
    Error,
    EOF,
}

/// A token as contracts speak of it: its kind and the text it carries
/// (empty for a kind without payload).
pub struct Lexeme {
    pub kind: TokenKind,
    pub text: Seq<char>,
}

impl Token {
    /// The kind of the token.
    pub open spec fn spec_kind(&self) -> TokenKind {
        match self {
            Token::LeftParen => TokenKind::LeftParen,
            Token::RightParen => TokenKind::RightParen,
            Token::LeftBrace => TokenKind::LeftBrace,
            Token::RightBrace => TokenKind::RightBrace,
            Token::Comma => TokenKind::Comma,
            Token::Dot => TokenKind::Dot,
            Token::Minus => TokenKind::Minus,
            Token::Plus => TokenKind::Plus,
            Token::Semicolon => TokenKind::Semicolon,
            Token::Slash => TokenKind::Slash,
            Token::Star => TokenKind::Star,
            Token::Bang => TokenKind::Bang,
            Token::BangEqual => TokenKind::BangEqual,
            Token::Equal => TokenKind::Equal,
            Token::EqualEqual => TokenKind::EqualEqual,
            Token::Greater => TokenKind::Greater,
            Token::GreaterEqual => TokenKind::GreaterEqual,
            Token::Less => TokenKind::Less,
            Token::LessEqual => TokenKind::LessEqual,
            Token::Identifier(_) => TokenKind::Identifier,
            Token::String(_) => TokenKind::String,
            Token::Number(_) => TokenKind::Number,
            Token::And => TokenKind::And,
            Token::Class => TokenKind::Class,
            Token::Else => TokenKind::Else,
            Token::False => TokenKind::False,
            Token::For => TokenKind::For,
            Token::Fun => TokenKind::Fun,
            Token::If => TokenKind::If,
            Token::Nil => TokenKind::Nil,
            Token::Or => TokenKind::Or,
            Token::Print => TokenKind::Print,
            Token::Return => TokenKind::Return,
            Token::Super => TokenKind::Super,
            Token::This => TokenKind::This,
            Token::True => TokenKind::True,
            Token::Var => TokenKind::Var,
            Token::While => TokenKind::While,
            Token::Comment(_) => TokenKind::Comment,
            Token::Error => TokenKind::Error,
            Token::EOF => TokenKind::EOF,
        }
    }

    /// The text the token carries; empty for a token without payload.
    pub open spec fn text(&self) -> Seq<char> {
        match self {
            Token::Identifier(text) => text@,
            Token::String(text) => text@,
            Token::Number(text) => text@,
            Token::Comment(text) => text@,
            _ => Seq::empty(),
        }
    }

    /// The kind of the token.
    #[verifier::when_used_as_spec(spec_kind)]
    pub fn kind(&self) -> (kind: TokenKind)
        ensures
            kind == self.spec_kind(),
    {
        match self {
            Token::LeftParen => TokenKind::LeftParen,
            Token::RightParen => TokenKind::RightParen,
            Token::LeftBrace => TokenKind::LeftBrace,
            Token::RightBrace => TokenKind::RightBrace,
            Token::Comma => TokenKind::Comma,
            Token::Dot => TokenKind::Dot,
            Token::Minus => TokenKind::Minus,
            Token::Plus => TokenKind::Plus,
            Token::Semicolon => TokenKind::Semicolon,
            Token::Slash => TokenKind::Slash,
            Token::Star => TokenKind::Star,
            Token::Bang => TokenKind::Bang,
            Token::BangEqual => TokenKind::BangEqual,
            Token::Equal => TokenKind::Equal,
            Token::EqualEqual => TokenKind::EqualEqual,
            Token::Greater => TokenKind::Greater,
            Token::GreaterEqual => TokenKind::GreaterEqual,
            Token::Less => TokenKind::Less,
            Token::LessEqual => TokenKind::LessEqual,
            Token::Identifier(_) => TokenKind::Identifier,
            Token::String(_) => TokenKind::String,
            Token::Number(_) => TokenKind::Number,
            Token::And => TokenKind::And,
            Token::Class => TokenKind::Class,
            Token::Else => TokenKind::Else,
            Token::False => TokenKind::False,
            Token::For => TokenKind::For,
            Token::Fun => TokenKind::Fun,
            Token::If => TokenKind::If,
            Token::Nil => TokenKind::Nil,
            Token::Or => TokenKind::Or,
            Token::Print => TokenKind::Print,
            Token::Return => TokenKind::Return,
            Token::Super => TokenKind::Super,
            Token::This => TokenKind::This,
            Token::True => TokenKind::True,
            Token::Var => TokenKind::Var,
            Token::While => TokenKind::While,
            Token::Comment(_) => TokenKind::Comment,
            Token::Error => TokenKind::Error,
            Token::EOF => TokenKind::EOF,
        }
    }
}

impl View for Token {
    type V = Lexeme;

    open spec fn view(&self) -> Lexeme {
        Lexeme { kind: self.spec_kind(), text: self.text() }
    }
}

/// The keyword that `text` spells, if it spells one.
pub open spec fn keyword(text: Seq<char>) -> Option<TokenKind> {
    if text == "and"@ {
        Some(TokenKind::And)
    }     else if text == "class"@ {
        Some(TokenKind::Class)
    }     else if text == "else"@ {
        Some(TokenKind::Else)
    }     else if text == "false"@ {
        Some(TokenKind::False)
    }     else if text == "for"@ {
        Some(TokenKind::For)
    }     else if text == "fun"@ {
        Some(TokenKind::Fun)
    }     else if text == "if"@ {
        Some(TokenKind::If)
    }     else if text == "nil"@ {
        Some(TokenKind::Nil)
    }     else if text == "or"@ {
        Some(TokenKind::Or)
    }     else if text == "print"@ {
        Some(TokenKind::Print)
    }     else if text == "return"@ {
        Some(TokenKind::Return)
    }     else if text == "super"@ {
        Some(TokenKind::Super)
    }     else if text == "this"@ {
        Some(TokenKind::This)
    }     else if text == "true"@ {
        Some(TokenKind::True)
    }     else if text == "var"@ {
        Some(TokenKind::Var)
    }     else if text == "while"@ {
        Some(TokenKind::While)
    } else {
        None
    }
}

/// A token of kind `kind` that carries no text.
pub open spec fn plain(kind: TokenKind) -> Lexeme {
    Lexeme { kind, text: Seq::empty() }
}

/// Whether two texts hold the same characters.
fn same_text(left: &str, right: &str) -> (same: bool)
    ensures
        same == (left@ == right@),
{
    left.to_owned() == right.to_owned()
}

/// Get the keyword token corresponding to an identifier.
///
/// Returns `None` if the identifier is not a built-in keyword.
pub fn check_keyword(identifier: &str) -> (token: Option<Token>)
    ensures
        token is Some <==> keyword(identifier@) is Some,
        token matches Some(word) ==> word@ == plain(keyword(identifier@)->0),
{
    if same_text(identifier, "and") {
        Some(Token::And)
    }     else if same_text(identifier, "class") {
        Some(Token::Class)
    }     else if same_text(identifier, "else") {
        Some(Token::Else)
    }     else if same_text(identifier, "false") {
        Some(Token::False)
    }     else if same_text(identifier, "for") {
        Some(Token::For)
    }     else if same_text(identifier, "fun") {
        Some(Token::Fun)
    }     else if same_text(identifier, "if") {
        Some(Token::If)
    }     else if same_text(identifier, "nil") {
        Some(Token::Nil)
    }     else if same_text(identifier, "or") {
        Some(Token::Or)
    }     else if same_text(identifier, "print") {
        Some(Token::Print)
    }     else if same_text(identifier, "return") {
        Some(Token::Return)
    }     else if same_text(identifier, "super") {
        Some(Token::Super)
    }     else if same_text(identifier, "this") {
        Some(Token::This)
    }     else if same_text(identifier, "true") {
        Some(Token::True)
    }     else if same_text(identifier, "var") {
        Some(Token::Var)
    }     else if same_text(identifier, "while") {
        Some(Token::While)
    } else {
        None
    }
}

/// A token together with the source line on which it was scanned.
#[derive(Debug, Clone)]
pub struct TokenInfo {
    pub token: Token,
    pub line: i32,
}

/// A token with its line, as contracts speak of it.
pub struct LexemeAt {
    pub token: Lexeme,
    pub line: int,
}

impl View for TokenInfo {
    type V = LexemeAt;

    open spec fn view(&self) -> LexemeAt {
        LexemeAt { token: self.token@, line: self.line as int }
    }
}

} // verus!
