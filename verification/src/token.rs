use vstd::prelude::*;

verus! {

/// The kind of a token as a mathematical value: text is a sequence of characters.
pub enum SpecTokenType {
    // Single-character punctuation.
    LeftParen,
    RightParen,
    LeftBrace,
    RightBrace,
    Comma,
    Dot,
    Minus,
    Plus,
    Semicolon,
    Slash,
    Star,
    // Operators of one or two characters.
    Bang,
    BangEqual,
    Equal,
    EqualEqual,
    Greater,
    GreaterEqual,
    Less,
    LessEqual,
    // Literals.
    Identifier,
    /// A string literal, with the text between its quotes.
    String(Seq<char>),
    /// A number literal, with its decimal numeral as written.
    Number(Seq<char>),
    // Keywords.
    And,
    Class,
    Else,
    False,
    Fun,
    For,
    If,
    Nil,
    Or,
    Print,
    Return,
    Super,
    This,
    True,
    Var,
    While,
    /// The sentinel that closes every token stream.
    EndOfInput,
}

impl SpecTokenType {
    /// Two kinds are the same kind when they are the same variant, whatever a
    /// string or number literal carries.
    pub open spec fn same_kind(self, other: SpecTokenType) -> bool {
        match (self, other) {
            (SpecTokenType::String(_), SpecTokenType::String(_)) => true,
            (SpecTokenType::Number(_), SpecTokenType::Number(_)) => true,
            _ => self == other,
        }
    }

    /// The name of the kind, with what a literal carries in parentheses.
    pub open spec fn name(self) -> Seq<char> {
        match self {
            SpecTokenType::LeftParen => "LeftParen"@,
            SpecTokenType::RightParen => "RightParen"@,
            SpecTokenType::LeftBrace => "LeftBrace"@,
            SpecTokenType::RightBrace => "RightBrace"@,
            SpecTokenType::Comma => "Comma"@,
            SpecTokenType::Dot => "Dot"@,
            SpecTokenType::Minus => "Minus"@,
            SpecTokenType::Plus => "Plus"@,
            SpecTokenType::Semicolon => "Semicolon"@,
            SpecTokenType::Slash => "Slash"@,
            SpecTokenType::Star => "Star"@,
            SpecTokenType::Bang => "Bang"@,
            SpecTokenType::BangEqual => "BangEqual"@,
            SpecTokenType::Equal => "Equal"@,
            SpecTokenType::EqualEqual => "EqualEqual"@,
            SpecTokenType::Greater => "Greater"@,
            SpecTokenType::GreaterEqual => "GreaterEqual"@,
            SpecTokenType::Less => "Less"@,
            SpecTokenType::LessEqual => "LessEqual"@,
            SpecTokenType::Identifier => "Identifier"@,
            SpecTokenType::String(s) => "String("@ + s + ")"@,
            SpecTokenType::Number(s) => "Number("@ + s + ")"@,
            SpecTokenType::And => "And"@,
            SpecTokenType::Class => "Class"@,
            SpecTokenType::Else => "Else"@,
            SpecTokenType::False => "False"@,
            SpecTokenType::Fun => "Fun"@,
            SpecTokenType::For => "For"@,
            SpecTokenType::If => "If"@,
            SpecTokenType::Nil => "Nil"@,
            SpecTokenType::Or => "Or"@,
            SpecTokenType::Print => "Print"@,
            SpecTokenType::Return => "Return"@,
            SpecTokenType::Super => "Super"@,
            SpecTokenType::This => "This"@,
            SpecTokenType::True => "True"@,
            SpecTokenType::Var => "Var"@,
            SpecTokenType::While => "While"@,
            SpecTokenType::EndOfInput => "EndOfInput"@,
        }
    }
}

/// The kind of a token.
#[derive(Debug, PartialEq, Eq)]
pub enum TokenType {
    // Single-character punctuation.
    LeftParen,
    RightParen,
    LeftBrace,
    RightBrace,
    Comma,
    Dot,
    Minus,
    Plus,
    Semicolon,
    Slash,
    Star,
    // Operators of one or two characters.
    Bang,
    BangEqual,
    Equal,
    EqualEqual,
    Greater,
    GreaterEqual,
    Less,
    LessEqual,
    // Literals.
    Identifier,
    /// A string literal, with the text between its quotes.
    String(String),
    /// A number literal, with its decimal numeral as written.
    Number(String),
    // Keywords.
    And,
    Class,
    Else,
    False,
    Fun,
    For,
    If,
    Nil,
    Or,
    Print,
    Return,
    Super,
    This,
    True,
    Var,
    While,
    /// The sentinel that closes every token stream.
    EndOfInput,
}

impl View for TokenType {
    type V = SpecTokenType;

    open spec fn view(&self) -> SpecTokenType {
        match self {
            TokenType::LeftParen => SpecTokenType::LeftParen,
            TokenType::RightParen => SpecTokenType::RightParen,
            TokenType::LeftBrace => SpecTokenType::LeftBrace,
            TokenType::RightBrace => SpecTokenType::RightBrace,
            TokenType::Comma => SpecTokenType::Comma,
            TokenType::Dot => SpecTokenType::Dot,
            TokenType::Minus => SpecTokenType::Minus,
            TokenType::Plus => SpecTokenType::Plus,
            TokenType::Semicolon => SpecTokenType::Semicolon,
            TokenType::Slash => SpecTokenType::Slash,
            TokenType::Star => SpecTokenType::Star,
            TokenType::Bang => SpecTokenType::Bang,
            TokenType::BangEqual => SpecTokenType::BangEqual,
            TokenType::Equal => SpecTokenType::Equal,
            TokenType::EqualEqual => SpecTokenType::EqualEqual,
            TokenType::Greater => SpecTokenType::Greater,
            TokenType::GreaterEqual => SpecTokenType::GreaterEqual,
            TokenType::Less => SpecTokenType::Less,
            TokenType::LessEqual => SpecTokenType::LessEqual,
            TokenType::Identifier => SpecTokenType::Identifier,
            TokenType::String(s) => SpecTokenType::String(s@),
            TokenType::Number(s) => SpecTokenType::Number(s@),
            TokenType::And => SpecTokenType::And,
            TokenType::Class => SpecTokenType::Class,
            TokenType::Else => SpecTokenType::Else,
            TokenType::False => SpecTokenType::False,
            TokenType::Fun => SpecTokenType::Fun,
            TokenType::For => SpecTokenType::For,
            TokenType::If => SpecTokenType::If,
            TokenType::Nil => SpecTokenType::Nil,
            TokenType::Or => SpecTokenType::Or,
            TokenType::Print => SpecTokenType::Print,
            TokenType::Return => SpecTokenType::Return,
            TokenType::Super => SpecTokenType::Super,
            TokenType::This => SpecTokenType::This,
            TokenType::True => SpecTokenType::True,
            TokenType::Var => SpecTokenType::Var,
            TokenType::While => SpecTokenType::While,
            TokenType::EndOfInput => SpecTokenType::EndOfInput,
        }
    }
}

impl Clone for TokenType {
    fn clone(&self) -> (r: Self)
        ensures
            r@ == self@,
    {
        match self {
            TokenType::LeftParen => TokenType::LeftParen,
            TokenType::RightParen => TokenType::RightParen,
            TokenType::LeftBrace => TokenType::LeftBrace,
            TokenType::RightBrace => TokenType::RightBrace,
            TokenType::Comma => TokenType::Comma,
            TokenType::Dot => TokenType::Dot,
            TokenType::Minus => TokenType::Minus,
            TokenType::Plus => TokenType::Plus,
            TokenType::Semicolon => TokenType::Semicolon,
            TokenType::Slash => TokenType::Slash,
            TokenType::Star => TokenType::Star,
            TokenType::Bang => TokenType::Bang,
            TokenType::BangEqual => TokenType::BangEqual,
            TokenType::Equal => TokenType::Equal,
            TokenType::EqualEqual => TokenType::EqualEqual,
            TokenType::Greater => TokenType::Greater,
            TokenType::GreaterEqual => TokenType::GreaterEqual,
            TokenType::Less => TokenType::Less,
            TokenType::LessEqual => TokenType::LessEqual,
            TokenType::Identifier => TokenType::Identifier,
            TokenType::String(s) => TokenType::String(s.clone()),
            TokenType::Number(s) => TokenType::Number(s.clone()),
            TokenType::And => TokenType::And,
            TokenType::Class => TokenType::Class,
            TokenType::Else => TokenType::Else,
            TokenType::False => TokenType::False,
            TokenType::Fun => TokenType::Fun,
            TokenType::For => TokenType::For,
            TokenType::If => TokenType::If,
            TokenType::Nil => TokenType::Nil,
            TokenType::Or => TokenType::Or,
            TokenType::Print => TokenType::Print,
            TokenType::Return => TokenType::Return,
            TokenType::Super => TokenType::Super,
            TokenType::This => TokenType::This,
            TokenType::True => TokenType::True,
            TokenType::Var => TokenType::Var,
            TokenType::While => TokenType::While,
            TokenType::EndOfInput => TokenType::EndOfInput,
        }
    }
}

impl TokenType {
    /// Whether `self` and `other` are the same variant.
    pub fn same_kind(&self, other: &TokenType) -> (r: bool)
        ensures
            r == self@.same_kind(other@),
    {
        match self {
            TokenType::LeftParen => matches!(other, TokenType::LeftParen),
            TokenType::RightParen => matches!(other, TokenType::RightParen),
            TokenType::LeftBrace => matches!(other, TokenType::LeftBrace),
            TokenType::RightBrace => matches!(other, TokenType::RightBrace),
            TokenType::Comma => matches!(other, TokenType::Comma),
            TokenType::Dot => matches!(other, TokenType::Dot),
            TokenType::Minus => matches!(other, TokenType::Minus),
            TokenType::Plus => matches!(other, TokenType::Plus),
            TokenType::Semicolon => matches!(other, TokenType::Semicolon),
            TokenType::Slash => matches!(other, TokenType::Slash),
            TokenType::Star => matches!(other, TokenType::Star),
            TokenType::Bang => matches!(other, TokenType::Bang),
            TokenType::BangEqual => matches!(other, TokenType::BangEqual),
            TokenType::Equal => matches!(other, TokenType::Equal),
            TokenType::EqualEqual => matches!(other, TokenType::EqualEqual),
            TokenType::Greater => matches!(other, TokenType::Greater),
            TokenType::GreaterEqual => matches!(other, TokenType::GreaterEqual),
            TokenType::Less => matches!(other, TokenType::Less),
            TokenType::LessEqual => matches!(other, TokenType::LessEqual),
            TokenType::Identifier => matches!(other, TokenType::Identifier),
            TokenType::String(_) => matches!(other, TokenType::String(_)),
            TokenType::Number(_) => matches!(other, TokenType::Number(_)),
            TokenType::And => matches!(other, TokenType::And),
            TokenType::Class => matches!(other, TokenType::Class),
            TokenType::Else => matches!(other, TokenType::Else),
            TokenType::False => matches!(other, TokenType::False),
            TokenType::Fun => matches!(other, TokenType::Fun),
            TokenType::For => matches!(other, TokenType::For),
            TokenType::If => matches!(other, TokenType::If),
            TokenType::Nil => matches!(other, TokenType::Nil),
            TokenType::Or => matches!(other, TokenType::Or),
            TokenType::Print => matches!(other, TokenType::Print),
            TokenType::Return => matches!(other, TokenType::Return),
            TokenType::Super => matches!(other, TokenType::Super),
            TokenType::This => matches!(other, TokenType::This),
            TokenType::True => matches!(other, TokenType::True),
            TokenType::Var => matches!(other, TokenType::Var),
            TokenType::While => matches!(other, TokenType::While),
            TokenType::EndOfInput => matches!(other, TokenType::EndOfInput),
        }
    }

    /// The name of the kind, with what a literal carries in parentheses.
    pub fn describe(&self) -> (r: String)
        ensures
            r@ == self@.name(),
    {
        match self {
            TokenType::LeftParen => "LeftParen".to_owned(),
            TokenType::RightParen => "RightParen".to_owned(),
            TokenType::LeftBrace => "LeftBrace".to_owned(),
            TokenType::RightBrace => "RightBrace".to_owned(),
            TokenType::Comma => "Comma".to_owned(),
            TokenType::Dot => "Dot".to_owned(),
            TokenType::Minus => "Minus".to_owned(),
            TokenType::Plus => "Plus".to_owned(),
            TokenType::Semicolon => "Semicolon".to_owned(),
            TokenType::Slash => "Slash".to_owned(),
            TokenType::Star => "Star".to_owned(),
            TokenType::Bang => "Bang".to_owned(),
            TokenType::BangEqual => "BangEqual".to_owned(),
            TokenType::Equal => "Equal".to_owned(),
            TokenType::EqualEqual => "EqualEqual".to_owned(),
            TokenType::Greater => "Greater".to_owned(),
            TokenType::GreaterEqual => "GreaterEqual".to_owned(),
            TokenType::Less => "Less".to_owned(),
            TokenType::LessEqual => "LessEqual".to_owned(),
            TokenType::Identifier => "Identifier".to_owned(),
            TokenType::String(s) => {
                let mut r = "String(".to_owned();
                r.append(s.as_str());
                r.append(")");
                r
            },
            TokenType::Number(s) => {
                let mut r = "Number(".to_owned();
                r.append(s.as_str());
                r.append(")");
                r
            },
            TokenType::And => "And".to_owned(),
            TokenType::Class => "Class".to_owned(),
            TokenType::Else => "Else".to_owned(),
            TokenType::False => "False".to_owned(),
            TokenType::Fun => "Fun".to_owned(),
            TokenType::For => "For".to_owned(),
            TokenType::If => "If".to_owned(),
            TokenType::Nil => "Nil".to_owned(),
            TokenType::Or => "Or".to_owned(),
            TokenType::Print => "Print".to_owned(),
            TokenType::Return => "Return".to_owned(),
            TokenType::Super => "Super".to_owned(),
            TokenType::This => "This".to_owned(),
            TokenType::True => "True".to_owned(),
            TokenType::Var => "Var".to_owned(),
            TokenType::While => "While".to_owned(),
            TokenType::EndOfInput => "EndOfInput".to_owned(),
        }
    }
}

/// A token as a mathematical value.
pub struct SpecToken {
    pub kind: SpecTokenType,
    pub lexeme: Seq<char>,
    pub line: usize,
}

/// One lexeme of the source text: its kind, the exact text it was read from and
/// the 1-based line on which it ended.
#[derive(Debug, PartialEq, Eq)]
pub struct Token {
    pub token_type: TokenType,
    pub lexeme: String,
    pub line: usize,
}

impl View for Token {
    type V = SpecToken;

    open spec fn view(&self) -> SpecToken {
        SpecToken { kind: self.token_type@, lexeme: self.lexeme@, line: self.line }
    }
}

impl Clone for Token {
    fn clone(&self) -> (r: Self)
        ensures
            r@ == self@,
    {
        Token { token_type: self.token_type.clone(), lexeme: self.lexeme.clone(), line: self.line }
    }
}

impl Token {
    /// A token of `token_type` that was read from `lexeme` on `line`.
    pub fn new(token_type: TokenType, lexeme: String, line: usize) -> (t: Token)
        ensures
            t@ == (SpecToken { kind: token_type@, lexeme: lexeme@, line: line }),
    {
        Token { token_type, lexeme, line }
    }

    /// The kind of the token.
    pub fn token_type(&self) -> (r: TokenType)
        ensures
            r@ == self@.kind,
    {
        self.token_type.clone()
    }

    /// The line of the token, counted from 1.
    pub fn line(&self) -> (r: usize)
        ensures
            r == self@.line,
    {
        self.line
    }

    /// The text that the token was read from.
    pub fn lexeme(&self) -> (r: String)
        ensures
            r@ == self@.lexeme,
    {
        self.lexeme.clone()
    }
}

/// The views of a sequence of tokens, in order.
pub open spec fn token_views(tokens: Seq<Token>) -> Seq<SpecToken> {
    tokens.map_values(|t: Token| t@)
}

} // verus!
