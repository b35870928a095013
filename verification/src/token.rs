use crate::number::{is_notation, notation, write_number, Number};
use vstd::prelude::*;
use vstd::string::StringExecFns;

verus! {

/// The closed set of lexical categories.
#[derive(Clone, Copy, Debug, PartialEq, Eq, Structural)]
pub enum TokenType {
    LEFTPAREN,
    RIGHTPAREN,
    LEFTBRACE,
    RIGHTBRACE,
    COMMA,
    DOT,
    MINUS,
    PLUS,
    SEMICOLON,
    STAR,
    ASSIGN,
    BANG,
    EQUAL,
    NOTEQUAL,
    LESS,
    LESSEQUAL,
    GREATER,
    GREATEREQUAL,
    SLASH,
    STRING,
    NUMBER,
    IDENTIFIER,
    AND,
    CLASS,
    ELSE,
    FALSE,
    FOR,
    FUN,
    IF,
    NIL,
    OR,
    PRINT,
    RETURN,
    SUPER,
    THIS,
    TRUE,
    VAR,
    WHILE,
    EOF,
}

/// The payload of a literal token.
#[derive(Debug, PartialEq)]
pub enum TokenLiteral {
    Number(Number),
    String(String),
}

/// What a literal payload holds.
pub enum LiteralView {
    Number(Number),
    Text(Seq<char>),
}

impl View for TokenLiteral {
    type V = LiteralView;

    open spec fn view(&self) -> LiteralView {
        match self {
            TokenLiteral::Number(n) => LiteralView::Number(*n),
            TokenLiteral::String(s) => LiteralView::Text(s@),
        }
    }
}

impl Clone for TokenLiteral {
    fn clone(&self) -> (r: Self)
        ensures
            r == *self,
    {
        match self {
            TokenLiteral::Number(n) => TokenLiteral::Number(*n),
            TokenLiteral::String(s) => TokenLiteral::String(s.clone()),
        }
    }
}

/// One lexical unit: its kind, the exact slice of source it was read from,
/// the payload of a literal, and the line it ends on.
#[derive(Debug, PartialEq)]
pub struct Token {
    pub token_type: TokenType,
    pub lexeme: String,
    pub literal: Option<TokenLiteral>,
    pub line: usize,
}

/// What a token holds.
pub struct TokenView {
    pub kind: TokenType,
    pub lexeme: Seq<char>,
    pub literal: Option<LiteralView>,
    pub line: usize,
}

impl View for Token {
    type V = TokenView;

    open spec fn view(&self) -> TokenView {
        TokenView {
            kind: self.token_type,
            lexeme: self.lexeme@,
            literal: match self.literal {
                Some(l) => Some(l@),
                None => None,
            },
            line: self.line,
        }
    }
}

impl Clone for Token {
    fn clone(&self) -> (r: Self)
        ensures
            r == *self,
    {
        Token {
            token_type: self.token_type,
            lexeme: self.lexeme.clone(),
            literal: match &self.literal {
                Some(l) => Some(l.clone()),
                None => None,
            },
            line: self.line,
        }
    }
}

impl Token {
    /// A token of the four given parts.
    pub fn new(token_type: TokenType, lexeme: String, literal: Option<TokenLiteral>, line: usize) -> (r:
        Self)
        ensures
            r.token_type == token_type,
            r.lexeme == lexeme,
            r.literal == literal,
            r.line == line,
    {
        Token { token_type, lexeme, literal, line }
    }
}

/// The views of a sequence of tokens, in order.
pub open spec fn token_views(tokens: Seq<Token>) -> Seq<TokenView> {
    tokens.map_values(|t: Token| t@)
}

} // verus!

verus! {

/// The name under which a kind of token is listed.
pub open spec fn kind_name(kind: TokenType) -> Seq<char> {
    match kind {
        TokenType::LEFTPAREN => "LEFT_PAREN"@,
        TokenType::RIGHTPAREN => "RIGHT_PAREN"@,
        TokenType::LEFTBRACE => "LEFT_BRACE"@,
        TokenType::RIGHTBRACE => "RIGHT_BRACE"@,
        TokenType::COMMA => "COMMA"@,
        TokenType::DOT => "DOT"@,
        TokenType::MINUS => "MINUS"@,
        TokenType::PLUS => "PLUS"@,
        TokenType::SEMICOLON => "SEMICOLON"@,
        TokenType::STAR => "STAR"@,
        TokenType::ASSIGN => "EQUAL"@,
        TokenType::BANG => "BANG"@,
        TokenType::EQUAL => "EQUAL_EQUAL"@,
        TokenType::NOTEQUAL => "BANG_EQUAL"@,
        TokenType::LESS => "LESS"@,
        TokenType::LESSEQUAL => "LESS_EQUAL"@,
        TokenType::GREATER => "GREATER"@,
        TokenType::GREATEREQUAL => "GREATER_EQUAL"@,
        TokenType::SLASH => "SLASH"@,
        TokenType::STRING => "STRING"@,
        TokenType::NUMBER => "NUMBER"@,
        TokenType::IDENTIFIER => "IDENTIFIER"@,
        TokenType::AND => "AND"@,
        TokenType::CLASS => "CLASS"@,
        TokenType::ELSE => "ELSE"@,
        TokenType::FALSE => "FALSE"@,
        TokenType::FOR => "FOR"@,
        TokenType::FUN => "FUN"@,
        TokenType::IF => "IF"@,
        TokenType::NIL => "NIL"@,
        TokenType::OR => "OR"@,
        TokenType::PRINT => "PRINT"@,
        TokenType::RETURN => "RETURN"@,
        TokenType::SUPER => "SUPER"@,
        TokenType::THIS => "THIS"@,
        TokenType::TRUE => "TRUE"@,
        TokenType::VAR => "VAR"@,
        TokenType::WHILE => "WHILE"@,
        TokenType::EOF => "EOF"@,
    }
}

/// The text of a literal payload, `null` where there is none. `nt` gives
/// the notation of numbers.
pub open spec fn literal_text(nt: spec_fn(Number) -> Seq<char>, literal: Option<LiteralView>) -> Seq<
    char,
> {
    match literal {
        Some(LiteralView::Number(n)) => nt(n),
        Some(LiteralView::Text(s)) => s,
        None => "null"@,
    }
}

/// The line that lists a token: the name of its kind, its lexeme and its
/// payload, with one space between them.
pub open spec fn token_text(nt: spec_fn(Number) -> Seq<char>, token: TokenView) -> Seq<char> {
    kind_name(token.kind) + " "@ + token.lexeme + " "@ + literal_text(nt, token.literal)
}

impl TokenType {
    /// The name under which the kind is listed.
    pub fn to_text(&self) -> (r: String)
        ensures
            r@ == kind_name(*self),
    {
        let token_type_str = match self {
            TokenType::LEFTPAREN => "LEFT_PAREN",
            TokenType::RIGHTPAREN => "RIGHT_PAREN",
            TokenType::LEFTBRACE => "LEFT_BRACE",
            TokenType::RIGHTBRACE => "RIGHT_BRACE",
            TokenType::COMMA => "COMMA",
            TokenType::DOT => "DOT",
            TokenType::MINUS => "MINUS",
            TokenType::PLUS => "PLUS",
            TokenType::SEMICOLON => "SEMICOLON",
            TokenType::STAR => "STAR",
            TokenType::ASSIGN => "EQUAL",
            TokenType::BANG => "BANG",
            TokenType::EQUAL => "EQUAL_EQUAL",
            TokenType::NOTEQUAL => "BANG_EQUAL",
            TokenType::LESS => "LESS",
            TokenType::LESSEQUAL => "LESS_EQUAL",
            TokenType::GREATER => "GREATER",
            TokenType::GREATEREQUAL => "GREATER_EQUAL",
            TokenType::SLASH => "SLASH",
            TokenType::STRING => "STRING",
            TokenType::NUMBER => "NUMBER",
            TokenType::IDENTIFIER => "IDENTIFIER",
            TokenType::AND => "AND",
            TokenType::CLASS => "CLASS",
            TokenType::ELSE => "ELSE",
            TokenType::FALSE => "FALSE",
            TokenType::FOR => "FOR",
            TokenType::FUN => "FUN",
            TokenType::IF => "IF",
            TokenType::NIL => "NIL",
            TokenType::OR => "OR",
            TokenType::PRINT => "PRINT",
            TokenType::RETURN => "RETURN",
            TokenType::SUPER => "SUPER",
            TokenType::THIS => "THIS",
            TokenType::TRUE => "TRUE",
            TokenType::VAR => "VAR",
            TokenType::WHILE => "WHILE",
            TokenType::EOF => "EOF",
        };
        token_type_str.to_owned()
    }
}

impl Token {
    /// The line that lists the token. `show` writes a number payload.
    pub fn to_text<S: Fn(Number) -> String>(&self, show: &S) -> (r: String)
        requires
            is_notation(show),
        ensures
            r@ == token_text(notation(show), self@),
    {
        let mut r = self.token_type.to_text();
        r.append(" ");
        r.append(self.lexeme.as_str());
        r.append(" ");
        match &self.literal {
            Some(TokenLiteral::Number(n)) => {
                let text = write_number(show, *n);
                r.append(text.as_str());
            },
            Some(TokenLiteral::String(s)) => {
                r.append(s.as_str());
            },
            None => {
                r.append("null");
            },
        }
        r
    }
}

} // verus!
