use vstd::prelude::*;

verus! {

/// The closed set of token kinds handed over by the tokenizer.
///
/// A float literal is carried as its IEEE-754 single-precision bit pattern.
/// `NONE` is the end marker.
#[derive(Debug, PartialEq)]
pub enum TokenType {
    IDENTIFIER(String),
    INTEGER(i32),
    FLOAT(u32),
    TRUE,
    FALSE,
    ADDOP,
    SUBOP,
    MULOP,
    DIVOP,
    MODOP,
    EXPONENT,
    EQUALOP,
    NOTEQUALOP,
    GTHANOP,
    GETHANOP,
    LTHANOP,
    LETHANOP,
    AND,
    OR,
    NOT,
    FACTORIAL,
    VERTICALBAR,
    PREV,
    ACCESSOR,
    ASSIGNMENT,
    LPAREN,
    RPAREN,
    LBRACKET,
    RBRACKET,
    COMMA,
    NEWLINE,
    BEGIN,
    EXPECT,
    REVEAL,
    PRINT,
    IF,
    ELIF,
    ELSE,
    NONE,
}

/// A token with the 0-based source line it was read from.
#[derive(Debug, PartialEq)]
pub struct Token {
    pub token_type: TokenType,
    pub line: usize,
}

/// The position of a kind in the closed tag set; payloads are ignored.
pub open spec fn kind_tag(t: TokenType) -> nat {
    match t {
        TokenType::IDENTIFIER(_) => 0,
        TokenType::INTEGER(_) => 1,
        TokenType::FLOAT(_) => 2,
        TokenType::TRUE => 3,
        TokenType::FALSE => 4,
        TokenType::ADDOP => 5,
        TokenType::SUBOP => 6,
        TokenType::MULOP => 7,
        TokenType::DIVOP => 8,
        TokenType::MODOP => 9,
        TokenType::EXPONENT => 10,
        TokenType::EQUALOP => 11,
        TokenType::NOTEQUALOP => 12,
        TokenType::GTHANOP => 13,
        TokenType::GETHANOP => 14,
        TokenType::LTHANOP => 15,
        TokenType::LETHANOP => 16,
        TokenType::AND => 17,
        TokenType::OR => 18,
        TokenType::NOT => 19,
        TokenType::FACTORIAL => 20,
        TokenType::VERTICALBAR => 21,
        TokenType::PREV => 22,
        TokenType::ACCESSOR => 23,
        TokenType::ASSIGNMENT => 24,
        TokenType::LPAREN => 25,
        TokenType::RPAREN => 26,
        TokenType::LBRACKET => 27,
        TokenType::RBRACKET => 28,
        TokenType::COMMA => 29,
        TokenType::NEWLINE => 30,
        TokenType::BEGIN => 31,
        TokenType::EXPECT => 32,
        TokenType::REVEAL => 33,
        TokenType::PRINT => 34,
        TokenType::IF => 35,
        TokenType::ELIF => 36,
        TokenType::ELSE => 37,
        TokenType::NONE => 38,
    }
}

/// Two token kinds match when their tags agree: literals and identifiers
/// match by tag, whatever their payload.
pub open spec fn same_kind(a: TokenType, b: TokenType) -> bool {
    kind_tag(a) == kind_tag(b)
}

impl TokenType {
    /// The tag of this kind, as `kind_tag` gives it.
    pub fn tag(&self) -> (r: u8)
        ensures
            r as nat == kind_tag(*self),
    {
        match self {
            TokenType::IDENTIFIER(_) => 0,
            TokenType::INTEGER(_) => 1,
            TokenType::FLOAT(_) => 2,
            TokenType::TRUE => 3,
            TokenType::FALSE => 4,
            TokenType::ADDOP => 5,
            TokenType::SUBOP => 6,
            TokenType::MULOP => 7,
            TokenType::DIVOP => 8,
            TokenType::MODOP => 9,
            TokenType::EXPONENT => 10,
            TokenType::EQUALOP => 11,
            TokenType::NOTEQUALOP => 12,
            TokenType::GTHANOP => 13,
            TokenType::GETHANOP => 14,
            TokenType::LTHANOP => 15,
            TokenType::LETHANOP => 16,
            TokenType::AND => 17,
            TokenType::OR => 18,
            TokenType::NOT => 19,
            TokenType::FACTORIAL => 20,
            TokenType::VERTICALBAR => 21,
            TokenType::PREV => 22,
            TokenType::ACCESSOR => 23,
            TokenType::ASSIGNMENT => 24,
            TokenType::LPAREN => 25,
            TokenType::RPAREN => 26,
            TokenType::LBRACKET => 27,
            TokenType::RBRACKET => 28,
            TokenType::COMMA => 29,
            TokenType::NEWLINE => 30,
            TokenType::BEGIN => 31,
            TokenType::EXPECT => 32,
            TokenType::REVEAL => 33,
            TokenType::PRINT => 34,
            TokenType::IF => 35,
            TokenType::ELIF => 36,
            TokenType::ELSE => 37,
            TokenType::NONE => 38,
        }
    }

    /// Whether `self` and `other` are of the same kind, ignoring payloads.
    pub fn equals(&self, other: &TokenType) -> (r: bool)
        ensures
            r == same_kind(*self, *other),
    {
        self.tag() == other.tag()
    }

    /// A copy of this token kind, payload included.
    pub fn duplicate(&self) -> (r: TokenType)
        ensures
            r == *self,
    {
        match self {
            TokenType::IDENTIFIER(s) => TokenType::IDENTIFIER(s.clone()),
            TokenType::INTEGER(x) => TokenType::INTEGER(*x),
            TokenType::FLOAT(x) => TokenType::FLOAT(*x),
            TokenType::TRUE => TokenType::TRUE,
            TokenType::FALSE => TokenType::FALSE,
            TokenType::ADDOP => TokenType::ADDOP,
            TokenType::SUBOP => TokenType::SUBOP,
            TokenType::MULOP => TokenType::MULOP,
            TokenType::DIVOP => TokenType::DIVOP,
            TokenType::MODOP => TokenType::MODOP,
            TokenType::EXPONENT => TokenType::EXPONENT,
            TokenType::EQUALOP => TokenType::EQUALOP,
            TokenType::NOTEQUALOP => TokenType::NOTEQUALOP,
            TokenType::GTHANOP => TokenType::GTHANOP,
            TokenType::GETHANOP => TokenType::GETHANOP,
            TokenType::LTHANOP => TokenType::LTHANOP,
            TokenType::LETHANOP => TokenType::LETHANOP,
            TokenType::AND => TokenType::AND,
            TokenType::OR => TokenType::OR,
            TokenType::NOT => TokenType::NOT,
            TokenType::FACTORIAL => TokenType::FACTORIAL,
            TokenType::VERTICALBAR => TokenType::VERTICALBAR,
            TokenType::PREV => TokenType::PREV,
            TokenType::ACCESSOR => TokenType::ACCESSOR,
            TokenType::ASSIGNMENT => TokenType::ASSIGNMENT,
            TokenType::LPAREN => TokenType::LPAREN,
            TokenType::RPAREN => TokenType::RPAREN,
            TokenType::LBRACKET => TokenType::LBRACKET,
            TokenType::RBRACKET => TokenType::RBRACKET,
            TokenType::COMMA => TokenType::COMMA,
            TokenType::NEWLINE => TokenType::NEWLINE,
            TokenType::BEGIN => TokenType::BEGIN,
            TokenType::EXPECT => TokenType::EXPECT,
            TokenType::REVEAL => TokenType::REVEAL,
            TokenType::PRINT => TokenType::PRINT,
            TokenType::IF => TokenType::IF,
            TokenType::ELIF => TokenType::ELIF,
            TokenType::ELSE => TokenType::ELSE,
            TokenType::NONE => TokenType::NONE,
        }
    }
}

} // verus!
