//! The token alphabet the lexer produces and the parser consumes.

use vstd::prelude::*;

verus! {

/// A lexical token. Spacing and comments are tokens too; the parser skips
/// them where the grammar allows.
#[derive(Debug, Clone, Copy, PartialEq, Eq, Structural)]
pub enum Token {
    Id,
    Number,
    Str,
    Wildcard,
    True,
    False,
    And,
    Or,
    Not,
    If,
    Then,
    Else,
    ElseIf,
    Match,
    For,
    In,
    While,
    Until,
    Loop,
    Break,
    Continue,
    Return,
    Yield,
    From,
    Import,
    Export,
    Try,
    Catch,
    Finally,
    Debug,
    Copy,
    Type,
    Num2,
    Num4,
    Function,
    ParenOpen,
    ParenClose,
    ListStart,
    ListEnd,
    MapStart,
    MapEnd,
    Dot,
    Separator,
    Colon,
    Assign,
    AssignAdd,
    AssignSubtract,
    AssignMultiply,
    AssignDivide,
    AssignModulo,
    Equal,
    NotEqual,
    Less,
    LessOrEqual,
    Greater,
    GreaterOrEqual,
    Add,
    Subtract,
    Multiply,
    Divide,
    Modulo,
    Range,
    RangeInclusive,
    Whitespace,
    NewLine,
    NewLineIndented,
    NewLineSkipped,
    CommentSingle,
    CommentMulti,
    LexError,
}

/// A position range in the source, in characters.
#[derive(Debug, Clone, Copy, PartialEq, Eq, Structural)]
pub struct Span {
    pub start: usize,
    pub end: usize,
}

impl Span {
    /// The empty span at the source's start.
    pub fn zero() -> (r: Span)
        ensures
            r.start == 0 && r.end == 0,
    {
        Span { start: 0, end: 0 }
    }
}

/// One lexed token: its kind, its character range, its text, and the
/// line number and line indentation the cursor is on once the token has
/// been consumed.
#[derive(Debug, PartialEq)]
pub struct TokenInfo {
    pub token: Token,
    pub start: usize,
    pub end: usize,
    pub text: String,
    pub line: usize,
    pub indent: usize,
}

} // verus!
