//! The closed set of lexical units the parser consumes.
use vstd::prelude::*;

verus! {

/// One lexical unit. Payload-carrying variants borrow their text from the
/// source buffer; comments and whitespace other than line breaks are never
/// materialised as tokens.
#[derive(Debug, Clone, Copy, PartialEq, Eq)]
pub enum Token<'src> {
    // equality and comparisons
    EqEq,
    NotEq,
    LessEq,
    GreaterEq,
    Less,
    Greater,
    // shifts and compound assignments
    ShlEq,
    ShrEq,
    Shl,
    Shr,
    PlusEq,
    MinusEq,
    StarEq,
    SlashEq,
    PercentEq,
    AndEq,
    OrEq,
    XorEq,
    // punctuation
    DoubleColon,
    Arrow,
    FatArrow,
    Match,
    Elipses,
    DotDot,
    Dot,
    Colon,
    Question,
    Comma,
    Semicolon,
    Newline,
    // arithmetic
    Plus,
    Minus,
    Star,
    StarStar,
    Slash,
    Percent,
    // assignment
    Assign,
    // bitwise
    BitAnd,
    BitOr,
    BitXor,
    BitNot,
    // logical
    LogicalNot,
    LogicalAnd,
    LogicalOr,
    // grouping
    LParen,
    RParen,
    LBracket,
    RBracket,
    LBrace,
    RBrace,
    // keywords
    Let,
    Const,
    Static,
    Mutable,
    Break,
    Continue,
    Return,
    Unit,
    Underscore,
    // payload-carrying units
    Bool(bool),
    Identifier(&'src str),
    LitString(&'src str),
    LitChar(&'src str),
    LitFloat(&'src str),
    LitInteger(&'src str),
}

} // verus!
