//! The precedence table and the operator forms of tokens.
use vstd::prelude::*;
use crate::ast::{AssignOp, BinOp, InfixKind, UnaryOp};
use crate::grammar::{infix_of, is_postfix, prefix_op};
use crate::token::Token;

verus! {

/// Binding power and operator of an infix token; `None` for a token that
/// ends an expression. Assignments bind weakest (0), exponentiation
/// tightest (11).
pub fn infix_power(t: &Token) -> (r: Option<(u8, InfixKind)>)
    ensures
        r == infix_of(*t),
        r matches Some((bp, _)) ==> bp <= 11,
{
    match t {
        Token::Assign => Some((0, InfixKind::Assign(AssignOp::Assign))),
        Token::PlusEq => Some((0, InfixKind::Assign(AssignOp::PlusEq))),
        Token::MinusEq => Some((0, InfixKind::Assign(AssignOp::MinusEq))),
        Token::StarEq => Some((0, InfixKind::Assign(AssignOp::StarEq))),
        Token::SlashEq => Some((0, InfixKind::Assign(AssignOp::SlashEq))),
        Token::PercentEq => Some((0, InfixKind::Assign(AssignOp::PercentEq))),
        Token::AndEq => Some((0, InfixKind::Assign(AssignOp::AndEq))),
        Token::OrEq => Some((0, InfixKind::Assign(AssignOp::OrEq))),
        Token::XorEq => Some((0, InfixKind::Assign(AssignOp::XorEq))),
        Token::ShlEq => Some((0, InfixKind::Assign(AssignOp::ShlEq))),
        Token::ShrEq => Some((0, InfixKind::Assign(AssignOp::ShrEq))),
        Token::LogicalOr => Some((1, InfixKind::Binary(BinOp::Or))),
        Token::LogicalAnd => Some((2, InfixKind::Binary(BinOp::And))),
        Token::BitOr => Some((3, InfixKind::Binary(BinOp::BitOr))),
        Token::BitXor => Some((4, InfixKind::Binary(BinOp::BitXor))),
        Token::BitAnd => Some((5, InfixKind::Binary(BinOp::BitAnd))),
        Token::EqEq => Some((6, InfixKind::Binary(BinOp::Eq))),
        Token::NotEq => Some((6, InfixKind::Binary(BinOp::NotEq))),
        Token::Less => Some((7, InfixKind::Binary(BinOp::Less))),
        Token::LessEq => Some((7, InfixKind::Binary(BinOp::LessEq))),
        Token::Greater => Some((7, InfixKind::Binary(BinOp::Greater))),
        Token::GreaterEq => Some((7, InfixKind::Binary(BinOp::GreaterEq))),
        Token::Shl => Some((8, InfixKind::Binary(BinOp::Shl))),
        Token::Shr => Some((8, InfixKind::Binary(BinOp::Shr))),
        Token::Plus => Some((9, InfixKind::Binary(BinOp::Add))),
        Token::Minus => Some((9, InfixKind::Binary(BinOp::Sub))),
        Token::Star => Some((10, InfixKind::Binary(BinOp::Mul))),
        Token::Slash => Some((10, InfixKind::Binary(BinOp::Div))),
        Token::Percent => Some((10, InfixKind::Binary(BinOp::Mod))),
        Token::StarStar => Some((11, InfixKind::Binary(BinOp::Power))),
        _ => None,
    }
}

/// The prefix operator a token stands for, if any.
pub fn prefix_operator(t: &Token) -> (r: Option<UnaryOp>)
    ensures
        r == prefix_op(*t),
{
    match t {
        Token::Minus => Some(UnaryOp::Neg),
        Token::LogicalNot => Some(UnaryOp::Not),
        Token::BitNot => Some(UnaryOp::BitNot),
        _ => None,
    }
}

/// Whether a token opens a call, a field access or a subscript.
pub fn is_postfix_token(t: &Token) -> (r: bool)
    ensures
        r == is_postfix(*t),
{
    matches!(t, Token::LParen | Token::LBracket | Token::Dot | Token::Arrow)
}

} // verus!
