//! The meaning of the parser, stated over sequences of tokens.
//!
//! Every rule starts at a token position and either succeeds with a model
//! value and the number of tokens it consumed, or fails with a `Fault` whose
//! position is counted from where the rule started. Counting positions
//! relatively keeps every rule's progress visible in its result.
use vstd::prelude::*;
use crate::ast::{
    AssignOp, BinOp, ExprModel, InfixKind, LiteralModel, PlaceModel, StmtModel, SubscriptModel, TypeModel,
    UnaryOp,
};
use crate::error::{ParseError, SyntaxError};
use crate::token::Token;

verus! {

/// Binding power of the prefix operators `-`, `not` and `~`.
pub const PREFIX_POWER: u8 = 12;
/// Binding power of calls, field accesses and subscripts.
pub const POSTFIX_POWER: u8 = 15;

pub const END_OF_INPUT: &'static str = "unexpected end of input";
pub const NOT_AN_EXPRESSION: &'static str = "an expression cannot start with this token";
pub const UNCLOSED_PAREN: &'static str = "expected ')' to close the parenthesis";
pub const CALL_SEPARATOR: &'static str = "expected ',' or ')' in call";
pub const FIELD_NAME: &'static str = "expected a field name after '.' or '->'";
pub const UNCLOSED_BRACKET: &'static str = "expected ']' to close the subscript";
pub const NOT_ASSIGNABLE: &'static str = "only variables, fields and subscripts can be assigned to";
pub const LET_NAME: &'static str = "let must have an identifier afterwards";
pub const TYPE_NAME: &'static str = "expected type name after ':'";
pub const LET_INIT: &'static str = "expected expression after '='";
pub const NO_INFERENCE: &'static str = "type cannot be inferred without a right hand side";
pub const NO_TERMINATOR: &'static str = "all statements must be followed by either a newline or semicolon";
pub const CONST_MUTABLE: &'static str = "constant cannot be used in tandem with mutable";
pub const CONST_STATIC: &'static str = "constant cannot be used in tandem with static";

/// An error and the token position at which it was found.
pub struct Fault<'src> {
    pub at: nat,
    pub err: SyntaxError<'src>,
}

pub open spec fn missing<'src>(at: nat, msg: &'src str) -> Fault<'src> {
    Fault { at, err: SyntaxError::Parse(ParseError::MissingExpected(msg)) }
}

/// The same fault, `k` tokens further on.
pub open spec fn later<'src>(f: Fault<'src>, k: nat) -> Fault<'src> {
    Fault { at: f.at + k, err: f.err }
}

/// A rule's outcome, as seen from `k` tokens before the rule started.
pub open spec fn shifted<'src, T>(r: Result<(T, nat), Fault<'src>>, k: nat) -> Result<(T, nat), Fault<'src>> {
    match r {
        Ok((v, n)) => Ok((v, n + k)),
        Err(f) => Err(later(f, k)),
    }
}

pub open spec fn tok_at<'src>(toks: Seq<Token<'src>>, i: int) -> Option<Token<'src>> {
    if 0 <= i < toks.len() {
        Some(toks[i])
    } else {
        None
    }
}

/// Tokens left from position `i` on.
pub open spec fn remaining<'src>(toks: Seq<Token<'src>>, i: int) -> nat {
    if i < toks.len() {
        (toks.len() - i) as nat
    } else {
        0
    }
}

/// The precedence table: binding power and operator of each infix token.
pub open spec fn infix_of(t: Token) -> Option<(u8, InfixKind)> {
    match t {
        Token::Assign => Some((0, InfixKind::Assign(AssignOp::Assign))),
        Token::PlusEq => Some((0, InfixKind::Assign(AssignOp::PlusEq))),
        Token::MinusEq => Some((0, InfixKind::Assign(AssignOp::MinusEq))),
        Token::StarEq => Some((0, InfixKind::Assign(AssignOp::StarEq))),
        Token::SlashEq => Some((0, InfixKind::Assign(AssignOp::SlashEq))),
        Token::PercentEq => Some((0, InfixKind::Assign(AssignOp::PercentEq))),
        Token::AndEq => Some((0, InfixKind::Assign(AssignOp::AndEq))),
        Token::OrEq => Some((0, InfixKind::Assign(AssignOp::OrEq))),
        Token::XorEq => Some((0, InfixKind::Assign(AssignOp::XorEq))),
        Token::ShlEq => Some((0, InfixKind::Assign(AssignOp::ShlEq))),
        Token::ShrEq => Some((0, InfixKind::Assign(AssignOp::ShrEq))),
        Token::LogicalOr => Some((1, InfixKind::Binary(BinOp::Or))),
        Token::LogicalAnd => Some((2, InfixKind::Binary(BinOp::And))),
        Token::BitOr => Some((3, InfixKind::Binary(BinOp::BitOr))),
        Token::BitXor => Some((4, InfixKind::Binary(BinOp::BitXor))),
        Token::BitAnd => Some((5, InfixKind::Binary(BinOp::BitAnd))),
        Token::EqEq => Some((6, InfixKind::Binary(BinOp::Eq))),
        Token::NotEq => Some((6, InfixKind::Binary(BinOp::NotEq))),
        Token::Less => Some((7, InfixKind::Binary(BinOp::Less))),
        Token::LessEq => Some((7, InfixKind::Binary(BinOp::LessEq))),
        Token::Greater => Some((7, InfixKind::Binary(BinOp::Greater))),
        Token::GreaterEq => Some((7, InfixKind::Binary(BinOp::GreaterEq))),
        Token::Shl => Some((8, InfixKind::Binary(BinOp::Shl))),
        Token::Shr => Some((8, InfixKind::Binary(BinOp::Shr))),
        Token::Plus => Some((9, InfixKind::Binary(BinOp::Add))),
        Token::Minus => Some((9, InfixKind::Binary(BinOp::Sub))),
        Token::Star => Some((10, InfixKind::Binary(BinOp::Mul))),
        Token::Slash => Some((10, InfixKind::Binary(BinOp::Div))),
        Token::Percent => Some((10, InfixKind::Binary(BinOp::Mod))),
        Token::StarStar => Some((11, InfixKind::Binary(BinOp::Power))),
        _ => None,
    }
}

/// Assignments and exponentiation group to the right; all else to the left.
pub open spec fn right_assoc(k: InfixKind) -> bool {
    k is Assign || k == InfixKind::Binary(BinOp::Power)
}

/// The minimum power with which the right operand of `k` is parsed.
pub open spec fn rhs_power(bp: u8, k: InfixKind) -> u8 {
    if right_assoc(k) {
        bp
    } else {
        (bp + 1) as u8
    }
}

pub open spec fn is_postfix(t: Token) -> bool {
    t is LParen || t is LBracket || t is Dot || t is Arrow
}

pub open spec fn prefix_op(t: Token) -> Option<UnaryOp> {
    match t {
        Token::Minus => Some(UnaryOp::Neg),
        Token::LogicalNot => Some(UnaryOp::Not),
        Token::BitNot => Some(UnaryOp::BitNot),
        _ => None,
    }
}

/// The operand a single token stands for, if it is an identifier or literal.
pub open spec fn atom_of(t: Token) -> Option<ExprModel> {
    match t {
        Token::Identifier(s) => Some(ExprModel::Ident(s@)),
        Token::LitInteger(s) => Some(ExprModel::Literal(LiteralModel::Int(s@))),
        Token::LitFloat(s) => Some(ExprModel::Literal(LiteralModel::Float(s@))),
        Token::LitString(s) => Some(ExprModel::Literal(LiteralModel::String(s@))),
        Token::LitChar(s) => Some(ExprModel::Literal(LiteralModel::Char(s@))),
        Token::Bool(b) => Some(ExprModel::Literal(LiteralModel::Bool(b))),
        _ => None,
    }
}

/// The assignment target an expression denotes, if it may be assigned to.
pub open spec fn place_of(e: ExprModel) -> Option<PlaceModel> {
    match e {
        ExprModel::Ident(name) => Some(PlaceModel::Var(name)),
        ExprModel::Field { obj, name } => Some(PlaceModel::Field { obj, name }),
        ExprModel::Index { obj, sub } => Some(PlaceModel::Subscript { obj, sub }),
        _ => None,
    }
}

/// A call on `callee`: a method call when the callee is a field access.
pub open spec fn call_of(callee: ExprModel, args: Seq<ExprModel>) -> ExprModel {
    match callee {
        ExprModel::Field { obj, name } => ExprModel::Method { receiver: obj, method: name, args },
        _ => ExprModel::Call { func: Box::new(callee), args },
    }
}

/// An expression whose operators all bind at least as tightly as `min`.
pub open spec fn expr_rule<'src>(toks: Seq<Token<'src>>, pos: int, min: u8) -> Result<(ExprModel, nat), Fault<'src>>
    decreases remaining(toks, pos), 2nat,
{
    match prefix_rule(toks, pos) {
        Ok((left, n)) => shifted(infix_rule(toks, left, pos + n, min), n),
        Err(f) => Err(f),
    }
}

/// A single operand: an atom, a parenthesised expression, or a prefix
/// operator applied to an operand.
pub open spec fn prefix_rule<'src>(toks: Seq<Token<'src>>, pos: int) -> Result<(ExprModel, nat), Fault<'src>>
    decreases remaining(toks, pos), 1nat,
{
    match tok_at(toks, pos) {
        None => Err(missing(0, END_OF_INPUT)),
        Some(t) => {
            if let Some(op) = prefix_op(t) {
                match expr_rule(toks, pos + 1, PREFIX_POWER) {
                    Ok((e, n)) => Ok((ExprModel::Unary { op, expr: Box::new(e) }, n + 1)),
                    Err(f) => Err(later(f, 1)),
                }
            } else if t is LParen {
                match expr_rule(toks, pos + 1, 0) {
                    Ok((e, n)) => if tok_at(toks, pos + 1 + n) == Some(Token::RParen) {
                        Ok((e, n + 2))
                    } else {
                        Err(missing(n + 1, UNCLOSED_PAREN))
                    },
                    Err(f) => Err(later(f, 1)),
                }
            } else if let Some(a) = atom_of(t) {
                Ok((a, 1))
            } else {
                Err(missing(0, NOT_AN_EXPRESSION))
            }
        },
    }
}

/// Folds postfix and infix operators onto `left`, starting at `p`, while
/// they bind at least as tightly as `min`.
pub open spec fn infix_rule<'src>(toks: Seq<Token<'src>>, left: ExprModel, p: int, min: u8) -> Result<(ExprModel, nat), Fault<'src>>
    decreases remaining(toks, p), 1nat,
{
    match tok_at(toks, p) {
        None => Ok((left, 0)),
        Some(t) => {
            if is_postfix(t) && POSTFIX_POWER >= min {
                if t is LParen {
                    match args_rule(toks, p + 1) {
                        Ok((args, n)) => resume_rule(toks, call_of(left, args), p + 1 + n, 1 + n, min),
                        Err(f) => Err(later(f, 1)),
                    }
                } else if t is LBracket {
                    match subscript_rule(toks, p + 1) {
                        Ok((sub, n)) => resume_rule(
                            toks,
                            ExprModel::Index { obj: Box::new(left), sub },
                            p + 1 + n,
                            1 + n,
                            min,
                        ),
                        Err(f) => Err(later(f, 1)),
                    }
                } else {
                    match tok_at(toks, p + 1) {
                        Some(Token::Identifier(name)) => resume_rule(
                            toks,
                            ExprModel::Field { obj: Box::new(left), name: name@ },
                            p + 2,
                            2,
                            min,
                        ),
                        _ => Err(missing(1, FIELD_NAME)),
                    }
                }
            } else {
                match infix_of(t) {
                    None => Ok((left, 0)),
                    Some((bp, kind)) => {
                        if bp < min {
                            Ok((left, 0))
                        } else {
                            match kind {
                                InfixKind::Assign(op) => match place_of(left) {
                                    None => Err(
                                        Fault {
                                            at: 0,
                                            err: SyntaxError::Parse(ParseError::InvalidTarget(NOT_ASSIGNABLE)),
                                        },
                                    ),
                                    Some(lhs) => match expr_rule(toks, p + 1, rhs_power(bp, kind)) {
                                        Ok((rhs, n)) => resume_rule(
                                            toks,
                                            ExprModel::Assign { op, lhs, rhs: Box::new(rhs) },
                                            p + 1 + n,
                                            1 + n,
                                            min,
                                        ),
                                        Err(f) => Err(later(f, 1)),
                                    },
                                },
                                InfixKind::Binary(op) => match expr_rule(toks, p + 1, rhs_power(bp, kind)) {
                                    Ok((rhs, n)) => resume_rule(
                                        toks,
                                        ExprModel::Binary { op, lhs: Box::new(left), rhs: Box::new(rhs) },
                                        p + 1 + n,
                                        1 + n,
                                        min,
                                    ),
                                    Err(f) => Err(later(f, 1)),
                                },
                            }
                        }
                    },
                }
            }
        },
    }
}

/// Goes on folding at `q`, `k` tokens after the fold began.
pub open spec fn resume_rule<'src>(toks: Seq<Token<'src>>, left: ExprModel, q: int, k: nat, min: u8) -> Result<(ExprModel, nat), Fault<'src>>
    decreases remaining(toks, q), 2nat,
{
    shifted(infix_rule(toks, left, q, min), k)
}

/// The arguments of a call, from just after `(` through the closing `)`.
pub open spec fn args_rule<'src>(toks: Seq<Token<'src>>, q: int) -> Result<(Seq<ExprModel>, nat), Fault<'src>>
    decreases remaining(toks, q), 3nat,
{
    if tok_at(toks, q) == Some(Token::RParen) {
        Ok((Seq::empty(), 1))
    } else {
        match expr_rule(toks, q, 0) {
            Ok((a, n)) => shifted(args_tail_rule(toks, seq![a], q + n), n),
            Err(f) => Err(f),
        }
    }
}

/// The rest of an argument list after the arguments `done`: further
/// `, arg` pairs, an optional trailing comma, and the closing `)`.
pub open spec fn args_tail_rule<'src>(toks: Seq<Token<'src>>, done: Seq<ExprModel>, q: int) -> Result<(Seq<ExprModel>, nat), Fault<'src>>
    decreases remaining(toks, q), 1nat,
{
    match tok_at(toks, q) {
        Some(Token::Comma) => {
            if tok_at(toks, q + 1) == Some(Token::RParen) {
                Ok((done, 2))
            } else {
                match expr_rule(toks, q + 1, 0) {
                    Ok((a, n)) => shifted(args_tail_rule(toks, done.push(a), q + 1 + n), 1 + n),
                    Err(f) => Err(later(f, 1)),
                }
            }
        },
        Some(Token::RParen) => Ok((done, 1)),
        _ => Err(missing(0, CALL_SEPARATOR)),
    }
}

/// The inside of `[...]`, from just after `[` through the closing `]`.
pub open spec fn subscript_rule<'src>(toks: Seq<Token<'src>>, q: int) -> Result<(SubscriptModel, nat), Fault<'src>>
    decreases remaining(toks, q), 3nat,
{
    if tok_at(toks, q) == Some(Token::DotDot) {
        match range_end_rule(toks, q + 1) {
            Ok((end, n)) => Ok((SubscriptModel::Range { start: None, end }, n + 1)),
            Err(f) => Err(later(f, 1)),
        }
    } else {
        match expr_rule(toks, q, 0) {
            Ok((start, n)) => {
                if tok_at(toks, q + n) == Some(Token::DotDot) {
                    match range_end_rule(toks, q + n + 1) {
                        Ok((end, m)) => Ok(
                            (SubscriptModel::Range { start: Some(Box::new(start)), end }, n + 1 + m),
                        ),
                        Err(f) => Err(later(f, n + 1)),
                    }
                } else if tok_at(toks, q + n) == Some(Token::RBracket) {
                    Ok((SubscriptModel::Index(Box::new(start)), n + 1))
                } else {
                    Err(missing(n, UNCLOSED_BRACKET))
                }
            },
            Err(f) => Err(f),
        }
    }
}

/// The optional upper bound of a range subscript and the closing `]`.
pub open spec fn range_end_rule<'src>(toks: Seq<Token<'src>>, r: int) -> Result<(Option<Box<ExprModel>>, nat), Fault<'src>>
    decreases remaining(toks, r), 3nat,
{
    if tok_at(toks, r) == Some(Token::RBracket) {
        Ok((None, 1))
    } else {
        match expr_rule(toks, r, 0) {
            Ok((e, n)) => if tok_at(toks, r + n) == Some(Token::RBracket) {
                Ok((Some(Box::new(e)), n + 1))
            } else {
                Err(missing(n, UNCLOSED_BRACKET))
            },
            Err(f) => Err(f),
        }
    }
}

// ---------------------------------------------------------------------------
// Statements
// ---------------------------------------------------------------------------

/// Whether a statement may end before this token: a newline, a `;`, or the
/// end of input. The end of input counts as a terminator so that the last
/// statement of a source needs no trailing newline or `;`: `let x = 1` on
/// its own is a complete, valid source.
pub open spec fn ends_statement(t: Option<Token>) -> bool {
    t is None || t == Some(Token::Newline) || t == Some(Token::Semicolon)
}

/// The number of consecutive `;` from position `q` on.
pub open spec fn semis<'src>(toks: Seq<Token<'src>>, q: int) -> nat
    decreases remaining(toks, q),
{
    if tok_at(toks, q) == Some(Token::Semicolon) {
        1 + semis(toks, q + 1)
    } else {
        0
    }
}

/// The number of tokens from `q` on before the next newline, `;` or the end.
pub open spec fn skip_len<'src>(toks: Seq<Token<'src>>, q: int) -> nat
    decreases remaining(toks, q),
{
    if ends_statement(tok_at(toks, q)) {
        0
    } else {
        1 + skip_len(toks, q + 1)
    }
}

/// The type a name in an annotation denotes.
pub open spec fn type_named(s: Seq<char>) -> TypeModel {
    if s == "i8"@ {
        TypeModel::I8
    } else if s == "u8"@ {
        TypeModel::U8
    } else if s == "i16"@ {
        TypeModel::I16
    } else if s == "u16"@ {
        TypeModel::U16
    } else if s == "i32"@ {
        TypeModel::I32
    } else if s == "u32"@ {
        TypeModel::U32
    } else if s == "i64"@ {
        TypeModel::I64
    } else if s == "u64"@ {
        TypeModel::U64
    } else if s == "f32"@ {
        TypeModel::F32
    } else if s == "f64"@ {
        TypeModel::F64
    } else if s == "bool"@ {
        TypeModel::Bool
    } else if s == "char"@ {
        TypeModel::Char
    } else if s == "str"@ {
        TypeModel::Str
    } else {
        TypeModel::Named(s)
    }
}

/// An optional `: type` annotation; without one the type is inferred.
pub open spec fn annotation_rule<'src>(toks: Seq<Token<'src>>, q: int) -> Result<(TypeModel, nat), Fault<'src>> {
    if tok_at(toks, q) == Some(Token::Colon) {
        match tok_at(toks, q + 1) {
            Some(Token::Identifier(t)) => Ok((type_named(t@), 2)),
            Some(Token::Unit) => Ok((TypeModel::Unit, 2)),
            Some(Token::Underscore) => Ok((TypeModel::Inferred, 2)),
            _ => Err(missing(1, TYPE_NAME)),
        }
    } else {
        Ok((TypeModel::Inferred, 0))
    }
}

/// An optional `= expression` initializer.
pub open spec fn initializer_rule<'src>(toks: Seq<Token<'src>>, q: int) -> Result<(Option<ExprModel>, nat), Fault<'src>> {
    if tok_at(toks, q) == Some(Token::Assign) {
        if ends_statement(tok_at(toks, q + 1)) {
            Err(missing(1, LET_INIT))
        } else {
            match expr_rule(toks, q + 1, 0) {
                Ok((e, n)) => Ok((Some(e), n + 1)),
                Err(f) => Err(later(f, 1)),
            }
        }
    } else {
        Ok((None, 0))
    }
}

/// A declaration after its `let`: modifiers in the order `const`, `static`,
/// `mutable`, a name, an optional annotation and an optional initializer.
pub open spec fn let_rule<'src>(toks: Seq<Token<'src>>, q: int) -> Result<(StmtModel, nat), Fault<'src>> {
    let constant = tok_at(toks, q) == Some(Token::Const);
    let n1: nat = if constant { 1 } else { 0 };
    let global = tok_at(toks, q + n1) == Some(Token::Static);
    let n2: nat = if global { 1 } else { 0 };
    let mutable = tok_at(toks, q + n1 + n2) == Some(Token::Mutable);
    let n3: nat = if mutable { 1 } else { 0 };
    let k = n1 + n2 + n3;
    if constant && mutable {
        Err(Fault { at: k, err: SyntaxError::Parse(ParseError::ConstDisallowed(CONST_MUTABLE)) })
    } else if constant && global {
        Err(Fault { at: k, err: SyntaxError::Parse(ParseError::ConstDisallowed(CONST_STATIC)) })
    } else {
        match tok_at(toks, q + k) {
            Some(Token::Identifier(name)) => match annotation_rule(toks, q + k + 1) {
                Err(f) => Err(later(f, k + 1)),
                Ok((typ, a)) => match initializer_rule(toks, q + k + 1 + a) {
                    Err(f) => Err(later(f, k + 1 + a)),
                    Ok((init, b)) => {
                        if typ == TypeModel::Inferred && init is None {
                            Err(missing(k + 1 + a + b, NO_INFERENCE))
                        } else {
                            Ok(
                                (
                                    StmtModel::VarDecl { name: name@, typ, init, mutable, constant, global },
                                    k + 1 + a + b,
                                ),
                            )
                        }
                    },
                },
            },
            _ => Err(missing(k, LET_NAME)),
        }
    }
}

/// How one statement of the driver ends.
pub enum Step<'src> {
    /// the leading token starts no statement and is passed over
    Skipped,
    Parsed(StmtModel),
    /// the statement is malformed; the fault is counted from its first token
    Failed(Fault<'src>),
}

/// A parsed statement followed by `n` tokens after its first, at `q`: it
/// must end there, and any `;` that follow are consumed with it.
pub open spec fn finish_rule<'src>(toks: Seq<Token<'src>>, s: StmtModel, q: int, n: nat) -> (Step<'src>, nat) {
    if ends_statement(tok_at(toks, q)) {
        (Step::Parsed(s), n + semis(toks, q))
    } else {
        (Step::Failed(missing(n + 1, NO_TERMINATOR)), n + skip_len(toks, q))
    }
}

/// A failure `f` of the rule that started just after the first token at
/// `pos`: the rest of the statement, up to its terminator, is passed over.
pub open spec fn recover_rule<'src>(toks: Seq<Token<'src>>, pos: int, f: Fault<'src>) -> (Step<'src>, nat) {
    (Step::Failed(later(f, 1)), f.at + skip_len(toks, pos + 1 + f.at))
}

/// One statement at `pos`, and how many tokens after the first it spans.
pub open spec fn stmt_rule<'src>(toks: Seq<Token<'src>>, pos: int) -> (Step<'src>, nat) {
    match tok_at(toks, pos) {
        Some(Token::Identifier(name)) => match infix_rule(toks, ExprModel::Ident(name@), pos + 1, 0) {
            Ok((e, n)) => finish_rule(toks, StmtModel::Expr(e), pos + 1 + n, n),
            Err(f) => recover_rule(toks, pos, f),
        },
        Some(Token::Let) => match let_rule(toks, pos + 1) {
            Ok((s, n)) => finish_rule(toks, s, pos + 1 + n, n),
            Err(f) => recover_rule(toks, pos, f),
        },
        Some(Token::Break) => finish_rule(toks, StmtModel::Break, pos + 1, 0),
        Some(Token::Continue) => finish_rule(toks, StmtModel::Continue, pos + 1, 0),
        _ => (Step::Skipped, 0),
    }
}

/// The statement driver from `pos` on, having parsed `done` and found
/// `faults` so far. With `fastfail` the first fault ends the pass.
pub open spec fn drive<'src>(
    toks: Seq<Token<'src>>,
    pos: nat,
    fastfail: bool,
    done: Seq<StmtModel>,
    faults: Seq<Fault<'src>>,
) -> Result<Seq<StmtModel>, Seq<Fault<'src>>>
    decreases remaining(toks, pos as int),
{
    if pos >= toks.len() {
        if faults.len() == 0 {
            Ok(done)
        } else {
            Err(faults)
        }
    } else {
        let (step, k) = stmt_rule(toks, pos as int);
        let next = pos + 1 + k;
        match step {
            Step::Skipped => drive(toks, next, fastfail, done, faults),
            Step::Parsed(s) => drive(toks, next, fastfail, done.push(s), faults),
            Step::Failed(f) => if fastfail {
                Err(seq![later(f, pos)])
            } else {
                drive(toks, next, fastfail, done, faults.push(later(f, pos)))
            },
        }
    }
}

/// Where a fast-fail pass from `pos` stops: just after the first malformed
/// statement (whose rest, up to its terminator, is passed over with it), or
/// wherever the statement loop ends if no statement is malformed.
pub open spec fn first_fault_end<'src>(toks: Seq<Token<'src>>, pos: nat) -> nat
    decreases remaining(toks, pos as int),
{
    if pos >= toks.len() {
        pos
    } else {
        let (step, k) = stmt_rule(toks, pos as int);
        match step {
            Step::Failed(_) => pos + 1 + k,
            _ => first_fault_end(toks, pos + 1 + k),
        }
    }
}

/// The whole pass from `pos`: every statement, or every fault found (only
/// the first with `fastfail`), at absolute token positions.
pub open spec fn parse_rule<'src>(toks: Seq<Token<'src>>, pos: nat, fastfail: bool) -> Result<Seq<StmtModel>, Seq<Fault<'src>>> {
    drive(toks, pos, fastfail, Seq::empty(), Seq::empty())
}

} // verus!
