//! A successful parse holds no placeholder: every construct that could not
//! be parsed is reported as a diagnostic instead.
use vstd::prelude::*;
use crate::ast::{ExprModel, PlaceModel, StmtModel, SubscriptModel};
use crate::grammar::{
    args_rule, args_tail_rule, atom_of, call_of, drive, expr_rule, infix_of, infix_rule, initializer_rule,
    is_postfix, let_rule, parse_rule, place_of, prefix_op, prefix_rule, range_end_rule, remaining, resume_rule,
    stmt_rule, subscript_rule, tok_at, Fault, Step, POSTFIX_POWER,
};
use crate::token::Token;

verus! {

/// Whether an expression holds no `Unknown` placeholder.
pub open spec fn settled(e: ExprModel) -> bool
    decreases e,
{
    match e {
        ExprModel::Ident(_) => true,
        ExprModel::Literal(_) => true,
        ExprModel::Assign { lhs, rhs, .. } => settled_place(lhs) && settled(*rhs),
        ExprModel::Unary { expr, .. } => settled(*expr),
        ExprModel::Binary { lhs, rhs, .. } => settled(*lhs) && settled(*rhs),
        ExprModel::Call { func, args } => settled(*func) && all_settled(args),
        ExprModel::Method { receiver, args, .. } => settled(*receiver) && all_settled(args),
        ExprModel::Field { obj, .. } => settled(*obj),
        ExprModel::Index { obj, sub } => settled(*obj) && settled_subscript(sub),
        ExprModel::Unknown => false,
    }
}

pub open spec fn settled_place(p: PlaceModel) -> bool
    decreases p,
{
    match p {
        PlaceModel::Var(_) => true,
        PlaceModel::Field { obj, .. } => settled(*obj),
        PlaceModel::Subscript { obj, sub } => settled(*obj) && settled_subscript(sub),
    }
}

pub open spec fn settled_subscript(s: SubscriptModel) -> bool
    decreases s,
{
    match s {
        SubscriptModel::Index(e) => settled(*e),
        SubscriptModel::Range { start, end } => {
            &&& (match start {
                Some(e) => settled(*e),
                None => true,
            })
            &&& (match end {
                Some(e) => settled(*e),
                None => true,
            })
        },
    }
}

pub open spec fn all_settled(s: Seq<ExprModel>) -> bool
    decreases s,
{
    if s.len() == 0 {
        true
    } else {
        all_settled(s.drop_last()) && settled(s.last())
    }
}

pub open spec fn settled_stmt(s: StmtModel) -> bool {
    match s {
        StmtModel::Expr(e) => settled(e),
        StmtModel::Return(Some(e)) => settled(e),
        StmtModel::VarDecl { init: Some(e), .. } => settled(e),
        _ => true,
    }
}

proof fn lemma_push_settled(s: Seq<ExprModel>, e: ExprModel)
    requires
        all_settled(s),
        settled(e),
    ensures
        all_settled(s.push(e)),
{
    assert(s.push(e).drop_last() =~= s);
}

/// A parsed expression is settled.
pub proof fn lemma_expr_settled<'src>(toks: Seq<Token<'src>>, pos: int, min: u8)
    ensures
        expr_rule(toks, pos, min) matches Ok((e, _)) ==> settled(e),
    decreases remaining(toks, pos), 2nat,
{
    lemma_prefix_settled(toks, pos);
    if let Ok((left, n)) = prefix_rule(toks, pos) {
        lemma_infix_settled(toks, left, pos + n, min);
    }
}

proof fn lemma_prefix_settled<'src>(toks: Seq<Token<'src>>, pos: int)
    ensures
        prefix_rule(toks, pos) matches Ok((e, _)) ==> settled(e),
    decreases remaining(toks, pos), 1nat,
{
    if let Some(t) = tok_at(toks, pos) {
        if prefix_op(t) is Some {
            lemma_expr_settled(toks, pos + 1, crate::grammar::PREFIX_POWER);
        } else if t is LParen {
            lemma_expr_settled(toks, pos + 1, 0);
        }
    }
}

proof fn lemma_infix_settled<'src>(toks: Seq<Token<'src>>, left: ExprModel, p: int, min: u8)
    requires
        settled(left),
    ensures
        infix_rule(toks, left, p, min) matches Ok((e, _)) ==> settled(e),
    decreases remaining(toks, p), 1nat,
{
    if let Some(t) = tok_at(toks, p) {
        if is_postfix(t) && POSTFIX_POWER >= min {
            if t is LParen {
                lemma_args_settled(toks, p + 1);
                if let Ok((args, n)) = args_rule(toks, p + 1) {
                    lemma_resume_settled(toks, call_of(left, args), p + 1 + n, 1 + n, min);
                }
            } else if t is LBracket {
                lemma_subscript_settled(toks, p + 1);
                if let Ok((sub, n)) = subscript_rule(toks, p + 1) {
                    lemma_resume_settled(toks, ExprModel::Index { obj: Box::new(left), sub }, p + 1 + n, 1 + n, min);
                }
            } else if let Some(Token::Identifier(name)) = tok_at(toks, p + 1) {
                lemma_resume_settled(toks, ExprModel::Field { obj: Box::new(left), name: name@ }, p + 2, 2, min);
            }
        } else if let Some((bp, kind)) = infix_of(t) {
            if bp >= min {
                let power = crate::grammar::rhs_power(bp, kind);
                lemma_expr_settled(toks, p + 1, power);
                if let Ok((rhs, n)) = expr_rule(toks, p + 1, power) {
                    match kind {
                        crate::ast::InfixKind::Assign(op) => {
                            if let Some(lhs) = place_of(left) {
                                assert(settled_place(lhs)) by {
                                    match left {
                                        ExprModel::Field { obj, name } => {},
                                        ExprModel::Index { obj, sub } => {},
                                        _ => {},
                                    }
                                }
                                lemma_resume_settled(
                                    toks,
                                    ExprModel::Assign { op, lhs, rhs: Box::new(rhs) },
                                    p + 1 + n,
                                    1 + n,
                                    min,
                                );
                            }
                        },
                        crate::ast::InfixKind::Binary(op) => {
                            lemma_resume_settled(
                                toks,
                                ExprModel::Binary { op, lhs: Box::new(left), rhs: Box::new(rhs) },
                                p + 1 + n,
                                1 + n,
                                min,
                            );
                        },
                    }
                }
            }
        }
    }
}

proof fn lemma_resume_settled<'src>(toks: Seq<Token<'src>>, left: ExprModel, q: int, k: nat, min: u8)
    requires
        settled(left),
    ensures
        resume_rule(toks, left, q, k, min) matches Ok((e, _)) ==> settled(e),
    decreases remaining(toks, q), 2nat,
{
    lemma_infix_settled(toks, left, q, min);
}

proof fn lemma_args_settled<'src>(toks: Seq<Token<'src>>, q: int)
    ensures
        args_rule(toks, q) matches Ok((args, _)) ==> all_settled(args),
    decreases remaining(toks, q), 3nat,
{
    if tok_at(toks, q) != Some(Token::RParen) {
        lemma_expr_settled(toks, q, 0);
        if let Ok((a, n)) = expr_rule(toks, q, 0) {
            lemma_push_settled(Seq::empty(), a);
            assert(Seq::<ExprModel>::empty().push(a) =~= seq![a]);
            lemma_args_tail_settled(toks, seq![a], q + n);
        }
    }
}

proof fn lemma_args_tail_settled<'src>(toks: Seq<Token<'src>>, done: Seq<ExprModel>, q: int)
    requires
        all_settled(done),
    ensures
        args_tail_rule(toks, done, q) matches Ok((args, _)) ==> all_settled(args),
    decreases remaining(toks, q), 1nat,
{
    if tok_at(toks, q) == Some(Token::Comma) && tok_at(toks, q + 1) != Some(Token::RParen) {
        lemma_expr_settled(toks, q + 1, 0);
        if let Ok((a, n)) = expr_rule(toks, q + 1, 0) {
            lemma_push_settled(done, a);
            lemma_args_tail_settled(toks, done.push(a), q + 1 + n);
        }
    }
}

proof fn lemma_subscript_settled<'src>(toks: Seq<Token<'src>>, q: int)
    ensures
        subscript_rule(toks, q) matches Ok((s, _)) ==> settled_subscript(s),
    decreases remaining(toks, q), 3nat,
{
    if tok_at(toks, q) == Some(Token::DotDot) {
        lemma_range_end_settled(toks, q + 1);
    } else {
        lemma_expr_settled(toks, q, 0);
        if let Ok((start, n)) = expr_rule(toks, q, 0) {
            if tok_at(toks, q + n) == Some(Token::DotDot) {
                lemma_range_end_settled(toks, q + n + 1);
            }
        }
    }
}

proof fn lemma_range_end_settled<'src>(toks: Seq<Token<'src>>, r: int)
    ensures
        range_end_rule(toks, r) matches Ok((Some(e), _)) ==> settled(*e),
    decreases remaining(toks, r), 3nat,
{
    if tok_at(toks, r) != Some(Token::RBracket) {
        lemma_expr_settled(toks, r, 0);
    }
}

proof fn lemma_stmt_settled<'src>(toks: Seq<Token<'src>>, pos: int)
    ensures
        stmt_rule(toks, pos).0 matches Step::Parsed(s) ==> settled_stmt(s),
{
    match tok_at(toks, pos) {
        Some(Token::Identifier(name)) => {
            lemma_infix_settled(toks, ExprModel::Ident(name@), pos + 1, 0);
        },
        Some(Token::Let) => {
            let q = pos + 1;
            let n1: nat = if tok_at(toks, q) == Some(Token::Const) { 1 } else { 0 };
            let n2: nat = if tok_at(toks, q + n1) == Some(Token::Static) { 1 } else { 0 };
            let n3: nat = if tok_at(toks, q + n1 + n2) == Some(Token::Mutable) { 1 } else { 0 };
            let k = n1 + n2 + n3;
            if let Ok((_, a)) = crate::grammar::annotation_rule(toks, q + k + 1) {
                lemma_expr_settled(toks, q + k + 1 + a + 1, 0);
                assert(initializer_rule(toks, q + k + 1 + a) matches Ok((Some(e), _)) ==> settled(e));
            }
            assert(let_rule(toks, q) matches Ok((s, _)) ==> settled_stmt(s));
        },
        _ => {},
    }
}

proof fn lemma_drive_settled<'src>(
    toks: Seq<Token<'src>>,
    pos: nat,
    fastfail: bool,
    done: Seq<StmtModel>,
    faults: Seq<Fault<'src>>,
)
    requires
        forall|i: int| 0 <= i < done.len() ==> settled_stmt(#[trigger] done[i]),
    ensures
        drive(toks, pos, fastfail, done, faults) matches Ok(stmts) ==> forall|i: int|
            0 <= i < stmts.len() ==> settled_stmt(#[trigger] stmts[i]),
    decreases remaining(toks, pos as int),
{
    if pos < toks.len() {
        let (step, k) = stmt_rule(toks, pos as int);
        let next = pos + 1 + k;
        lemma_stmt_settled(toks, pos as int);
        match step {
            Step::Skipped => lemma_drive_settled(toks, next, fastfail, done, faults),
            Step::Parsed(s) => {
                assert forall|i: int| 0 <= i < done.push(s).len() implies settled_stmt(#[trigger] done.push(s)[i]) by {
                    if i < done.len() {
                        assert(done.push(s)[i] == done[i]);
                    }
                }
                lemma_drive_settled(toks, next, fastfail, done.push(s), faults);
            },
            Step::Failed(f) => {
                if !fastfail {
                    lemma_drive_settled(toks, next, fastfail, done, faults.push(crate::grammar::later(f, pos)));
                }
            },
        }
    }
}

/// A successful pass holds no placeholder: every statement it returns, and
/// every expression in them, was fully parsed.
pub proof fn lemma_parsed_statements_are_settled<'src>(toks: Seq<Token<'src>>, pos: nat, fastfail: bool)
    ensures
        parse_rule(toks, pos, fastfail) matches Ok(stmts) ==> forall|i: int|
            0 <= i < stmts.len() ==> settled_stmt(#[trigger] stmts[i]),
{
    lemma_drive_settled(toks, pos, fastfail, Seq::empty(), Seq::empty());
}

} // verus!
