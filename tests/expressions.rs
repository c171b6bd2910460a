use std::ops::Range;

use pratt_front::ast::{Expr, Ident, LeftSide, Literal, Subscript};
use pratt_front::error::{ParseError, SyntaxError};
use pratt_front::parser::Parser;
use pratt_front::token::Token;

fn spans_for(toks: &[Token]) -> Vec<Range<usize>> {
    (0..toks.len()).map(|i| (2 * i)..(2 * i + 1)).collect()
}

fn show_sub(s: &Subscript) -> String {
    match s {
        Subscript::Index(e) => show(e),
        Subscript::Range { start, end } => format!(
            "{}..{}",
            start.as_ref().map(|e| show(e)).unwrap_or_default(),
            end.as_ref().map(|e| show(e)).unwrap_or_default()
        ),
    }
}

fn show_place(l: &LeftSide) -> String {
    match l {
        LeftSide::Var(Ident(n)) => n.to_string(),
        LeftSide::Field { obj, name } => format!("(field {} {})", show(obj), name.0),
        LeftSide::Subscript { obj, sub } => format!("(index {} {})", show(obj), show_sub(sub)),
    }
}

fn show_args(args: &[Expr]) -> String {
    args.iter().map(|a| format!(" {}", show(a))).collect()
}

fn show(e: &Expr) -> String {
    match e {
        Expr::Ident(Ident(n)) => n.to_string(),
        Expr::Literal(l) => match l {
            Literal::Int(s)
            | Literal::Uint(s)
            | Literal::Float(s)
            | Literal::Double(s)
            | Literal::Char(s)
            | Literal::String(s) => s.to_string(),
            Literal::Bool(b) => b.to_string(),
            Literal::Unit => "()".to_string(),
        },
        Expr::Unary { op, expr } => format!("({:?} {})", op, show(expr)),
        Expr::Binary { op, lhs, rhs } => format!("({:?} {} {})", op, show(lhs), show(rhs)),
        Expr::Assign { op, lhs, rhs } => format!("({:?} {} {})", op, show_place(lhs), show(rhs)),
        Expr::Call { func, args } => format!("(call {}{})", show(func), show_args(args)),
        Expr::Method { receiver, method, args } => {
            format!("(method {} {}{})", show(receiver), method.0, show_args(args))
        }
        Expr::Field { obj, name } => format!("(field {} {})", show(obj), name.0),
        Expr::Index { obj, sub } => format!("(index {} {})", show(obj), show_sub(sub)),
        Expr::Unknown => "?".to_string(),
    }
}

/// Parses `toks` as one expression; the shape of the tree, and where the
/// cursor stopped.
fn expr_of(toks: &[Token]) -> (Result<String, SyntaxError<'static>>, usize) {
    let spans = spans_for(toks);
    let mut p = Parser::new("t.src", "", toks, &spans, false);
    let r = p.parse_expr(0);
    let pos = p.pos;
    (r.map(|e| show(&e)).map_err(|d| copy_err(d.err)), pos)
}

fn copy_err(e: SyntaxError) -> SyntaxError<'static> {
    match e {
        SyntaxError::Parse(ParseError::MissingExpected(m)) => {
            SyntaxError::Parse(ParseError::MissingExpected(Box::leak(m.to_string().into_boxed_str())))
        }
        SyntaxError::Parse(ParseError::ConstDisallowed(m)) => {
            SyntaxError::Parse(ParseError::ConstDisallowed(Box::leak(m.to_string().into_boxed_str())))
        }
        SyntaxError::Parse(ParseError::InvalidTarget(m)) => {
            SyntaxError::Parse(ParseError::InvalidTarget(Box::leak(m.to_string().into_boxed_str())))
        }
        _ => SyntaxError::Unknown,
    }
}

fn num(s: &'static str) -> Token<'static> {
    Token::LitInteger(s)
}

fn id(s: &'static str) -> Token<'static> {
    Token::Identifier(s)
}

#[test]
fn multiplication_binds_tighter_than_addition() {
    let toks = [num("1"), Token::Plus, num("2"), Token::Star, num("3")];
    assert_eq!(expr_of(&toks), (Ok("(Add 1 (Mul 2 3))".to_string()), 5));
}

#[test]
fn tighter_operator_on_the_left_groups_first() {
    let toks = [num("1"), Token::Star, num("2"), Token::Plus, num("3")];
    assert_eq!(expr_of(&toks).0, Ok("(Add (Mul 1 2) 3)".to_string()));
}

#[test]
fn comparison_below_shift_below_sum() {
    let toks = [id("a"), Token::Less, id("b"), Token::Shl, id("c"), Token::Plus, id("d")];
    assert_eq!(expr_of(&toks).0, Ok("(Less a (Shl b (Add c d)))".to_string()));
}

#[test]
fn logical_or_is_weakest_binary() {
    let toks = [id("a"), Token::LogicalOr, id("b"), Token::LogicalAnd, id("c"), Token::EqEq, id("d")];
    assert_eq!(expr_of(&toks).0, Ok("(Or a (And b (Eq c d)))".to_string()));
}

#[test]
fn bitwise_operators_order() {
    let toks = [id("a"), Token::BitOr, id("b"), Token::BitXor, id("c"), Token::BitAnd, id("d")];
    assert_eq!(expr_of(&toks).0, Ok("(BitOr a (BitXor b (BitAnd c d)))".to_string()));
}

#[test]
fn subtraction_is_left_associative() {
    let toks = [num("1"), Token::Minus, num("2"), Token::Minus, num("3")];
    assert_eq!(expr_of(&toks).0, Ok("(Sub (Sub 1 2) 3)".to_string()));
}

#[test]
fn mixed_same_level_operators_group_left() {
    let toks = [num("8"), Token::Slash, num("4"), Token::Percent, num("3"), Token::Star, num("2")];
    assert_eq!(expr_of(&toks).0, Ok("(Mul (Mod (Div 8 4) 3) 2)".to_string()));
}

#[test]
fn exponentiation_is_right_associative() {
    let toks = [num("2"), Token::StarStar, num("3"), Token::StarStar, num("2")];
    assert_eq!(expr_of(&toks).0, Ok("(Power 2 (Power 3 2))".to_string()));
}

#[test]
fn assignment_is_right_associative() {
    let toks = [id("a"), Token::Assign, id("b"), Token::Assign, id("c")];
    assert_eq!(expr_of(&toks), (Ok("(Assign a (Assign b c))".to_string()), 5));
}

#[test]
fn compound_assignment_takes_whole_right_side() {
    let toks = [id("a"), Token::PlusEq, id("b"), Token::Star, num("2")];
    assert_eq!(expr_of(&toks).0, Ok("(PlusEq a (Mul b 2))".to_string()));
}

#[test]
fn assigning_to_a_literal_is_a_diagnostic() {
    let toks = [num("1"), Token::Assign, num("2")];
    let (r, pos) = expr_of(&toks);
    assert!(matches!(r, Err(SyntaxError::Parse(ParseError::InvalidTarget(_)))));
    assert_eq!(pos, 1);
}

#[test]
fn assigning_to_a_sum_is_a_diagnostic() {
    let toks = [id("a"), Token::Plus, id("b"), Token::Assign, num("2")];
    let (r, pos) = expr_of(&toks);
    assert!(matches!(r, Err(SyntaxError::Parse(ParseError::InvalidTarget(_)))));
    assert_eq!(pos, 3);
}

#[test]
fn assigning_to_a_call_is_a_diagnostic() {
    let toks = [id("f"), Token::LParen, Token::RParen, Token::Assign, num("2")];
    assert!(matches!(expr_of(&toks).0, Err(SyntaxError::Parse(ParseError::InvalidTarget(_)))));
}

#[test]
fn field_and_index_are_assignable() {
    let toks = [id("a"), Token::Dot, id("b"), Token::Assign, num("1")];
    assert_eq!(expr_of(&toks).0, Ok("(Assign (field a b) 1)".to_string()));
    let toks = [id("a"), Token::LBracket, num("0"), Token::RBracket, Token::MinusEq, num("1")];
    assert_eq!(expr_of(&toks).0, Ok("(MinusEq (index a 0) 1)".to_string()));
}

#[test]
fn postfix_chain_folds_left_to_right() {
    let toks = [
        id("a"),
        Token::Dot,
        id("b"),
        Token::LParen,
        id("c"),
        Token::RParen,
        Token::LBracket,
        num("0"),
        Token::RBracket,
    ];
    assert_eq!(expr_of(&toks), (Ok("(index (method a b c) 0)".to_string()), 9));
}

#[test]
fn call_on_plain_name_is_a_call() {
    let toks = [id("f"), Token::LParen, num("1"), Token::Comma, num("2"), Token::Comma, Token::RParen];
    assert_eq!(expr_of(&toks), (Ok("(call f 1 2)".to_string()), 7));
}

#[test]
fn arrow_is_a_field_access() {
    let toks = [id("p"), Token::Arrow, id("x")];
    assert_eq!(expr_of(&toks).0, Ok("(field p x)".to_string()));
}

#[test]
fn slice_with_start_only() {
    let toks = [id("a"), Token::LBracket, num("1"), Token::DotDot, Token::RBracket];
    assert_eq!(expr_of(&toks), (Ok("(index a 1..)".to_string()), 5));
}

#[test]
fn slice_with_end_only() {
    let toks = [id("a"), Token::LBracket, Token::DotDot, num("5"), Token::RBracket];
    assert_eq!(expr_of(&toks), (Ok("(index a ..5)".to_string()), 5));
}

#[test]
fn slice_with_both_bounds() {
    let toks = [id("a"), Token::LBracket, num("1"), Token::DotDot, num("5"), Token::RBracket];
    assert_eq!(expr_of(&toks), (Ok("(index a 1..5)".to_string()), 6));
}

#[test]
fn prefix_operator_binds_tighter_than_binary_looser_than_postfix() {
    let toks = [Token::Minus, id("a"), Token::Dot, id("b"), Token::Star, num("2")];
    assert_eq!(expr_of(&toks).0, Ok("(Mul (Neg (field a b)) 2)".to_string()));
    let toks = [Token::LogicalNot, Token::BitNot, Token::Bool(true)];
    assert_eq!(expr_of(&toks).0, Ok("(Not (BitNot true))".to_string()));
}

#[test]
fn parentheses_override_precedence() {
    let toks = [Token::LParen, num("1"), Token::Plus, num("2"), Token::RParen, Token::Star, num("3")];
    assert_eq!(expr_of(&toks), (Ok("(Mul (Add 1 2) 3)".to_string()), 7));
}

#[test]
fn literals_keep_their_text() {
    let toks = [Token::LitString("\"hi\""), Token::Plus, Token::LitChar("'c'"), Token::Plus, Token::LitFloat("1.5")];
    assert_eq!(expr_of(&toks).0, Ok("(Add (Add \"hi\" 'c') 1.5)".to_string()));
}

#[test]
fn expression_stops_before_a_non_operator() {
    let toks = [id("a"), Token::Plus, id("b"), Token::Newline, id("c")];
    assert_eq!(expr_of(&toks), (Ok("(Add a b)".to_string()), 3));
}

#[test]
fn end_of_input_mid_expression_is_a_diagnostic() {
    let toks = [num("1"), Token::Plus];
    let (r, pos) = expr_of(&toks);
    assert_eq!(r, Err(SyntaxError::Parse(ParseError::MissingExpected("unexpected end of input"))));
    assert_eq!(pos, 2);
}

#[test]
fn token_that_starts_no_expression_is_a_diagnostic() {
    let toks = [Token::Star, num("1")];
    let (r, pos) = expr_of(&toks);
    assert_eq!(
        r,
        Err(SyntaxError::Parse(ParseError::MissingExpected("an expression cannot start with this token")))
    );
    assert_eq!(pos, 0);
}

#[test]
fn unclosed_parenthesis_is_a_diagnostic() {
    let toks = [Token::LParen, num("1"), Token::Plus, num("2")];
    let (r, pos) = expr_of(&toks);
    assert_eq!(r, Err(SyntaxError::Parse(ParseError::MissingExpected("expected ')' to close the parenthesis"))));
    assert_eq!(pos, 4);
}

#[test]
fn malformed_call_arguments_are_a_diagnostic() {
    let toks = [id("f"), Token::LParen, id("a"), id("b"), Token::RParen];
    let (r, pos) = expr_of(&toks);
    assert_eq!(r, Err(SyntaxError::Parse(ParseError::MissingExpected("expected ',' or ')' in call"))));
    assert_eq!(pos, 3);
}

#[test]
fn field_access_needs_a_name() {
    let toks = [id("a"), Token::Dot, num("1")];
    let (r, pos) = expr_of(&toks);
    assert_eq!(r, Err(SyntaxError::Parse(ParseError::MissingExpected("expected a field name after '.' or '->'"))));
    assert_eq!(pos, 2);
}

#[test]
fn unclosed_subscript_is_a_diagnostic() {
    let toks = [id("a"), Token::LBracket, num("1"), Token::DotDot, num("2")];
    let (r, pos) = expr_of(&toks);
    assert_eq!(r, Err(SyntaxError::Parse(ParseError::MissingExpected("expected ']' to close the subscript"))));
    assert_eq!(pos, 5);
    let toks = [id("a"), Token::LBracket, num("1"), Token::Comma];
    assert_eq!(expr_of(&toks).1, 3);
}
