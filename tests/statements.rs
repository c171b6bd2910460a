use std::ops::Range;

use pratt_front::ast::{Expr, Ident, Literal, Stmt, Type};
use pratt_front::error::{Diagnostic, ParseError, SyntaxError};
use pratt_front::parser::Parser;
use pratt_front::token::Token;

fn spans_for(toks: &[Token]) -> Vec<Range<usize>> {
    (0..toks.len()).map(|i| (3 * i)..(3 * i + 2)).collect()
}

fn run<'t>(
    toks: &'t [Token<'static>],
    spans: &'t [Range<usize>],
    fastfail: bool,
) -> Result<Vec<Stmt<'static>>, Vec<Diagnostic<'t, 'static>>> {
    let mut p = Parser::new("main.src", "", toks, spans, fastfail);
    p.parse()
}

fn id(s: &'static str) -> Token<'static> {
    Token::Identifier(s)
}

fn num(s: &'static str) -> Token<'static> {
    Token::LitInteger(s)
}

#[test]
fn let_without_annotation_is_inferred() {
    let toks = [Token::Let, id("x"), Token::Assign, num("1")];
    let spans = spans_for(&toks);
    let stmts = run(&toks, &spans, false).unwrap();
    assert_eq!(stmts.len(), 1);
    match &stmts[0] {
        Stmt::VarDecl { name, typ, init, mutable, constant, global } => {
            assert_eq!(name.0, "x");
            assert!(matches!(typ, Type::Inferred));
            assert!(matches!(init, Some(Expr::Literal(Literal::Int("1")))));
            assert!(!mutable && !constant && !global);
        }
        other => panic!("not a declaration: {:?}", other),
    }
}

#[test]
fn let_without_type_or_initializer_fails() {
    let toks = [Token::Let, id("x")];
    let spans = spans_for(&toks);
    let errs = run(&toks, &spans, false).unwrap_err();
    assert_eq!(errs.len(), 1);
    assert_eq!(
        errs[0].err,
        SyntaxError::Parse(ParseError::MissingExpected("type cannot be inferred without a right hand side"))
    );
    // reported at the end of input: an empty span after the last token
    assert_eq!(errs[0].span, 5..5);
    assert_eq!(errs[0].path, "main.src");
}

#[test]
fn let_with_type_only_has_no_initializer() {
    let toks = [Token::Let, id("x"), Token::Colon, id("i64")];
    let spans = spans_for(&toks);
    let stmts = run(&toks, &spans, false).unwrap();
    match &stmts[0] {
        Stmt::VarDecl { typ, init, .. } => {
            assert!(matches!(typ, Type::I64));
            assert!(init.is_none());
        }
        other => panic!("not a declaration: {:?}", other),
    }
}

#[test]
fn annotation_names_builtin_and_other_types() {
    let toks = [
        Token::Let, id("a"), Token::Colon, id("bool"), Token::Newline,
        Token::Let, id("b"), Token::Colon, id("Point"), Token::Newline,
        Token::Let, id("c"), Token::Colon, Token::Unit, Token::Newline,
        Token::Let, id("d"), Token::Colon, Token::Underscore, Token::Assign, num("4"),
    ];
    let spans = spans_for(&toks);
    let stmts = run(&toks, &spans, false).unwrap();
    let types: Vec<String> = stmts
        .iter()
        .map(|s| match s {
            Stmt::VarDecl { typ: Type::Ident(Ident(n)), .. } => n.to_string(),
            Stmt::VarDecl { typ, .. } => format!("{:?}", typ),
            _ => String::new(),
        })
        .collect();
    assert_eq!(types, vec!["Bool", "Point", "Unit", "Inferred"]);
}

#[test]
fn missing_type_after_colon_fails() {
    let toks = [Token::Let, id("x"), Token::Colon, Token::Assign, num("1")];
    let spans = spans_for(&toks);
    let errs = run(&toks, &spans, false).unwrap_err();
    assert_eq!(errs[0].err, SyntaxError::Parse(ParseError::MissingExpected("expected type name after ':'")));
    assert_eq!(errs[0].span, 9..11);
}

#[test]
fn missing_expression_after_equals_fails() {
    let toks = [Token::Let, id("x"), Token::Assign, Token::Semicolon];
    let spans = spans_for(&toks);
    let errs = run(&toks, &spans, false).unwrap_err();
    assert_eq!(errs.len(), 1);
    assert_eq!(errs[0].err, SyntaxError::Parse(ParseError::MissingExpected("expected expression after '='")));
}

#[test]
fn let_needs_a_name() {
    let toks = [Token::Let, num("3"), Token::Assign, num("1")];
    let spans = spans_for(&toks);
    let errs = run(&toks, &spans, false).unwrap_err();
    assert_eq!(errs[0].err, SyntaxError::Parse(ParseError::MissingExpected("let must have an identifier afterwards")));
}

#[test]
fn const_with_mutable_is_disallowed() {
    let toks = [Token::Let, Token::Const, Token::Mutable, id("x"), Token::Assign, num("1")];
    let spans = spans_for(&toks);
    let errs = run(&toks, &spans, false).unwrap_err();
    assert_eq!(errs.len(), 1);
    assert_eq!(
        errs[0].err,
        SyntaxError::Parse(ParseError::ConstDisallowed("constant cannot be used in tandem with mutable"))
    );
}

#[test]
fn const_with_static_is_disallowed() {
    let toks = [Token::Let, Token::Const, Token::Static, id("x"), Token::Assign, num("1")];
    let spans = spans_for(&toks);
    let errs = run(&toks, &spans, false).unwrap_err();
    assert_eq!(
        errs[0].err,
        SyntaxError::Parse(ParseError::ConstDisallowed("constant cannot be used in tandem with static"))
    );
}

#[test]
fn modifiers_are_recorded() {
    let toks = [Token::Let, Token::Static, Token::Mutable, id("x"), Token::Colon, id("u8")];
    let spans = spans_for(&toks);
    let stmts = run(&toks, &spans, false).unwrap();
    match &stmts[0] {
        Stmt::VarDecl { mutable, constant, global, typ, .. } => {
            assert!(*mutable && !*constant && *global);
            assert!(matches!(typ, Type::U8));
        }
        other => panic!("not a declaration: {:?}", other),
    }
}

#[test]
fn missing_terminator_fails() {
    let toks = [Token::Let, id("x"), Token::Assign, num("1"), Token::Let, id("y"), Token::Assign, num("2")];
    let spans = spans_for(&toks);
    let errs = run(&toks, &spans, false).unwrap_err();
    assert_eq!(errs.len(), 1);
    assert_eq!(
        errs[0].err,
        SyntaxError::Parse(ParseError::MissingExpected(
            "all statements must be followed by either a newline or semicolon"
        ))
    );
    assert_eq!(errs[0].span, 12..14);
}

#[test]
fn two_malformed_statements_give_two_diagnostics() {
    let toks = [
        Token::Let, id("x"), Token::Newline,
        Token::Let, Token::Const, Token::Mutable, id("y"), Token::Assign, num("1"), Token::Newline,
        id("z"), Token::Assign, num("3"),
    ];
    let spans = spans_for(&toks);
    let errs = run(&toks, &spans, false).unwrap_err();
    assert_eq!(errs.len(), 2);
    assert!(matches!(errs[0].err, SyntaxError::Parse(ParseError::MissingExpected(_))));
    assert!(matches!(errs[1].err, SyntaxError::Parse(ParseError::ConstDisallowed(_))));
}

#[test]
fn fast_fail_stops_at_first_diagnostic() {
    let toks = [
        Token::Let, id("x"), Token::Newline,
        Token::Let, Token::Const, Token::Mutable, id("y"), Token::Assign, num("1"),
    ];
    let spans = spans_for(&toks);
    let errs = run(&toks, &spans, true).unwrap_err();
    assert_eq!(errs.len(), 1);
    assert!(matches!(errs[0].err, SyntaxError::Parse(ParseError::MissingExpected(_))));
    let mut p = Parser::new("main.src", "", &toks, &spans, true);
    assert!(p.parse().is_err());
    // the pass ended at the first statement's terminator
    assert_eq!(p.pos, 2);
}

#[test]
fn fast_fail_with_clean_input_parses_everything() {
    let toks = [id("a"), Token::Assign, num("1"), Token::Semicolon, Token::Break, Token::Newline, Token::Continue];
    let spans = spans_for(&toks);
    let stmts = run(&toks, &spans, true).unwrap();
    assert_eq!(stmts.len(), 3);
    assert!(matches!(stmts[1], Stmt::Break));
    assert!(matches!(stmts[2], Stmt::Continue));
}

#[test]
fn recovery_resumes_after_the_terminator() {
    let toks = [
        id("a"), Token::Plus, Token::Semicolon,
        Token::Let, id("b"), Token::Assign, num("2"), Token::Semicolon, Token::Semicolon,
    ];
    let spans = spans_for(&toks);
    let errs = run(&toks, &spans, false).unwrap_err();
    assert_eq!(errs.len(), 1);
    let toks_ok = [Token::Let, id("b"), Token::Assign, num("2"), Token::Semicolon, Token::Semicolon, id("c")];
    let spans_ok = spans_for(&toks_ok);
    assert_eq!(run(&toks_ok, &spans_ok, false).unwrap().len(), 2);
}

#[test]
fn unhandled_leading_tokens_are_passed_over() {
    let toks = [num("1"), Token::Assign, num("2"), Token::Newline, id("x")];
    let spans = spans_for(&toks);
    let stmts = run(&toks, &spans, false).unwrap();
    assert_eq!(stmts.len(), 1);
    assert!(matches!(stmts[0], Stmt::Expr(Expr::Ident(Ident("x")))));
}

#[test]
fn empty_input_has_no_statements() {
    let toks: [Token; 0] = [];
    let spans = spans_for(&toks);
    assert_eq!(run(&toks, &spans, false).unwrap().len(), 0);
}

#[test]
fn invalid_assignment_statement_is_reported() {
    let toks = [id("f"), Token::LParen, Token::RParen, Token::Assign, num("1")];
    let spans = spans_for(&toks);
    let errs = run(&toks, &spans, false).unwrap_err();
    assert_eq!(errs.len(), 1);
    assert!(matches!(errs[0].err, SyntaxError::Parse(ParseError::InvalidTarget(_))));
    assert_eq!(errs[0].span, 9..11);
}
