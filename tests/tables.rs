use std::ops::Range;

use pratt_front::ast::{AssignOp, BinOp, InfixKind, Type, UnaryOp};
use pratt_front::error::{LexError, SyntaxError};
use pratt_front::lexing::{collect_tokens, Lexed};
use pratt_front::parser::resolve_type;
use pratt_front::precedence::{infix_power, is_postfix_token, prefix_operator};
use pratt_front::token::Token;

#[test]
fn binding_powers_rise_from_assignment_to_exponentiation() {
    let table = [
        (Token::Assign, 0),
        (Token::ShrEq, 0),
        (Token::LogicalOr, 1),
        (Token::LogicalAnd, 2),
        (Token::BitOr, 3),
        (Token::BitXor, 4),
        (Token::BitAnd, 5),
        (Token::EqEq, 6),
        (Token::NotEq, 6),
        (Token::GreaterEq, 7),
        (Token::Shl, 8),
        (Token::Minus, 9),
        (Token::Percent, 10),
        (Token::StarStar, 11),
    ];
    for (tok, bp) in table {
        assert_eq!(infix_power(&tok).map(|(p, _)| p), Some(bp), "{:?}", tok);
    }
    assert_eq!(infix_power(&Token::Star), Some((10, InfixKind::Binary(BinOp::Mul))));
    assert_eq!(infix_power(&Token::XorEq), Some((0, InfixKind::Assign(AssignOp::XorEq))));
}

#[test]
fn non_operators_end_an_expression() {
    for tok in [Token::RParen, Token::Comma, Token::Newline, Token::Identifier("x"), Token::LParen, Token::Dot] {
        assert_eq!(infix_power(&tok), None);
    }
}

#[test]
fn prefix_and_postfix_forms() {
    assert_eq!(prefix_operator(&Token::Minus), Some(UnaryOp::Neg));
    assert_eq!(prefix_operator(&Token::LogicalNot), Some(UnaryOp::Not));
    assert_eq!(prefix_operator(&Token::BitNot), Some(UnaryOp::BitNot));
    assert_eq!(prefix_operator(&Token::Plus), None);
    assert!(is_postfix_token(&Token::LParen));
    assert!(is_postfix_token(&Token::LBracket));
    assert!(is_postfix_token(&Token::Arrow));
    assert!(!is_postfix_token(&Token::RBracket));
}

#[test]
fn type_names_resolve() {
    assert!(matches!(resolve_type("i8"), Type::I8));
    assert!(matches!(resolve_type("u32"), Type::U32));
    assert!(matches!(resolve_type("f64"), Type::F64));
    assert!(matches!(resolve_type("str"), Type::Str));
    assert!(matches!(resolve_type("char"), Type::Char));
    assert!(matches!(resolve_type("i6"), Type::Ident(_)));
    assert!(matches!(resolve_type("Vec"), Type::Ident(_)));
}

fn sample(with_errors: bool) -> Vec<Lexed<'static>> {
    let mut v: Vec<Lexed<'static>> = vec![
        Ok((Token::Let, 0..3)),
        Ok((Token::Identifier("x"), 4..5)),
    ];
    if with_errors {
        v.push(Err((SyntaxError::Lex(LexError::UnknownToken("$")), 6..7)));
    }
    v.push(Ok((Token::Assign, 8..9)));
    if with_errors {
        v.push(Err((SyntaxError::Lex(LexError::UnterminatedString("\"a")), 10..12)));
    }
    v
}

#[test]
fn clean_output_becomes_parallel_sequences() {
    let (toks, spans) = collect_tokens("f", "let x =", &sample(false), false).unwrap();
    assert_eq!(toks, vec![Token::Let, Token::Identifier("x"), Token::Assign]);
    let expected: Vec<Range<usize>> = vec![0..3, 4..5, 8..9];
    assert_eq!(spans, expected);
}

#[test]
fn every_lexer_error_is_reported() {
    let errs = collect_tokens("f", "let x $ = \"a", &sample(true), false).unwrap_err();
    assert_eq!(errs.len(), 2);
    assert_eq!(errs[0].span, 6..7);
    assert_eq!(errs[0].err, SyntaxError::Lex(LexError::UnknownToken("$")));
    assert_eq!(errs[1].span, 10..12);
    assert_eq!(errs[1].path, "f");
}

#[test]
fn fast_fail_reports_first_lexer_error_only() {
    let errs = collect_tokens("f", "let x $ = \"a", &sample(true), true).unwrap_err();
    assert_eq!(errs.len(), 1);
    assert_eq!(errs[0].err, SyntaxError::Lex(LexError::UnknownToken("$")));
}
