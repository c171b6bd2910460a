//! The parser: a precedence-climbing expression parser and a statement
//! driver that recovers from malformed statements.
use std::ops::Range;
use vstd::prelude::*;
use crate::ast::{
    exprs_model, lemma_exprs_model_push, stmts_model, BinOp, Expr, ExprModel, Ident, InfixKind, LeftSide, Literal,
    Stmt, StmtModel, Subscript, SubscriptModel, Type, TypeModel,
};
use crate::error::{Diagnostic, ParseError, SyntaxError};
use crate::grammar::{
    annotation_rule, args_rule, args_tail_rule, drive, ends_statement, expr_rule, first_fault_end, infix_rule,
    initializer_rule, later, let_rule, missing, parse_rule, prefix_rule, range_end_rule, remaining, semis,
    shifted, skip_len, stmt_rule, subscript_rule, tok_at, type_named, Fault, Step, CALL_SEPARATOR,
    CONST_MUTABLE, CONST_STATIC, END_OF_INPUT, FIELD_NAME, LET_INIT, LET_NAME, NOT_AN_EXPRESSION,
    NOT_ASSIGNABLE, NO_INFERENCE, NO_TERMINATOR, POSTFIX_POWER, PREFIX_POWER, TYPE_NAME, UNCLOSED_BRACKET,
    UNCLOSED_PAREN,
};
use crate::text::same_text;
use crate::precedence::{infix_power, is_postfix_token, prefix_operator};
use crate::token::Token;

verus! {

/// A cursor over a token sequence and the parallel sequence of the tokens'
/// byte spans in `src`. `fastfail` ends a pass at its first diagnostic.
pub struct Parser<'src, 't> {
    pub path: &'src str,
    pub src: &'src str,
    pub tokens: &'t [Token<'src>],
    pub spans: &'t [Range<usize>],
    pub pos: usize,
    pub fastfail: bool,
}

/// The span reported for token position `i`: the token's own span, or an
/// empty span at the end of the last token when `i` is past the end.
pub open spec fn span_at(spans: Seq<Range<usize>>, i: int) -> Range<usize> {
    if 0 <= i < spans.len() {
        spans[i]
    } else if spans.len() > 0 {
        Range { start: spans.last().end, end: spans.last().end }
    } else {
        Range { start: 0, end: 0 }
    }
}

/// A parse result seen through the model of what it holds.
pub open spec fn expr_result<'t, 'src>(r: Result<Expr<'src>, Diagnostic<'t, 'src>>) -> Result<ExprModel, Diagnostic<'t, 'src>> {
    match r {
        Ok(e) => Ok(e.model()),
        Err(d) => Err(d),
    }
}

pub open spec fn args_result<'t, 'src>(r: Result<Vec<Expr<'src>>, Diagnostic<'t, 'src>>) -> Result<Seq<ExprModel>, Diagnostic<'t, 'src>> {
    match r {
        Ok(a) => Ok(exprs_model(a@)),
        Err(d) => Err(d),
    }
}

pub open spec fn subscript_result<'t, 'src>(r: Result<Subscript<'src>, Diagnostic<'t, 'src>>) -> Result<SubscriptModel, Diagnostic<'t, 'src>> {
    match r {
        Ok(s) => Ok(s.model()),
        Err(d) => Err(d),
    }
}

pub open spec fn bound_result<'t, 'src>(r: Result<Option<Box<Expr<'src>>>, Diagnostic<'t, 'src>>) -> Result<Option<Box<ExprModel>>, Diagnostic<'t, 'src>> {
    match r {
        Ok(Some(e)) => Ok(Some(Box::new(e.model()))),
        Ok(None) => Ok(None),
        Err(d) => Err(d),
    }
}

pub open spec fn type_result<'t, 'src>(r: Result<Type<'src>, Diagnostic<'t, 'src>>) -> Result<TypeModel, Diagnostic<'t, 'src>> {
    match r {
        Ok(t) => Ok(t.model()),
        Err(d) => Err(d),
    }
}

pub open spec fn init_result<'t, 'src>(r: Result<Option<Expr<'src>>, Diagnostic<'t, 'src>>) -> Result<Option<ExprModel>, Diagnostic<'t, 'src>> {
    match r {
        Ok(Some(e)) => Ok(Some(e.model())),
        Ok(None) => Ok(None),
        Err(d) => Err(d),
    }
}

pub open spec fn stmt_result<'t, 'src>(r: Result<Stmt<'src>, Diagnostic<'t, 'src>>) -> Result<StmtModel, Diagnostic<'t, 'src>> {
    match r {
        Ok(s) => Ok(s.model()),
        Err(d) => Err(d),
    }
}

/// The type an annotation names: a built-in type, or any other name.
pub fn resolve_type<'src>(name: &'src str) -> (r: Type<'src>)
    ensures
        r.model() == type_named(name@),
{
    if same_text(name, "i8") {
        Type::I8
    } else if same_text(name, "u8") {
        Type::U8
    } else if same_text(name, "i16") {
        Type::I16
    } else if same_text(name, "u16") {
        Type::U16
    } else if same_text(name, "i32") {
        Type::I32
    } else if same_text(name, "u32") {
        Type::U32
    } else if same_text(name, "i64") {
        Type::I64
    } else if same_text(name, "u64") {
        Type::U64
    } else if same_text(name, "f32") {
        Type::F32
    } else if same_text(name, "f64") {
        Type::F64
    } else if same_text(name, "bool") {
        Type::Bool
    } else if same_text(name, "char") {
        Type::Char
    } else if same_text(name, "str") {
        Type::Str
    } else {
        Type::Ident(Ident(name))
    }
}

impl<'src, 't> Parser<'src, 't> {
    /// A parser at the start of `tokens`.
    pub fn new(
        path: &'src str,
        src: &'src str,
        tokens: &'t [Token<'src>],
        spans: &'t [Range<usize>],
        fastfail: bool,
    ) -> (r: Self)
        ensures
            r.path == path,
            r.src == src,
            r.tokens == tokens,
            r.spans == spans,
            r.pos == 0,
            r.fastfail == fastfail,
    {
        Parser { path, src, tokens, spans, pos: 0, fastfail }
    }

    /// The diagnostic for a fault at absolute token position `f.at`.
    pub open spec fn diagnostic_at(self, f: Fault<'src>) -> Diagnostic<'t, 'src> {
        Diagnostic { path: self.path, src: self.src, span: span_at(self.spans@, f.at as int), err: f.err }
    }

    /// Same file, tokens, spans and mode as `other`; only the cursor may differ.
    pub open spec fn same_input(self, other: Self) -> bool {
        &&& self.path == other.path
        &&& self.src == other.src
        &&& self.tokens@ == other.tokens@
        &&& self.spans@ == other.spans@
        &&& self.fastfail == other.fastfail
    }

    /// Running from `self` to `after` and returning `r` (seen through its
    /// model) is what `rule` says of the tokens from `self.pos` on.
    pub open spec fn outcome<M>(
        self,
        after: Self,
        r: Result<M, Diagnostic<'t, 'src>>,
        rule: Result<(M, nat), Fault<'src>>,
    ) -> bool {
        &&& after.same_input(self)
        &&& match rule {
            Ok((m, n)) => r == Ok::<M, Diagnostic<'t, 'src>>(m) && after.pos == self.pos + n,
            Err(f) => r == Err::<M, Diagnostic<'t, 'src>>(self.diagnostic_at(later(f, self.pos as nat)))
                && after.pos == self.pos + f.at,
        }
    }

    /// The token under the cursor.
    #[inline]
    fn cur(&self) -> (r: Option<Token<'src>>)
        ensures
            r == tok_at(self.tokens@, self.pos as int),
    {
        if self.pos < self.tokens.len() {
            Some(self.tokens[self.pos])
        } else {
            None
        }
    }

    /// The token after the one under the cursor.
    #[inline]
    fn peek(&self) -> (r: Option<Token<'src>>)
        ensures
            r == tok_at(self.tokens@, self.pos + 1),
    {
        if self.pos < self.tokens.len() && self.pos + 1 < self.tokens.len() {
            Some(self.tokens[self.pos + 1])
        } else {
            None
        }
    }

    /// Moves past the token under the cursor, if there is one, and returns it.
    #[inline]
    fn advance(&mut self) -> (r: Option<Token<'src>>)
        ensures
            final(self).same_input(*old(self)),
            r == tok_at(old(self).tokens@, old(self).pos as int),
            final(self).pos == (if r is Some { old(self).pos + 1 } else { old(self).pos as int }),
    {
        let t = self.cur();
        if t.is_some() {
            self.bump();
        }
        t
    }

    /// Moves past the token under the cursor, which must exist.
    #[inline]
    fn bump(&mut self)
        requires
            old(self).pos < old(self).tokens@.len(),
        ensures
            final(self).same_input(*old(self)),
            final(self).pos == old(self).pos + 1,
    {
        // a slice's length is a usize, so one past the cursor still fits
        let len = self.tokens.len();
        assert(self.pos + 1 <= len);
        self.pos = self.pos + 1;
    }

    /// The span reported for token position `i`.
    fn span(&self, i: usize) -> (r: Range<usize>)
        ensures
            r == span_at(self.spans@, i as int),
    {
        let n = self.spans.len();
        if i < n {
            Range { start: self.spans[i].start, end: self.spans[i].end }
        } else if n > 0 {
            let e = self.spans[n - 1].end;
            Range { start: e, end: e }
        } else {
            Range { start: 0, end: 0 }
        }
    }

    /// A diagnostic for `err` at the cursor.
    fn error(&self, err: SyntaxError<'src>) -> (r: Diagnostic<'t, 'src>)
        ensures
            r == self.diagnostic_at(Fault { at: self.pos as nat, err }),
    {
        Diagnostic { path: self.path, src: self.src, span: self.span(self.pos), err }
    }

    /// A diagnostic for a missing construct at the cursor.
    fn missing(&self, msg: &'static str) -> (r: Diagnostic<'t, 'src>)
        ensures
            r == self.diagnostic_at(missing(self.pos as nat, msg)),
    {
        self.error(SyntaxError::Parse(ParseError::MissingExpected(msg)))
    }

    /// The assignment target `e` denotes; a diagnostic at the cursor (the
    /// assignment operator) when it denotes none.
    fn to_lvalue(&self, e: Expr<'src>) -> (r: Result<LeftSide<'src>, Diagnostic<'t, 'src>>)
        ensures
            match crate::grammar::place_of(e.model()) {
                Some(p) => r is Ok && r->Ok_0.model() == p,
                None => r == Err::<LeftSide<'src>, Diagnostic<'t, 'src>>(
                    self.diagnostic_at(
                        Fault {
                            at: self.pos as nat,
                            err: SyntaxError::Parse(ParseError::InvalidTarget(NOT_ASSIGNABLE)),
                        },
                    ),
                ),
            },
    {
        match e {
            Expr::Ident(id) => Ok(LeftSide::Var(id)),
            Expr::Field { obj, name } => Ok(LeftSide::Field { obj, name }),
            Expr::Index { obj, sub } => Ok(LeftSide::Subscript { obj, sub }),
            _ => Err(self.error(SyntaxError::Parse(ParseError::InvalidTarget(NOT_ASSIGNABLE)))),
        }
    }

    /// Parses an expression whose operators all bind at least as tightly as
    /// `min`, leaving the cursor on the first token after it.
    pub fn parse_expr(&mut self, min: u8) -> (r: Result<Expr<'src>, Diagnostic<'t, 'src>>)
        ensures
            old(self).outcome(
                *final(self),
                expr_result(r),
                expr_rule(old(self).tokens@, old(self).pos as int, min),
            ),
        decreases remaining(old(self).tokens@, old(self).pos as int), 2nat,
    {
        let left = match self.parse_prefix() {
            Ok(e) => e,
            Err(d) => return Err(d),
        };
        self.parse_infix(left, min)
    }

    /// Parses one operand.
    fn parse_prefix(&mut self) -> (r: Result<Expr<'src>, Diagnostic<'t, 'src>>)
        ensures
            old(self).outcome(
                *final(self),
                expr_result(r),
                prefix_rule(old(self).tokens@, old(self).pos as int),
            ),
        decreases remaining(old(self).tokens@, old(self).pos as int), 1nat,
    {
        let tok = match self.cur() {
            Some(t) => t,
            None => return Err(self.missing(END_OF_INPUT)),
        };
        if let Some(op) = prefix_operator(&tok) {
            self.bump();
            return match self.parse_expr(PREFIX_POWER) {
                Ok(e) => Ok(Expr::Unary { op, expr: Box::new(e) }),
                Err(d) => Err(d),
            };
        }
        match tok {
            Token::LParen => {
                self.bump();
                let inner = match self.parse_expr(0) {
                    Ok(e) => e,
                    Err(d) => return Err(d),
                };
                if matches!(self.cur(), Some(Token::RParen)) {
                    self.bump();
                    Ok(inner)
                } else {
                    Err(self.missing(UNCLOSED_PAREN))
                }
            },
            Token::Identifier(name) => {
                self.bump();
                Ok(Expr::Ident(Ident(name)))
            },
            Token::LitInteger(s) => {
                self.bump();
                Ok(Expr::Literal(Literal::Int(s)))
            },
            Token::LitFloat(s) => {
                self.bump();
                Ok(Expr::Literal(Literal::Float(s)))
            },
            Token::LitString(s) => {
                self.bump();
                Ok(Expr::Literal(Literal::String(s)))
            },
            Token::LitChar(s) => {
                self.bump();
                Ok(Expr::Literal(Literal::Char(s)))
            },
            Token::Bool(b) => {
                self.bump();
                Ok(Expr::Literal(Literal::Bool(b)))
            },
            _ => Err(self.missing(NOT_AN_EXPRESSION)),
        }
    }

    /// Folds postfix and infix operators onto `first` while they bind at
    /// least as tightly as `min`.
    #[verifier::rlimit(100)]
    fn parse_infix(&mut self, first: Expr<'src>, min: u8) -> (r: Result<Expr<'src>, Diagnostic<'t, 'src>>)
        ensures
            old(self).outcome(
                *final(self),
                expr_result(r),
                infix_rule(old(self).tokens@, first.model(), old(self).pos as int, min),
            ),
        decreases remaining(old(self).tokens@, old(self).pos as int), 1nat,
    {
        let ghost start = self.pos as int;
        let ghost toks = self.tokens@;
        let ghost goal = infix_rule(toks, first.model(), start, min);
        let mut left = first;
        #[verifier::loop_isolation(false)]
        loop
            invariant
                self.same_input(*old(self)),
                toks == self.tokens@,
                start == old(self).pos,
                start <= self.pos,
                goal == shifted(infix_rule(toks, left.model(), self.pos as int, min), (self.pos - start) as nat),
            decreases remaining(self.tokens@, self.pos as int),
        {
            let tok = match self.cur() {
                Some(t) => t,
                None => return Ok(left),
            };
            let ghost p = self.pos as int;
            let ghost here = infix_rule(toks, left.model(), p, min);
            if is_postfix_token(&tok) && POSTFIX_POWER >= min {
                match tok {
                    Token::LParen => {
                        self.bump();
                        let args = match self.parse_args() {
                            Ok(a) => a,
                            Err(d) => return Err(d),
                        };
                        left = match left {
                            Expr::Field { obj, name } => Expr::Method { receiver: obj, method: name, args },
                            other => Expr::Call { func: Box::new(other), args },
                        };
                    },
                    Token::LBracket => {
                        self.bump();
                        let sub = match self.parse_subscript() {
                            Ok(s) => s,
                            Err(d) => return Err(d),
                        };
                        left = Expr::Index { obj: Box::new(left), sub };
                    },
                    _ => {
                        match self.peek() {
                            Some(Token::Identifier(name)) => {
                                self.bump();
                                self.bump();
                                left = Expr::Field { obj: Box::new(left), name: Ident(name) };
                            },
                            _ => {
                                self.bump();
                                return Err(self.missing(FIELD_NAME));
                            },
                        }
                    },
                }
            } else {
                let (bp, kind) = match infix_power(&tok) {
                    Some(pk) => pk,
                    None => return Ok(left),
                };
                if bp < min {
                    return Ok(left);
                }
                match kind {
                    InfixKind::Assign(op) => {
                        let lhs = match self.to_lvalue(left) {
                            Ok(l) => l,
                            Err(d) => return Err(d),
                        };
                        self.bump();
                        let rhs = match self.parse_expr(bp) {
                            Ok(e) => e,
                            Err(d) => return Err(d),
                        };
                        left = Expr::Assign { op, lhs, rhs: Box::new(rhs) };
                    },
                    InfixKind::Binary(op) => {
                        let power = if matches!(op, BinOp::Power) {
                            bp
                        } else {
                            bp + 1
                        };
                        self.bump();
                        let rhs = match self.parse_expr(power) {
                            Ok(e) => e,
                            Err(d) => return Err(d),
                        };
                        left = Expr::Binary { op, lhs: Box::new(left), rhs: Box::new(rhs) };
                    },
                }
            }
            assert(here == shifted(infix_rule(toks, left.model(), self.pos as int, min), (self.pos - p) as nat));
        }
    }

    /// Parses call arguments, from just after `(` through the closing `)`.
    fn parse_args(&mut self) -> (r: Result<Vec<Expr<'src>>, Diagnostic<'t, 'src>>)
        ensures
            old(self).outcome(
                *final(self),
                args_result(r),
                args_rule(old(self).tokens@, old(self).pos as int),
            ),
        decreases remaining(old(self).tokens@, old(self).pos as int), 3nat,
    {
        let ghost start = self.pos as int;
        let ghost toks = self.tokens@;
        let mut args: Vec<Expr<'src>> = Vec::new();
        if matches!(self.cur(), Some(Token::RParen)) {
            self.bump();
            assert(exprs_model(args@) == Seq::<ExprModel>::empty());
            return Ok(args);
        }
        let first = match self.parse_expr(0) {
            Ok(e) => e,
            Err(d) => return Err(d),
        };
        let ghost first_model = first.model();
        args.push(first);
        proof {
            lemma_exprs_model_push(Seq::empty(), first);
            assert(Seq::<Expr<'src>>::empty().push(first) =~= args@);
            assert(Seq::<ExprModel>::empty().push(first_model) =~= seq![first_model]);
        }
        loop
            invariant
                self.same_input(*old(self)),
                toks == self.tokens@,
                start == old(self).pos,
                start < self.pos,
                args_rule(toks, start) == shifted(
                    args_tail_rule(toks, exprs_model(args@), self.pos as int),
                    (self.pos - start) as nat,
                ),
            decreases remaining(self.tokens@, self.pos as int),
        {
            match self.cur() {
                Some(Token::Comma) => {
                    if matches!(self.peek(), Some(Token::RParen)) {
                        self.bump();
                        self.bump();
                        return Ok(args);
                    }
                    self.bump();
                    let a = match self.parse_expr(0) {
                        Ok(e) => e,
                        Err(d) => return Err(d),
                    };
                    proof {
                        lemma_exprs_model_push(args@, a);
                    }
                    args.push(a);
                },
                Some(Token::RParen) => {
                    self.bump();
                    return Ok(args);
                },
                _ => return Err(self.missing(CALL_SEPARATOR)),
            }
        }
    }

    /// Parses the inside of `[...]`, from just after `[` through the `]`.
    fn parse_subscript(&mut self) -> (r: Result<Subscript<'src>, Diagnostic<'t, 'src>>)
        ensures
            old(self).outcome(
                *final(self),
                subscript_result(r),
                subscript_rule(old(self).tokens@, old(self).pos as int),
            ),
        decreases remaining(old(self).tokens@, old(self).pos as int), 3nat,
    {
        if matches!(self.cur(), Some(Token::DotDot)) {
            self.bump();
            return match self.parse_range_end() {
                Ok(end) => Ok(Subscript::Range { start: None, end }),
                Err(d) => Err(d),
            };
        }
        let start = match self.parse_expr(0) {
            Ok(e) => e,
            Err(d) => return Err(d),
        };
        if matches!(self.cur(), Some(Token::DotDot)) {
            self.bump();
            match self.parse_range_end() {
                Ok(end) => Ok(Subscript::Range { start: Some(Box::new(start)), end }),
                Err(d) => Err(d),
            }
        } else if matches!(self.cur(), Some(Token::RBracket)) {
            self.bump();
            Ok(Subscript::Index(Box::new(start)))
        } else {
            Err(self.missing(UNCLOSED_BRACKET))
        }
    }

    /// Parses the optional upper bound of a range subscript and the `]`.
    fn parse_range_end(&mut self) -> (r: Result<Option<Box<Expr<'src>>>, Diagnostic<'t, 'src>>)
        ensures
            old(self).outcome(
                *final(self),
                bound_result(r),
                range_end_rule(old(self).tokens@, old(self).pos as int),
            ),
        decreases remaining(old(self).tokens@, old(self).pos as int), 3nat,
    {
        if matches!(self.cur(), Some(Token::RBracket)) {
            self.bump();
            return Ok(None);
        }
        let e = match self.parse_expr(0) {
            Ok(e) => e,
            Err(d) => return Err(d),
        };
        if matches!(self.cur(), Some(Token::RBracket)) {
            self.bump();
            Ok(Some(Box::new(e)))
        } else {
            Err(self.missing(UNCLOSED_BRACKET))
        }
    }

    /// Parses an optional `: type` annotation.
    fn parse_annotation(&mut self) -> (r: Result<Type<'src>, Diagnostic<'t, 'src>>)
        ensures
            old(self).outcome(
                *final(self),
                type_result(r),
                annotation_rule(old(self).tokens@, old(self).pos as int),
            ),
    {
        if !matches!(self.cur(), Some(Token::Colon)) {
            return Ok(Type::Inferred);
        }
        self.bump();
        match self.cur() {
            Some(Token::Identifier(t)) => {
                self.bump();
                Ok(resolve_type(t))
            },
            Some(Token::Unit) => {
                self.bump();
                Ok(Type::Unit)
            },
            Some(Token::Underscore) => {
                self.bump();
                Ok(Type::Inferred)
            },
            _ => Err(self.missing(TYPE_NAME)),
        }
    }

    /// Parses an optional `= expression` initializer.
    fn parse_initializer(&mut self) -> (r: Result<Option<Expr<'src>>, Diagnostic<'t, 'src>>)
        ensures
            old(self).outcome(
                *final(self),
                init_result(r),
                initializer_rule(old(self).tokens@, old(self).pos as int),
            ),
    {
        if !matches!(self.cur(), Some(Token::Assign)) {
            return Ok(None);
        }
        self.bump();
        match self.cur() {
            None | Some(Token::Newline) | Some(Token::Semicolon) => Err(self.missing(LET_INIT)),
            _ => match self.parse_expr(0) {
                Ok(e) => Ok(Some(e)),
                Err(d) => Err(d),
            },
        }
    }

    /// Parses a declaration, from just after `let`.
    fn parse_let(&mut self) -> (r: Result<Stmt<'src>, Diagnostic<'t, 'src>>)
        ensures
            old(self).outcome(*final(self), stmt_result(r), let_rule(old(self).tokens@, old(self).pos as int)),
    {
        let constant = matches!(self.cur(), Some(Token::Const));
        if constant {
            self.bump();
        }
        let global = matches!(self.cur(), Some(Token::Static));
        if global {
            self.bump();
        }
        let mutable = matches!(self.cur(), Some(Token::Mutable));
        if mutable {
            self.bump();
        }
        if constant && mutable {
            return Err(self.error(SyntaxError::Parse(ParseError::ConstDisallowed(CONST_MUTABLE))));
        }
        if constant && global {
            return Err(self.error(SyntaxError::Parse(ParseError::ConstDisallowed(CONST_STATIC))));
        }
        let name = match self.cur() {
            Some(Token::Identifier(n)) => Ident(n),
            _ => return Err(self.missing(LET_NAME)),
        };
        self.bump();
        let typ = match self.parse_annotation() {
            Ok(t) => t,
            Err(d) => return Err(d),
        };
        let init = match self.parse_initializer() {
            Ok(i) => i,
            Err(d) => return Err(d),
        };
        if matches!(typ, Type::Inferred) && init.is_none() {
            return Err(self.missing(NO_INFERENCE));
        }
        Ok(Stmt::VarDecl { name, typ, init, mutable, constant, global })
    }

    /// Moves to the next newline, `;` or the end of input.
    fn skip_to_terminator(&mut self)
        ensures
            final(self).same_input(*old(self)),
            final(self).pos == old(self).pos + skip_len(old(self).tokens@, old(self).pos as int),
    {
        let ghost start = self.pos as int;
        while !ends_statement_token(self.cur())
            invariant
                self.same_input(*old(self)),
                start == old(self).pos,
                start + skip_len(self.tokens@, start) == self.pos + skip_len(self.tokens@, self.pos as int),
            decreases remaining(self.tokens@, self.pos as int),
        {
            self.bump();
        }
    }

    /// Consumes every `;` under the cursor.
    fn eat_semicolons(&mut self)
        ensures
            final(self).same_input(*old(self)),
            final(self).pos == old(self).pos + semis(old(self).tokens@, old(self).pos as int),
    {
        let ghost start = self.pos as int;
        while matches!(self.cur(), Some(Token::Semicolon))
            invariant
                self.same_input(*old(self)),
                start == old(self).pos,
                start + semis(self.tokens@, start) == self.pos + semis(self.tokens@, self.pos as int),
            decreases remaining(self.tokens@, self.pos as int),
        {
            self.bump();
        }
    }

    /// Ends the statement `s` at the cursor: it must stand before a newline,
    /// a `;` or the end of input; otherwise the rest of it is passed over.
    fn finish(&mut self, s: Stmt<'src>) -> (r: Result<Stmt<'src>, Diagnostic<'t, 'src>>)
        ensures
            final(self).same_input(*old(self)),
            ends_statement(tok_at(old(self).tokens@, old(self).pos as int)) ==> {
                &&& r == Ok::<Stmt<'src>, Diagnostic<'t, 'src>>(s)
                &&& final(self).pos == old(self).pos + semis(old(self).tokens@, old(self).pos as int)
            },
            !ends_statement(tok_at(old(self).tokens@, old(self).pos as int)) ==> {
                &&& r == Err::<Stmt<'src>, Diagnostic<'t, 'src>>(
                    old(self).diagnostic_at(missing(old(self).pos as nat, NO_TERMINATOR)),
                )
                &&& final(self).pos == old(self).pos + skip_len(old(self).tokens@, old(self).pos as int)
            },
    {
        if ends_statement_token(self.cur()) {
            self.eat_semicolons();
            Ok(s)
        } else {
            let d = self.missing(NO_TERMINATOR);
            self.skip_to_terminator();
            Err(d)
        }
    }

    /// Parses one statement at the cursor, which must be on a token: `None`
    /// when that token starts no statement and is passed over.
    fn parse_stmt(&mut self) -> (r: Option<Result<Stmt<'src>, Diagnostic<'t, 'src>>>)
        requires
            old(self).pos < old(self).tokens@.len(),
        ensures
            final(self).same_input(*old(self)),
            final(self).pos == old(self).pos + 1 + stmt_rule(old(self).tokens@, old(self).pos as int).1,
            match stmt_rule(old(self).tokens@, old(self).pos as int).0 {
                Step::Skipped => r is None,
                Step::Parsed(s) => r is Some && stmt_result(r->Some_0) == Ok::<StmtModel, Diagnostic<'t, 'src>>(s),
                Step::Failed(f) => r == Some(
                    Err::<Stmt<'src>, Diagnostic<'t, 'src>>(old(self).diagnostic_at(later(f, old(self).pos as nat))),
                ),
            },
    {
        let ghost toks = self.tokens@;
        let ghost pos = self.pos as int;
        let tok = self.tokens[self.pos];
        match tok {
            Token::Identifier(_) => {
                assert(expr_rule(toks, pos, 0) == shifted(
                    infix_rule(toks, crate::grammar::atom_of(tok).unwrap(), pos + 1, 0),
                    1,
                ));
                match self.parse_expr(0) {
                    Ok(e) => Some(self.finish(Stmt::Expr(e))),
                    Err(d) => {
                        self.skip_to_terminator();
                        Some(Err(d))
                    },
                }
            },
            Token::Let => {
                self.bump();
                match self.parse_let() {
                    Ok(s) => Some(self.finish(s)),
                    Err(d) => {
                        self.skip_to_terminator();
                        Some(Err(d))
                    },
                }
            },
            Token::Break => {
                self.bump();
                Some(self.finish(Stmt::Break))
            },
            Token::Continue => {
                self.bump();
                Some(self.finish(Stmt::Continue))
            },
            _ => {
                self.advance();
                None
            },
        }
    }

    /// Parses every statement from the cursor to the end of input. Returns
    /// the statements, or the diagnostics if there are any; with `fastfail`,
    /// only the first diagnostic, found before any later statement is parsed.
    pub fn parse(&mut self) -> (r: Result<Vec<Stmt<'src>>, Vec<Diagnostic<'t, 'src>>>)
        ensures
            final(self).same_input(*old(self)),
            match parse_rule(old(self).tokens@, old(self).pos as nat, old(self).fastfail) {
                Ok(stmts) => r is Ok && stmts_model(r->Ok_0@) == stmts,
                Err(faults) => r is Err && r->Err_0@ == faults.map_values(|f: Fault<'src>| old(self).diagnostic_at(f)),
            },
            r is Ok ==> final(self).pos >= old(self).tokens@.len(),
            old(self).fastfail && r is Err ==> final(self).pos == first_fault_end(
                old(self).tokens@,
                old(self).pos as nat,
            ),
    {
        let ghost toks = self.tokens@;
        let ghost start = self.pos as nat;
        let ghost mut faults: Seq<Fault<'src>> = Seq::empty();
        let mut nodes: Vec<Stmt<'src>> = Vec::new();
        let mut errors: Vec<Diagnostic<'t, 'src>> = Vec::new();
        proof {
            assert(stmts_model(nodes@) =~= Seq::empty());
            assert(errors@ =~= faults.map_values(|f: Fault<'src>| old(self).diagnostic_at(f)));
        }
        while self.pos < self.tokens.len()
            invariant
                self.same_input(*old(self)),
                toks == self.tokens@,
                start == old(self).pos,
                errors@ == faults.map_values(|f: Fault<'src>| old(self).diagnostic_at(f)),
                parse_rule(toks, start, self.fastfail) == drive(
                    toks,
                    self.pos as nat,
                    self.fastfail,
                    stmts_model(nodes@),
                    faults,
                ),
                self.fastfail ==> first_fault_end(toks, start) == first_fault_end(toks, self.pos as nat),
            decreases remaining(self.tokens@, self.pos as int),
        {
            let ghost p = self.pos as nat;
            match self.parse_stmt() {
                None => {},
                Some(Ok(s)) => {
                    proof {
                        assert(stmts_model(nodes@.push(s)) =~= stmts_model(nodes@).push(s.model()));
                    }
                    nodes.push(s);
                },
                Some(Err(d)) => {
                    let ghost f = later(stmt_rule(toks, p as int).0->Failed_0, p);
                    if self.fastfail {
                        let mut first: Vec<Diagnostic<'t, 'src>> = Vec::new();
                        first.push(d);
                        proof {
                            assert(first@ =~= seq![f].map_values(|f: Fault<'src>| old(self).diagnostic_at(f)));
                        }
                        return Err(first);
                    }
                    proof {
                        assert(errors@.push(d) =~= faults.push(f).map_values(
                            |f: Fault<'src>| old(self).diagnostic_at(f),
                        ));
                        faults = faults.push(f);
                    }
                    errors.push(d);
                },
            }
        }
        if errors.len() == 0 {
            proof {
                assert(faults.len() == 0);
            }
            Ok(nodes)
        } else {
            Err(errors)
        }
    }
}

/// Whether a statement may end before this token.
fn ends_statement_token(t: Option<Token>) -> (r: bool)
    ensures
        r == ends_statement(t),
{
    matches!(t, None | Some(Token::Newline) | Some(Token::Semicolon))
}

} // verus!
