//! Gathering the tokenizer's output into the parallel token and span
//! sequences the parser reads, or into diagnostics.
use std::ops::Range;
use vstd::prelude::*;
use crate::error::{Diagnostic, SyntaxError};
use crate::token::Token;

verus! {

/// One unit of tokenizer output: a token, or an error, each with its span.
pub type Lexed<'src> = Result<(Token<'src>, Range<usize>), (SyntaxError<'src>, Range<usize>)>;

/// The tokens among `items`, in order.
pub open spec fn tokens_of<'src>(items: Seq<Lexed<'src>>) -> Seq<Token<'src>>
    decreases items.len(),
{
    if items.len() == 0 {
        Seq::empty()
    } else {
        let rest = tokens_of(items.drop_last());
        match items.last() {
            Ok((t, _)) => rest.push(t),
            Err(_) => rest,
        }
    }
}

/// The spans of the tokens among `items`, in order.
pub open spec fn spans_of<'src>(items: Seq<Lexed<'src>>) -> Seq<Range<usize>>
    decreases items.len(),
{
    if items.len() == 0 {
        Seq::empty()
    } else {
        let rest = spans_of(items.drop_last());
        match items.last() {
            Ok((_, s)) => rest.push(s),
            Err(_) => rest,
        }
    }
}

/// A diagnostic in `path` for each error among `items`, in order.
pub open spec fn failures_of<'a, 'src>(path: &'a str, src: &'src str, items: Seq<Lexed<'src>>) -> Seq<Diagnostic<'a, 'src>>
    decreases items.len(),
{
    if items.len() == 0 {
        Seq::empty()
    } else {
        let rest = failures_of(path, src, items.drop_last());
        match items.last() {
            Ok(_) => rest,
            Err((err, span)) => rest.push(Diagnostic { path, src, span, err }),
        }
    }
}

/// Failures of a prefix come first among the failures of the whole.
proof fn lemma_failures_prefix<'a, 'src>(path: &'a str, src: &'src str, items: Seq<Lexed<'src>>, i: int)
    requires
        0 <= i <= items.len(),
    ensures
        failures_of(path, src, items.subrange(0, i)).is_prefix_of(failures_of(path, src, items)),
    decreases items.len() - i,
{
    if i < items.len() {
        lemma_failures_prefix(path, src, items, i + 1);
        assert(items.subrange(0, i + 1).drop_last() =~= items.subrange(0, i));
    } else {
        assert(items.subrange(0, i) =~= items);
    }
}

/// Gathers tokenizer output. Without errors, the tokens and their spans, in
/// order. Otherwise a diagnostic for each error, in order; with `fastfail`
/// only the first.
pub fn collect_tokens<'a, 'src>(
    path: &'a str,
    src: &'src str,
    items: &Vec<Lexed<'src>>,
    fastfail: bool,
) -> (r: Result<(Vec<Token<'src>>, Vec<Range<usize>>), Vec<Diagnostic<'a, 'src>>>)
    ensures
        failures_of(path, src, items@).len() == 0 ==> {
            &&& r is Ok
            &&& r->Ok_0.0@ == tokens_of(items@)
            &&& r->Ok_0.1@ == spans_of(items@)
        },
        failures_of(path, src, items@).len() > 0 ==> {
            &&& r is Err
            &&& r->Err_0@ == if fastfail {
                seq![failures_of(path, src, items@)[0]]
            } else {
                failures_of(path, src, items@)
            }
        },
{
    let mut tokens: Vec<Token<'src>> = Vec::new();
    let mut spans: Vec<Range<usize>> = Vec::new();
    let mut errors: Vec<Diagnostic<'a, 'src>> = Vec::new();
    let mut i: usize = 0;
    while i < items.len()
        invariant
            i <= items@.len(),
            tokens@ == tokens_of(items@.subrange(0, i as int)),
            spans@ == spans_of(items@.subrange(0, i as int)),
            errors@ == failures_of(path, src, items@.subrange(0, i as int)),
            fastfail ==> errors@.len() == 0,
        decreases items@.len() - i,
    {
        proof {
            assert(items@.subrange(0, i + 1).drop_last() =~= items@.subrange(0, i as int));
        }
        match &items[i] {
            Ok((t, s)) => {
                tokens.push(*t);
                spans.push(Range { start: s.start, end: s.end });
            },
            Err((e, s)) => {
                errors.push(Diagnostic { path, src, span: Range { start: s.start, end: s.end }, err: *e });
                if fastfail {
                    proof {
                        lemma_failures_prefix(path, src, items@, i + 1);
                    }
                    return Err(errors);
                }
            },
        }
        i = i + 1;
    }
    proof {
        assert(items@.subrange(0, i as int) =~= items@);
    }
    if errors.len() == 0 {
        Ok((tokens, spans))
    } else {
        Err(errors)
    }
}

} // verus!
