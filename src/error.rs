//! Error taxonomy and source-located diagnostics.
use std::ops::Range;
use vstd::prelude::*;
use vstd::string::{StrSliceExecFns, StringExecFns};
use crate::text::{ends_with, starts_with};

verus! {

/// Failures found while splitting the source into tokens.
#[derive(Debug, Clone, Copy, PartialEq, Eq)]
pub enum LexError<'src> {
    UnterminatedString(&'src str),
    UnterminatedChar(&'src str),
    UnknownToken(&'src str),
}

/// Failures found while building the syntax tree.
#[derive(Debug, Clone, Copy, PartialEq, Eq)]
pub enum ParseError<'src> {
    /// a required token or construct is absent
    MissingExpected(&'src str),
    /// `const` combined with a modifier it excludes
    ConstDisallowed(&'src str),
    /// an assignment whose left side is not a variable, field or subscript
    InvalidTarget(&'src str),
}

/// Any error found before the tree exists.
#[derive(Debug, Clone, Copy, PartialEq, Eq)]
pub enum SyntaxError<'src> {
    Lex(LexError<'src>),
    Parse(ParseError<'src>),
    Unknown,
}

impl<'src> Default for SyntaxError<'src> {
    fn default() -> (r: Self)
        ensures
            r is Unknown,
    {
        SyntaxError::Unknown
    }
}

/// One failure, with everything needed to render it: the file, its text, the
/// half-open byte range at fault and the error.
#[derive(Debug)]
pub struct Diagnostic<'a, 'src> {
    pub path: &'a str,
    pub src: &'src str,
    pub span: Range<usize>,
    pub err: SyntaxError<'src>,
}

pub open spec fn name_of(e: SyntaxError) -> &'static str {
    match e {
        SyntaxError::Lex(LexError::UnterminatedString(_)) => "UnterminatedString",
        SyntaxError::Lex(LexError::UnterminatedChar(_)) => "UnterminatedChar",
        SyntaxError::Lex(LexError::UnknownToken(_)) => "UnknownToken",
        SyntaxError::Parse(ParseError::MissingExpected(_)) => "MissingExpected",
        SyntaxError::Parse(ParseError::ConstDisallowed(_)) => "ConstDisallowed",
        SyntaxError::Parse(ParseError::InvalidTarget(_)) => "InvalidTarget",
        SyntaxError::Unknown => "Unknown",
    }
}

pub open spec fn help_of(e: SyntaxError) -> &'static str {
    match e {
        SyntaxError::Lex(_) => "lexer errors are only caused by things that would cause issues in tokenization.",
        SyntaxError::Parse(ParseError::MissingExpected(msg)) => {
            if "expected type"@.is_prefix_of(msg@) {
                "either omit the colon, or specify a type (if it's a decl without a right hand side, you MUST specify type)"
            } else if "let must have"@.is_prefix_of(msg@) {
                "if you want to discard the value, use _, otherwise attach a name"
            } else if "type cannot be"@.is_prefix_of(msg@) {
                "either declare the type beforehand, or add a right hand side and let the compiler infer it."
            } else if "all statements must"@.is_prefix_of(msg@) {
                "either stick them on seperate lines, or seperate them using a semicolon (bad practice, SHAME!)"
            } else if "expected expression"@.is_prefix_of(msg@) {
                "the right hand of an equals sign cannot be blank"
            } else {
                "Unknown"
            }
        },
        SyntaxError::Parse(ParseError::ConstDisallowed(msg)) => {
            if "mutable"@.is_suffix_of(msg@) {
                "either remove the mutable tag, or denote it static (placing it in a constant memory location)"
            } else if "static"@.is_suffix_of(msg@) {
                "remove either const or static. const is a fixed constant, whereas static is constant memory location. constant handles both"
            } else {
                "Unknown"
            }
        },
        SyntaxError::Parse(ParseError::InvalidTarget(_)) =>
            "only a variable, a field or an indexed element can be assigned to",
        SyntaxError::Unknown => "Only god can save you (or reading the docs lmao.)",
    }
}

pub open spec fn message_of(e: SyntaxError) -> Seq<char> {
    match e {
        SyntaxError::Lex(LexError::UnterminatedString(s)) =>
            "\x1b[1mUnterminatedString:\x1b[22m Strings must be properly terminated, "@ + s@ + " is missing termination"@,
        SyntaxError::Lex(LexError::UnterminatedChar(s)) =>
            "\x1b[1mUnterminatedChar:\x1b[22m Chars must be properly terminated, "@ + s@ + " is missing termination"@,
        SyntaxError::Lex(LexError::UnknownToken(s)) =>
            "\x1b[1mUnknownToken:\x1b[22m The character '"@ + s@ + "' is not in the grammar for this language."@,
        SyntaxError::Parse(ParseError::MissingExpected(s)) => "missing a value where expected, "@ + s@,
        SyntaxError::Parse(ParseError::ConstDisallowed(s)) => "const cannot be used with some modifiers: "@ + s@,
        SyntaxError::Parse(ParseError::InvalidTarget(s)) => "invalid assignment target, "@ + s@,
        SyntaxError::Unknown => "an error occurred that could not be classified"@,
    }
}

impl<'src> SyntaxError<'src> {
    /// The short name of the error's kind, used as a report header.
    pub fn name(&self) -> (r: &'static str)
        ensures
            r == name_of(*self),
    {
        match self {
            SyntaxError::Lex(LexError::UnterminatedString(_)) => "UnterminatedString",
            SyntaxError::Lex(LexError::UnterminatedChar(_)) => "UnterminatedChar",
            SyntaxError::Lex(LexError::UnknownToken(_)) => "UnknownToken",
            SyntaxError::Parse(ParseError::MissingExpected(_)) => "MissingExpected",
            SyntaxError::Parse(ParseError::ConstDisallowed(_)) => "ConstDisallowed",
            SyntaxError::Parse(ParseError::InvalidTarget(_)) => "InvalidTarget",
            SyntaxError::Unknown => "Unknown",
        }
    }

    /// A short hint on how to repair the error, chosen by its kind and by the
    /// start (or, for modifier clashes, the end) of its message.
    pub fn help(&self) -> (r: &'static str)
        ensures
            r == help_of(*self),
    {
        match self {
            SyntaxError::Lex(_) => "lexer errors are only caused by things that would cause issues in tokenization.",
            SyntaxError::Parse(ParseError::MissingExpected(msg)) => {
                if starts_with(msg, "expected type") {
                    "either omit the colon, or specify a type (if it's a decl without a right hand side, you MUST specify type)"
                } else if starts_with(msg, "let must have") {
                    "if you want to discard the value, use _, otherwise attach a name"
                } else if starts_with(msg, "type cannot be") {
                    "either declare the type beforehand, or add a right hand side and let the compiler infer it."
                } else if starts_with(msg, "all statements must") {
                    "either stick them on seperate lines, or seperate them using a semicolon (bad practice, SHAME!)"
                } else if starts_with(msg, "expected expression") {
                    "the right hand of an equals sign cannot be blank"
                } else {
                    "Unknown"
                }
            },
            SyntaxError::Parse(ParseError::ConstDisallowed(msg)) => {
                if ends_with(msg, "mutable") {
                    "either remove the mutable tag, or denote it static (placing it in a constant memory location)"
                } else if ends_with(msg, "static") {
                    "remove either const or static. const is a fixed constant, whereas static is constant memory location. constant handles both"
                } else {
                    "Unknown"
                }
            },
            SyntaxError::Parse(ParseError::InvalidTarget(_)) =>
                "only a variable, a field or an indexed element can be assigned to",
            SyntaxError::Unknown => "Only god can save you (or reading the docs lmao.)",
        }
    }

    /// The full human-readable description of the error.
    pub fn message(&self) -> (r: String)
        ensures
            r@ == message_of(*self),
    {
        match self {
            SyntaxError::Lex(LexError::UnterminatedString(s)) =>
                String::from_str("\x1b[1mUnterminatedString:\x1b[22m Strings must be properly terminated, ")
                    .concat(s).concat(" is missing termination"),
            SyntaxError::Lex(LexError::UnterminatedChar(s)) =>
                String::from_str("\x1b[1mUnterminatedChar:\x1b[22m Chars must be properly terminated, ")
                    .concat(s).concat(" is missing termination"),
            SyntaxError::Lex(LexError::UnknownToken(s)) =>
                String::from_str("\x1b[1mUnknownToken:\x1b[22m The character '")
                    .concat(s).concat("' is not in the grammar for this language."),
            SyntaxError::Parse(ParseError::MissingExpected(s)) =>
                String::from_str("missing a value where expected, ").concat(s),
            SyntaxError::Parse(ParseError::ConstDisallowed(s)) =>
                String::from_str("const cannot be used with some modifiers: ").concat(s),
            SyntaxError::Parse(ParseError::InvalidTarget(s)) =>
                String::from_str("invalid assignment target, ").concat(s),
            SyntaxError::Unknown => String::from_str("an error occurred that could not be classified"),
        }
    }
}

pub open spec fn lex_error_of<'src>(slice: &'src str) -> SyntaxError<'src> {
    if slice@.len() == 0 {
        SyntaxError::Unknown
    } else if slice@[0] == '"' {
        SyntaxError::Lex(LexError::UnterminatedString(slice))
    } else if slice@[0] == '\'' {
        SyntaxError::Lex(LexError::UnterminatedChar(slice))
    } else {
        SyntaxError::Lex(LexError::UnknownToken(slice))
    }
}

/// Classifies the text at which tokenization failed: an opening quote that
/// was never closed, any other character outside the grammar, or nothing at all.
pub fn lex_err<'src>(slice: &'src str) -> (r: SyntaxError<'src>)
    ensures
        r == lex_error_of(slice),
{
    if slice.unicode_len() == 0 {
        SyntaxError::Unknown
    } else {
        let c = slice.get_char(0);
        if c == '"' {
            SyntaxError::Lex(LexError::UnterminatedString(slice))
        } else if c == '\'' {
            SyntaxError::Lex(LexError::UnterminatedChar(slice))
        } else {
            SyntaxError::Lex(LexError::UnknownToken(slice))
        }
    }
}

} // verus!
