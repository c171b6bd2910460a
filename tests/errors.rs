use pratt_front::error::{lex_err, LexError, ParseError, SyntaxError};
use pratt_front::text::{ends_with, same_text, starts_with};

#[test]
fn names_follow_the_variant() {
    assert_eq!(SyntaxError::Lex(LexError::UnterminatedString("\"a")).name(), "UnterminatedString");
    assert_eq!(SyntaxError::Lex(LexError::UnterminatedChar("'a")).name(), "UnterminatedChar");
    assert_eq!(SyntaxError::Lex(LexError::UnknownToken("$")).name(), "UnknownToken");
    assert_eq!(SyntaxError::Parse(ParseError::MissingExpected("x")).name(), "MissingExpected");
    assert_eq!(SyntaxError::Parse(ParseError::ConstDisallowed("x")).name(), "ConstDisallowed");
    assert_eq!(SyntaxError::Parse(ParseError::InvalidTarget("x")).name(), "InvalidTarget");
    assert_eq!(SyntaxError::Unknown.name(), "Unknown");
}

#[test]
fn help_is_chosen_by_message_start() {
    let e = SyntaxError::Parse(ParseError::MissingExpected("expected type name after ':'"));
    assert_eq!(
        e.help(),
        "either omit the colon, or specify a type (if it's a decl without a right hand side, you MUST specify type)"
    );
    let e = SyntaxError::Parse(ParseError::MissingExpected("let must have an identifier afterwards"));
    assert_eq!(e.help(), "if you want to discard the value, use _, otherwise attach a name");
    let e = SyntaxError::Parse(ParseError::MissingExpected("type cannot be inferred without a right hand side"));
    assert_eq!(
        e.help(),
        "either declare the type beforehand, or add a right hand side and let the compiler infer it."
    );
    let e = SyntaxError::Parse(ParseError::MissingExpected("all statements must be followed by either a newline or semicolon"));
    assert_eq!(
        e.help(),
        "either stick them on seperate lines, or seperate them using a semicolon (bad practice, SHAME!)"
    );
    let e = SyntaxError::Parse(ParseError::MissingExpected("expected expression after '='"));
    assert_eq!(e.help(), "the right hand of an equals sign cannot be blank");
    let e = SyntaxError::Parse(ParseError::MissingExpected("unexpected end of input"));
    assert_eq!(e.help(), "Unknown");
}

#[test]
fn help_for_modifier_clash_is_chosen_by_message_end() {
    let e = SyntaxError::Parse(ParseError::ConstDisallowed("constant cannot be used in tandem with mutable"));
    assert_eq!(
        e.help(),
        "either remove the mutable tag, or denote it static (placing it in a constant memory location)"
    );
    let e = SyntaxError::Parse(ParseError::ConstDisallowed("constant cannot be used in tandem with static"));
    assert_eq!(
        e.help(),
        "remove either const or static. const is a fixed constant, whereas static is constant memory location. constant handles both"
    );
    let e = SyntaxError::Parse(ParseError::ConstDisallowed("static and then some"));
    assert_eq!(e.help(), "Unknown");
}

#[test]
fn help_for_lexer_and_unknown_errors() {
    let e = SyntaxError::Lex(LexError::UnknownToken("@"));
    assert_eq!(e.help(), "lexer errors are only caused by things that would cause issues in tokenization.");
    assert_eq!(SyntaxError::Unknown.help(), "Only god can save you (or reading the docs lmao.)");
}

#[test]
fn messages_include_the_offending_text() {
    assert_eq!(
        SyntaxError::Parse(ParseError::MissingExpected("expected expression after '='")).message(),
        "missing a value where expected, expected expression after '='"
    );
    assert_eq!(
        SyntaxError::Parse(ParseError::ConstDisallowed("constant cannot be used in tandem with static")).message(),
        "const cannot be used with some modifiers: constant cannot be used in tandem with static"
    );
    assert_eq!(
        SyntaxError::Lex(LexError::UnknownToken("$")).message(),
        "\x1b[1mUnknownToken:\x1b[22m The character '$' is not in the grammar for this language."
    );
    assert_eq!(
        SyntaxError::Lex(LexError::UnterminatedString("\"ab")).message(),
        "\x1b[1mUnterminatedString:\x1b[22m Strings must be properly terminated, \"ab is missing termination"
    );
    assert!(SyntaxError::Parse(ParseError::InvalidTarget("t")).message().ends_with("t"));
}

#[test]
fn lexer_failures_are_classified_by_first_character() {
    assert_eq!(lex_err("\"abc"), SyntaxError::Lex(LexError::UnterminatedString("\"abc")));
    assert_eq!(lex_err("'a"), SyntaxError::Lex(LexError::UnterminatedChar("'a")));
    assert_eq!(lex_err("#"), SyntaxError::Lex(LexError::UnknownToken("#")));
    assert_eq!(lex_err(""), SyntaxError::Unknown);
}

#[test]
fn default_error_is_unknown() {
    assert_eq!(SyntaxError::default(), SyntaxError::Unknown);
}

#[test]
fn text_comparisons() {
    assert!(starts_with("expected type", "expected"));
    assert!(!starts_with("exp", "expected"));
    assert!(ends_with("with mutable", "mutable"));
    assert!(!ends_with("mutable x", "mutable"));
    assert!(same_text("i64", "i64"));
    assert!(!same_text("i64", "i6"));
    assert!(starts_with("héllo", "hé"));
}
