use minskatt::grammar::GrammarError;
use minskatt::lexer::{Keyword, LexError, LexErrorKind};
use minskatt::schema::{InvalidReason, ValidationError};
use minskatt::sru_parser::{parse, ParseError};

#[test]
fn lex_errors_in_words() {
    assert_eq!(
        LexError { kind: LexErrorKind::StrayText, offset: 0 }.describe(),
        "text outside a directive at byte 0"
    );
    assert_eq!(
        LexError { kind: LexErrorKind::BadDirective, offset: 1234 }.describe(),
        "marker without a known keyword at byte 1234"
    );
}

#[test]
fn grammar_errors_in_words() {
    assert_eq!(
        GrammarError::UnrecognizedDocument.describe(),
        "the input starts neither an Info document nor a run of forms"
    );
    assert_eq!(
        GrammarError::UnexpectedDirective {
            found: Keyword::Produkt,
            position: 2,
            expected: Keyword::Filnamn,
        }
        .describe(),
        "directive 2, #PRODUKT, stands where #FILNAMN is expected"
    );
    assert_eq!(
        GrammarError::TrailingDirective { found: Keyword::FilSlut, position: 10 }.describe(),
        "directive 10, #FIL_SLUT, stands behind the end of the document"
    );
    assert_eq!(
        GrammarError::MissingDirective { expected: Keyword::MedielevSlut }.describe(),
        "the input ends where #MEDIELEV_SLUT is expected"
    );
    assert_eq!(
        GrammarError::InvalidNumber { directive: Keyword::Postnr, position: 7 }.describe(),
        "directive 7, #POSTNR, holds no number within its range"
    );
    assert_eq!(
        GrammarError::InvalidTimestamp { directive: Keyword::Skapad, position: 3 }.describe(),
        "directive 3, #SKAPAD, holds no timestamp"
    );
    assert_eq!(
        GrammarError::InvalidValue { directive: Keyword::Blankett, position: 0 }.describe(),
        "directive 0, #BLANKETT, holds a value of another shape than its keyword asks for"
    );
}

#[test]
fn parse_errors_name_their_stage() {
    assert_eq!(
        parse("x".to_string()).unwrap_err().describe(),
        "lexing: text outside a directive at byte 0"
    );
    assert_eq!(
        parse("#FIL_SLUT x".to_string()).unwrap_err().describe(),
        "grammar: directive 0, #FIL_SLUT, holds a value of another shape than its keyword asks for"
    );
    assert_eq!(
        ParseError::Grammar(GrammarError::UnrecognizedDocument).describe(),
        "grammar: the input starts neither an Info document nor a run of forms"
    );
}

#[test]
fn validation_errors_in_words() {
    assert_eq!(
        ValidationError::UnsupportedForm.describe(),
        "validation: the registry holds no schema for the form"
    );
    assert_eq!(
        ValidationError::UnknownField(1).describe(),
        "validation: field 1 is not in the schema"
    );
    assert_eq!(
        ValidationError::DuplicateField(7011).describe(),
        "validation: field 7011 is supplied more than once"
    );
    assert_eq!(
        ValidationError::MissingField(65535).describe(),
        "validation: field 65535 is asked for and not supplied"
    );
    assert_eq!(
        ValidationError::InvalidValue(8640, InvalidReason::NotAnAmount).describe(),
        "validation: field 8640 holds no amount that fits 32 bits"
    );
    assert_eq!(
        ValidationError::InvalidValue(7011, InvalidReason::NotADate).describe(),
        "validation: field 7011 holds no date"
    );
    assert_eq!(
        ValidationError::InvalidValue(8822, InvalidReason::NotAFlag).describe(),
        "validation: field 8822 holds no checkbox mark"
    );
    assert_eq!(
        ValidationError::InvalidValue(8620, InvalidReason::TooLong).describe(),
        "validation: field 8620 holds a text that is too long"
    );
}
