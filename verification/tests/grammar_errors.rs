use minskatt::grammar::GrammarError;
use minskatt::lexer::{lex, render, Keyword, LexError, LexErrorKind, Lexer, Token};
use minskatt::sru::{Blankett, SRU};
use minskatt::sru_parser::{parse, revision, ParseError};
use minskatt::validate_string;

fn info_with(header: &str, contact: &str) -> String {
    format!(
        "#DATABESKRIVNING_START\n{}#DATABESKRIVNING_SLUT\n#MEDIELEV_START\n{}#MEDIELEV_SLUT\n",
        header, contact
    )
}

const HEADER: &str = "#PRODUKT SRU\n#FILNAMN blanketter.sru\n";
const CONTACT: &str = "#ORGNR 191111111111\n#NAMN Databokföraren\n#POSTNR 12345\n#POSTORT SKATTSTAD\n";

fn grammar(text: String) -> GrammarError {
    match parse(text) {
        Err(ParseError::Grammar(error)) => error,
        other => panic!("no grammar error: {:?}", other),
    }
}

#[test]
fn minimal_info_has_no_optional_values() {
    match parse(info_with(HEADER, CONTACT)).unwrap() {
        SRU::Info(header, contact) => {
            assert_eq!(header.product, "SRU");
            assert_eq!(header.media_id, None);
            assert_eq!(header.created_at, None);
            assert_eq!(header.program, None);
            assert_eq!(header.filename, "blanketter.sru");
            assert_eq!(contact.address, None);
            assert_eq!(contact.department, None);
            assert_eq!(contact.contact_person, None);
            assert_eq!(contact.email, None);
            assert_eq!(contact.phone_number, None);
            assert_eq!(contact.fax_number, None);
            assert_eq!(contact.zip_area, "SKATTSTAD");
        }
        other => panic!("not an Info document: {:?}", other),
    }
}

#[test]
fn postal_code_beyond_32_bits_is_an_invalid_number() {
    let contact = "#ORGNR 1\n#NAMN N\n#POSTNR 4294967296\n#POSTORT S\n";
    assert_eq!(
        grammar(info_with(HEADER, contact)),
        GrammarError::InvalidNumber { directive: Keyword::Postnr, position: 7 }
    );
    let contact = "#ORGNR 1\n#NAMN N\n#POSTNR 4294967295\n#POSTORT S\n";
    match parse(info_with(HEADER, contact)).unwrap() {
        SRU::Info(_, contact) => assert_eq!(contact.zip_code, 4294967295),
        other => panic!("not an Info document: {:?}", other),
    }
}

#[test]
fn postal_code_must_be_digits() {
    for bad in ["123 45", "-1", "12a", ""] {
        let contact = format!("#ORGNR 1\n#NAMN N\n#POSTNR {}\n#POSTORT S\n", bad);
        assert_eq!(
            grammar(info_with(HEADER, &contact)),
            GrammarError::InvalidNumber { directive: Keyword::Postnr, position: 7 }
        );
    }
}

#[test]
fn second_product_is_unexpected() {
    let header = "#PRODUKT SRU\n#PRODUKT SRU\n#FILNAMN f\n";
    assert_eq!(
        grammar(info_with(header, CONTACT)),
        GrammarError::UnexpectedDirective {
            found: Keyword::Produkt,
            position: 2,
            expected: Keyword::Filnamn,
        }
    );
}

#[test]
fn directives_out_of_order_are_unexpected() {
    let header = "#PRODUKT SRU\n#PROGRAM p\n#MEDIAID m\n#FILNAMN f\n";
    assert_eq!(
        grammar(info_with(header, CONTACT)),
        GrammarError::UnexpectedDirective {
            found: Keyword::Mediaid,
            position: 3,
            expected: Keyword::Filnamn,
        }
    );
}

#[test]
fn product_must_be_sru() {
    let header = "#PRODUKT XYZ\n#FILNAMN f\n";
    assert_eq!(
        grammar(info_with(header, CONTACT)),
        GrammarError::InvalidValue { directive: Keyword::Produkt, position: 1 }
    );
}

#[test]
fn bracket_takes_no_value() {
    assert_eq!(
        grammar("#DATABESKRIVNING_START now\n#PRODUKT SRU\n".to_string()),
        GrammarError::InvalidValue { directive: Keyword::DatabeskrivningStart, position: 0 }
    );
}

#[test]
fn created_must_be_a_timestamp() {
    for bad in ["2013-04-28 17:45:57", "20130428", "20130229 174557", "20130428 246060", "20130428  174557"] {
        let header = format!("#PRODUKT SRU\n#SKAPAD {}\n#FILNAMN f\n", bad);
        assert_eq!(
            grammar(info_with(&header, CONTACT)),
            GrammarError::InvalidTimestamp { directive: Keyword::Skapad, position: 2 }
        );
    }
}

#[test]
fn missing_directive_at_the_end_of_input() {
    assert_eq!(
        grammar("#DATABESKRIVNING_START\n#PRODUKT SRU\n".to_string()),
        GrammarError::MissingDirective { expected: Keyword::Filnamn }
    );
    assert_eq!(
        grammar("#BLANKETT N7-2020P1\n#IDENTITET 1 20200911 123456\n#NAMN n\n#BLANKETTSLUT\n".to_string()),
        GrammarError::MissingDirective { expected: Keyword::FilSlut }
    );
}

#[test]
fn directive_behind_the_end_is_trailing() {
    let text = info_with(HEADER, CONTACT) + "#FIL_SLUT\n";
    assert_eq!(
        grammar(text),
        GrammarError::TrailingDirective { found: Keyword::FilSlut, position: 10 }
    );
    assert_eq!(
        grammar("#FIL_SLUT\n#FIL_SLUT\n".to_string()),
        GrammarError::TrailingDirective { found: Keyword::FilSlut, position: 1 }
    );
}

#[test]
fn first_directive_decides_the_document() {
    assert_eq!(grammar("#PRODUKT SRU\n".to_string()), GrammarError::UnrecognizedDocument);
    assert_eq!(grammar("#MEDIELEV_START\n".to_string()), GrammarError::UnrecognizedDocument);
    assert_eq!(parse("#FIL_SLUT".to_string()), Ok(SRU::Blanketter(vec![])));
}

#[test]
fn first_error_in_the_order_of_the_input_wins() {
    let header = "#PRODUKT SRU\n#SKAPAD never\n#FILNAMN f\n";
    let contact = "#ORGNR 1\n#NAMN N\n#POSTNR x\n";
    assert_eq!(
        grammar(info_with(header, contact)),
        GrammarError::InvalidTimestamp { directive: Keyword::Skapad, position: 2 }
    );
}

#[test]
fn form_with_appendix_and_fields() {
    let text = "#BLANKETT INK3SU-2019P4 BIL1\n#IDENTITET 5566778899   20200911 123456\n#NAMN Föreningen\n#UPPGIFT 7011 20190101\n#UPPGIFT 8620 fri text  med   blanksteg\n#UPPGIFT 8822\n#BLANKETTSLUT\n#BLANKETT N7-2020P1\n#IDENTITET 1 20200911 123456\n#NAMN n\n#BLANKETTSLUT\n#FIL_SLUT\n";
    let blanketter = match parse(text.to_string()).unwrap() {
        SRU::Blanketter(blanketter) => blanketter,
        other => panic!("not forms: {:?}", other),
    };
    assert_eq!(blanketter.len(), 2);
    match &blanketter[0] {
        Blankett::RawBlankett(raw) => {
            assert_eq!(raw.document_id, "INK3SU-2019P4");
            assert_eq!(raw.document_appendix, Some("BIL1".to_string()));
            assert_eq!(raw.filing_year, 2019);
            assert_eq!(raw.filing_period, 4);
            assert_eq!(raw.organization_number, "5566778899");
            assert_eq!(raw.name, "Föreningen");
            assert_eq!(raw.system_info, None);
            assert_eq!(raw.fields.len(), 3);
            assert_eq!(raw.fields[1].field_code, 8620);
            assert_eq!(raw.fields[1].field_value, "fri text  med   blanksteg");
            assert_eq!(raw.fields[2].field_code, 8822);
            assert_eq!(raw.fields[2].field_value, "");
        }
        other => panic!("not raw: {:?}", other),
    }
}

#[test]
fn form_directive_errors() {
    let with = |blankett: &str, identitet: &str, uppgift: &str| {
        grammar(format!(
            "#BLANKETT {}\n#IDENTITET {}\n#NAMN n\n#UPPGIFT {}\n#BLANKETTSLUT\n#FIL_SLUT\n",
            blankett, identitet, uppgift
        ))
    };
    assert_eq!(
        with("A B C", "1 20200911 123456", "1 x"),
        GrammarError::InvalidValue { directive: Keyword::Blankett, position: 0 }
    );
    assert_eq!(
        with("", "1 20200911 123456", "1 x"),
        GrammarError::InvalidValue { directive: Keyword::Blankett, position: 0 }
    );
    assert_eq!(
        with("A", "", "1 x"),
        GrammarError::InvalidValue { directive: Keyword::Identitet, position: 1 }
    );
    assert_eq!(
        with("A", "1 20200911", "1 x"),
        GrammarError::InvalidTimestamp { directive: Keyword::Identitet, position: 1 }
    );
    assert_eq!(
        with("A", "1 20200911 123456", "65536 x"),
        GrammarError::InvalidNumber { directive: Keyword::Uppgift, position: 3 }
    );
    assert_eq!(
        with("A", "1 20200911 123456", "x 1"),
        GrammarError::InvalidNumber { directive: Keyword::Uppgift, position: 3 }
    );
}

#[test]
fn revision_tags() {
    assert_eq!(revision("N7-2020P1"), (2020, 1));
    assert_eq!(revision("INK3S-2019P4"), (2019, 4));
    assert_eq!(revision("X-0001P255"), (1, 255));
    assert_eq!(revision("X-2019P256"), (0, 0));
    assert_eq!(revision("X-2019Q4"), (0, 0));
    assert_eq!(revision("X-2019P"), (0, 0));
    assert_eq!(revision("X-19P4"), (0, 0));
    assert_eq!(revision("INK3S"), (0, 0));
    assert_eq!(revision(""), (0, 0));
    assert_eq!(revision("A-B-2019P4"), (0, 0));
}

#[test]
fn lexing_splits_at_markers_and_trims() {
    let tokens = lex("  #NAMN  a  b \r\n\t#FAX#EMAIL x@y").unwrap();
    assert_eq!(
        tokens,
        vec![
            Token { keyword: Keyword::Namn, value: "a  b".to_string() },
            Token { keyword: Keyword::Fax, value: String::new() },
            Token { keyword: Keyword::Email, value: "x@y".to_string() },
        ]
    );
    assert_eq!(render(&tokens), "#NAMN a  b\n#FAX \n#EMAIL x@y\n");
    assert_eq!(lex(&render(&tokens)), Ok(tokens));
    assert_eq!(lex(""), Ok(vec![]));
}

#[test]
fn lex_errors_carry_byte_offsets() {
    assert_eq!(lex("x"), Err(LexError { kind: LexErrorKind::StrayText, offset: 0 }));
    assert_eq!(lex(" \n x #NAMN"), Err(LexError { kind: LexErrorKind::StrayText, offset: 3 }));
    assert_eq!(lex("#"), Err(LexError { kind: LexErrorKind::BadDirective, offset: 0 }));
    assert_eq!(lex("#NAMN å𝄞#"), Err(LexError { kind: LexErrorKind::BadDirective, offset: 12 }));
    assert_eq!(lex("#NAMN1 x"), Err(LexError { kind: LexErrorKind::BadDirective, offset: 0 }));
    assert_eq!(lex("#NAMN x #OKÄND y"), Err(LexError { kind: LexErrorKind::BadDirective, offset: 8 }));
    assert_eq!(lex("#NAMN x #UNKNOWN y"), Err(LexError { kind: LexErrorKind::BadDirective, offset: 8 }));
}

#[test]
fn validate_string_gives_zero_for_documents_only() {
    assert_eq!(validate_string(&info_with(HEADER, CONTACT)), 0);
    assert_eq!(validate_string("#FIL_SLUT\n"), 0);
    assert_eq!(validate_string(""), 1);
    assert_eq!(validate_string("x"), 1);
    assert_eq!(validate_string("#PRODUKT SRU"), 1);
}

#[test]
fn lexer_gives_directives_one_at_a_time_and_starts_over() {
    let mut lexer = Lexer::new("#NAMN a\n#FAX 1 oops# ");
    let first = Token { keyword: Keyword::Namn, value: "a".to_string() };
    let second = Token { keyword: Keyword::Fax, value: "1 oops".to_string() };
    let error = LexError { kind: LexErrorKind::BadDirective, offset: 19 };
    assert_eq!(lexer.next_token(), Some(Ok(first.clone())));
    assert_eq!(lexer.next_token(), Some(Ok(second.clone())));
    assert_eq!(lexer.next_token(), Some(Err(error)));
    assert_eq!(lexer.next_token(), Some(Err(error)));
    lexer.restart();
    assert_eq!(lexer.next_token(), Some(Ok(first)));
    assert_eq!(lexer.next_token(), Some(Ok(second)));
    let mut done = Lexer::new("#FIL_SLUT \n ");
    assert_eq!(
        done.next_token(),
        Some(Ok(Token { keyword: Keyword::FilSlut, value: String::new() }))
    );
    assert_eq!(done.next_token(), None);
    assert_eq!(done.next_token(), None);
}
