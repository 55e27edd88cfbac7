use minskatt::grammar::GrammarError;
use minskatt::lexer::{Keyword, LexError, LexErrorKind};
use minskatt::sru::{Blankett, BlankettField, InfoContact, InfoHeader, RawBlankett, SRU};
use minskatt::sru_parser::{parse, ParseError};
use minskatt::timestamp::Timestamp;

const INFO: &str = r"#DATABESKRIVNING_START
#PRODUKT SRU
#MEDIAID DISK_12
#SKAPAD 20130428 174557
#PROGRAM SRUDEKLARATION 1.4
#FILNAMN blanketter.sru
#DATABESKRIVNING_SLUT
#MEDIELEV_START
#ORGNR 191111111111
#NAMN Databokföraren
#ADRESS BOX 159
#POSTNR 12345
#POSTORT SKATTSTAD
#AVDELNING Ekonomi
#KONTAKT KARL KARLSSON
#EMAIL kk@Databokföraren
#TELEFON 08-2121212
#FAX 08-1212121
#MEDIELEV_SLUT
        ";

fn text(s: &str) -> Option<String> {
    Some(s.to_string())
}

fn expected_info() -> SRU {
    SRU::Info(
        InfoHeader {
            product: "SRU".to_string(),
            media_id: text("DISK_12"),
            created_at: Timestamp::new(2013, 4, 28, 17, 45, 57),
            program: text("SRUDEKLARATION 1.4"),
            filename: "blanketter.sru".to_string(),
        },
        InfoContact {
            address: text("BOX 159"),
            contact_person: text("KARL KARLSSON"),
            department: text("Ekonomi"),
            email: text("kk@Databokföraren"),
            fax_number: text("08-1212121"),
            name: "Databokföraren".to_string(),
            organization_number: "191111111111".to_string(),
            phone_number: text("08-2121212"),
            zip_area: "SKATTSTAD".to_string(),
            zip_code: 12345,
        },
    )
}

#[test]
fn parse_info() {
    let res = parse(INFO.to_string()).unwrap();
    assert_eq!(format!("{:?}", res),
        "Info(InfoHeader { product: \"SRU\", media_id: Some(\"DISK_12\"), created_at: Some(Timestamp { date: CalendarDate { year: 2013, month: 4, day: 28 }, hour: 17, minute: 45, second: 57 }), program: Some(\"SRUDEKLARATION 1.4\"), filename: \"blanketter.sru\" }, InfoContact { address: Some(\"BOX 159\"), contact_person: Some(\"KARL KARLSSON\"), department: Some(\"Ekonomi\"), email: Some(\"kk@Databokföraren\"), fax_number: Some(\"08-1212121\"), name: \"Databokföraren\", organization_number: \"191111111111\", phone_number: Some(\"08-2121212\"), zip_area: \"SKATTSTAD\", zip_code: 12345 })");
    assert_eq!(res, expected_info());
}

#[test]
fn parse_blanketter() {
    let res = parse(
        r"
#BLANKETT N7-2020P1
#IDENTITET 199704110100 20200911 123456
#NAMN Malin Männikkö 
#SYSTEMINFO markedasdone 20200908 
#UPPGIFT 7011 010102019
#UPPGIFT 7012 31122019
#BLANKETTSLUT
#FIL_SLUT
        "
        .to_string(),
    );
    assert_eq!(
        res,
        Err(ParseError::Grammar(GrammarError::UnexpectedDirective {
            found: Keyword::Uppgift,
            position: 4,
            expected: Keyword::Blankettslut,
        }))
    );
}

#[test]
fn parse_blankett_with_two_fields() {
    let res = parse(
        r"
#BLANKETT N7-2020P1
#IDENTITET 199704110100 20200911 123456
#NAMN Malin Männikkö 
#UPPGIFT 7011 010102019
#UPPGIFT 7012 31122019
#SYSTEMINFO markedasdone 20200908 
#BLANKETTSLUT
#FIL_SLUT
        "
        .to_string(),
    )
    .unwrap();
    let expected = SRU::Blanketter(vec![Blankett::RawBlankett(RawBlankett {
        document_id: "N7-2020P1".to_string(),
        document_appendix: None,
        filing_year: 2020,
        filing_period: 1,
        organization_number: "199704110100".to_string(),
        created_at: Timestamp::new(2020, 9, 11, 12, 34, 56).unwrap(),
        name: "Malin Männikkö".to_string(),
        fields: vec![
            BlankettField { field_code: 7011, field_value: "010102019".to_string() },
            BlankettField { field_code: 7012, field_value: "31122019".to_string() },
        ],
        system_info: text("markedasdone 20200908"),
    })]);
    assert_eq!(res, expected);
}

#[test]
fn parse_info_on_one_line() {
    let one_line = "#DATABESKRIVNING_START #PRODUKT SRU #MEDIAID DISK_12 #SKAPAD 20130428 174557 #PROGRAM SRUDEKLARATION 1.4 #FILNAMN blanketter.sru #DATABESKRIVNING_SLUT #MEDIELEV_START #ORGNR 191111111111 #NAMN Databokföraren #ADRESS BOX 159 #POSTNR 12345 #POSTORT SKATTSTAD #AVDELNING Ekonomi #KONTAKT KARL KARLSSON #EMAIL kk@Databokföraren #TELEFON 08-2121212 #FAX 08-1212121 #MEDIELEV_SLUT";
    match parse(one_line.to_string()).unwrap() {
        SRU::Info(header, contact) => {
            assert_eq!(header.media_id, text("DISK_12"));
            assert_eq!(header.created_at, Timestamp::new(2013, 4, 28, 17, 45, 57));
            assert_eq!(contact.organization_number, "191111111111");
            assert_eq!(contact.zip_code, 12345);
        }
        other => panic!("not an Info document: {:?}", other),
    }
}

#[test]
fn empty_input_is_unrecognized() {
    assert_eq!(parse(String::new()), Err(ParseError::Grammar(GrammarError::UnrecognizedDocument)));
    assert_eq!(
        parse(" \n\t ".to_string()),
        Err(ParseError::Grammar(GrammarError::UnrecognizedDocument))
    );
}

#[test]
fn stray_text_is_a_lex_error_with_its_byte_offset() {
    assert_eq!(
        parse("ö x #FIL_SLUT".to_string()),
        Err(ParseError::Lex(LexError { kind: LexErrorKind::StrayText, offset: 0 }))
    );
    assert_eq!(
        parse("#NAMN ö\n#namn".to_string()),
        Err(ParseError::Lex(LexError { kind: LexErrorKind::BadDirective, offset: 9 }))
    );
}

#[test]
fn info_round_trip() {
    let doc = parse(INFO.to_string()).unwrap();
    let written = doc.to_text();
    assert_eq!(
        written,
        "#DATABESKRIVNING_START\n#PRODUKT SRU\n#MEDIAID DISK_12\n#SKAPAD 20130428 174557\n#PROGRAM SRUDEKLARATION 1.4\n#FILNAMN blanketter.sru\n#DATABESKRIVNING_SLUT\n#MEDIELEV_START\n#ORGNR 191111111111\n#NAMN Databokföraren\n#ADRESS BOX 159\n#POSTNR 12345\n#POSTORT SKATTSTAD\n#AVDELNING Ekonomi\n#KONTAKT KARL KARLSSON\n#EMAIL kk@Databokföraren\n#TELEFON 08-2121212\n#FAX 08-1212121\n#MEDIELEV_SLUT\n"
    );
    assert_eq!(parse(written), Ok(doc));
}

#[test]
fn parsing_twice_gives_the_same() {
    assert_eq!(parse(INFO.to_string()), parse(INFO.to_string()));
    let broken = INFO.replace("#POSTNR 12345", "#POSTNR 12345678901");
    assert_eq!(parse(broken.clone()), parse(broken.clone()));
    assert_eq!(
        parse(broken),
        Err(ParseError::Grammar(GrammarError::InvalidNumber {
            directive: Keyword::Postnr,
            position: 11,
        }))
    );
}

#[test]
fn written_info_is_read_back_whatever_was_left_out() {
    let header = InfoHeader {
        product: "SRU".to_string(),
        media_id: None,
        created_at: Timestamp::new(1, 2, 3, 4, 5, 6),
        program: text(""),
        filename: String::new(),
    };
    let contact = InfoContact {
        address: None,
        contact_person: text("A  B"),
        department: None,
        email: None,
        fax_number: text("0"),
        name: "Å".to_string(),
        organization_number: "1".to_string(),
        phone_number: None,
        zip_area: "x y".to_string(),
        zip_code: 0,
    };
    assert_eq!(
        header.to_text(),
        "#DATABESKRIVNING_START\n#PRODUKT SRU\n#SKAPAD 00010203 040506\n#PROGRAM \n#FILNAMN \n#DATABESKRIVNING_SLUT\n"
    );
    assert_eq!(
        contact.to_text(),
        "#MEDIELEV_START\n#ORGNR 1\n#NAMN Å\n#POSTNR 0\n#POSTORT x y\n#KONTAKT A  B\n#FAX 0\n#MEDIELEV_SLUT\n"
    );
    let document = SRU::Info(header, contact);
    assert!(document.is_wf());
    assert_eq!(parse(document.to_text()), Ok(document));
}

#[test]
fn header_with_another_product_is_not_well_formed() {
    let header = InfoHeader {
        product: "XYZ".to_string(),
        media_id: None,
        created_at: None,
        program: None,
        filename: "f".to_string(),
    };
    assert!(!header.is_wf());
}

#[test]
fn forms_are_not_written() {
    let text = "#BLANKETT N7-2020P1\n#IDENTITET 1 20200911 123456\n#NAMN n\n#BLANKETTSLUT\n#FIL_SLUT\n";
    let document = parse(text.to_string()).unwrap();
    assert!(document.is_wf());
    assert_eq!(document.to_text(), "");
}
