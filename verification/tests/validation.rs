use minskatt::forms::ValidDocument;
use minskatt::schema::{
    validate, validate_all, validate_blankett, InvalidReason, ValidationError,
};
use minskatt::sru::{Blankett, BlankettField, RawBlankett, SRU};
use minskatt::sru_parser::parse;
use minskatt::timestamp::{CalendarDate, Timestamp};

fn field(code: u16, value: &str) -> BlankettField {
    BlankettField { field_code: code, field_value: value.to_string() }
}

fn raw(document_id: &str, year: u16, period: u8, fields: Vec<BlankettField>) -> RawBlankett {
    RawBlankett {
        document_id: document_id.to_string(),
        document_appendix: None,
        filing_year: year,
        filing_period: period,
        organization_number: "199704110100".to_string(),
        created_at: Timestamp::new(2020, 9, 11, 12, 34, 56).unwrap(),
        name: "Malin Männikkö".to_string(),
        fields,
        system_info: Some("markedasdone 20200908".to_string()),
    }
}

fn fiscal_year() -> Vec<BlankettField> {
    vec![field(7011, "20190101"), field(7012, "20191231")]
}

#[test]
fn form_without_schema_is_unsupported() {
    let blankett = raw("N7-2020P1", 2020, 1, fiscal_year());
    assert_eq!(validate(&blankett), Err(ValidationError::UnsupportedForm));
}

#[test]
fn form_with_wrong_year_or_period_is_unsupported() {
    assert_eq!(
        validate(&raw("INK3S-2019P4", 2020, 4, fiscal_year())),
        Err(ValidationError::UnsupportedForm)
    );
    assert_eq!(
        validate(&raw("INK3S-2019P4", 2019, 3, fiscal_year())),
        Err(ValidationError::UnsupportedForm)
    );
}

#[test]
fn duplicate_field_is_an_error() {
    let mut fields = fiscal_year();
    fields.push(field(8686, "100"));
    fields.push(field(8686, "100"));
    assert_eq!(
        validate(&raw("INK3S-2019P4", 2019, 4, fields)),
        Err(ValidationError::DuplicateField(8686))
    );
}

#[test]
fn unknown_field_is_an_error() {
    let mut fields = fiscal_year();
    fields.push(field(8822, "X"));
    assert_eq!(
        validate(&raw("INK3S-2019P4", 2019, 4, fields)),
        Err(ValidationError::UnknownField(8822))
    );
}

#[test]
fn unknown_comes_before_duplicate_and_first_error_wins() {
    let fields = vec![field(1, "a"), field(7011, "x"), field(7011, "y")];
    assert_eq!(
        validate(&raw("INK3S-2019P4", 2019, 4, fields)),
        Err(ValidationError::UnknownField(1))
    );
    let fields = vec![field(7011, "20190101"), field(7011, "y"), field(1, "a")];
    assert_eq!(
        validate(&raw("INK3S-2019P4", 2019, 4, fields)),
        Err(ValidationError::DuplicateField(7011))
    );
}

#[test]
fn invalid_values_name_code_and_reason() {
    let with = |code: u16, value: &str| {
        let mut fields = fiscal_year();
        fields.push(field(code, value));
        validate(&raw("INK3SU-2019P4", 2019, 4, fields))
    };
    assert_eq!(
        with(8640, "12a"),
        Err(ValidationError::InvalidValue(8640, InvalidReason::NotAnAmount))
    );
    assert_eq!(
        with(8640, "4294967296"),
        Err(ValidationError::InvalidValue(8640, InvalidReason::NotAnAmount))
    );
    assert_eq!(with(8640, ""), Err(ValidationError::InvalidValue(8640, InvalidReason::NotAnAmount)));
    assert_eq!(with(8822, "ja"), Err(ValidationError::InvalidValue(8822, InvalidReason::NotAFlag)));
    assert_eq!(
        with(8620, "0123456789012345678901234567890123456"),
        Err(ValidationError::InvalidValue(8620, InvalidReason::TooLong))
    );
    assert_eq!(
        validate(&raw("INK3SU-2019P4", 2019, 4, vec![field(7011, "20190229")])),
        Err(ValidationError::InvalidValue(7011, InvalidReason::NotADate))
    );
    assert_eq!(
        validate(&raw("INK3SU-2019P4", 2019, 4, vec![field(7011, "31122019")])),
        Err(ValidationError::InvalidValue(7011, InvalidReason::NotADate))
    );
}

#[test]
fn missing_required_field_is_an_error() {
    assert_eq!(
        validate(&raw("INK3S-2019P4", 2019, 4, vec![])),
        Err(ValidationError::MissingField(7011))
    );
    assert_eq!(
        validate(&raw("INK3S-2019P4", 2019, 4, vec![field(7011, "20190101")])),
        Err(ValidationError::MissingField(7012))
    );
    assert_eq!(
        validate(&raw("INK3S-2019P4", 2019, 4, vec![field(7012, "20191231")])),
        Err(ValidationError::MissingField(7011))
    );
}

#[test]
fn valid_ink3s_is_typed() {
    let fields = vec![
        field(8695, "4294967295"),
        field(7012, "20200229"),
        field(8040, "X"),
        field(7011, "20190301"),
        field(8044, "N"),
        field(8686, "0012"),
    ];
    let blankett = raw("INK3S-2019P4", 2019, 4, fields);
    let validated = validate(&blankett).unwrap();
    assert_eq!(validated.document_id, blankett.document_id);
    assert_eq!(validated.document_appendix, blankett.document_appendix);
    assert_eq!(validated.filing_year, 2019);
    assert_eq!(validated.filing_period, 4);
    assert_eq!(validated.organization_number, blankett.organization_number);
    assert_eq!(validated.created_at, blankett.created_at);
    assert_eq!(validated.name, blankett.name);
    assert_eq!(validated.system_info, blankett.system_info);
    match &validated.document {
        ValidDocument::INK3S(form) => {
            assert_eq!(form.fiscal_year_start_date, CalendarDate::new(2019, 3, 1));
            assert_eq!(form.fiscal_year_end_date, CalendarDate::new(2020, 2, 29));
            assert_eq!(form.excess, Some(4294967295));
            assert_eq!(form.adjusted_result_from_previous_page_gains, Some(12));
            assert_eq!(form.deficit, None);
            assert!(form.contractor_has_assisted_with_annual_accounts_reports);
            assert!(!form.annual_accounts_have_been_audited);
        }
        other => panic!("not INK3S: {:?}", other),
    }
}

#[test]
fn valid_ink3su_is_typed() {
    let fields = vec![
        field(7011, "20190101"),
        field(7012, "20191231"),
        field(8620, "012345678901234567890123456789012345"),
        field(8822, "J"),
        field(8640, "1500"),
    ];
    let validated = validate(&raw("INK3SU-2019P4", 2019, 4, fields)).unwrap();
    match &validated.document {
        ValidDocument::INK3SU(form) => {
            assert!(form.purpose_athletics);
            assert!(!form.purpose_culture);
            assert_eq!(
                form.purpose_other_equvivalent,
                Some("012345678901234567890123456789012345".to_string())
            );
            assert_eq!(form.purpose_of_the_foundation_other_equvivalent_operation, None);
            assert_eq!(form.NGO_income_membershipfees, Some(1500));
            assert_eq!(form.NGO_income_property, None);
        }
        other => panic!("not INK3SU: {:?}", other),
    }
}

#[test]
fn validating_twice_gives_the_same() {
    let good = raw("INK3S-2019P4", 2019, 4, fiscal_year());
    assert_eq!(validate(&good), validate(&good));
    let bad = raw("INK3S-2019P4", 2019, 4, vec![field(7011, "x")]);
    assert_eq!(validate(&bad), validate(&bad));
    let validated = validate(&good).unwrap();
    assert_eq!(
        validate_blankett(Blankett::ValidatedBlankett(validated.clone())),
        Ok(validated)
    );
}

#[test]
fn each_form_is_validated_by_itself() {
    let text = "#BLANKETT INK3S-2019P4\n#IDENTITET 199704110100 20200911 123456\n#NAMN A\n#UPPGIFT 7011 20190101\n#UPPGIFT 7012 20191231\n#BLANKETTSLUT\n#BLANKETT N7-2020P1\n#IDENTITET 199704110100 20200911 123456\n#NAMN B\n#BLANKETTSLUT\n#BLANKETT INK3SU-2019P4 BIL1\n#IDENTITET 199704110100 20200911 123456\n#NAMN C\n#UPPGIFT 7011 20190101\n#UPPGIFT 7011 20190101\n#BLANKETTSLUT\n#FIL_SLUT\n";
    let blanketter = match parse(text.to_string()).unwrap() {
        SRU::Blanketter(blanketter) => blanketter,
        other => panic!("not forms: {:?}", other),
    };
    assert_eq!(blanketter.len(), 3);
    let results = validate_all(blanketter);
    assert_eq!(results.len(), 3);
    assert_eq!(results[0].as_ref().map(|v| v.name.as_str()), Ok("A"));
    assert_eq!(results[1], Err(ValidationError::UnsupportedForm));
    assert_eq!(results[2], Err(ValidationError::DuplicateField(7011)));
}

#[test]
fn validated_form_holds_what_its_schema_asks_for() {
    for id in ["INK3S-2019P4", "INK3SU-2019P4"] {
        let validated = validate(&raw(id, 2019, 4, fiscal_year())).unwrap();
        let (start, end) = match &validated.document {
            ValidDocument::INK3S(form) => (form.fiscal_year_start_date, form.fiscal_year_end_date),
            ValidDocument::INK3SU(form) => (form.fiscal_year_start_date, form.fiscal_year_end_date),
        };
        assert_eq!(start, CalendarDate::new(2019, 1, 1));
        assert_eq!(end, CalendarDate::new(2019, 12, 31));
    }
}
