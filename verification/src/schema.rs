//! Validating a form against its schema.
use std::collections::HashMap;
use vstd::prelude::*;
use vstd::string::StringExecFns;
use crate::forms::{
    amount_value, date_value, field_kind, find_form, fits, flag_value, is_required, kind_of_field,
    lookup_form, required_codes, required_fields, text_value, FieldKind, Form, INK3S2019P4,
    INK3SU2019P4, TypedValue, ValidDocument, ValidDocumentView,
};
use crate::sru::{
    field_views, Blankett, BlankettField, BlankettFieldView, BlankettView, RawBlankett,
    RawBlankettView, ValidatedBlankett, ValidatedBlankettView,
};
use crate::text::{chars_of, parse_bounded, parse_decimal, push_decimal, render_decimal, text_of};
use crate::timestamp::{lemma_parsed_stamp_wf, parse_date, CalendarDate};

verus! {

/// Why the text of a field is no value of the type that the schema declares.
#[derive(Clone, Copy, Debug, PartialEq, Eq, Structural)]
pub enum InvalidReason {
    /// An amount is asked for, and the text is no decimal number that fits 32 bits.
    NotAnAmount,
    /// A date is asked for, and the text is not `YYYYMMDD` with a day that exists.
    NotADate,
    /// A checkbox is asked for, and the text is none of `X`, `J` and `N`.
    NotAFlag,
    /// The text is longer than the schema allows.
    TooLong,
}

/// Why a form does not follow its schema.
#[derive(Clone, Copy, Debug, PartialEq, Eq, Structural)]
pub enum ValidationError {
    /// The registry holds no schema for the document identifier, year and period.
    UnsupportedForm,
    /// The schema has no field with this code.
    UnknownField(u16),
    /// The form supplies this field more than once.
    DuplicateField(u16),
    /// The text of this field is no value of the type that the schema declares.
    InvalidValue(u16, InvalidReason),
    /// The schema asks for this field, and the form does not supply it.
    MissingField(u16),
}

impl InvalidReason {
    /// The reason in words.
    pub open spec fn message(self) -> Seq<char> {
        match self {
            InvalidReason::NotAnAmount => "holds no amount that fits 32 bits"@,
            InvalidReason::NotADate => "holds no date"@,
            InvalidReason::NotAFlag => "holds no checkbox mark"@,
            InvalidReason::TooLong => "holds a text that is too long"@,
        }
    }

    /// The reason in words.
    pub fn describe(&self) -> (s: &'static str)
        ensures
            s@ == self.message(),
    {
        match self {
            InvalidReason::NotAnAmount => "holds no amount that fits 32 bits",
            InvalidReason::NotADate => "holds no date",
            InvalidReason::NotAFlag => "holds no checkbox mark",
            InvalidReason::TooLong => "holds a text that is too long",
        }
    }
}

impl ValidationError {
    /// The error in words: the field that is at fault, and why.
    pub open spec fn message(self) -> Seq<char> {
        match self {
            ValidationError::UnsupportedForm => "validation: the registry holds no schema for the form"@,
            ValidationError::UnknownField(code) => "validation: field "@ + render_decimal(
                code as nat,
            ) + " is not in the schema"@,
            ValidationError::DuplicateField(code) => "validation: field "@ + render_decimal(
                code as nat,
            ) + " is supplied more than once"@,
            ValidationError::InvalidValue(code, reason) => "validation: field "@ + render_decimal(
                code as nat,
            ) + " "@ + reason.message(),
            ValidationError::MissingField(code) => "validation: field "@ + render_decimal(
                code as nat,
            ) + " is asked for and not supplied"@,
        }
    }

    /// The error in words.
    pub fn describe(&self) -> (s: String)
        ensures
            s@ == self.message(),
    {
        let mut s = String::new();
        match *self {
            ValidationError::UnsupportedForm => {
                s.append("validation: the registry holds no schema for the form");
            },
            ValidationError::UnknownField(code) => {
                s.append("validation: field ");
                push_decimal(&mut s, code as u64);
                s.append(" is not in the schema");
            },
            ValidationError::DuplicateField(code) => {
                s.append("validation: field ");
                push_decimal(&mut s, code as u64);
                s.append(" is supplied more than once");
            },
            ValidationError::InvalidValue(code, reason) => {
                s.append("validation: field ");
                push_decimal(&mut s, code as u64);
                s.append(" ");
                s.append(reason.describe());
            },
            ValidationError::MissingField(code) => {
                s.append("validation: field ");
                push_decimal(&mut s, code as u64);
                s.append(" is asked for and not supplied");
            },
        }
        assert(s@ =~= self.message());
        s
    }
}

/// The value of a field, in the type that its schema declares.
#[derive(Clone, Debug, PartialEq, Eq)]
pub enum FieldValue {
    Amount(u32),
    Date(CalendarDate),
    Flag(bool),
    Text(String),
}

impl View for FieldValue {
    type V = TypedValue;

    open spec fn view(&self) -> TypedValue {
        match self {
            FieldValue::Amount(n) => TypedValue::Amount(*n),
            FieldValue::Date(d) => TypedValue::Date(*d),
            FieldValue::Flag(b) => TypedValue::Flag(*b),
            FieldValue::Text(s) => TypedValue::Text(s@),
        }
    }
}

/// The value that `text` denotes as a value of kind `kind`, or why it denotes none.
pub open spec fn typed_field(kind: FieldKind, text: Seq<char>) -> Result<TypedValue, InvalidReason> {
    match kind {
        FieldKind::Amount => match parse_decimal(text) {
            Some(n) if n <= u32::MAX => Ok(TypedValue::Amount(n as u32)),
            _ => Err(InvalidReason::NotAnAmount),
        },
        FieldKind::Date => match parse_date(text) {
            Some(d) => Ok(TypedValue::Date(d)),
            None => Err(InvalidReason::NotADate),
        },
        FieldKind::Flag => if text == seq!['X'] || text == seq!['J'] {
            Ok(TypedValue::Flag(true))
        } else if text == seq!['N'] {
            Ok(TypedValue::Flag(false))
        } else {
            Err(InvalidReason::NotAFlag)
        },
        FieldKind::Text { max_len } => if text.len() <= max_len {
            Ok(TypedValue::Text(text))
        } else {
            Err(InvalidReason::TooLong)
        },
    }
}

/// The views of a result of reading a field.
pub open spec fn field_result_view(r: Result<FieldValue, InvalidReason>) -> Result<
    TypedValue,
    InvalidReason,
> {
    match r {
        Ok(v) => Ok(v@),
        Err(e) => Err(e),
    }
}

/// Reads the text of a field as a value of kind `kind`.
pub fn read_field(kind: FieldKind, text: &str) -> (r: Result<FieldValue, InvalidReason>)
    ensures
        field_result_view(r) == typed_field(kind, text@),
{
    let chars = chars_of(text);
    let n = chars.len();
    assert(chars@.subrange(0, n as int) =~= chars@);
    match kind {
        FieldKind::Amount => match parse_bounded(&chars, 0, n, u32::MAX) {
            Some(amount) => Ok(FieldValue::Amount(amount)),
            None => Err(InvalidReason::NotAnAmount),
        },
        FieldKind::Date => match CalendarDate::parse(&chars, 0, n) {
            Some(d) => Ok(FieldValue::Date(d)),
            None => Err(InvalidReason::NotADate),
        },
        FieldKind::Flag => {
            if n == 1 && (chars[0] == 'X' || chars[0] == 'J') {
                assert(chars@ =~= seq![chars@[0]]);
                Ok(FieldValue::Flag(true))
            } else if n == 1 && chars[0] == 'N' {
                assert(chars@ =~= seq!['N']);
                Ok(FieldValue::Flag(false))
            } else {
                assert(chars@ != seq!['X'] && chars@ != seq!['J'] && chars@ != seq!['N']) by {
                    if n == 1 {
                        assert(seq!['X'][0] == 'X');
                        assert(seq!['J'][0] == 'J');
                        assert(seq!['N'][0] == 'N');
                    } else {
                        assert(seq!['X'].len() == 1);
                        assert(seq!['J'].len() == 1);
                        assert(seq!['N'].len() == 1);
                    }
                }
                Err(InvalidReason::NotAFlag)
            }
        },
        FieldKind::Text { max_len } => if n <= max_len {
            Ok(FieldValue::Text(text_of(&chars, 0, n)))
        } else {
            Err(InvalidReason::TooLong)
        },
    }
}

/// Whether one of the first `i` fields has the code `code`.
pub open spec fn supplied_before(fields: Seq<BlankettFieldView>, code: u16, i: int) -> bool {
    exists|j: int| 0 <= j < i && j < fields.len() && (#[trigger] fields[j]).field_code == code
}

/// Whether one of the fields has the code `code`.
pub open spec fn supplies(fields: Seq<BlankettFieldView>, code: u16) -> bool {
    supplied_before(fields, code, fields.len() as int)
}

/// What is wrong with the field at index `i`, if anything: its code is not in the
/// schema; or an earlier field has the same code; or its text is no value of its type.
pub open spec fn field_error(form: Form, fields: Seq<BlankettFieldView>, i: int) -> Option<
    ValidationError,
> {
    let code = fields[i].field_code;
    match field_kind(form, code) {
        None => Some(ValidationError::UnknownField(code)),
        Some(kind) => if supplied_before(fields, code, i) {
            Some(ValidationError::DuplicateField(code))
        } else {
            match typed_field(kind, fields[i].field_value) {
                Err(reason) => Some(ValidationError::InvalidValue(code, reason)),
                Ok(_) => None,
            }
        },
    }
}

/// What is wrong with the first field from index `i` on that has something wrong.
pub open spec fn first_field_error(form: Form, fields: Seq<BlankettFieldView>, i: int) -> Option<
    ValidationError,
>
    decreases fields.len() - i,
{
    if i < 0 || i >= fields.len() {
        None
    } else {
        match field_error(form, fields, i) {
            Some(error) => Some(error),
            None => first_field_error(form, fields, i + 1),
        }
    }
}

/// The first of the codes `required[k..]` that no field has.
pub open spec fn first_missing(fields: Seq<BlankettFieldView>, required: Seq<u16>, k: int) -> Option<
    u16,
>
    decreases required.len() - k,
{
    if k < 0 || k >= required.len() {
        None
    } else if !supplies(fields, required[k]) {
        Some(required[k])
    } else {
        first_missing(fields, required, k + 1)
    }
}

/// The index of the first field from `i` on that has the code `code`; the number of
/// fields if there is none.
pub open spec fn first_index(fields: Seq<BlankettFieldView>, code: u16, i: int) -> int
    decreases fields.len() - i,
{
    if 0 <= i < fields.len() && fields[i].field_code != code {
        first_index(fields, code, i + 1)
    } else {
        i
    }
}

/// The typed value of field `code` of a form with the fields `fields`: the value of the
/// text supplied for it; for a checkbox that is not supplied, no; else nothing.
pub open spec fn value_for(form: Form, fields: Seq<BlankettFieldView>, code: u16) -> Option<
    TypedValue,
> {
    match field_kind(form, code) {
        None => None,
        Some(kind) => if supplies(fields, code) {
            match typed_field(kind, fields[first_index(fields, code, 0)].field_value) {
                Ok(value) => Some(value),
                Err(_) => None,
            }
        } else if kind == FieldKind::Flag {
            Some(TypedValue::Flag(false))
        } else {
            None
        },
    }
}

/// The typed fields of a form with the fields `fields`, as a mapping from codes to values.
pub open spec fn typed_document(form: Form, fields: Seq<BlankettFieldView>) -> ValidDocumentView {
    ValidDocumentView {
        form,
        values: Map::new(
            |code: u16| value_for(form, fields, code) is Some,
            |code: u16| value_for(form, fields, code)->Some_0,
        ),
    }
}

/// The validated form of `raw`, or the first thing that is wrong with it. The schema is
/// looked up first; then the fields are gone through in their order; then the fields that
/// the schema asks for are looked for. What surrounds the fields is carried over unchanged.
pub open spec fn validate_spec(raw: RawBlankettView) -> Result<
    ValidatedBlankettView,
    ValidationError,
> {
    match lookup_form(raw.document_id, raw.filing_year, raw.filing_period) {
        None => Err(ValidationError::UnsupportedForm),
        Some(form) => match first_field_error(form, raw.fields, 0) {
            Some(error) => Err(error),
            None => match first_missing(raw.fields, required_codes(form), 0) {
                Some(code) => Err(ValidationError::MissingField(code)),
                None => Ok(
                    ValidatedBlankettView {
                        document_id: raw.document_id,
                        document_appendix: raw.document_appendix,
                        filing_year: raw.filing_year,
                        filing_period: raw.filing_period,
                        organization_number: raw.organization_number,
                        created_at: raw.created_at,
                        name: raw.name,
                        document: typed_document(form, raw.fields),
                        system_info: raw.system_info,
                    },
                ),
            },
        },
    }
}

/// The views of a run of typed values.
spec fn typed_views(values: Seq<FieldValue>) -> Seq<TypedValue> {
    values.map_values(|v: FieldValue| v@)
}

/// What going through the fields leaves behind where nothing is wrong with them: the
/// typed value of each field, and for each code the index of the field that has it.
spec fn checked(
    form: Form,
    fields: Seq<BlankettFieldView>,
    typed: Seq<TypedValue>,
    index: Map<u16, usize>,
    upto: int,
) -> bool {
    &&& typed.len() == upto
    &&& forall|j: int|
        0 <= j < upto ==> {
            &&& field_kind(form, (#[trigger] fields[j]).field_code) matches Some(kind)
            &&& typed_field(kind, fields[j].field_value) == Ok::<TypedValue, InvalidReason>(typed[j])
        }
    &&& forall|code: u16| #[trigger]
        index.dom().contains(code) <==> supplied_before(fields, code, upto)
    &&& forall|code: u16| #[trigger]
        index.dom().contains(code) ==> {
            &&& 0 <= index[code] < upto
            &&& fields[index[code] as int].field_code == code
            &&& forall|j: int| 0 <= j < index[code] ==> (#[trigger] fields[j]).field_code != code
        }
}

/// The first field with a code is the one before which no field has the code.
proof fn lemma_first_index(fields: Seq<BlankettFieldView>, code: u16, i: int, k: int)
    requires
        0 <= i <= k < fields.len(),
        fields[k].field_code == code,
        forall|j: int| i <= j < k ==> (#[trigger] fields[j]).field_code != code,
    ensures
        first_index(fields, code, i) == k,
    decreases k - i,
{
    if i < k {
        lemma_first_index(fields, code, i + 1, k);
    }
}

/// Goes through the fields in their order and reads each as the schema declares it.
fn check_fields(form: Form, fields: &Vec<BlankettField>) -> (r: Result<
    (Vec<FieldValue>, HashMap<u16, usize>),
    ValidationError,
>)
    ensures
        match r {
            Err(error) => first_field_error(form, field_views(fields@), 0) == Some(error),
            Ok((typed, index)) => {
                &&& first_field_error(form, field_views(fields@), 0) is None
                &&& checked(
                    form,
                    field_views(fields@),
                    typed_views(typed@),
                    index@,
                    fields.len() as int,
                )
            },
        },
{
    broadcast use vstd::std_specs::hash::group_hash_axioms;

    let ghost views = field_views(fields@);
    let mut typed: Vec<FieldValue> = Vec::new();
    let mut index: HashMap<u16, usize> = HashMap::new();
    let mut i: usize = 0;
    while i < fields.len()
        invariant
            i <= fields.len(),
            views == field_views(fields@),
            first_field_error(form, views, 0) == first_field_error(form, views, i as int),
            checked(form, views, typed_views(typed@), index@, i as int),
        decreases fields.len() - i,
    {
        let field = &fields[i];
        let code = field.field_code;
        assert(views[i as int] == field@);
        let kind = match kind_of_field(form, code) {
            None => {
                return Err(ValidationError::UnknownField(code));
            },
            Some(kind) => kind,
        };
        if index.contains_key(&code) {
            return Err(ValidationError::DuplicateField(code));
        }
        let value = match read_field(kind, field.field_value.as_str()) {
            Err(reason) => {
                return Err(ValidationError::InvalidValue(code, reason));
            },
            Ok(value) => value,
        };
        proof {
            let before = typed_views(typed@);
            let after = typed_views(typed@.push(value));
            assert(after =~= before.push(value@));
            let old_index = index@;
            let new_index = index@.insert(code, i);
            assert forall|c: u16| #[trigger]
                new_index.dom().contains(c) <==> supplied_before(views, c, i + 1) by {
                if supplied_before(views, c, i + 1) {
                    let j = choose|j: int|
                        0 <= j < i + 1 && j < views.len() && (#[trigger] views[j]).field_code == c;
                    if j < i {
                        assert(supplied_before(views, c, i as int));
                    }
                }
                if old_index.dom().contains(c) {
                    assert(supplied_before(views, c, i as int));
                    let j = choose|j: int|
                        0 <= j < i && j < views.len() && (#[trigger] views[j]).field_code == c;
                    assert(0 <= j < i + 1 && views[j].field_code == c);
                }
                if c == code {
                    assert(0 <= i < i + 1 && views[i as int].field_code == c);
                }
            }
            assert forall|c: u16| #[trigger] new_index.dom().contains(c) implies {
                &&& 0 <= new_index[c] < i + 1
                &&& views[new_index[c] as int].field_code == c
                &&& forall|j: int| 0 <= j < new_index[c] ==> (#[trigger] views[j]).field_code != c
            } by {
                if c == code {
                    assert(!supplied_before(views, c, i as int));
                }
            }
        }
        index.insert(code, i);
        typed.push(value);
        i += 1;
    }
    Ok((typed, index))
}

/// The typed value of the field that has the code `code`, if a field has it.
spec fn found(typed: Seq<TypedValue>, index: Map<u16, usize>, code: u16) -> Option<
    TypedValue,
> {
    if index.dom().contains(code) {
        Some(typed[index[code] as int])
    } else {
        None
    }
}

/// Where nothing is wrong with the fields, the typed value of each field of the schema
/// is the one found under its code, and a checkbox that is not found is no.
proof fn lemma_checked_values(
    form: Form,
    fields: Seq<BlankettFieldView>,
    typed: Seq<TypedValue>,
    index: Map<u16, usize>,
)
    requires
        checked(form, fields, typed, index, fields.len() as int),
    ensures
        forall|code: u16|
            #![trigger found(typed, index, code)]
            #![trigger value_for(form, fields, code)]
            {
                &&& found(typed, index, code) matches Some(value) ==> {
                    &&& field_kind(form, code) matches Some(kind)
                    &&& fits(kind, value)
                    &&& value_for(form, fields, code) == Some(value)
                }
                &&& found(typed, index, code) is None ==> value_for(form, fields, code) == (
                if field_kind(form, code) == Some(FieldKind::Flag) {
                    Some(TypedValue::Flag(false))
                } else {
                    None::<TypedValue>
                })
            },
{
    assert forall|code: u16|
        #![trigger found(typed, index, code)]
        #![trigger value_for(form, fields, code)]
        {
            &&& found(typed, index, code) matches Some(value) ==> {
                &&& field_kind(form, code) matches Some(kind)
                &&& fits(kind, value)
                &&& value_for(form, fields, code) == Some(value)
            }
            &&& found(typed, index, code) is None ==> value_for(form, fields, code) == (
            if field_kind(form, code) == Some(FieldKind::Flag) {
                Some(TypedValue::Flag(false))
            } else {
                None::<TypedValue>
            })
        } by {
        if index.dom().contains(code) {
            let k = index[code] as int;
            assert(fields[k].field_code == code);
            lemma_first_index(fields, code, 0, k);
            assert(supplied_before(fields, code, fields.len() as int));
            lemma_parsed_stamp_wf(fields[k].field_value);
        } else {
            assert(!supplied_before(fields, code, fields.len() as int));
        }
    }
}

/// The value found under `code`, if a field has that code.
fn find_value<'a>(typed: &'a Vec<FieldValue>, index: &HashMap<u16, usize>, code: u16) -> (r: Option<
    &'a FieldValue,
>)
    requires
        forall|c: u16| #[trigger] index@.dom().contains(c) ==> index@[c] < typed.len(),
    ensures
        match r {
            Some(value) => found(typed_views(typed@), index@, code) == Some(value@),
            None => found(typed_views(typed@), index@, code) is None,
        },
{
    broadcast use vstd::std_specs::hash::group_hash_axioms;

    match index.get(&code) {
        Some(k) => {
            assert(index@.dom().contains(code));
            Some(&typed[*k])
        },
        None => None,
    }
}

/// The amount of field `code`.
fn amount_at(
    typed: &Vec<FieldValue>,
    index: &HashMap<u16, usize>,
    code: u16,
    Ghost(form): Ghost<Form>,
    Ghost(fields): Ghost<Seq<BlankettFieldView>>,
) -> (r: Option<u32>)
    requires
        checked(form, fields, typed_views(typed@), index@, fields.len() as int),
        field_kind(form, code) == Some(FieldKind::Amount),
    ensures
        amount_value(r) == value_for(form, fields, code),
{
    proof {
        lemma_checked_values(form, fields, typed_views(typed@), index@);
    }
    match find_value(typed, index, code) {
        Some(FieldValue::Amount(n)) => Some(*n),
        _ => None,
    }
}

/// The date of field `code`.
fn date_at(
    typed: &Vec<FieldValue>,
    index: &HashMap<u16, usize>,
    code: u16,
    Ghost(form): Ghost<Form>,
    Ghost(fields): Ghost<Seq<BlankettFieldView>>,
) -> (r: Option<CalendarDate>)
    requires
        checked(form, fields, typed_views(typed@), index@, fields.len() as int),
        field_kind(form, code) == Some(FieldKind::Date),
    ensures
        date_value(r) == value_for(form, fields, code),
{
    proof {
        lemma_checked_values(form, fields, typed_views(typed@), index@);
    }
    match find_value(typed, index, code) {
        Some(FieldValue::Date(d)) => Some(*d),
        _ => None,
    }
}

/// The checkbox of field `code`.
fn flag_at(
    typed: &Vec<FieldValue>,
    index: &HashMap<u16, usize>,
    code: u16,
    Ghost(form): Ghost<Form>,
    Ghost(fields): Ghost<Seq<BlankettFieldView>>,
) -> (r: bool)
    requires
        checked(form, fields, typed_views(typed@), index@, fields.len() as int),
        field_kind(form, code) == Some(FieldKind::Flag),
    ensures
        flag_value(r) == value_for(form, fields, code),
{
    proof {
        lemma_checked_values(form, fields, typed_views(typed@), index@);
    }
    match find_value(typed, index, code) {
        Some(FieldValue::Flag(b)) => *b,
        _ => false,
    }
}

/// The text of field `code`.
fn text_at(
    typed: &Vec<FieldValue>,
    index: &HashMap<u16, usize>,
    code: u16,
    Ghost(form): Ghost<Form>,
    Ghost(fields): Ghost<Seq<BlankettFieldView>>,
) -> (r: Option<String>)
    requires
        checked(form, fields, typed_views(typed@), index@, fields.len() as int),
        field_kind(form, code) matches Some(FieldKind::Text { .. }),
    ensures
        text_value(r) == value_for(form, fields, code),
{
    proof {
        lemma_checked_values(form, fields, typed_views(typed@), index@);
    }
    match find_value(typed, index, code) {
        Some(FieldValue::Text(s)) => Some(s.clone()),
        _ => None,
    }
}

/// Makes the typed fields of INK3S out of the checked fields.
fn build_ink3s(
    fields: &Vec<BlankettField>,
    typed: &Vec<FieldValue>,
    index: &HashMap<u16, usize>,
) -> (document: INK3S2019P4)
    requires
        checked(
            Form::Ink3s2019P4,
            field_views(fields@),
            typed_views(typed@),
            index@,
            fields.len() as int,
        ),
    ensures
        forall|code: u16|
            document.value_at(code) == value_for(Form::Ink3s2019P4, field_views(fields@), code),
{
    let ghost form = Form::Ink3s2019P4;
    let ghost views = field_views(fields@);
    INK3S2019P4 {
        fiscal_year_start_date: date_at(typed, index, 7011, Ghost(form), Ghost(views)),
        fiscal_year_end_date: date_at(typed, index, 7012, Ghost(form), Ghost(views)),
        adjusted_result_from_previous_page_gains: amount_at(
            typed,
            index,
            8686,
            Ghost(form),
            Ghost(views),
        ),
        adjusted_result_from_previous_page_loses: amount_at(
            typed,
            index,
            8786,
            Ghost(form),
            Ghost(views),
        ),
        deficit_a_unused_from_previous_year: amount_at(
            typed,
            index,
            8787,
            Ghost(form),
            Ghost(views),
        ),
        deficit_b_unused_from_previous_year: amount_at(
            typed,
            index,
            8687,
            Ghost(form),
            Ghost(views),
        ),
        costs_that_shall_be_withdrawn_but_that_arent_included_in_the_audit: amount_at(
            typed,
            index,
            8788,
            Ghost(form),
            Ghost(views),
        ),
        estimated_income_at_the_end_of_the_fiscal_year_accural_fond: amount_at(
            typed,
            index,
            8688,
            Ghost(form),
            Ghost(views),
        ),
        estimated_income_at_the_beginning_of_the_calendar_year_fond_dividens: amount_at(
            typed,
            index,
            8693,
            Ghost(form),
            Ghost(views),
        ),
        estimated_income_after_reentering_accural_fond: amount_at(
            typed,
            index,
            8696,
            Ghost(form),
            Ghost(views),
        ),
        income_that_shall_be_declared_but_arent_in_the_declared_result_all_other_income: amount_at(
            typed,
            index,
            8689,
            Ghost(form),
            Ghost(views),
        ),
        taxation_correction_of_posted_results_in_connection_with_divestment_of_property_and_bostadsratt: amount_at(
            typed,
            index,
            8690,
            Ghost(form),
            Ghost(views),
        ),
        taxation_correction_of_posted_results_in_connection_with_divestment_of_property_and_bostadsratt_negative: amount_at(
            typed,
            index,
            8789,
            Ghost(form),
            Ghost(views),
        ),
        forest_substance_reductions_decution: amount_at(
            typed,
            index,
            8790,
            Ghost(form),
            Ghost(views),
        ),
        reversal_in_connection_to_divestment_of_property: amount_at(
            typed,
            index,
            8691,
            Ghost(form),
            Ghost(views),
        ),
        excess: amount_at(typed, index, 8695, Ghost(form), Ghost(views)),
        deficit: amount_at(typed, index, 8795, Ghost(form), Ghost(views)),
        end_of_taxation_year_non_reversed_deprication_deduction_related_to_buildings: amount_at(
            typed,
            index,
            8030,
            Ghost(form),
            Ghost(views),
        ),
        end_of_taxation_year_non_reversed_deprication_deduction_related_to_land_development: amount_at(
            typed,
            index,
            8031,
            Ghost(form),
            Ghost(views),
        ),
        residual_value_depreciation_reversed_amounts_for_deprication_and_writedown_sale_scrapping: amount_at(
            typed,
            index,
            8033,
            Ghost(form),
            Ghost(views),
        ),
        deduction_for_captial_managementcosts_have_been_done_with: amount_at(
            typed,
            index,
            8034,
            Ghost(form),
            Ghost(views),
        ),
        contractor_has_assisted_with_annual_accounts_reports: flag_at(
            typed,
            index,
            8040,
            Ghost(form),
            Ghost(views),
        ),
        annual_accounts_have_been_audited: flag_at(typed, index, 8044, Ghost(form), Ghost(views)),
    }
}

/// Makes the typed fields of INK3SU out of the checked fields.
fn build_ink3su(
    fields: &Vec<BlankettField>,
    typed: &Vec<FieldValue>,
    index: &HashMap<u16, usize>,
) -> (document: INK3SU2019P4)
    requires
        checked(
            Form::Ink3su2019P4,
            field_views(fields@),
            typed_views(typed@),
            index@,
            fields.len() as int,
        ),
    ensures
        forall|code: u16|
            document.value_at(code) == value_for(Form::Ink3su2019P4, field_views(fields@), code),
{
    let ghost form = Form::Ink3su2019P4;
    let ghost views = field_views(fields@);
    INK3SU2019P4 {
        fiscal_year_start_date: date_at(typed, index, 7011, Ghost(form), Ghost(views)),
        fiscal_year_end_date: date_at(typed, index, 7012, Ghost(form), Ghost(views)),
        purpose_athletics: flag_at(typed, index, 8822, Ghost(form), Ghost(views)),
        purpose_culture: flag_at(typed, index, 8828, Ghost(form), Ghost(views)),
        purpose_environmentalcare: flag_at(typed, index, 8832, Ghost(form), Ghost(views)),
        purpose_care_for_children_and_youths: flag_at(
            typed,
            index,
            8823,
            Ghost(form),
            Ghost(views),
        ),
        purpose_political_activities: flag_at(typed, index, 8827, Ghost(form), Ghost(views)),
        purpose_religious_activities: flag_at(typed, index, 8820, Ghost(form), Ghost(views)),
        purpose_healthcare: flag_at(typed, index, 8833, Ghost(form), Ghost(views)),
        purpose_social_aid: flag_at(typed, index, 8821, Ghost(form), Ghost(views)),
        purpose_Swedens_defense_in_collaboration_with_other_government_entities: flag_at(
            typed,
            index,
            8831,
            Ghost(form),
            Ghost(views),
        ),
        purpose_education: flag_at(typed, index, 8829, Ghost(form), Ghost(views)),
        purpose_scientific_research: flag_at(typed, index, 8830, Ghost(form), Ghost(views)),
        purpose_other_equvivalent: text_at(typed, index, 8620, Ghost(form), Ghost(views)),
        NGO_how_much_of_the_property_is_rented_percentage: amount_at(
            typed,
            index,
            8614,
            Ghost(form),
            Ghost(views),
        ),
        NGO_how_much_of_the_property_is_rented_sqm: amount_at(
            typed,
            index,
            8615,
            Ghost(form),
            Ghost(views),
        ),
        NGO_income_membershipfees: amount_at(typed, index, 8640, Ghost(form), Ghost(views)),
        NGO_income_gifts_donations: amount_at(typed, index, 8641, Ghost(form), Ghost(views)),
        NGO_income_interests_dividends: amount_at(typed, index, 8642, Ghost(form), Ghost(views)),
        NGO_income_profit_on_sale_of_property_securities_etc: amount_at(
            typed,
            index,
            8643,
            Ghost(form),
            Ghost(views),
        ),
        NGO_income_operational: amount_at(typed, index, 8629, Ghost(form), Ghost(views)),
        NGO_income_property: amount_at(typed, index, 8644, Ghost(form), Ghost(views)),
        NGO_costs_membership_operations: amount_at(typed, index, 8713, Ghost(form), Ghost(views)),
        NGO_costs_distributed_donations_grants: amount_at(
            typed,
            index,
            8714,
            Ghost(form),
            Ghost(views),
        ),
        NGO_costs_interestrates_capital_management: amount_at(
            typed,
            index,
            8715,
            Ghost(form),
            Ghost(views),
        ),
        NGO_costs_loss_when_selling_property: amount_at(
            typed,
            index,
            8716,
            Ghost(form),
            Ghost(views),
        ),
        NGO_costs_operational: amount_at(typed, index, 8717, Ghost(form), Ghost(views)),
        NGO_costs_propertycosts: amount_at(typed, index, 8718, Ghost(form), Ghost(views)),
        purpose_of_the_foundation_other_equvivalent_operation: text_at(
            typed,
            index,
            8840,
            Ghost(form),
            Ghost(views),
        ),
        decided_dividend_of_grants_according_to_purposes: amount_at(
            typed,
            index,
            8850,
            Ghost(form),
            Ghost(views),
        ),
        contributions_gifts: amount_at(typed, index, 8857, Ghost(form), Ghost(views)),
        costs_for_recieving_contributions_collection_costs: amount_at(
            typed,
            index,
            8858,
            Ghost(form),
            Ghost(views),
        ),
        return_on_capital: amount_at(typed, index, 8851, Ghost(form), Ghost(views)),
        asset_management_costs: amount_at(typed, index, 8852, Ghost(form), Ghost(views)),
        costs_for_fullfilling_the_purpose_of_the_foundation: amount_at(
            typed,
            index,
            8853,
            Ghost(form),
            Ghost(views),
        ),
        decided_divident_according_to_p_3_that_belongs_to_the_previous_years_capital_return: flag_at(
            typed,
            index,
            8854,
            Ghost(form),
            Ghost(views),
        ),
        information_for_operational_founds_income: amount_at(
            typed,
            index,
            8855,
            Ghost(form),
            Ghost(views),
        ),
        information_for_operational_founds_costs: amount_at(
            typed,
            index,
            8856,
            Ghost(form),
            Ghost(views),
        ),
    }
}

/// Looks for the fields that the schema asks for.
fn check_required(form: Form, fields: &Vec<BlankettField>, index: &HashMap<u16, usize>) -> (r:
    Option<u16>)
    requires
        forall|code: u16| #[trigger]
            index@.dom().contains(code) <==> supplies(field_views(fields@), code),
    ensures
        r == first_missing(field_views(fields@), required_codes(form), 0),
{
    broadcast use vstd::std_specs::hash::group_hash_axioms;

    let ghost views = field_views(fields@);
    let required = required_fields(form);
    let mut k: usize = 0;
    while k < required.len()
        invariant
            k <= required.len(),
            required@ == required_codes(form),
            views == field_views(fields@),
            forall|code: u16| #[trigger] index@.dom().contains(code) <==> supplies(views, code),
            first_missing(views, required@, 0) == first_missing(views, required@, k as int),
        decreases required.len() - k,
    {
        let code = required[k];
        if !index.contains_key(&code) {
            return Some(code);
        }
        k += 1;
    }
    None
}

/// The views of a result of validation.
pub open spec fn validation_view(r: Result<ValidatedBlankett, ValidationError>) -> Result<
    ValidatedBlankettView,
    ValidationError,
> {
    match r {
        Ok(v) => Ok(v@),
        Err(e) => Err(e),
    }
}

/// Checks a form against the schema that the registry holds for it, and types its fields.
pub fn validate(raw: &RawBlankett) -> (r: Result<ValidatedBlankett, ValidationError>)
    ensures
        validation_view(r) == validate_spec(raw@),
        r matches Ok(validated) ==> validated@.document.conforms(),
{
    proof {
        if validate_spec(raw@) is Ok {
            lemma_validated_conforms(raw@);
        }
    }
    let form = match find_form(raw.document_id.as_str(), raw.filing_year, raw.filing_period) {
        None => {
            return Err(ValidationError::UnsupportedForm);
        },
        Some(form) => form,
    };
    let (typed, index) = match check_fields(form, &raw.fields) {
        Err(error) => {
            return Err(error);
        },
        Ok(found) => found,
    };
    match check_required(form, &raw.fields, &index) {
        Some(code) => {
            return Err(ValidationError::MissingField(code));
        },
        None => {},
    }
    let document = match form {
        Form::Ink3s2019P4 => ValidDocument::INK3S(build_ink3s(&raw.fields, &typed, &index)),
        Form::Ink3su2019P4 => ValidDocument::INK3SU(build_ink3su(&raw.fields, &typed, &index)),
    };
    assert(document@.values =~= typed_document(form, field_views(raw.fields@)).values);
    Ok(
        ValidatedBlankett {
            document_id: raw.document_id.clone(),
            document_appendix: raw.document_appendix.clone(),
            filing_year: raw.filing_year,
            filing_period: raw.filing_period,
            organization_number: raw.organization_number.clone(),
            created_at: raw.created_at,
            name: raw.name.clone(),
            document,
            system_info: raw.system_info.clone(),
        },
    )
}

/// The validated form of a form of either kind: a raw form is validated, a validated
/// form is left as it is.
pub open spec fn validated_spec(blankett: BlankettView) -> Result<
    ValidatedBlankettView,
    ValidationError,
> {
    match blankett {
        BlankettView::RawBlankett(raw) => validate_spec(raw),
        BlankettView::ValidatedBlankett(validated) => Ok(validated),
    }
}

/// Validates a form of either kind; a form that is validated already comes back as it is.
pub fn validate_blankett(blankett: Blankett) -> (r: Result<ValidatedBlankett, ValidationError>)
    ensures
        validation_view(r) == validated_spec(blankett@),
{
    match blankett {
        Blankett::RawBlankett(raw) => validate(&raw),
        Blankett::ValidatedBlankett(validated) => Ok(validated),
    }
}

/// Validates each form by itself: the result holds, in the order of the forms, the
/// validated form or the error of each, and no error keeps the others from being
/// validated.
pub fn validate_all(blanketter: Vec<Blankett>) -> (results: Vec<
    Result<ValidatedBlankett, ValidationError>,
>)
    ensures
        results.len() == blanketter.len(),
        forall|i: int|
            0 <= i < results.len() ==> validation_view(#[trigger] results@[i]) == validated_spec(
                blanketter@[i]@,
            ),
{
    let ghost all = blanketter@;
    let mut forward = blanketter;
    let mut backward: Vec<Blankett> = Vec::new();
    while forward.len() > 0
        invariant
            forward.len() + backward.len() == all.len(),
            forall|i: int| 0 <= i < forward.len() ==> forward@[i] == all[i],
            forall|i: int|
                0 <= i < backward.len() ==> backward@[i] == all[all.len() - 1 - i],
        decreases forward.len(),
    {
        match forward.pop() {
            Some(blankett) => backward.push(blankett),
            None => {},
        }
    }
    let mut results: Vec<Result<ValidatedBlankett, ValidationError>> = Vec::new();
    while backward.len() > 0
        invariant
            results.len() + backward.len() == all.len(),
            forall|i: int|
                0 <= i < backward.len() ==> backward@[i] == all[all.len() - 1 - i],
            forall|i: int|
                0 <= i < results.len() ==> validation_view(#[trigger] results@[i])
                    == validated_spec(all[i]@),
        decreases backward.len(),
    {
        match backward.pop() {
            Some(blankett) => results.push(validate_blankett(blankett)),
            None => {},
        }
    }
    results
}

/// Where no field from `i` on has anything wrong, field `j` has nothing wrong.
proof fn lemma_no_field_error(form: Form, fields: Seq<BlankettFieldView>, i: int, j: int)
    requires
        0 <= i <= j < fields.len(),
        first_field_error(form, fields, i) is None,
    ensures
        field_error(form, fields, j) is None,
    decreases j - i,
{
    if i < j {
        lemma_no_field_error(form, fields, i + 1, j);
    }
}

/// Where none of the codes from `k` on is missing, code `j` is supplied.
proof fn lemma_none_missing(fields: Seq<BlankettFieldView>, required: Seq<u16>, k: int, j: int)
    requires
        0 <= k <= j < required.len(),
        first_missing(fields, required, k) is None,
    ensures
        supplies(fields, required[j]),
    decreases j - k,
{
    if k < j {
        lemma_none_missing(fields, required, k + 1, j);
    }
}

/// Where a field from `i` on has the code, the first of them is found.
proof fn lemma_first_index_found(fields: Seq<BlankettFieldView>, code: u16, i: int)
    requires
        0 <= i <= fields.len(),
        exists|j: int| i <= j < fields.len() && (#[trigger] fields[j]).field_code == code,
    ensures
        i <= first_index(fields, code, i) < fields.len(),
        fields[first_index(fields, code, i)].field_code == code,
    decreases fields.len() - i,
{
    if fields[i].field_code != code {
        let j = choose|j: int| i <= j < fields.len() && (#[trigger] fields[j]).field_code == code;
        assert(i + 1 <= j);
        lemma_first_index_found(fields, code, i + 1);
    }
}

/// Every validated form follows its schema: it holds values for fields of the schema
/// only, each of the declared type, and holds a value for every field that the schema
/// asks for.
pub proof fn lemma_validated_conforms(raw: RawBlankettView)
    requires
        validate_spec(raw) is Ok,
    ensures
        validate_spec(raw)->Ok_0.document.conforms(),
        lookup_form(raw.document_id, raw.filing_year, raw.filing_period) == Some(
            validate_spec(raw)->Ok_0.document.form,
        ),
{
    let form = lookup_form(raw.document_id, raw.filing_year, raw.filing_period)->Some_0;
    let fields = raw.fields;
    let document = validate_spec(raw)->Ok_0.document;
    assert forall|code: u16| supplies(fields, code) && field_kind(form, code) is Some implies {
        &&& value_for(form, fields, code) matches Some(value)
        &&& fits(field_kind(form, code)->Some_0, value)
    } by {
        let j = choose|j: int|
            0 <= j < fields.len() && j < fields.len() && (#[trigger] fields[j]).field_code == code;
        lemma_first_index_found(fields, code, 0);
        let k = first_index(fields, code, 0);
        lemma_no_field_error(form, fields, 0, k);
        lemma_parsed_stamp_wf(fields[k].field_value);
    }
    assert forall|code: u16| #[trigger] document.values.dom().contains(code) implies {
        &&& field_kind(document.form, code) matches Some(kind)
        &&& fits(kind, document.values[code])
    } by {
        assert(value_for(form, fields, code) is Some);
    }
    assert forall|code: u16| is_required(document.form, code) implies #[trigger]
        document.values.dom().contains(code) by {
        let required = required_codes(form);
        let j = choose|j: int| 0 <= j < required.len() && required[j] == code;
        lemma_none_missing(fields, required, 0, j);
    }
}

/// Validating a form that is validated already changes nothing: what validation gives
/// is validated to itself.
pub proof fn lemma_validation_idempotent(blankett: BlankettView)
    requires
        validated_spec(blankett) is Ok,
    ensures
        validated_spec(BlankettView::ValidatedBlankett(validated_spec(blankett)->Ok_0))
            == validated_spec(blankett),
{
}

/// Two forms with the same contents are validated to the same result.
pub proof fn lemma_validation_repeatable(first: RawBlankett, second: RawBlankett)
    requires
        first@ == second@,
    ensures
        validate_spec(first@) == validate_spec(second@),
{
}

/// A form of a known schema that supplies a field twice is not validated; where nothing
/// is wrong with the fields before the second of the two, the error names the field as
/// a duplicate.
pub proof fn lemma_duplicate_rejected(raw: RawBlankettView, i: int, j: int)
    requires
        lookup_form(raw.document_id, raw.filing_year, raw.filing_period) is Some,
        0 <= i < j < raw.fields.len(),
        raw.fields[i].field_code == raw.fields[j].field_code,
    ensures
        validate_spec(raw) is Err,
        (forall|k: int|
            0 <= k < j ==> field_error(
                lookup_form(raw.document_id, raw.filing_year, raw.filing_period)->Some_0,
                raw.fields,
                k,
            ) is None) ==> validate_spec(raw) == Err::<ValidatedBlankettView, ValidationError>(
            ValidationError::DuplicateField(raw.fields[j].field_code),
        ),
{
    let form = lookup_form(raw.document_id, raw.filing_year, raw.filing_period)->Some_0;
    let fields = raw.fields;
    assert(supplied_before(fields, fields[j].field_code, j));
    assert(field_error(form, fields, j) is Some);
    if first_field_error(form, fields, 0) is None {
        lemma_no_field_error(form, fields, 0, j);
    }
    if forall|k: int| 0 <= k < j ==> field_error(form, fields, k) is None {
        lemma_first_error_at(form, fields, 0, j);
        assert(field_error(form, fields, i) is None);
    }
}

/// Where nothing is wrong with the fields from `i` up to `j`, the first error from `i`
/// on is the first error from `j` on.
proof fn lemma_first_error_at(form: Form, fields: Seq<BlankettFieldView>, i: int, j: int)
    requires
        0 <= i <= j < fields.len(),
        forall|k: int| i <= k < j ==> field_error(form, fields, k) is None,
    ensures
        first_field_error(form, fields, i) == first_field_error(form, fields, j),
    decreases j - i,
{
    if i < j {
        lemma_first_error_at(form, fields, i + 1, j);
    }
}

} // verus!
