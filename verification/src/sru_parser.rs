//! Reading a text as a document.
use vstd::prelude::*;
use vstd::string::StringExecFns;
use crate::grammar::{
    fill_slots, filled_views, kind_of, lemma_match_slots_shape, many, match_slots, one, optional,
    optional_text, typed_value, value_has_kind, value_views, GrammarError, Multiplicity, Slot,
    Value, ValueView,
};
use crate::lexer::{lex, lex_spec, skip_blanks, token_views, Keyword, LexError, Token, TokenView};
use crate::sru::{
    blankett_views, contact_slot_table, contact_slots, field_views, header_slot_table, header_slots,
    Blankett, BlankettField, BlankettFieldView, BlankettView, InfoContact, InfoContactView,
    InfoHeader, InfoHeaderView, RawBlankett, RawBlankettView, SRU, SRUView,
};
use crate::text::{all_digits, chars_of, decimal_value, is_blank, parse_bounded, parse_decimal};
use crate::timestamp::{lemma_fixed_width_bound, pow10, Timestamp};

verus! {

/// Why a text is not a document: the stage that found it out, and what it found.
#[derive(Clone, Copy, Debug, PartialEq, Eq, Structural)]
pub enum ParseError {
    /// The text could not be split into directives.
    Lex(LexError),
    /// The directives do not make up a document.
    Grammar(GrammarError),
}

impl ParseError {
    /// The error in words: the stage that found it, and what it found.
    pub open spec fn message(self) -> Seq<char> {
        match self {
            ParseError::Lex(error) => "lexing: "@ + error.message(),
            ParseError::Grammar(error) => "grammar: "@ + error.message(),
        }
    }

    /// The error in words.
    pub fn describe(&self) -> (s: String)
        ensures
            s@ == self.message(),
    {
        let mut s = String::new();
        match self {
            ParseError::Lex(error) => {
                s.append("lexing: ");
                s.append(error.describe().as_str());
            },
            ParseError::Grammar(error) => {
                s.append("grammar: ");
                s.append(error.describe().as_str());
            },
        }
        assert(s@ =~= self.message());
        s
    }
}

/// The production of an Info document: the header and then the contact section.
pub open spec fn info_slots() -> Seq<Slot> {
    header_slots() + contact_slots()
}

/// The production of one form.
pub open spec fn record_slots() -> Seq<Slot> {
    seq![
        one(Keyword::Blankett),
        one(Keyword::Identitet),
        one(Keyword::Namn),
        many(Keyword::Uppgift),
        optional(Keyword::Systeminfo),
        one(Keyword::Blankettslut),
    ]
}

/// What closes a run of forms.
pub open spec fn end_slots() -> Seq<Slot> {
    seq![one(Keyword::FilSlut)]
}

/// The text that filled slot `k`; the empty text if nothing did.
pub open spec fn text_in(filled: Seq<Seq<ValueView>>, k: int) -> Seq<char> {
    match optional_text_in(filled, k) {
        Some(s) => s,
        None => Seq::empty(),
    }
}

/// The text that filled slot `k`, if anything did.
pub open spec fn optional_text_in(filled: Seq<Seq<ValueView>>, k: int) -> Option<Seq<char>> {
    if 0 <= k < filled.len() && filled[k].len() > 0 {
        match filled[k][0] {
            ValueView::Text(s) => Some(s),
            _ => None,
        }
    } else {
        None
    }
}

/// The timestamp that filled slot `k`, if anything did.
pub open spec fn optional_stamp_in(filled: Seq<Seq<ValueView>>, k: int) -> Option<Timestamp> {
    if 0 <= k < filled.len() && filled[k].len() > 0 {
        match filled[k][0] {
            ValueView::Stamp(t) => Some(t),
            _ => None,
        }
    } else {
        None
    }
}

/// The number that filled slot `k`; 0 if nothing did.
pub open spec fn number_in(filled: Seq<Seq<ValueView>>, k: int) -> u32 {
    if 0 <= k < filled.len() && filled[k].len() > 0 {
        match filled[k][0] {
            ValueView::Number(n) => n,
            _ => 0,
        }
    } else {
        0
    }
}

/// The header that the values of an Info production make up.
pub open spec fn assemble_header(filled: Seq<Seq<ValueView>>) -> InfoHeaderView {
    InfoHeaderView {
        product: text_in(filled, 1),
        media_id: optional_text_in(filled, 2),
        created_at: optional_stamp_in(filled, 3),
        program: optional_text_in(filled, 4),
        filename: text_in(filled, 5),
    }
}

/// The contact section that the values of an Info production make up.
pub open spec fn assemble_contact(filled: Seq<Seq<ValueView>>) -> InfoContactView {
    InfoContactView {
        organization_number: text_in(filled, 8),
        name: text_in(filled, 9),
        address: optional_text_in(filled, 10),
        zip_code: number_in(filled, 11),
        zip_area: text_in(filled, 12),
        department: optional_text_in(filled, 13),
        contact_person: optional_text_in(filled, 14),
        email: optional_text_in(filled, 15),
        phone_number: optional_text_in(filled, 16),
        fax_number: optional_text_in(filled, 17),
    }
}

/// The first index from `i` on that holds a hyphen; the length if there is none.
pub open spec fn hyphen_index(id: Seq<char>, i: int) -> int
    decreases id.len() - i,
{
    if 0 <= i < id.len() && id[i] != '-' {
        hyphen_index(id, i + 1)
    } else {
        i
    }
}

/// The revision tag of a document identifier: what stands behind its first hyphen.
pub open spec fn revision_tag(id: Seq<char>) -> Seq<char> {
    let h = hyphen_index(id, 0);
    if 0 <= h < id.len() {
        id.subrange(h + 1, id.len() as int)
    } else {
        Seq::empty()
    }
}

/// The year and the period that a revision tag names. A tag is four digits of the year,
/// the letter `P` and the period, a number up to 255; any other text names neither,
/// and gives 0 for both.
pub open spec fn revision_of(tag: Seq<char>) -> (u16, u8) {
    if tag.len() >= 6 && all_digits(tag.subrange(0, 4)) && tag[4] == 'P' {
        match parse_decimal(tag.subrange(5, tag.len() as int)) {
            Some(period) if period <= u8::MAX => (
                decimal_value(tag.subrange(0, 4)) as u16,
                period as u8,
            ),
            _ => (0, 0),
        }
    } else {
        (0, 0)
    }
}

/// The fields among the values that filled a slot, in their order.
pub open spec fn fields_of(values: Seq<ValueView>) -> Seq<BlankettFieldView> {
    Seq::new(
        values.len(),
        |i: int|
            BlankettFieldView {
                field_code: values[i]->Field_0,
                field_value: values[i]->Field_1,
            },
    )
}

/// The form that the values of a form production make up.
pub open spec fn assemble_record(filled: Seq<Seq<ValueView>>) -> RawBlankettView {
    let document_id = filled[0][0]->Form_0;
    let revision = revision_of(revision_tag(document_id));
    RawBlankettView {
        document_id,
        document_appendix: filled[0][0]->Form_1,
        filing_year: revision.0,
        filing_period: revision.1,
        organization_number: filled[1][0]->Identity_0,
        created_at: filled[1][0]->Identity_1,
        name: text_in(filled, 2),
        fields: fields_of(filled[3]),
        system_info: optional_text_in(filled, 4),
    }
}

/// The forms that stand one behind the other from index `p` on, and the index behind
/// the last of them. A form starts wherever a `BLANKETT` directive stands.
pub open spec fn parse_records(tokens: Seq<TokenView>, p: int) -> Result<
    (Seq<BlankettView>, int),
    GrammarError,
>
    decreases tokens.len() - p,
    when 0 <= p <= tokens.len()
{
    if p < tokens.len() && tokens[p].keyword == Keyword::Blankett {
        match match_slots(tokens, p, record_slots(), 0) {
            Err(error) => Err(error),
            Ok((filled, q)) => {
                proof {
                    lemma_match_slots_shape(tokens, p, record_slots(), 0);
                }
                match parse_records(tokens, q) {
                    Err(error) => Err(error),
                    Ok((rest, end)) => Ok(
                        (seq![BlankettView::RawBlankett(assemble_record(filled))] + rest, end),
                    ),
                }
            },
        }
    } else {
        Ok((Seq::empty(), p))
    }
}

/// Nothing may stand behind the end of a document.
pub open spec fn no_trailing(tokens: Seq<TokenView>, end: int) -> Result<(), GrammarError> {
    if 0 <= end < tokens.len() {
        Err(GrammarError::TrailingDirective { found: tokens[end].keyword, position: end as usize })
    } else {
        Ok(())
    }
}

/// The document that a run of directives makes up. The first directive decides between
/// the two kinds of document: `DATABESKRIVNING_START` opens an Info document, `BLANKETT`
/// or `FIL_SLUT` a run of forms.
pub open spec fn parse_tokens(tokens: Seq<TokenView>) -> Result<SRUView, GrammarError> {
    if tokens.len() == 0 {
        Err(GrammarError::UnrecognizedDocument)
    } else if tokens[0].keyword == Keyword::DatabeskrivningStart {
        match match_slots(tokens, 0, info_slots(), 0) {
            Err(error) => Err(error),
            Ok((filled, end)) => match no_trailing(tokens, end) {
                Err(error) => Err(error),
                Ok(_) => Ok(SRUView::Info(assemble_header(filled), assemble_contact(filled))),
            },
        }
    } else if tokens[0].keyword == Keyword::Blankett || tokens[0].keyword == Keyword::FilSlut {
        match parse_records(tokens, 0) {
            Err(error) => Err(error),
            Ok((blanketter, q)) => match match_slots(tokens, q, end_slots(), 0) {
                Err(error) => Err(error),
                Ok((_, end)) => match no_trailing(tokens, end) {
                    Err(error) => Err(error),
                    Ok(_) => Ok(SRUView::Blanketter(blanketter)),
                },
            },
        }
    } else {
        Err(GrammarError::UnrecognizedDocument)
    }
}

/// The document that a text holds.
pub open spec fn parse_spec(text: Seq<char>) -> Result<SRUView, ParseError> {
    match lex_spec(text) {
        Err(error) => Err(ParseError::Lex(error)),
        Ok(tokens) => match parse_tokens(tokens) {
            Err(error) => Err(ParseError::Grammar(error)),
            Ok(document) => Ok(document),
        },
    }
}

/// The production of an Info document.
fn info_slot_table() -> (slots: Vec<Slot>)
    ensures
        slots@ == info_slots(),
{
    let mut slots = header_slot_table();
    let mut rest = contact_slot_table();
    slots.append(&mut rest);
    slots
}

/// The production of one form.
fn record_slot_table() -> (slots: Vec<Slot>)
    ensures
        slots@ == record_slots(),
{
    let mut slots: Vec<Slot> = Vec::new();
    slots.push(Slot { keyword: Keyword::Blankett, count: Multiplicity::One });
    slots.push(Slot { keyword: Keyword::Identitet, count: Multiplicity::One });
    slots.push(Slot { keyword: Keyword::Namn, count: Multiplicity::One });
    slots.push(Slot { keyword: Keyword::Uppgift, count: Multiplicity::Many });
    slots.push(Slot { keyword: Keyword::Systeminfo, count: Multiplicity::Optional });
    slots.push(Slot { keyword: Keyword::Blankettslut, count: Multiplicity::One });
    assert(slots@ =~= record_slots());
    slots
}

/// What closes a run of forms.
fn end_slot_table() -> (slots: Vec<Slot>)
    ensures
        slots@ == end_slots(),
{
    let mut slots: Vec<Slot> = Vec::new();
    slots.push(Slot { keyword: Keyword::FilSlut, count: Multiplicity::One });
    assert(slots@ =~= end_slots());
    slots
}

/// The text that filled slot `k`; the empty text if nothing did.
fn take_text(filled: &Vec<Vec<Value>>, k: usize) -> (s: String)
    requires
        k < filled.len(),
    ensures
        s@ == text_in(filled_views(filled@), k as int),
{
    match take_optional_text(filled, k) {
        Some(s) => s,
        None => String::new(),
    }
}

/// The text that filled slot `k`, if anything did.
fn take_optional_text(filled: &Vec<Vec<Value>>, k: usize) -> (s: Option<String>)
    requires
        k < filled.len(),
    ensures
        optional_text(s) == optional_text_in(filled_views(filled@), k as int),
{
    if filled[k].len() > 0 {
        match &filled[k][0] {
            Value::Text(s) => Some(s.clone()),
            _ => None,
        }
    } else {
        None
    }
}

/// The timestamp that filled slot `k`, if anything did.
fn take_optional_stamp(filled: &Vec<Vec<Value>>, k: usize) -> (t: Option<Timestamp>)
    requires
        k < filled.len(),
    ensures
        t == optional_stamp_in(filled_views(filled@), k as int),
{
    if filled[k].len() > 0 {
        match &filled[k][0] {
            Value::Stamp(t) => Some(*t),
            _ => None,
        }
    } else {
        None
    }
}

/// The number that filled slot `k`; 0 if nothing did.
fn take_number(filled: &Vec<Vec<Value>>, k: usize) -> (n: u32)
    requires
        k < filled.len(),
    ensures
        n == number_in(filled_views(filled@), k as int),
{
    if filled[k].len() > 0 {
        match &filled[k][0] {
            Value::Number(n) => *n,
            _ => 0,
        }
    } else {
        0
    }
}

/// Makes the header out of the values of an Info production.
fn build_header(filled: &Vec<Vec<Value>>) -> (header: InfoHeader)
    requires
        filled.len() == info_slots().len(),
    ensures
        header@ == assemble_header(filled_views(filled@)),
{
    InfoHeader {
        product: take_text(filled, 1),
        media_id: take_optional_text(filled, 2),
        created_at: take_optional_stamp(filled, 3),
        program: take_optional_text(filled, 4),
        filename: take_text(filled, 5),
    }
}

/// Makes the contact section out of the values of an Info production.
fn build_contact(filled: &Vec<Vec<Value>>) -> (contact: InfoContact)
    requires
        filled.len() == info_slots().len(),
    ensures
        contact@ == assemble_contact(filled_views(filled@)),
{
    InfoContact {
        organization_number: take_text(filled, 8),
        name: take_text(filled, 9),
        address: take_optional_text(filled, 10),
        zip_code: take_number(filled, 11),
        zip_area: take_text(filled, 12),
        department: take_optional_text(filled, 13),
        contact_person: take_optional_text(filled, 14),
        email: take_optional_text(filled, 15),
        phone_number: take_optional_text(filled, 16),
        fax_number: take_optional_text(filled, 17),
    }
}

/// The year and the period that the revision tag of a document identifier names.
pub fn revision(document_id: &str) -> (r: (u16, u8))
    ensures
        r == revision_of(revision_tag(document_id@)),
{
    let id = chars_of(document_id);
    let n = id.len();
    let mut h: usize = 0;
    while h < n && id[h] != '-'
        invariant
            h <= n == id.len(),
            hyphen_index(id@, h as int) == hyphen_index(id@, 0),
        decreases n - h,
    {
        h += 1;
    }
    if h >= n || n - (h + 1) < 6 {
        return (0, 0);
    }
    let from = h + 1;
    let ghost tag = id@.subrange(from as int, n as int);
    assert(tag.subrange(0, 4) =~= id@.subrange(from as int, from + 4));
    assert(tag.subrange(5, tag.len() as int) =~= id@.subrange(from + 5, n as int));
    let year = parse_bounded(&id, from, from + 4, 9999);
    let period = parse_bounded(&id, from + 5, n, 255);
    proof {
        lemma_fixed_width_bound(tag.subrange(0, 4));
        reveal_with_fuel(pow10, 5);
    }
    if id[from + 4] != 'P' {
        return (0, 0);
    }
    match (year, period) {
        (Some(year), Some(period)) => (year as u16, period as u8),
        _ => (0, 0),
    }
}

/// Whether the values that filled the slots of a form are of the shape that the
/// production of a form gives them.
spec fn record_shaped(filled: Seq<Seq<ValueView>>) -> bool {
    &&& filled.len() == 6
    &&& filled[0].len() == 1 && filled[0][0] is Form
    &&& filled[1].len() == 1 && filled[1][0] is Identity
    &&& forall|i: int| 0 <= i < filled[3].len() ==> (#[trigger] filled[3][i]) is Field
}

/// Makes the fields out of the values that filled the slot of the fields.
fn build_fields(values: &Vec<Value>) -> (fields: Vec<BlankettField>)
    requires
        forall|i: int| 0 <= i < values.len() ==> (#[trigger] value_views(values@)[i]) is Field,
    ensures
        field_views(fields@) == fields_of(value_views(values@)),
{
    let mut fields: Vec<BlankettField> = Vec::new();
    let mut i: usize = 0;
    while i < values.len()
        invariant
            i <= values.len(),
            fields.len() == i,
            forall|j: int| 0 <= j < values.len() ==> (#[trigger] value_views(values@)[j]) is Field,
            forall|j: int|
                0 <= j < i ==> (#[trigger] fields@[j])@ == fields_of(value_views(values@))[j],
        decreases values.len() - i,
    {
        assert(value_views(values@)[i as int] is Field);
        match &values[i] {
            Value::Field(code, value) => {
                fields.push(BlankettField { field_code: *code, field_value: value.clone() });
            },
            _ => {
                assert(false);
            },
        }
        i += 1;
    }
    assert(field_views(fields@) =~= fields_of(value_views(values@)));
    fields
}

/// Makes a form out of the values of a form production.
fn build_record(filled: &Vec<Vec<Value>>) -> (record: RawBlankett)
    requires
        record_shaped(filled_views(filled@)),
    ensures
        record@ == assemble_record(filled_views(filled@)),
{
    let ghost views = filled_views(filled@);
    assert(views[0][0] == filled@[0]@[0]@);
    assert(views[1][0] == filled@[1]@[0]@);
    assert forall|i: int| 0 <= i < filled@[3].len() implies (#[trigger] value_views(
        filled@[3]@,
    )[i]) is Field by {
        assert(views[3][i] is Field);
    }
    match (&filled[0][0], &filled[1][0]) {
        (Value::Form(id, appendix), Value::Identity(number, created_at)) => {
            let (filing_year, filing_period) = revision(id.as_str());
            RawBlankett {
                document_id: id.clone(),
                document_appendix: appendix.clone(),
                filing_year,
                filing_period,
                organization_number: number.clone(),
                created_at: *created_at,
                name: take_text(filled, 2),
                fields: build_fields(&filled[3]),
                system_info: take_optional_text(filled, 4),
            }
        },
        _ => vstd::pervasive::unreached(),
    }
}

/// Reads the forms that stand one behind the other from index `start` on.
fn read_records(tokens: &Vec<Token>, start: usize) -> (r: Result<(Vec<Blankett>, usize), GrammarError>)
    requires
        start <= tokens.len(),
    ensures
        match r {
            Ok((blanketter, end)) => {
                &&& parse_records(token_views(tokens@), start as int) == Ok::<
                    (Seq<BlankettView>, int),
                    GrammarError,
                >((blankett_views(blanketter@), end as int))
                &&& start <= end <= tokens.len()
            },
            Err(error) => parse_records(token_views(tokens@), start as int) == Err::<
                (Seq<BlankettView>, int),
                GrammarError,
            >(error),
        },
{
    let ghost views = token_views(tokens@);
    let slots = record_slot_table();
    let mut blanketter: Vec<Blankett> = Vec::new();
    let mut p: usize = start;
    while p < tokens.len() && tokens[p].keyword == Keyword::Blankett
        invariant
            start <= p <= tokens.len(),
            views == token_views(tokens@),
            slots@ == record_slots(),
            parse_records(views, start as int) == match parse_records(views, p as int) {
                Ok((rest, end)) => Ok::<(Seq<BlankettView>, int), GrammarError>(
                    (blankett_views(blanketter@) + rest, end),
                ),
                Err(error) => Err(error),
            },
        decreases tokens.len() - p,
    {
        match fill_slots(tokens, p, &slots) {
            Err(error) => {
                return Err(error);
            },
            Ok((filled, q)) => {
                proof {
                    lemma_match_slots_shape(views, p as int, record_slots(), 0);
                    let shaped = filled_views(filled@);
                    assert(shaped[0][0] is Form);
                    assert(shaped[1][0] is Identity);
                    assert forall|i: int| 0 <= i < shaped[3].len() implies (
                    #[trigger] shaped[3][i]) is Field by {
                        assert(value_has_kind(
                            shaped[3][i],
                            kind_of(record_slots()[3].keyword),
                        ));
                    }
                }
                let record = Blankett::RawBlankett(build_record(&filled));
                proof {
                    let rest = parse_records(views, q as int);
                    let before = blankett_views(blanketter@);
                    let after = blankett_views(blanketter@.push(record));
                    assert(after =~= before.push(record@));
                    if rest is Ok {
                        assert(before + (seq![record@] + rest->Ok_0.0) =~= after + rest->Ok_0.0);
                    }
                }
                blanketter.push(record);
                p = q;
            },
        }
    }
    assert(blankett_views(blanketter@) + Seq::<BlankettView>::empty() =~= blankett_views(
        blanketter@,
    ));
    Ok((blanketter, p))
}

/// Tells whether anything stands behind the end of a document.
fn check_end(tokens: &Vec<Token>, end: usize) -> (r: Result<(), GrammarError>)
    ensures
        r == no_trailing(token_views(tokens@), end as int),
{
    if end < tokens.len() {
        Err(GrammarError::TrailingDirective { found: tokens[end].keyword, position: end })
    } else {
        Ok(())
    }
}

/// The views of a result of parsing.
pub open spec fn document_result_view<E>(r: Result<SRU, E>) -> Result<SRUView, E> {
    match r {
        Ok(document) => Ok(document@),
        Err(error) => Err(error),
    }
}

/// The forms that were read from directives are raw.
proof fn lemma_records_raw(tokens: Seq<TokenView>, p: int)
    requires
        0 <= p <= tokens.len(),
        parse_records(tokens, p) is Ok,
    ensures
        forall|i: int|
            0 <= i < parse_records(tokens, p)->Ok_0.0.len() ==> (#[trigger] parse_records(
                tokens,
                p,
            )->Ok_0.0[i]) is RawBlankett,
    decreases tokens.len() - p,
{
    if p < tokens.len() && tokens[p].keyword == Keyword::Blankett {
        lemma_match_slots_shape(tokens, p, record_slots(), 0);
        let (filled, q) = match_slots(tokens, p, record_slots(), 0)->Ok_0;
        lemma_records_raw(tokens, q);
        let rest = parse_records(tokens, q)->Ok_0.0;
        let all = parse_records(tokens, p)->Ok_0.0;
        assert forall|i: int| 0 <= i < all.len() implies (#[trigger] all[i]) is RawBlankett by {
            if i > 0 {
                assert(all[i] == rest[i - 1]);
            }
        }
    }
}

/// A document that was read from directives is well-formed, and its forms are raw.
pub proof fn lemma_parsed_is_wf(tokens: Seq<TokenView>)
    requires
        parse_tokens(tokens) is Ok,
    ensures
        parse_tokens(tokens)->Ok_0.wf(),
        parse_tokens(tokens)->Ok_0.as_read(),
{
    if tokens[0].keyword != Keyword::DatabeskrivningStart {
        lemma_records_raw(tokens, 0);
    }
    if tokens[0].keyword == Keyword::DatabeskrivningStart {
        lemma_match_slots_shape(tokens, 0, info_slots(), 0);
        let filled = match_slots(tokens, 0, info_slots(), 0)->Ok_0.0;
        assert(value_has_kind(
            filled[1][0],
            kind_of(info_slots()[1].keyword),
        ));
        if filled[3].len() > 0 {
            assert(value_has_kind(
                filled[3][0],
                kind_of(info_slots()[3].keyword),
            ));
        }
    }
}

/// Reads a run of directives as a document.
pub fn parse_document(tokens: &Vec<Token>) -> (r: Result<SRU, GrammarError>)
    ensures
        document_result_view(r) == parse_tokens(token_views(tokens@)),
        r matches Ok(document) ==> document.wf() && document@.as_read(),
{
    proof {
        if parse_tokens(token_views(tokens@)) is Ok {
            lemma_parsed_is_wf(token_views(tokens@));
        }
    }
    if tokens.len() == 0 {
        return Err(GrammarError::UnrecognizedDocument);
    }
    match tokens[0].keyword {
        Keyword::DatabeskrivningStart => {
            let slots = info_slot_table();
            match fill_slots(tokens, 0, &slots) {
                Err(error) => Err(error),
                Ok((filled, end)) => match check_end(tokens, end) {
                    Err(error) => Err(error),
                    Ok(_) => Ok(SRU::Info(build_header(&filled), build_contact(&filled))),
                },
            }
        },
        Keyword::Blankett | Keyword::FilSlut => {
            match read_records(tokens, 0) {
                Err(error) => Err(error),
                Ok((blanketter, q)) => {
                    let slots = end_slot_table();
                    match fill_slots(tokens, q, &slots) {
                        Err(error) => Err(error),
                        Ok((_, end)) => match check_end(tokens, end) {
                            Err(error) => Err(error),
                            Ok(_) => Ok(SRU::Blanketter(blanketter)),
                        },
                    }
                },
            }
        },
        _ => Err(GrammarError::UnrecognizedDocument),
    }
}

/// Reads a text as a document.
pub fn parse(s: String) -> (r: Result<SRU, ParseError>)
    ensures
        document_result_view(r) == parse_spec(s@),
        r matches Ok(document) ==> document.wf() && document@.as_read(),
{
    match lex(s.as_str()) {
        Err(error) => Err(ParseError::Lex(error)),
        Ok(tokens) => match parse_document(&tokens) {
            Err(error) => Err(ParseError::Grammar(error)),
            Ok(document) => Ok(document),
        },
    }
}

/// Two texts with the same characters hold the same document, or fail alike: what
/// `parse` gives depends on nothing but the characters of its input.
pub proof fn lemma_parse_repeatable(first: &str, second: &str)
    requires
        first@ == second@,
    ensures
        parse_spec(first@) == parse_spec(second@),
{
}

/// A text of blanks only, the empty text among them, holds no document.
pub proof fn lemma_blank_text_unrecognized(text: Seq<char>)
    requires
        forall|i: int| 0 <= i < text.len() ==> is_blank(#[trigger] text[i]),
    ensures
        parse_spec(text) == Err::<SRUView, ParseError>(
            ParseError::Grammar(GrammarError::UnrecognizedDocument),
        ),
{
    lemma_skip_all_blanks(text, 0);
}

/// Skipping the blanks of a text of blanks only ends at the end of the text.
proof fn lemma_skip_all_blanks(text: Seq<char>, i: int)
    requires
        0 <= i <= text.len(),
        forall|j: int| 0 <= j < text.len() ==> is_blank(#[trigger] text[j]),
    ensures
        skip_blanks(text, i) == text.len(),
    decreases text.len() - i,
{
    if i < text.len() {
        lemma_skip_all_blanks(text, i + 1);
    }
}

/// A postal code that is a number beyond 32 bits is no value of its directive.
pub proof fn lemma_postal_code_too_large(value: Seq<char>, position: int)
    requires
        parse_decimal(value) matches Some(n) && n > u32::MAX,
    ensures
        typed_value(TokenView { keyword: Keyword::Postnr, value }, position)
            == Err::<ValueView, GrammarError>(
            GrammarError::InvalidNumber { directive: Keyword::Postnr, position: position as usize },
        ),
{
}

} // verus!
