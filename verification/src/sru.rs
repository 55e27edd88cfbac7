//! The document model, and the text of Info documents.
use vstd::prelude::*;
use crate::forms::{ValidDocument, ValidDocumentView};
use crate::grammar::{
    one, optional, optional_text, optional_texts, render_slots, write_slots, Multiplicity, Slot,
};
use crate::lexer::{range_spells, render, token_views, tokens_text, Keyword, Token, TokenView};
use crate::round_trip::lemma_info_round_trip;
use crate::sru_parser::{parse_spec, ParseError};
use crate::text::{chars_of, decimal_text, push_chars, render_decimal};
use crate::timestamp::Timestamp;

verus! {

/// The header of an Info document: what produced the file, and when.
#[derive(Clone, Debug, PartialEq, Eq)]
pub struct InfoHeader {
    /// `PRODUKT`: always `SRU`.
    pub product: String,
    /// `MEDIAID`.
    pub media_id: Option<String>,
    /// `SKAPAD`.
    pub created_at: Option<Timestamp>,
    /// `PROGRAM`.
    pub program: Option<String>,
    /// `FILNAMN`.
    pub filename: String,
}

/// A header with its texts as characters: what contracts say of an `InfoHeader`.
pub struct InfoHeaderView {
    pub product: Seq<char>,
    pub media_id: Option<Seq<char>>,
    pub created_at: Option<Timestamp>,
    pub program: Option<Seq<char>>,
    pub filename: Seq<char>,
}

impl View for InfoHeader {
    type V = InfoHeaderView;

    open spec fn view(&self) -> InfoHeaderView {
        InfoHeaderView {
            product: self.product@,
            media_id: optional_text(self.media_id),
            created_at: self.created_at,
            program: optional_text(self.program),
            filename: self.filename@,
        }
    }
}

/// The contact section of an Info document: who supplies the file.
#[derive(Clone, Debug, PartialEq, Eq)]
pub struct InfoContact {
    /// `ADRESS`.
    pub address: Option<String>,
    /// `KONTAKT`.
    pub contact_person: Option<String>,
    /// `AVDELNING`.
    pub department: Option<String>,
    /// `EMAIL`.
    pub email: Option<String>,
    /// `FAX`.
    pub fax_number: Option<String>,
    /// `NAMN`.
    pub name: String,
    /// `ORGNR`.
    pub organization_number: String,
    /// `TELEFON`.
    pub phone_number: Option<String>,
    /// `POSTORT`.
    pub zip_area: String,
    /// `POSTNR`.
    pub zip_code: u32,
}

/// A contact section with its texts as characters: what contracts say of an `InfoContact`.
pub struct InfoContactView {
    pub address: Option<Seq<char>>,
    pub contact_person: Option<Seq<char>>,
    pub department: Option<Seq<char>>,
    pub email: Option<Seq<char>>,
    pub fax_number: Option<Seq<char>>,
    pub name: Seq<char>,
    pub organization_number: Seq<char>,
    pub phone_number: Option<Seq<char>>,
    pub zip_area: Seq<char>,
    pub zip_code: u32,
}

impl View for InfoContact {
    type V = InfoContactView;

    open spec fn view(&self) -> InfoContactView {
        InfoContactView {
            address: optional_text(self.address),
            contact_person: optional_text(self.contact_person),
            department: optional_text(self.department),
            email: optional_text(self.email),
            fax_number: optional_text(self.fax_number),
            name: self.name@,
            organization_number: self.organization_number@,
            phone_number: optional_text(self.phone_number),
            zip_area: self.zip_area@,
            zip_code: self.zip_code,
        }
    }
}

/// The production of the header of an Info document.
pub open spec fn header_slots() -> Seq<Slot> {
    seq![
        one(Keyword::DatabeskrivningStart),
        one(Keyword::Produkt),
        optional(Keyword::Mediaid),
        optional(Keyword::Skapad),
        optional(Keyword::Program),
        one(Keyword::Filnamn),
        one(Keyword::DatabeskrivningSlut),
    ]
}

/// The production of the contact section of an Info document.
pub open spec fn contact_slots() -> Seq<Slot> {
    seq![
        one(Keyword::MedielevStart),
        one(Keyword::Orgnr),
        one(Keyword::Namn),
        optional(Keyword::Adress),
        one(Keyword::Postnr),
        one(Keyword::Postort),
        optional(Keyword::Avdelning),
        optional(Keyword::Kontakt),
        optional(Keyword::Email),
        optional(Keyword::Telefon),
        optional(Keyword::Fax),
        one(Keyword::MedielevSlut),
    ]
}

/// The production of the header of an Info document.
pub fn header_slot_table() -> (slots: Vec<Slot>)
    ensures
        slots@ == header_slots(),
{
    let mut slots: Vec<Slot> = Vec::new();
    slots.push(Slot { keyword: Keyword::DatabeskrivningStart, count: Multiplicity::One });
    slots.push(Slot { keyword: Keyword::Produkt, count: Multiplicity::One });
    slots.push(Slot { keyword: Keyword::Mediaid, count: Multiplicity::Optional });
    slots.push(Slot { keyword: Keyword::Skapad, count: Multiplicity::Optional });
    slots.push(Slot { keyword: Keyword::Program, count: Multiplicity::Optional });
    slots.push(Slot { keyword: Keyword::Filnamn, count: Multiplicity::One });
    slots.push(Slot { keyword: Keyword::DatabeskrivningSlut, count: Multiplicity::One });
    assert(slots@ =~= header_slots());
    slots
}

/// The production of the contact section of an Info document.
pub fn contact_slot_table() -> (slots: Vec<Slot>)
    ensures
        slots@ == contact_slots(),
{
    let mut slots: Vec<Slot> = Vec::new();
    slots.push(Slot { keyword: Keyword::MedielevStart, count: Multiplicity::One });
    slots.push(Slot { keyword: Keyword::Orgnr, count: Multiplicity::One });
    slots.push(Slot { keyword: Keyword::Namn, count: Multiplicity::One });
    slots.push(Slot { keyword: Keyword::Adress, count: Multiplicity::Optional });
    slots.push(Slot { keyword: Keyword::Postnr, count: Multiplicity::One });
    slots.push(Slot { keyword: Keyword::Postort, count: Multiplicity::One });
    slots.push(Slot { keyword: Keyword::Avdelning, count: Multiplicity::Optional });
    slots.push(Slot { keyword: Keyword::Kontakt, count: Multiplicity::Optional });
    slots.push(Slot { keyword: Keyword::Email, count: Multiplicity::Optional });
    slots.push(Slot { keyword: Keyword::Telefon, count: Multiplicity::Optional });
    slots.push(Slot { keyword: Keyword::Fax, count: Multiplicity::Optional });
    slots.push(Slot { keyword: Keyword::MedielevSlut, count: Multiplicity::One });
    assert(slots@ =~= contact_slots());
    slots
}

/// The canonical text of an optional timestamp.
pub open spec fn optional_stamp_text(t: Option<Timestamp>) -> Option<Seq<char>> {
    match t {
        Some(t) => Some(t.text()),
        None => None,
    }
}

impl InfoHeaderView {
    /// The product is `SRU`, and the time of creation, if there is one, exists.
    pub open spec fn wf(self) -> bool {
        &&& self.product == "SRU"@
        &&& self.created_at matches Some(t) ==> t.wf()
    }

    /// The text that is written for each slot of the header; nothing for a slot that is
    /// left out.
    pub open spec fn texts(self) -> Seq<Option<Seq<char>>> {
        seq![
            Some(Seq::empty()),
            Some("SRU"@),
            self.media_id,
            optional_stamp_text(self.created_at),
            self.program,
            Some(self.filename),
            Some(Seq::empty()),
        ]
    }

    /// The directives of the header in the order of its production, those without a
    /// value left out.
    pub open spec fn tokens(self) -> Seq<TokenView> {
        render_slots(header_slots(), self.texts(), 0)
    }

    /// The header as directive text.
    pub open spec fn text(self) -> Seq<char> {
        tokens_text(self.tokens())
    }
}

impl InfoContactView {
    /// The text that is written for each slot of the contact section; nothing for a slot
    /// that is left out.
    pub open spec fn texts(self) -> Seq<Option<Seq<char>>> {
        seq![
            Some(Seq::empty()),
            Some(self.organization_number),
            Some(self.name),
            self.address,
            Some(render_decimal(self.zip_code as nat)),
            Some(self.zip_area),
            self.department,
            self.contact_person,
            self.email,
            self.phone_number,
            self.fax_number,
            Some(Seq::empty()),
        ]
    }

    /// The directives of the contact section in the order of its production, those
    /// without a value left out.
    pub open spec fn tokens(self) -> Seq<TokenView> {
        render_slots(contact_slots(), self.texts(), 0)
    }

    /// The contact section as directive text.
    pub open spec fn text(self) -> Seq<char> {
        tokens_text(self.tokens())
    }
}

impl InfoHeader {
    /// The product is `SRU`, and the time of creation, if there is one, exists.
    pub open spec fn wf(&self) -> bool {
        self@.wf()
    }

    /// The text to write for each slot of the header.
    fn texts(&self) -> (texts: Vec<Option<String>>)
        ensures
            optional_texts(texts@) == self@.texts(),
            texts.len() == header_slots().len(),
    {
        let mut texts: Vec<Option<String>> = Vec::new();
        texts.push(Some(String::new()));
        texts.push(Some("SRU".to_owned()));
        texts.push(self.media_id.clone());
        texts.push(
            match self.created_at {
                Some(t) => Some(t.to_text()),
                None => None,
            },
        );
        texts.push(self.program.clone());
        texts.push(Some(self.filename.clone()));
        texts.push(Some(String::new()));
        assert(optional_texts(texts@) =~= self@.texts());
        texts
    }

    /// The directives of the header in the order of its production.
    pub fn tokens(&self) -> (tokens: Vec<Token>)
        ensures
            token_views(tokens@) == self@.tokens(),
    {
        write_slots(&header_slot_table(), &self.texts())
    }

    /// The header as directive text: its directives in their fixed order, one on each
    /// line, those without a value left out.
    pub fn to_text(&self) -> (s: String)
        ensures
            s@ == self@.text(),
    {
        render(&self.tokens())
    }
}

impl InfoContact {
    /// The text to write for each slot of the contact section.
    fn texts(&self) -> (texts: Vec<Option<String>>)
        ensures
            optional_texts(texts@) == self@.texts(),
            texts.len() == contact_slots().len(),
    {
        let mut texts: Vec<Option<String>> = Vec::new();
        texts.push(Some(String::new()));
        texts.push(Some(self.organization_number.clone()));
        texts.push(Some(self.name.clone()));
        texts.push(self.address.clone());
        texts.push(Some(decimal_text(self.zip_code)));
        texts.push(Some(self.zip_area.clone()));
        texts.push(self.department.clone());
        texts.push(self.contact_person.clone());
        texts.push(self.email.clone());
        texts.push(self.phone_number.clone());
        texts.push(self.fax_number.clone());
        texts.push(Some(String::new()));
        assert(optional_texts(texts@) =~= self@.texts());
        texts
    }

    /// The directives of the contact section in the order of its production.
    pub fn tokens(&self) -> (tokens: Vec<Token>)
        ensures
            token_views(tokens@) == self@.tokens(),
    {
        write_slots(&contact_slot_table(), &self.texts())
    }

    /// The contact section as directive text: its directives in their fixed order, one
    /// on each line, those without a value left out.
    pub fn to_text(&self) -> (s: String)
        ensures
            s@ == self@.text(),
    {
        render(&self.tokens())
    }
}

/// One field of a form as it stands in the file: its code and its value as text.
#[derive(Clone, Debug, PartialEq, Eq)]
pub struct BlankettField {
    pub field_code: u16,
    pub field_value: String,
}

/// A field with its value as characters: what contracts say of a `BlankettField`.
pub struct BlankettFieldView {
    pub field_code: u16,
    pub field_value: Seq<char>,
}

impl View for BlankettField {
    type V = BlankettFieldView;

    open spec fn view(&self) -> BlankettFieldView {
        BlankettFieldView { field_code: self.field_code, field_value: self.field_value@ }
    }
}

/// The views of a run of fields.
pub open spec fn field_views(fields: Seq<BlankettField>) -> Seq<BlankettFieldView> {
    fields.map_values(|f: BlankettField| f@)
}

/// A form as it was read: its fields are codes and texts in the order of the file.
#[derive(Clone, Debug, PartialEq, Eq)]
pub struct RawBlankett {
    /// `BLANKETT`: the identifier of form and revision.
    pub document_id: String,
    /// `BLANKETT`: the identifier of the appendix, if the form is one.
    pub document_appendix: Option<String>,
    /// The year that the revision in the identifier names; 0 if it names none.
    pub filing_year: u16,
    /// The period that the revision in the identifier names; 0 if it names none.
    pub filing_period: u8,
    /// `IDENTITET`.
    pub organization_number: String,
    /// `IDENTITET`.
    pub created_at: Timestamp,
    /// `NAMN`.
    pub name: String,
    /// `UPPGIFT`, in the order of the file.
    pub fields: Vec<BlankettField>,
    /// `SYSTEMINFO`.
    pub system_info: Option<String>,
}

/// A raw form with its texts as characters: what contracts say of a `RawBlankett`.
pub struct RawBlankettView {
    pub document_id: Seq<char>,
    pub document_appendix: Option<Seq<char>>,
    pub filing_year: u16,
    pub filing_period: u8,
    pub organization_number: Seq<char>,
    pub created_at: Timestamp,
    pub name: Seq<char>,
    pub fields: Seq<BlankettFieldView>,
    pub system_info: Option<Seq<char>>,
}

impl View for RawBlankett {
    type V = RawBlankettView;

    open spec fn view(&self) -> RawBlankettView {
        RawBlankettView {
            document_id: self.document_id@,
            document_appendix: optional_text(self.document_appendix),
            filing_year: self.filing_year,
            filing_period: self.filing_period,
            organization_number: self.organization_number@,
            created_at: self.created_at,
            name: self.name@,
            fields: field_views(self.fields@),
            system_info: optional_text(self.system_info),
        }
    }
}

/// A form that was checked against its schema: its fields are typed.
#[derive(Clone, Debug, PartialEq, Eq)]
pub struct ValidatedBlankett {
    /// `BLANKETT`: the identifier of form and revision.
    pub document_id: String,
    /// `BLANKETT`: the identifier of the appendix, if the form is one.
    pub document_appendix: Option<String>,
    pub filing_year: u16,
    pub filing_period: u8,
    /// `IDENTITET`.
    pub organization_number: String,
    /// `IDENTITET`.
    pub created_at: Timestamp,
    /// `NAMN`.
    pub name: String,
    /// `UPPGIFT`: the fields, typed as the schema of the form declares.
    pub document: ValidDocument,
    /// `SYSTEMINFO`.
    pub system_info: Option<String>,
}

/// A validated form with its texts as characters and its typed fields as a mapping:
/// what contracts say of a `ValidatedBlankett`.
pub struct ValidatedBlankettView {
    pub document_id: Seq<char>,
    pub document_appendix: Option<Seq<char>>,
    pub filing_year: u16,
    pub filing_period: u8,
    pub organization_number: Seq<char>,
    pub created_at: Timestamp,
    pub name: Seq<char>,
    pub document: ValidDocumentView,
    pub system_info: Option<Seq<char>>,
}

impl View for ValidatedBlankett {
    type V = ValidatedBlankettView;

    open spec fn view(&self) -> ValidatedBlankettView {
        ValidatedBlankettView {
            document_id: self.document_id@,
            document_appendix: optional_text(self.document_appendix),
            filing_year: self.filing_year,
            filing_period: self.filing_period,
            organization_number: self.organization_number@,
            created_at: self.created_at,
            name: self.name@,
            document: self.document@,
            system_info: optional_text(self.system_info),
        }
    }
}

/// A form, either as it was read or checked against its schema.
#[derive(Clone, Debug, PartialEq, Eq)]
pub enum Blankett {
    RawBlankett(RawBlankett),
    ValidatedBlankett(ValidatedBlankett),
}

/// A form of either kind: what contracts say of a `Blankett`.
pub enum BlankettView {
    RawBlankett(RawBlankettView),
    ValidatedBlankett(ValidatedBlankettView),
}

impl View for Blankett {
    type V = BlankettView;

    open spec fn view(&self) -> BlankettView {
        match self {
            Blankett::RawBlankett(b) => BlankettView::RawBlankett(b@),
            Blankett::ValidatedBlankett(b) => BlankettView::ValidatedBlankett(b@),
        }
    }
}

/// The views of a run of forms.
pub open spec fn blankett_views(blanketter: Seq<Blankett>) -> Seq<BlankettView> {
    blanketter.map_values(|b: Blankett| b@)
}

/// A document: either the description of a delivery or the forms delivered.
#[derive(Clone, Debug, PartialEq, Eq)]
pub enum SRU {
    Info(InfoHeader, InfoContact),
    Blanketter(Vec<Blankett>),
}

/// A document: what contracts say of an `SRU`.
pub enum SRUView {
    Info(InfoHeaderView, InfoContactView),
    Blanketter(Seq<BlankettView>),
}

impl View for SRU {
    type V = SRUView;

    open spec fn view(&self) -> SRUView {
        match self {
            SRU::Info(header, contact) => SRUView::Info(header@, contact@),
            SRU::Blanketter(blanketter) => SRUView::Blanketter(blankett_views(blanketter@)),
        }
    }
}

impl SRUView {
    /// An Info document has a well-formed header.
    pub open spec fn wf(self) -> bool {
        match self {
            SRUView::Info(header, _) => header.wf(),
            SRUView::Blanketter(_) => true,
        }
    }

    /// Whether the document is as a text gives it: its forms, if it holds forms, are raw.
    pub open spec fn as_read(self) -> bool {
        match self {
            SRUView::Info(_, _) => true,
            SRUView::Blanketter(blanketter) => forall|i: int|
                0 <= i < blanketter.len() ==> (#[trigger] blanketter[i]) is RawBlankett,
        }
    }

    /// The document as directive text: for an Info document the header and then the
    /// contact section; forms are not written and give the empty text.
    pub open spec fn text(self) -> Seq<char> {
        match self {
            SRUView::Info(header, contact) => header.text() + contact.text(),
            SRUView::Blanketter(_) => Seq::empty(),
        }
    }
}

impl SRU {
    /// An Info document has a well-formed header.
    pub open spec fn wf(&self) -> bool {
        self@.wf()
    }

    /// Whether the document is well-formed.
    pub fn is_wf(&self) -> (b: bool)
        ensures
            b == self.wf(),
    {
        match self {
            SRU::Info(header, _) => header.is_wf(),
            SRU::Blanketter(_) => true,
        }
    }

    /// The document as directive text. An Info document whose texts are canonical is
    /// read back from that text.
    pub fn to_text(&self) -> (s: String)
        ensures
            s@ == self@.text(),
            self@ matches SRUView::Info(header, contact) && header.wf() && header.canonical()
                && contact.canonical() ==> parse_spec(s@) == Ok::<SRUView, ParseError>(self@),
    {
        proof {
            match self@ {
                SRUView::Info(header, contact) => {
                    if header.wf() && header.canonical() && contact.canonical() {
                        lemma_info_round_trip(header, contact);
                    }
                },
                SRUView::Blanketter(_) => {},
            }
        }
        match self {
            SRU::Info(header, contact) => {
                let mut s = header.to_text();
                let tail = contact.to_text();
                push_chars(&mut s, &chars_of(tail.as_str()));
                s
            },
            SRU::Blanketter(_) => String::new(),
        }
    }
}

impl InfoHeader {
    /// Whether the header is well-formed.
    pub fn is_wf(&self) -> (b: bool)
        ensures
            b == self.wf(),
    {
        let product = chars_of(self.product.as_str());
        assert(product@.subrange(0, product.len() as int) =~= product@);
        proof {
            match self.created_at {
                Some(t) => {
                    use_type_invariant(&t);
                },
                None => {},
            }
        }
        range_spells(&product, 0, product.len(), "SRU")
    }
}

} // verus!
