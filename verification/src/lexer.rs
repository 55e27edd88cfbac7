//! Splitting a text into directives, and writing directives as text.
use vstd::prelude::*;
use vstd::string::{StringExecFns, StringSliceAdditionalSpecFns};
use crate::text::{
    byte_len, byte_offset, char_is_blank, char_is_keyword_char, char_is_marker, chars_of, is_blank,
    is_keyword_char, is_marker, lemma_byte_len_is_utf8_len, lemma_byte_offset_step, push_chars,
    push_decimal, render_decimal, text_of, trim, trimmed_range, width_of,
};

verus! {

/// The directive keywords of the format, named as they are written after the marker.
#[derive(Clone, Copy, Debug, PartialEq, Eq, Structural)]
pub enum Keyword {
    DatabeskrivningStart,
    Produkt,
    Mediaid,
    Skapad,
    Program,
    Filnamn,
    DatabeskrivningSlut,
    MedielevStart,
    Orgnr,
    Namn,
    Adress,
    Postnr,
    Postort,
    Avdelning,
    Kontakt,
    Email,
    Telefon,
    Fax,
    MedielevSlut,
    Blankett,
    Identitet,
    Uppgift,
    Systeminfo,
    Blankettslut,
    FilSlut,
}

impl Keyword {
    /// The keyword as it is written in a file, without the marker.
    pub open spec fn text(self) -> Seq<char> {
        match self {
            Keyword::DatabeskrivningStart => "DATABESKRIVNING_START"@,
            Keyword::Produkt => "PRODUKT"@,
            Keyword::Mediaid => "MEDIAID"@,
            Keyword::Skapad => "SKAPAD"@,
            Keyword::Program => "PROGRAM"@,
            Keyword::Filnamn => "FILNAMN"@,
            Keyword::DatabeskrivningSlut => "DATABESKRIVNING_SLUT"@,
            Keyword::MedielevStart => "MEDIELEV_START"@,
            Keyword::Orgnr => "ORGNR"@,
            Keyword::Namn => "NAMN"@,
            Keyword::Adress => "ADRESS"@,
            Keyword::Postnr => "POSTNR"@,
            Keyword::Postort => "POSTORT"@,
            Keyword::Avdelning => "AVDELNING"@,
            Keyword::Kontakt => "KONTAKT"@,
            Keyword::Email => "EMAIL"@,
            Keyword::Telefon => "TELEFON"@,
            Keyword::Fax => "FAX"@,
            Keyword::MedielevSlut => "MEDIELEV_SLUT"@,
            Keyword::Blankett => "BLANKETT"@,
            Keyword::Identitet => "IDENTITET"@,
            Keyword::Uppgift => "UPPGIFT"@,
            Keyword::Systeminfo => "SYSTEMINFO"@,
            Keyword::Blankettslut => "BLANKETTSLUT"@,
            Keyword::FilSlut => "FIL_SLUT"@,
        }
    }

    /// The keyword as it is written in a file, without the marker.
    pub fn name(self) -> (s: &'static str)
        ensures
            s@ == self.text(),
    {
        match self {
            Keyword::DatabeskrivningStart => "DATABESKRIVNING_START",
            Keyword::Produkt => "PRODUKT",
            Keyword::Mediaid => "MEDIAID",
            Keyword::Skapad => "SKAPAD",
            Keyword::Program => "PROGRAM",
            Keyword::Filnamn => "FILNAMN",
            Keyword::DatabeskrivningSlut => "DATABESKRIVNING_SLUT",
            Keyword::MedielevStart => "MEDIELEV_START",
            Keyword::Orgnr => "ORGNR",
            Keyword::Namn => "NAMN",
            Keyword::Adress => "ADRESS",
            Keyword::Postnr => "POSTNR",
            Keyword::Postort => "POSTORT",
            Keyword::Avdelning => "AVDELNING",
            Keyword::Kontakt => "KONTAKT",
            Keyword::Email => "EMAIL",
            Keyword::Telefon => "TELEFON",
            Keyword::Fax => "FAX",
            Keyword::MedielevSlut => "MEDIELEV_SLUT",
            Keyword::Blankett => "BLANKETT",
            Keyword::Identitet => "IDENTITET",
            Keyword::Uppgift => "UPPGIFT",
            Keyword::Systeminfo => "SYSTEMINFO",
            Keyword::Blankettslut => "BLANKETTSLUT",
            Keyword::FilSlut => "FIL_SLUT",
        }
    }
}

/// The keyword that is written as `name`, if there is one.
pub open spec fn keyword_of(name: Seq<char>) -> Option<Keyword> {
    if name == Keyword::DatabeskrivningStart.text() {
        Some(Keyword::DatabeskrivningStart)
    } else if name == Keyword::Produkt.text() {
        Some(Keyword::Produkt)
    } else if name == Keyword::Mediaid.text() {
        Some(Keyword::Mediaid)
    } else if name == Keyword::Skapad.text() {
        Some(Keyword::Skapad)
    } else if name == Keyword::Program.text() {
        Some(Keyword::Program)
    } else if name == Keyword::Filnamn.text() {
        Some(Keyword::Filnamn)
    } else if name == Keyword::DatabeskrivningSlut.text() {
        Some(Keyword::DatabeskrivningSlut)
    } else if name == Keyword::MedielevStart.text() {
        Some(Keyword::MedielevStart)
    } else if name == Keyword::Orgnr.text() {
        Some(Keyword::Orgnr)
    } else if name == Keyword::Namn.text() {
        Some(Keyword::Namn)
    } else if name == Keyword::Adress.text() {
        Some(Keyword::Adress)
    } else if name == Keyword::Postnr.text() {
        Some(Keyword::Postnr)
    } else if name == Keyword::Postort.text() {
        Some(Keyword::Postort)
    } else if name == Keyword::Avdelning.text() {
        Some(Keyword::Avdelning)
    } else if name == Keyword::Kontakt.text() {
        Some(Keyword::Kontakt)
    } else if name == Keyword::Email.text() {
        Some(Keyword::Email)
    } else if name == Keyword::Telefon.text() {
        Some(Keyword::Telefon)
    } else if name == Keyword::Fax.text() {
        Some(Keyword::Fax)
    } else if name == Keyword::MedielevSlut.text() {
        Some(Keyword::MedielevSlut)
    } else if name == Keyword::Blankett.text() {
        Some(Keyword::Blankett)
    } else if name == Keyword::Identitet.text() {
        Some(Keyword::Identitet)
    } else if name == Keyword::Uppgift.text() {
        Some(Keyword::Uppgift)
    } else if name == Keyword::Systeminfo.text() {
        Some(Keyword::Systeminfo)
    } else if name == Keyword::Blankettslut.text() {
        Some(Keyword::Blankettslut)
    } else if name == Keyword::FilSlut.text() {
        Some(Keyword::FilSlut)
    } else {
        None
    }
}

/// Whether `chars[from..to]` spells `word`.
pub fn range_spells(chars: &Vec<char>, from: usize, to: usize, word: &str) -> (b: bool)
    requires
        from <= to <= chars.len(),
    ensures
        b == (chars@.subrange(from as int, to as int) == word@),
{
    let letters = chars_of(word);
    if letters.len() != to - from {
        return false;
    }
    let mut i: usize = 0;
    while i < letters.len()
        invariant
            from <= to <= chars.len(),
            letters.len() == to - from,
            letters@ == word@,
            i <= letters.len(),
            forall|j: int| 0 <= j < i ==> chars@[from + j] == letters@[j],
        decreases letters.len() - i,
    {
        if chars[from + i] != letters[i] {
            assert(chars@.subrange(from as int, to as int)[i as int] != word@[i as int]);
            return false;
        }
        i += 1;
    }
    assert(chars@.subrange(from as int, to as int) =~= word@);
    true
}

/// Recognises the keyword spelled by `chars[from..to]`.
pub fn keyword_from(chars: &Vec<char>, from: usize, to: usize) -> (r: Option<Keyword>)
    requires
        from <= to <= chars.len(),
    ensures
        r == keyword_of(chars@.subrange(from as int, to as int)),
{
    if range_spells(chars, from, to, Keyword::DatabeskrivningStart.name()) {
        Some(Keyword::DatabeskrivningStart)
    } else if range_spells(chars, from, to, Keyword::Produkt.name()) {
        Some(Keyword::Produkt)
    } else if range_spells(chars, from, to, Keyword::Mediaid.name()) {
        Some(Keyword::Mediaid)
    } else if range_spells(chars, from, to, Keyword::Skapad.name()) {
        Some(Keyword::Skapad)
    } else if range_spells(chars, from, to, Keyword::Program.name()) {
        Some(Keyword::Program)
    } else if range_spells(chars, from, to, Keyword::Filnamn.name()) {
        Some(Keyword::Filnamn)
    } else if range_spells(chars, from, to, Keyword::DatabeskrivningSlut.name()) {
        Some(Keyword::DatabeskrivningSlut)
    } else if range_spells(chars, from, to, Keyword::MedielevStart.name()) {
        Some(Keyword::MedielevStart)
    } else if range_spells(chars, from, to, Keyword::Orgnr.name()) {
        Some(Keyword::Orgnr)
    } else if range_spells(chars, from, to, Keyword::Namn.name()) {
        Some(Keyword::Namn)
    } else if range_spells(chars, from, to, Keyword::Adress.name()) {
        Some(Keyword::Adress)
    } else if range_spells(chars, from, to, Keyword::Postnr.name()) {
        Some(Keyword::Postnr)
    } else if range_spells(chars, from, to, Keyword::Postort.name()) {
        Some(Keyword::Postort)
    } else if range_spells(chars, from, to, Keyword::Avdelning.name()) {
        Some(Keyword::Avdelning)
    } else if range_spells(chars, from, to, Keyword::Kontakt.name()) {
        Some(Keyword::Kontakt)
    } else if range_spells(chars, from, to, Keyword::Email.name()) {
        Some(Keyword::Email)
    } else if range_spells(chars, from, to, Keyword::Telefon.name()) {
        Some(Keyword::Telefon)
    } else if range_spells(chars, from, to, Keyword::Fax.name()) {
        Some(Keyword::Fax)
    } else if range_spells(chars, from, to, Keyword::MedielevSlut.name()) {
        Some(Keyword::MedielevSlut)
    } else if range_spells(chars, from, to, Keyword::Blankett.name()) {
        Some(Keyword::Blankett)
    } else if range_spells(chars, from, to, Keyword::Identitet.name()) {
        Some(Keyword::Identitet)
    } else if range_spells(chars, from, to, Keyword::Uppgift.name()) {
        Some(Keyword::Uppgift)
    } else if range_spells(chars, from, to, Keyword::Systeminfo.name()) {
        Some(Keyword::Systeminfo)
    } else if range_spells(chars, from, to, Keyword::Blankettslut.name()) {
        Some(Keyword::Blankettslut)
    } else if range_spells(chars, from, to, Keyword::FilSlut.name()) {
        Some(Keyword::FilSlut)
    } else {
        None
    }
}

/// One directive: its keyword and its value, the text up to the next marker with the
/// blanks at both ends removed.
#[derive(Clone, Debug, PartialEq, Eq)]
pub struct Token {
    pub keyword: Keyword,
    pub value: String,
}

/// A directive as keyword and characters: what contracts say of a `Token`.
pub struct TokenView {
    pub keyword: Keyword,
    pub value: Seq<char>,
}

impl View for Token {
    type V = TokenView;

    open spec fn view(&self) -> TokenView {
        TokenView { keyword: self.keyword, value: self.value@ }
    }
}

/// The views of a run of tokens.
pub open spec fn token_views(tokens: Seq<Token>) -> Seq<TokenView> {
    tokens.map_values(|t: Token| t@)
}

/// What keeps a text from being split into directives.
#[derive(Clone, Copy, Debug, PartialEq, Eq, Structural)]
pub enum LexErrorKind {
    /// Text other than blanks stands before the first directive.
    StrayText,
    /// A marker is not followed by a known keyword that ends at a blank, at the next
    /// marker or at the end of the input.
    BadDirective,
}

/// Why the text could not be split into directives, and the byte offset of the
/// character at which that was found.
#[derive(Clone, Copy, Debug, PartialEq, Eq, Structural)]
pub struct LexError {
    pub kind: LexErrorKind,
    pub offset: usize,
}

impl LexError {
    /// The error in words: what was found, and the byte offset at which it was found.
    pub open spec fn message(self) -> Seq<char> {
        (match self.kind {
            LexErrorKind::StrayText => "text outside a directive at byte "@,
            LexErrorKind::BadDirective => "marker without a known keyword at byte "@,
        }) + render_decimal(self.offset as nat)
    }

    /// The error in words.
    pub fn describe(&self) -> (s: String)
        ensures
            s@ == self.message(),
    {
        let mut s = String::new();
        match self.kind {
            LexErrorKind::StrayText => s.append("text outside a directive at byte "),
            LexErrorKind::BadDirective => s.append("marker without a known keyword at byte "),
        }
        push_decimal(&mut s, self.offset as u64);
        assert(s@ =~= self.message());
        s
    }
}

/// The first index from `i` on that holds no blank; the length if there is none.
pub open spec fn skip_blanks(s: Seq<char>, i: int) -> int
    decreases s.len() - i,
{
    if 0 <= i < s.len() && is_blank(s[i]) {
        skip_blanks(s, i + 1)
    } else {
        i
    }
}

/// The first index from `i` on that holds no keyword character; the length if there is none.
pub open spec fn keyword_end(s: Seq<char>, i: int) -> int
    decreases s.len() - i,
{
    if 0 <= i < s.len() && is_keyword_char(s[i]) {
        keyword_end(s, i + 1)
    } else {
        i
    }
}

/// The first index from `i` on that holds a marker; the length if there is none.
pub open spec fn value_end(s: Seq<char>, i: int) -> int
    decreases s.len() - i,
{
    if 0 <= i < s.len() && !is_marker(s[i]) {
        value_end(s, i + 1)
    } else {
        i
    }
}

/// A scan from `i` ends between `i` and the end of the text.
pub proof fn lemma_scan_bounds(s: Seq<char>, i: int)
    requires
        0 <= i <= s.len(),
    ensures
        i <= skip_blanks(s, i) <= s.len(),
        i <= keyword_end(s, i) <= s.len(),
        i <= value_end(s, i) <= s.len(),
    decreases s.len() - i,
{
    if i < s.len() {
        lemma_scan_bounds(s, i + 1);
    }
}

/// The directives of `s` from index `i` on. Blanks before a marker are skipped; the
/// keyword is the run of keyword characters behind the marker; the value runs to the
/// next marker.
pub open spec fn lex_from(s: Seq<char>, i: int) -> Result<Seq<TokenView>, LexError>
    decreases s.len() - i,
    when 0 <= i <= s.len()
{
    let p = skip_blanks(s, i);
    if p >= s.len() {
        Ok(Seq::empty())
    } else if !is_marker(s[p]) {
        Err(LexError { kind: LexErrorKind::StrayText, offset: byte_offset(s, p) as usize })
    } else {
        let k = keyword_end(s, p + 1);
        let v = value_end(s, k);
        let bad = LexError { kind: LexErrorKind::BadDirective, offset: byte_offset(s, p) as usize };
        if k < s.len() && !is_blank(s[k]) && !is_marker(s[k]) {
            Err(bad)
        } else {
            match keyword_of(s.subrange(p + 1, k)) {
                None => Err(bad),
                Some(keyword) => {
                    proof {
                        lemma_scan_bounds(s, i);
                        lemma_scan_bounds(s, p + 1);
                        lemma_scan_bounds(s, k);
                    }
                    match lex_from(s, v) {
                        Ok(rest) => Ok(
                            seq![TokenView { keyword, value: trim(s.subrange(k, v)) }] + rest,
                        ),
                        Err(e) => Err(e),
                    }
                },
            }
        }
    }
}

/// The directives of a whole text.
pub open spec fn lex_spec(s: Seq<char>) -> Result<Seq<TokenView>, LexError> {
    lex_from(s, 0)
}

/// Skips the blanks from `from` on, keeping count of the bytes passed.
fn scan_blanks(chars: &Vec<char>, from: usize, offset: usize) -> (r: (usize, usize))
    requires
        from <= chars.len(),
        offset == byte_offset(chars@, from as int),
        byte_len(chars@) <= usize::MAX,
    ensures
        r.0 == skip_blanks(chars@, from as int),
        from <= r.0 <= chars.len(),
        r.1 == byte_offset(chars@, r.0 as int),
{
    let mut i: usize = from;
    let mut at: usize = offset;
    while i < chars.len() && char_is_blank(chars[i])
        invariant
            from <= i <= chars.len(),
            skip_blanks(chars@, i as int) == skip_blanks(chars@, from as int),
            at == byte_offset(chars@, i as int),
            byte_len(chars@) <= usize::MAX,
        decreases chars.len() - i,
    {
        proof {
            lemma_byte_offset_step(chars@, i as int);
        }
        at += width_of(chars[i]);
        i += 1;
    }
    (i, at)
}

/// Passes the keyword characters from `from` on, keeping count of the bytes passed.
fn scan_keyword(chars: &Vec<char>, from: usize, offset: usize) -> (r: (usize, usize))
    requires
        from <= chars.len(),
        offset == byte_offset(chars@, from as int),
        byte_len(chars@) <= usize::MAX,
    ensures
        r.0 == keyword_end(chars@, from as int),
        from <= r.0 <= chars.len(),
        r.1 == byte_offset(chars@, r.0 as int),
{
    let mut i: usize = from;
    let mut at: usize = offset;
    while i < chars.len() && char_is_keyword_char(chars[i])
        invariant
            from <= i <= chars.len(),
            keyword_end(chars@, i as int) == keyword_end(chars@, from as int),
            at == byte_offset(chars@, i as int),
            byte_len(chars@) <= usize::MAX,
        decreases chars.len() - i,
    {
        proof {
            lemma_byte_offset_step(chars@, i as int);
        }
        at += width_of(chars[i]);
        i += 1;
    }
    (i, at)
}

/// Passes everything up to the next marker, keeping count of the bytes passed.
fn scan_value(chars: &Vec<char>, from: usize, offset: usize) -> (r: (usize, usize))
    requires
        from <= chars.len(),
        offset == byte_offset(chars@, from as int),
        byte_len(chars@) <= usize::MAX,
    ensures
        r.0 == value_end(chars@, from as int),
        from <= r.0 <= chars.len(),
        r.1 == byte_offset(chars@, r.0 as int),
{
    let mut i: usize = from;
    let mut at: usize = offset;
    while i < chars.len() && !char_is_marker(chars[i])
        invariant
            from <= i <= chars.len(),
            value_end(chars@, i as int) == value_end(chars@, from as int),
            at == byte_offset(chars@, i as int),
            byte_len(chars@) <= usize::MAX,
        decreases chars.len() - i,
    {
        proof {
            lemma_byte_offset_step(chars@, i as int);
        }
        at += width_of(chars[i]);
        i += 1;
    }
    (i, at)
}

/// A lexer over a text. It gives the directives of the text one at a time, each when it
/// is asked for, and can be set back to the start of the text.
pub struct Lexer {
    chars: Vec<char>,
    /// The index of the character at which the lexer stands, and its byte offset.
    cursor: (usize, usize),
}

impl Lexer {
    #[verifier::type_invariant]
    spec fn inv(self) -> bool {
        &&& self.cursor.0 <= self.chars.len()
        &&& self.cursor.1 == byte_offset(self.chars@, self.cursor.0 as int)
        &&& byte_len(self.chars@) <= usize::MAX
    }

    /// The text that the lexer goes through.
    pub closed spec fn text(&self) -> Seq<char> {
        self.chars@
    }

    /// The index of the character at which the lexer stands.
    pub closed spec fn position(&self) -> int {
        self.cursor.0 as int
    }

    /// What the lexer has yet to give: the directives from where it stands on, or the
    /// error that it will come to.
    pub open spec fn remaining(&self) -> Result<Seq<TokenView>, LexError> {
        lex_from(self.text(), self.position())
    }

    /// A lexer at the start of `text`.
    pub fn new(text: &str) -> (lexer: Lexer)
        ensures
            lexer.text() == text@,
            lexer.position() == 0,
    {
        let encoded_len = text.as_bytes().len();
        let chars = chars_of(text);
        proof {
            assert(encoded_len == text.spec_bytes().len());
            lemma_byte_len_is_utf8_len(chars@);
            assert(chars@.subrange(0, 0) =~= Seq::<char>::empty());
        }
        Lexer { chars, cursor: (0, 0) }
    }

    /// Sets the lexer back to the start of its text.
    pub fn restart(&mut self)
        ensures
            final(self).text() == old(self).text(),
            final(self).position() == 0,
    {
        proof {
            use_type_invariant(&*self);
            assert(self.chars@.subrange(0, 0) =~= Seq::<char>::empty());
        }
        self.cursor = (0, 0);
    }

    /// Gives the next directive and steps behind it; `None` at the end of the text. After
    /// an error the lexer stands where it stood, and gives the same error again.
    pub fn next_token(&mut self) -> (r: Option<Result<Token, LexError>>)
        ensures
            final(self).text() == old(self).text(),
            0 <= old(self).position() <= final(self).position() <= old(self).text().len(),
            match r {
                None => old(self).remaining() == Ok::<Seq<TokenView>, LexError>(Seq::empty())
                    && final(self).position() == old(self).position(),
                Some(Ok(token)) => {
                    &&& old(self).remaining() == match final(self).remaining() {
                        Ok(rest) => Ok::<Seq<TokenView>, LexError>(seq![token@] + rest),
                        Err(error) => Err(error),
                    }
                    &&& old(self).position() < final(self).position()
                },
                Some(Err(error)) => old(self).remaining() == Err::<Seq<TokenView>, LexError>(error)
                    && final(self).position() == old(self).position(),
            },
    {
        proof {
            use_type_invariant(&*self);
        }
        let ghost s = self.chars@;
        let (p, at_p) = scan_blanks(&self.chars, self.cursor.0, self.cursor.1);
        if p >= self.chars.len() {
            return None;
        }
        if !char_is_marker(self.chars[p]) {
            return Some(Err(LexError { kind: LexErrorKind::StrayText, offset: at_p }));
        }
        proof {
            lemma_byte_offset_step(s, p as int);
        }
        let (k, at_k) = scan_keyword(&self.chars, p + 1, at_p + width_of(self.chars[p]));
        let bad = LexError { kind: LexErrorKind::BadDirective, offset: at_p };
        if k < self.chars.len() && !char_is_blank(self.chars[k]) && !char_is_marker(self.chars[k]) {
            return Some(Err(bad));
        }
        let keyword = match keyword_from(&self.chars, p + 1, k) {
            Some(keyword) => keyword,
            None => {
                return Some(Err(bad));
            },
        };
        let (v, at_v) = scan_value(&self.chars, k, at_k);
        let (a, b) = trimmed_range(&self.chars, k, v);
        let token = Token { keyword, value: text_of(&self.chars, a, b) };
        self.cursor = (v, at_v);
        Some(Ok(token))
    }
}

/// Splits a text into its directives.
pub fn lex(text: &str) -> (r: Result<Vec<Token>, LexError>)
    ensures
        match r {
            Ok(tokens) => lex_spec(text@) == Ok::<Seq<TokenView>, LexError>(token_views(tokens@)),
            Err(e) => lex_spec(text@) == Err::<Seq<TokenView>, LexError>(e),
        },
{
    let mut lexer = Lexer::new(text);
    let mut tokens: Vec<Token> = Vec::new();
    loop
        invariant
            lexer.text() == text@,
            0 <= lexer.position() <= text@.len(),
            lex_spec(text@) == match lexer.remaining() {
                Ok(rest) => Ok::<Seq<TokenView>, LexError>(token_views(tokens@) + rest),
                Err(e) => Err(e),
            },
        decreases text@.len() - lexer.position(),
    {
        let ghost before = token_views(tokens@);
        match lexer.next_token() {
            None => {
                assert(before + Seq::<TokenView>::empty() =~= before);
                return Ok(tokens);
            },
            Some(Err(error)) => {
                return Err(error);
            },
            Some(Ok(token)) => {
                proof {
                    let rest = lexer.remaining();
                    let after = token_views(tokens@.push(token));
                    assert(after =~= before.push(token@));
                    if rest is Ok {
                        assert(before + (seq![token@] + rest->Ok_0) =~= after + rest->Ok_0);
                    }
                }
                tokens.push(token);
            },
        }
    }
}

impl Keyword {
    /// Whether the keyword brackets a section and so carries no value.
    pub open spec fn is_bracket(self) -> bool {
        match self {
            Keyword::DatabeskrivningStart
            | Keyword::DatabeskrivningSlut
            | Keyword::MedielevStart
            | Keyword::MedielevSlut
            | Keyword::Blankettslut
            | Keyword::FilSlut => true,
            _ => false,
        }
    }

    /// Whether the keyword brackets a section and so carries no value.
    pub fn brackets(self) -> (b: bool)
        ensures
            b == self.is_bracket(),
    {
        match self {
            Keyword::DatabeskrivningStart
            | Keyword::DatabeskrivningSlut
            | Keyword::MedielevStart
            | Keyword::MedielevSlut
            | Keyword::Blankettslut
            | Keyword::FilSlut => true,
            _ => false,
        }
    }
}

/// The line that a directive is written as: the marker, the keyword and a line feed,
/// with a space and the value before the line feed unless the keyword is a bracket.
pub open spec fn token_text(token: TokenView) -> Seq<char> {
    if token.keyword.is_bracket() {
        seq!['#'] + token.keyword.text() + seq!['\n']
    } else {
        seq!['#'] + token.keyword.text() + seq![' '] + token.value + seq!['\n']
    }
}

/// The lines of a run of directives, one behind the other.
pub open spec fn tokens_text(tokens: Seq<TokenView>) -> Seq<char>
    decreases tokens.len(),
{
    if tokens.len() == 0 {
        Seq::empty()
    } else {
        tokens_text(tokens.drop_last()) + token_text(tokens.last())
    }
}

/// Writes a run of directives as text, one line each.
pub fn render(tokens: &Vec<Token>) -> (s: String)
    ensures
        s@ == tokens_text(token_views(tokens@)),
{
    let ghost views = token_views(tokens@);
    let mut s = String::new();
    let mut i: usize = 0;
    while i < tokens.len()
        invariant
            i <= tokens.len(),
            views == token_views(tokens@),
            s@ == tokens_text(views.subrange(0, i as int)),
        decreases tokens.len() - i,
    {
        let token = &tokens[i];
        let ghost before = s@;
        let marker = chars_of("#");
        let name = chars_of(token.keyword.name());
        let end = chars_of("\n");
        proof {
            reveal_strlit("#");
            reveal_strlit("\n");
            reveal_strlit(" ");
            assert(marker@ =~= seq!['#']);
            assert(end@ =~= seq!['\n']);
            assert(views.subrange(0, i + 1).drop_last() =~= views.subrange(0, i as int));
            assert(views.subrange(0, i + 1).last() == token@);
        }
        push_chars(&mut s, &marker);
        push_chars(&mut s, &name);
        if !token.keyword.brackets() {
            let space = chars_of(" ");
            let value = chars_of(token.value.as_str());
            assert(space@ =~= seq![' ']);
            push_chars(&mut s, &space);
            push_chars(&mut s, &value);
        }
        push_chars(&mut s, &end);
        assert(s@ =~= before + token_text(token@));
        i += 1;
    }
    assert(views.subrange(0, tokens.len() as int) =~= views);
    s
}

} // verus!
