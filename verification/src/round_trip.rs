//! Proofs that an Info document is read back from the text that it is written as.
use vstd::prelude::*;
use crate::grammar::{
    lemma_slot_end_bounds, lemma_slot_run, lemma_typed_values_shape, match_slots,
    optional_directive, render_slots, slot_end, typed_value, typed_values, GrammarError,
    Multiplicity, Slot, ValueView,
};
use crate::lexer::{
    keyword_end, keyword_of, lemma_scan_bounds, lex_from, lex_spec, skip_blanks, token_text,
    tokens_text, value_end, Keyword, LexError, TokenView,
};
use crate::sru::{
    contact_slots, header_slots, optional_stamp_text, InfoContactView, InfoHeaderView, SRUView,
};
use crate::sru_parser::{
    assemble_contact, assemble_header, info_slots, lemma_parsed_is_wf, optional_text_in, parse_spec,
    parse_tokens, text_in, ParseError,
};
use crate::text::{
    all_digits, is_blank, is_digit, is_keyword_char, is_marker, is_trimmed, lemma_render_decimal,
    lemma_trim_end_prefix, lemma_trim_is_trimmed, lemma_trim_start_suffix, render_decimal, trim,
    trim_start,
};
use crate::timestamp::{lemma_stamp_text_shape, lemma_timestamp_text_parses, Timestamp};

verus! {

/// What tells the keywords apart: the length, the first, the third and the last character.
spec fn outline(s: Seq<char>) -> (nat, char, char, char) {
    (s.len(), s[0], s[2], s.last())
}

/// Every keyword is written with keyword characters only, at least one, and is
/// recognised by what it is written as.
pub proof fn lemma_keyword_text(keyword: Keyword)
    ensures
        keyword.text().len() > 0,
        forall|i: int| 0 <= i < keyword.text().len() ==> is_keyword_char(#[trigger] keyword.text()[i]),
        keyword_of(keyword.text()) == Some(keyword),
{
    reveal_strlit("DATABESKRIVNING_START");
    reveal_strlit("PRODUKT");
    reveal_strlit("MEDIAID");
    reveal_strlit("SKAPAD");
    reveal_strlit("PROGRAM");
    reveal_strlit("FILNAMN");
    reveal_strlit("DATABESKRIVNING_SLUT");
    reveal_strlit("MEDIELEV_START");
    reveal_strlit("ORGNR");
    reveal_strlit("NAMN");
    reveal_strlit("ADRESS");
    reveal_strlit("POSTNR");
    reveal_strlit("POSTORT");
    reveal_strlit("AVDELNING");
    reveal_strlit("KONTAKT");
    reveal_strlit("EMAIL");
    reveal_strlit("TELEFON");
    reveal_strlit("FAX");
    reveal_strlit("MEDIELEV_SLUT");
    reveal_strlit("BLANKETT");
    reveal_strlit("IDENTITET");
    reveal_strlit("UPPGIFT");
    reveal_strlit("SYSTEMINFO");
    reveal_strlit("BLANKETTSLUT");
    reveal_strlit("FIL_SLUT");
    assert(outline(Keyword::DatabeskrivningStart.text()) == (21nat, 'D', 'T', 'T'));
    assert(outline(Keyword::Produkt.text()) == (7nat, 'P', 'O', 'T'));
    assert(outline(Keyword::Mediaid.text()) == (7nat, 'M', 'D', 'D'));
    assert(outline(Keyword::Skapad.text()) == (6nat, 'S', 'A', 'D'));
    assert(outline(Keyword::Program.text()) == (7nat, 'P', 'O', 'M'));
    assert(outline(Keyword::Filnamn.text()) == (7nat, 'F', 'L', 'N'));
    assert(outline(Keyword::DatabeskrivningSlut.text()) == (20nat, 'D', 'T', 'T'));
    assert(outline(Keyword::MedielevStart.text()) == (14nat, 'M', 'D', 'T'));
    assert(outline(Keyword::Orgnr.text()) == (5nat, 'O', 'G', 'R'));
    assert(outline(Keyword::Namn.text()) == (4nat, 'N', 'M', 'N'));
    assert(outline(Keyword::Adress.text()) == (6nat, 'A', 'R', 'S'));
    assert(outline(Keyword::Postnr.text()) == (6nat, 'P', 'S', 'R'));
    assert(outline(Keyword::Postort.text()) == (7nat, 'P', 'S', 'T'));
    assert(outline(Keyword::Avdelning.text()) == (9nat, 'A', 'D', 'G'));
    assert(outline(Keyword::Kontakt.text()) == (7nat, 'K', 'N', 'T'));
    assert(outline(Keyword::Email.text()) == (5nat, 'E', 'A', 'L'));
    assert(outline(Keyword::Telefon.text()) == (7nat, 'T', 'L', 'N'));
    assert(outline(Keyword::Fax.text()) == (3nat, 'F', 'X', 'X'));
    assert(outline(Keyword::MedielevSlut.text()) == (13nat, 'M', 'D', 'T'));
    assert(outline(Keyword::Blankett.text()) == (8nat, 'B', 'A', 'T'));
    assert(outline(Keyword::Identitet.text()) == (9nat, 'I', 'E', 'T'));
    assert(outline(Keyword::Uppgift.text()) == (7nat, 'U', 'P', 'T'));
    assert(outline(Keyword::Systeminfo.text()) == (10nat, 'S', 'S', 'O'));
    assert(outline(Keyword::Blankettslut.text()) == (12nat, 'B', 'A', 'T'));
    assert(outline(Keyword::FilSlut.text()) == (8nat, 'F', 'L', 'T'));
}

/// A value that comes back from the text it is written into: it holds no marker, and
/// no blank at either end.
pub open spec fn canonical_value(s: Seq<char>) -> bool {
    &&& is_trimmed(s)
    &&& forall|i: int| 0 <= i < s.len() ==> !is_marker(#[trigger] s[i])
}

/// A directive that comes back from the line it is written as: its value is canonical,
/// and empty if the keyword is a bracket.
pub open spec fn canonical_token(token: TokenView) -> bool {
    &&& canonical_value(token.value)
    &&& token.keyword.is_bracket() ==> token.value.len() == 0
}

/// Whether every directive of a run is canonical.
pub open spec fn canonical_tokens(tokens: Seq<TokenView>) -> bool {
    forall|i: int| 0 <= i < tokens.len() ==> canonical_token(#[trigger] tokens[i])
}

/// The text of two runs of directives, one behind the other, is the text of the first
/// and then the text of the second.
pub proof fn lemma_tokens_text_concat(a: Seq<TokenView>, b: Seq<TokenView>)
    ensures
        tokens_text(a + b) == tokens_text(a) + tokens_text(b),
    decreases b.len(),
{
    if b.len() == 0 {
        assert(a + b =~= a);
        assert(tokens_text(a) + tokens_text(b) =~= tokens_text(a));
    } else {
        lemma_tokens_text_concat(a, b.drop_last());
        assert((a + b).drop_last() =~= a + b.drop_last());
        assert((a + b).last() == b.last());
        assert(tokens_text(a + b) =~= tokens_text(a) + tokens_text(b));
    }
}

/// The text of a run of directives starts with a marker, unless the run is empty.
proof fn lemma_tokens_text_starts(tokens: Seq<TokenView>)
    ensures
        tokens.len() == 0 ==> tokens_text(tokens).len() == 0,
        tokens.len() > 0 ==> tokens_text(tokens).len() > 0 && tokens_text(tokens)[0] == '#',
    decreases tokens.len(),
{
    if tokens.len() > 0 {
        lemma_tokens_text_starts(tokens.drop_last());
    }
}

/// A keyword ends at the first character that no keyword holds.
proof fn lemma_keyword_end(s: Seq<char>, i: int, e: int)
    requires
        0 <= i <= e <= s.len(),
        forall|j: int| i <= j < e ==> is_keyword_char(#[trigger] s[j]),
        e < s.len() ==> !is_keyword_char(s[e]),
    ensures
        keyword_end(s, i) == e,
    decreases e - i,
{
    if i < e {
        lemma_keyword_end(s, i + 1, e);
    }
}

/// A value ends at the first marker.
proof fn lemma_value_end(s: Seq<char>, i: int, e: int)
    requires
        0 <= i <= e <= s.len(),
        forall|j: int| i <= j < e ==> !is_marker(#[trigger] s[j]),
        e < s.len() ==> is_marker(s[e]),
    ensures
        value_end(s, i) == e,
    decreases e - i,
{
    if i < e {
        lemma_value_end(s, i + 1, e);
    }
}

/// Trimming a canonical value with blanks set around it gives the value back.
proof fn lemma_trim_padded(value: Seq<char>, before: Seq<char>, after: Seq<char>)
    requires
        is_trimmed(value),
        forall|i: int| 0 <= i < before.len() ==> is_blank(#[trigger] before[i]),
        forall|i: int| 0 <= i < after.len() ==> is_blank(#[trigger] after[i]),
    ensures
        trim(before + value + after) == value,
    decreases before.len() + after.len(),
{
    let s = before + value + after;
    if before.len() > 0 {
        assert(s.drop_first() =~= before.drop_first() + value + after);
        lemma_trim_padded(value, before.drop_first(), after);
        assert(is_blank(before[0]));
        assert(s[0] == before[0]);
    } else if after.len() > 0 {
        assert(before + value =~= value);
        assert(s =~= value + after);
        lemma_trim_padded(value, before, after.drop_last());
        assert(s.drop_last() =~= before + value + after.drop_last());
        assert(is_blank(after.last()));
        assert(s.last() == after.last());
        // the front of `s` is the front of `value`, or blank all through
        if value.len() > 0 {
            assert(s[0] == value[0]);
            assert(trim_start(s) == s);
            assert(trim_start(s.drop_last()) == s.drop_last());
        } else {
            lemma_trim_blank(s);
            lemma_trim_blank(s.drop_last());
        }
    } else {
        assert(s =~= value);
    }
}

/// A text of blanks only is trimmed to nothing.
proof fn lemma_trim_blank(s: Seq<char>)
    requires
        forall|i: int| 0 <= i < s.len() ==> is_blank(#[trigger] s[i]),
    ensures
        trim(s) == Seq::<char>::empty(),
    decreases s.len(),
{
    if s.len() > 0 {
        assert(is_blank(s[0]));
        assert forall|i: int| 0 <= i < s.drop_first().len() implies is_blank(
            #[trigger] s.drop_first()[i],
        ) by {
            assert(s.drop_first()[i] == s[i + 1]);
        }
        lemma_trim_blank(s.drop_first());
    } else {
        assert(s =~= Seq::<char>::empty());
    }
}

/// Where the line of a canonical directive stands at index `p` of a text, and a marker
/// or the end of the text behind it, the directives from `p` on are that directive and
/// then the directives from behind the line on.
proof fn lemma_lex_token(s: Seq<char>, p: int, token: TokenView)
    requires
        canonical_token(token),
        0 <= p,
        p + token_text(token).len() <= s.len(),
        s.subrange(p, p + token_text(token).len()) == token_text(token),
        p + token_text(token).len() < s.len() ==> is_marker(s[p + token_text(token).len()]),
    ensures
        lex_from(s, p) == match lex_from(s, p + token_text(token).len()) {
            Ok(rest) => Ok::<Seq<TokenView>, LexError>(seq![token] + rest),
            Err(error) => Err(error),
        },
{
    let line = token_text(token);
    let name = token.keyword.text();
    let n = name.len() as int;
    let end = p + line.len();
    lemma_keyword_text(token.keyword);
    assert forall|j: int| 0 <= j < line.len() implies #[trigger] line[j] == s[p + j] by {
        assert(s.subrange(p, end)[j] == s[p + j]);
    }
    assert(line[0] == '#');
    assert(skip_blanks(s, p) == p);
    let k = p + 1 + n;
    assert forall|j: int| p + 1 <= j < k implies is_keyword_char(#[trigger] s[j]) by {
        assert(s[j] == line[j - p]);
        assert(line[j - p] == name[j - p - 1]);
    }
    assert(s[k] == line[1 + n]);
    assert(line[1 + n] == ' ' || line[1 + n] == '\n');
    lemma_keyword_end(s, p + 1, k);
    assert forall|i: int| 0 <= i < n implies #[trigger] s.subrange(p + 1, k)[i] == name[i] by {
        assert(s[p + 1 + i] == line[1 + i]);
    }
    assert(s.subrange(p + 1, k) =~= name);
    assert forall|j: int| k <= j < end implies !is_marker(#[trigger] s[j]) by {
        assert(s[j] == line[j - p]);
        if !token.keyword.is_bracket() && k < j < end - 1 {
            assert(line[j - p] == token.value[j - k - 1]);
        }
    }
    lemma_value_end(s, k, end);
    if token.keyword.is_bracket() {
        assert(s.subrange(k, end) =~= Seq::<char>::empty() + token.value + seq!['\n']);
        lemma_trim_padded(token.value, Seq::<char>::empty(), seq!['\n']);
    } else {
        let padded = seq![' '] + token.value + seq!['\n'];
        assert forall|i: int| 0 <= i < end - k implies #[trigger] s.subrange(k, end)[i]
            == padded[i] by {
            assert(s[k + i] == line[1 + n + i]);
        }
        assert(s.subrange(k, end) =~= padded);
        lemma_trim_padded(token.value, seq![' '], seq!['\n']);
    }
}

/// The text of canonical directives, read from behind the first `n` of them on, gives
/// the others back.
proof fn lemma_lex_suffix(tokens: Seq<TokenView>, n: int)
    requires
        canonical_tokens(tokens),
        0 <= n <= tokens.len(),
    ensures
        tokens_text(tokens.subrange(0, n)).len() <= tokens_text(tokens).len(),
        lex_from(tokens_text(tokens), tokens_text(tokens.subrange(0, n)).len() as int) == Ok::<
            Seq<TokenView>,
            LexError,
        >(tokens.subrange(n, tokens.len() as int)),
    decreases tokens.len() - n,
{
    let s = tokens_text(tokens);
    let front = tokens.subrange(0, n);
    let back = tokens.subrange(n, tokens.len() as int);
    assert(front + back =~= tokens);
    lemma_tokens_text_concat(front, back);
    let p = tokens_text(front).len() as int;
    if n == tokens.len() {
        lemma_tokens_text_starts(back);
        assert(skip_blanks(s, p) == p);
        assert(back =~= Seq::<TokenView>::empty());
    } else {
        let token = tokens[n];
        let next = tokens.subrange(0, n + 1);
        let rest = tokens.subrange(n + 1, tokens.len() as int);
        lemma_lex_suffix(tokens, n + 1);
        assert(next.drop_last() =~= front);
        assert(next.last() == token);
        assert(next + rest =~= tokens);
        lemma_tokens_text_concat(next, rest);
        lemma_tokens_text_starts(rest);
        let line = token_text(token);
        assert(s =~= tokens_text(front) + line + tokens_text(rest));
        assert(s.subrange(p, p + line.len()) =~= line);
        if p + line.len() < s.len() {
            assert(s[p + line.len()] == tokens_text(rest)[0]);
        }
        lemma_lex_token(s, p, token);
        assert(seq![token] + rest =~= back);
    }
}

/// Canonical directives come back from their text.
pub proof fn lemma_lex_round_trip(tokens: Seq<TokenView>)
    requires
        canonical_tokens(tokens),
    ensures
        lex_spec(tokens_text(tokens)) == Ok::<Seq<TokenView>, LexError>(tokens),
{
    lemma_lex_suffix(tokens, 0);
    assert(tokens.subrange(0, 0) =~= Seq::<TokenView>::empty());
    assert(tokens.subrange(0, tokens.len() as int) =~= tokens);
}

/// What reading the directives of `render_slots` gives for the slots from `k` on: for
/// each slot that was written the value of its text, for the others nothing.
pub open spec fn rendered_values(slots: Seq<Slot>, texts: Seq<Option<Seq<char>>>, k: int) -> Seq<
    Seq<ValueView>,
> {
    Seq::new(
        (slots.len() - k) as nat,
        |j: int|
            match texts[k + j] {
                Some(text) => seq![
                    typed_value(TokenView { keyword: slots[k + j].keyword, value: text }, 0)->Ok_0,
                ],
                None => Seq::empty(),
            },
    )
}

/// Slots that can be written and read back: none stands for a run, no keyword stands
/// at two of them, each slot that must be filled has a text, and each text can be read
/// as a value of its keyword.
pub open spec fn writable(slots: Seq<Slot>, texts: Seq<Option<Seq<char>>>) -> bool {
    &&& texts.len() == slots.len()
    &&& forall|i: int, j: int|
        0 <= i < j < slots.len() ==> (#[trigger] slots[i]).keyword != (#[trigger] slots[j]).keyword
    &&& forall|j: int|
        0 <= j < slots.len() ==> {
            &&& (#[trigger] slots[j]).count != Multiplicity::Many
            &&& slots[j].count == Multiplicity::One ==> texts[j] is Some
            &&& texts[j] matches Some(text) ==> typed_value(
                TokenView { keyword: slots[j].keyword, value: text },
                0,
            ) is Ok
        }
}

/// The first directive that is written for the slots from `k` on carries the keyword of
/// one of those slots.
proof fn lemma_render_first(slots: Seq<Slot>, texts: Seq<Option<Seq<char>>>, k: int)
    requires
        0 <= k <= slots.len(),
        texts.len() == slots.len(),
        render_slots(slots, texts, k).len() > 0,
    ensures
        exists|j: int|
            k <= j < slots.len() && render_slots(slots, texts, k)[0].keyword == (
            #[trigger] slots[j]).keyword,
    decreases slots.len() - k,
{
    if texts[k] is None {
        assert(render_slots(slots, texts, k) =~= render_slots(slots, texts, k + 1));
        lemma_render_first(slots, texts, k + 1);
        let j = choose|j: int|
            k + 1 <= j < slots.len() && render_slots(slots, texts, k + 1)[0].keyword == (
            #[trigger] slots[j]).keyword;
        assert(k <= j < slots.len() && render_slots(slots, texts, k)[0].keyword
            == slots[j].keyword);
    } else {
        assert(render_slots(slots, texts, k)[0].keyword == slots[k].keyword);
    }
}

/// The value of a directive does not depend on where the directive stands.
proof fn lemma_typed_value_anywhere(token: TokenView, p: int, q: int)
    requires
        typed_value(token, p) is Ok,
    ensures
        typed_value(token, q) == typed_value(token, p),
{
}

/// Reading what was written for writable slots gives the values of the texts back, and
/// takes every directive.
pub proof fn lemma_match_rendered(
    tokens: Seq<TokenView>,
    p: int,
    slots: Seq<Slot>,
    texts: Seq<Option<Seq<char>>>,
    k: int,
)
    requires
        writable(slots, texts),
        0 <= k <= slots.len(),
        0 <= p <= tokens.len(),
        tokens.subrange(p, tokens.len() as int) == render_slots(slots, texts, k),
    ensures
        match_slots(tokens, p, slots, k) == Ok::<(Seq<Seq<ValueView>>, int), GrammarError>(
            (rendered_values(slots, texts, k), tokens.len() as int),
        ),
    decreases slots.len() - k,
{
    let tail = tokens.subrange(p, tokens.len() as int);
    if k == slots.len() {
        assert(rendered_values(slots, texts, k) =~= Seq::<Seq<ValueView>>::empty());
        assert(tail.len() == 0);
    } else {
        let slot = slots[k];
        let later = render_slots(slots, texts, k + 1);
        match texts[k] {
            Some(text) => {
                let token = TokenView { keyword: slot.keyword, value: text };
                assert(tail =~= seq![token] + later);
                assert(tail.len() == 1 + later.len());
                assert(tail[0] == token);
                assert(tokens.subrange(p, tokens.len() as int)[0] == tokens[p + 0]);
                assert(tokens[p] == token);
                assert forall|i: int| 0 <= i < later.len() implies #[trigger] tokens.subrange(
                    p + 1,
                    tokens.len() as int,
                )[i] == later[i] by {
                    assert(tail[i + 1] == later[i]);
                    assert(tail[i + 1] == tokens[p + i + 1]);
                }
                assert(tokens.subrange(p + 1, tokens.len() as int) =~= later);
                lemma_match_rendered(tokens, p + 1, slots, texts, k + 1);
                lemma_typed_value_anywhere(token, 0, p);
                assert(slot_end(tokens, p, slot) == p + 1);
                let v = typed_value(token, 0)->Ok_0;
                assert(typed_values(tokens, p + 1, p + 1) == Ok::<Seq<ValueView>, GrammarError>(
                    Seq::empty(),
                ));
                assert(seq![v] + Seq::<ValueView>::empty() =~= seq![v]);
                assert(typed_values(tokens, p, p + 1) == Ok::<Seq<ValueView>, GrammarError>(
                    seq![v],
                ));
                assert(seq![seq![v]] + rendered_values(slots, texts, k + 1) =~= rendered_values(
                    slots,
                    texts,
                    k,
                ));
            },
            None => {
                assert(tail =~= later);
                lemma_match_rendered(tokens, p, slots, texts, k + 1);
                if p < tokens.len() {
                    lemma_render_first(slots, texts, k + 1);
                    let j = choose|j: int|
                        k + 1 <= j < slots.len() && later[0].keyword == (#[trigger] slots[j]).keyword;
                    assert(tokens[p] == tail[0]);
                    assert(slots[k].keyword != slots[j].keyword);
                }
                assert(slot_end(tokens, p, slot) == p);
                assert(typed_values(tokens, p, p) == Ok::<Seq<ValueView>, GrammarError>(
                    Seq::empty(),
                ));
                assert(seq![Seq::<ValueView>::empty()] + rendered_values(slots, texts, k + 1)
                    =~= rendered_values(slots, texts, k));
            },
        }
    }
}

/// Whether `value`, if there is one, is canonical.
pub open spec fn canonical_option(value: Option<Seq<char>>) -> bool {
    value matches Some(text) ==> canonical_value(text)
}

impl InfoHeaderView {
    /// Every text of the header is canonical.
    pub open spec fn canonical(self) -> bool {
        &&& canonical_option(self.media_id)
        &&& canonical_option(self.program)
        &&& canonical_value(self.filename)
    }
}

impl InfoContactView {
    /// Every text of the contact section is canonical.
    pub open spec fn canonical(self) -> bool {
        &&& canonical_value(self.organization_number)
        &&& canonical_value(self.name)
        &&& canonical_value(self.zip_area)
        &&& canonical_option(self.address)
        &&& canonical_option(self.department)
        &&& canonical_option(self.contact_person)
        &&& canonical_option(self.email)
        &&& canonical_option(self.phone_number)
        &&& canonical_option(self.fax_number)
    }
}

/// A run of digits is canonical.
proof fn lemma_digits_canonical(s: Seq<char>)
    requires
        all_digits(s),
    ensures
        canonical_value(s),
{
    assert forall|i: int| 0 <= i < s.len() implies !is_marker(#[trigger] s[i]) by {
        assert(is_digit(s[i]));
    }
    if s.len() > 0 {
        assert(is_digit(s[0]));
        assert(is_digit(s.last()));
    }
}

/// The text of a timestamp is canonical.
proof fn lemma_stamp_canonical(t: Timestamp)
    requires
        t.wf(),
    ensures
        canonical_value(t.text()),
{
    lemma_stamp_text_shape(t);
    let s = t.text();
    assert forall|i: int| 0 <= i < s.len() implies !is_marker(#[trigger] s[i]) by {
        if i != 8 {
            assert(is_digit(s[i]));
        }
    }
    assert(is_digit(s[0]));
    assert(is_digit(s[14]));
}

/// What is written for the slots of one production behind those of another is what is
/// written for the first and then what is written for the second.
proof fn lemma_render_concat(
    a: Seq<Slot>,
    ta: Seq<Option<Seq<char>>>,
    b: Seq<Slot>,
    tb: Seq<Option<Seq<char>>>,
    k: int,
)
    requires
        ta.len() == a.len(),
        tb.len() == b.len(),
        0 <= k <= a.len() + b.len(),
    ensures
        render_slots(a + b, ta + tb, k) == if k <= a.len() {
            render_slots(a, ta, k) + render_slots(b, tb, 0)
        } else {
            render_slots(b, tb, k - a.len())
        },
    decreases a.len() + b.len() - k,
{
    if k < a.len() + b.len() {
        lemma_render_concat(a, ta, b, tb, k + 1);
        if k < a.len() {
            assert((a + b)[k] == a[k]);
            assert((ta + tb)[k] == ta[k]);
            let piece = optional_directive(a[k].keyword, ta[k]);
            assert(piece + (render_slots(a, ta, k + 1) + render_slots(b, tb, 0)) =~= (piece
                + render_slots(a, ta, k + 1)) + render_slots(b, tb, 0));
        } else {
            assert((a + b)[k] == b[k - a.len()]);
            assert((ta + tb)[k] == tb[k - a.len()]);
        }
    }
    if k == a.len() {
        assert(render_slots(a, ta, k) + render_slots(b, tb, 0) =~= render_slots(b, tb, 0));
    }
}

/// What is written for slots with canonical texts is canonical.
proof fn lemma_render_canonical(slots: Seq<Slot>, texts: Seq<Option<Seq<char>>>, k: int)
    requires
        texts.len() == slots.len(),
        0 <= k <= slots.len(),
        forall|j: int|
            0 <= j < slots.len() ==> ((#[trigger] texts[j]) matches Some(text)
                ==> canonical_token(TokenView { keyword: slots[j].keyword, value: text })),
    ensures
        canonical_tokens(render_slots(slots, texts, k)),
    decreases slots.len() - k,
{
    if k < slots.len() {
        lemma_render_canonical(slots, texts, k + 1);
        let piece = optional_directive(slots[k].keyword, texts[k]);
        let later = render_slots(slots, texts, k + 1);
        let all = render_slots(slots, texts, k);
        assert forall|i: int| 0 <= i < all.len() implies canonical_token(#[trigger] all[i]) by {
            if i < piece.len() {
                assert(all[i] == piece[i]);
                assert(texts[k] is Some);
            } else {
                assert(all[i] == later[i - piece.len()]);
            }
        }
    }
}

/// The text that is written for each slot of an Info document.
pub open spec fn info_texts(header: InfoHeaderView, contact: InfoContactView) -> Seq<
    Option<Seq<char>>,
> {
    header.texts() + contact.texts()
}

/// The directives of an Info document: those of the header and then those of the
/// contact section.
pub open spec fn info_tokens(header: InfoHeaderView, contact: InfoContactView) -> Seq<TokenView> {
    header.tokens() + contact.tokens()
}

/// The production of an Info document, with the texts of a well-formed document, can be
/// written and read back.
proof fn lemma_info_writable(header: InfoHeaderView, contact: InfoContactView)
    requires
        header.wf(),
    ensures
        writable(info_slots(), info_texts(header, contact)),
{
    let slots = info_slots();
    let texts = info_texts(header, contact);
    reveal_strlit("SRU");
    lemma_render_decimal(contact.zip_code as nat);
    if header.created_at is Some {
        lemma_timestamp_text_parses(header.created_at->Some_0);
    }
    assert(slots.len() == 19);
    assert(texts.len() == 19);
    assert forall|j: int| 0 <= j < slots.len() implies {
        &&& (#[trigger] slots[j]).count != Multiplicity::Many
        &&& slots[j].count == Multiplicity::One ==> texts[j] is Some
        &&& texts[j] matches Some(text) ==> typed_value(
            TokenView { keyword: slots[j].keyword, value: text },
            0,
        ) is Ok
    } by {
        if j < 7 {
            assert(slots[j] == header_slots()[j]);
            assert(texts[j] == header.texts()[j]);
        } else {
            assert(slots[j] == contact_slots()[j - 7]);
            assert(texts[j] == contact.texts()[j - 7]);
        }
    }
    assert forall|i: int, j: int| 0 <= i < j < slots.len() implies (#[trigger] slots[i]).keyword != (
    #[trigger] slots[j]).keyword by {
        assert(place(slots[i].keyword) == i) by {
            lemma_places();
        }
        assert(place(slots[j].keyword) == j) by {
            lemma_places();
        }
    }
}

/// The place of a keyword in the production of an Info document.
spec fn place(keyword: Keyword) -> int {
    match keyword {
        Keyword::DatabeskrivningStart => 0,
        Keyword::Produkt => 1,
        Keyword::Mediaid => 2,
        Keyword::Skapad => 3,
        Keyword::Program => 4,
        Keyword::Filnamn => 5,
        Keyword::DatabeskrivningSlut => 6,
        Keyword::MedielevStart => 7,
        Keyword::Orgnr => 8,
        Keyword::Namn => 9,
        Keyword::Adress => 10,
        Keyword::Postnr => 11,
        Keyword::Postort => 12,
        Keyword::Avdelning => 13,
        Keyword::Kontakt => 14,
        Keyword::Email => 15,
        Keyword::Telefon => 16,
        Keyword::Fax => 17,
        Keyword::MedielevSlut => 18,
        _ => -1,
    }
}

/// Each slot of the production of an Info document holds the keyword of its place.
proof fn lemma_places()
    ensures
        forall|j: int| 0 <= j < 19 ==> place((#[trigger] info_slots()[j]).keyword) == j,
{
    assert forall|j: int| 0 <= j < 19 implies place((#[trigger] info_slots()[j]).keyword) == j by {
        if j < 7 {
            assert(info_slots()[j] == header_slots()[j]);
        } else {
            assert(info_slots()[j] == contact_slots()[j - 7]);
        }
    }
}

/// The directives of a well-formed Info document are read back as that document.
pub proof fn lemma_info_tokens_round_trip(header: InfoHeaderView, contact: InfoContactView)
    requires
        header.wf(),
    ensures
        parse_tokens(info_tokens(header, contact)) == Ok::<SRUView, GrammarError>(
            SRUView::Info(header, contact),
        ),
{
    let slots = info_slots();
    let texts = info_texts(header, contact);
    let tokens = info_tokens(header, contact);
    lemma_render_concat(header_slots(), header.texts(), contact_slots(), contact.texts(), 0);
    assert(tokens == render_slots(slots, texts, 0));
    lemma_info_writable(header, contact);
    assert(tokens.subrange(0, tokens.len() as int) =~= tokens);
    lemma_match_rendered(tokens, 0, slots, texts, 0);
    let filled = rendered_values(slots, texts, 0);
    // the first directive opens an Info document
    assert(render_slots(slots, texts, 0) == optional_directive(slots[0].keyword, texts[0])
        + render_slots(slots, texts, 1));
    assert(slots[0] == header_slots()[0]);
    assert(texts[0] == header.texts()[0]);
    assert(tokens[0].keyword == Keyword::DatabeskrivningStart);
    // each value is the one that was written
    reveal_strlit("SRU");
    lemma_render_decimal(contact.zip_code as nat);
    if header.created_at is Some {
        lemma_timestamp_text_parses(header.created_at->Some_0);
    }
    assert forall|j: int| 0 <= j < 19 implies (#[trigger] filled[j]) == (match texts[j] {
        Some(text) => seq![
            typed_value(TokenView { keyword: slots[j].keyword, value: text }, 0)->Ok_0,
        ],
        None => Seq::<ValueView>::empty(),
    }) && slots[j] == info_slots()[j] by {}
    assert forall|j: int| 0 <= j < 19 implies (#[trigger] slots[j]) == (if j < 7 {
        header_slots()[j]
    } else {
        contact_slots()[j - 7]
    }) && (#[trigger] texts[j]) == (if j < 7 {
        header.texts()[j]
    } else {
        contact.texts()[j - 7]
    }) by {}
    assert(assemble_header(filled) == header);
    assert(assemble_contact(filled) == contact);
}

/// Round trip: a well-formed Info document whose texts are canonical is read back from
/// the text that it is written as.
pub proof fn lemma_info_round_trip(header: InfoHeaderView, contact: InfoContactView)
    requires
        header.wf(),
        header.canonical(),
        contact.canonical(),
    ensures
        parse_spec(SRUView::Info(header, contact).text()) == Ok::<SRUView, ParseError>(
            SRUView::Info(header, contact),
        ),
{
    let tokens = info_tokens(header, contact);
    lemma_tokens_text_concat(header.tokens(), contact.tokens());
    lemma_render_concat(header_slots(), header.texts(), contact_slots(), contact.texts(), 0);
    let slots = info_slots();
    let texts = info_texts(header, contact);
    reveal_strlit("SRU");
    lemma_render_decimal(contact.zip_code as nat);
    lemma_digits_canonical(render_decimal(contact.zip_code as nat));
    if header.created_at is Some {
        lemma_stamp_canonical(header.created_at->Some_0);
    }
    assert forall|j: int| 0 <= j < slots.len() implies ((#[trigger] texts[j]) matches Some(text)
        ==> canonical_token(TokenView { keyword: slots[j].keyword, value: text })) by {
        if j < 7 {
            assert(slots[j] == header_slots()[j]);
            assert(texts[j] == header.texts()[j]);
        } else {
            assert(slots[j] == contact_slots()[j - 7]);
            assert(texts[j] == contact.texts()[j - 7]);
        }
    }
    lemma_render_canonical(slots, texts, 0);
    lemma_lex_round_trip(tokens);
    lemma_info_tokens_round_trip(header, contact);
}

/// No marker stands before the end of a value.
proof fn lemma_value_has_no_marker(s: Seq<char>, i: int)
    requires
        0 <= i <= s.len(),
    ensures
        i <= value_end(s, i) <= s.len(),
        forall|j: int| i <= j < value_end(s, i) ==> !is_marker(#[trigger] s[j]),
    decreases s.len() - i,
{
    if i < s.len() && !is_marker(s[i]) {
        lemma_value_has_no_marker(s, i + 1);
    }
}

/// What is left of a text without markers when it is trimmed is canonical.
proof fn lemma_trim_canonical(s: Seq<char>)
    requires
        forall|j: int| 0 <= j < s.len() ==> !is_marker(#[trigger] s[j]),
    ensures
        canonical_value(trim(s)),
{
    lemma_trim_is_trimmed(s);
    lemma_trim_start_suffix(s);
    let t = trim_start(s);
    lemma_trim_end_prefix(t);
    let u = trim(s);
    let skipped = s.len() - t.len();
    assert forall|j: int| 0 <= j < u.len() implies !is_marker(#[trigger] u[j]) by {
        assert(u[j] == t.subrange(0, u.len() as int)[j]);
        assert(t[j] == s.subrange(skipped, s.len() as int)[j]);
        assert(u[j] == s[skipped + j]);
    }
}

/// The values of the directives that a text is split into are canonical.
pub proof fn lemma_lexed_canonical(s: Seq<char>, i: int)
    requires
        0 <= i <= s.len(),
        lex_from(s, i) is Ok,
    ensures
        forall|j: int|
            0 <= j < lex_from(s, i)->Ok_0.len() ==> canonical_value(
                (#[trigger] lex_from(s, i)->Ok_0[j]).value,
            ),
    decreases s.len() - i,
{
    let p = skip_blanks(s, i);
    lemma_scan_bounds(s, i);
    if p < s.len() {
        let k = keyword_end(s, p + 1);
        lemma_scan_bounds(s, p + 1);
        let v = value_end(s, k);
        lemma_value_has_no_marker(s, k);
        lemma_lexed_canonical(s, v);
        let rest = lex_from(s, v)->Ok_0;
        let raw = s.subrange(k, v);
        assert forall|j: int| 0 <= j < raw.len() implies !is_marker(#[trigger] raw[j]) by {
            assert(raw[j] == s[k + j]);
        }
        lemma_trim_canonical(raw);
        let all = lex_from(s, i)->Ok_0;
        assert forall|j: int| 0 <= j < all.len() implies canonical_value((#[trigger] all[j]).value) by {
            if j > 0 {
                assert(all[j] == rest[j - 1]);
            }
        }
    }
}

/// Whether `value` is the value of one of the directives, one with the keyword `keyword`.
pub open spec fn read_from(tokens: Seq<TokenView>, keyword: Keyword, value: ValueView) -> bool {
    exists|q: int|
        0 <= q < tokens.len() && (#[trigger] tokens[q]).keyword == keyword && typed_value(
            tokens[q],
            q,
        ) == Ok::<ValueView, GrammarError>(value)
}

/// Every value that fills a slot is the value of a directive with the keyword of the slot.
pub proof fn lemma_filled_origin(tokens: Seq<TokenView>, p: int, slots: Seq<Slot>, k: int)
    requires
        0 <= p <= tokens.len(),
        0 <= k <= slots.len(),
        match_slots(tokens, p, slots, k) is Ok,
    ensures
        ({
            let filled = match_slots(tokens, p, slots, k)->Ok_0.0;
            &&& filled.len() == slots.len() - k
            &&& forall|j: int, i: int|
                0 <= j < filled.len() && 0 <= i < filled[j].len() ==> read_from(
                    tokens,
                    slots[k + j].keyword,
                    #[trigger] filled[j][i],
                )
        }),
    decreases slots.len() - k,
{
    if k < slots.len() {
        let slot = slots[k];
        let e = slot_end(tokens, p, slot);
        lemma_slot_end_bounds(tokens, p, slot);
        lemma_slot_run(tokens, p, slot);
        lemma_typed_values_shape(tokens, p, e, slot.keyword);
        lemma_filled_origin(tokens, e, slots, k + 1);
        let values = typed_values(tokens, p, e)->Ok_0;
        let rest = match_slots(tokens, e, slots, k + 1)->Ok_0.0;
        let filled = match_slots(tokens, p, slots, k)->Ok_0.0;
        assert(filled =~= seq![values] + rest);
        assert forall|j: int, i: int|
            0 <= j < filled.len() && 0 <= i < filled[j].len() implies read_from(
            tokens,
            slots[k + j].keyword,
            #[trigger] filled[j][i],
        ) by {
            if j == 0 {
                assert(filled[0] == values);
                assert(tokens[p + i].keyword == slot.keyword);
                assert(typed_value(tokens[p + i], p + i) == Ok::<ValueView, GrammarError>(
                    values[i],
                ));
            } else {
                assert(filled[j] == rest[j - 1]);
                assert(read_from(tokens, slots[k + 1 + (j - 1)].keyword, rest[j - 1][i]));
            }
        }
    }
}

/// The text that filled a slot, if directives with canonical values filled it, is canonical.
proof fn lemma_filled_text_canonical(
    tokens: Seq<TokenView>,
    slots: Seq<Slot>,
    filled: Seq<Seq<ValueView>>,
    j: int,
)
    requires
        0 <= j < filled.len() == slots.len(),
        forall|q: int| 0 <= q < tokens.len() ==> canonical_value((#[trigger] tokens[q]).value),
        forall|i: int|
            0 <= i < filled[j].len() ==> read_from(tokens, slots[j].keyword, #[trigger] filled[j][i]),
    ensures
        canonical_option(optional_text_in(filled, j)),
        canonical_value(text_in(filled, j)),
{
    if filled[j].len() > 0 {
        let v = filled[j][0];
        assert(read_from(tokens, slots[j].keyword, v));
        let q = choose|q: int|
            0 <= q < tokens.len() && (#[trigger] tokens[q]).keyword == slots[j].keyword
                && typed_value(tokens[q], q) == Ok::<ValueView, GrammarError>(v);
        assert(canonical_value(tokens[q].value));
    }
}

/// An Info document that was read from a text is well-formed, and its texts are canonical.
pub proof fn lemma_parsed_info_canonical(text: Seq<char>)
    requires
        parse_spec(text) matches Ok(SRUView::Info(_, _)),
    ensures
        parse_spec(text)->Ok_0 matches SRUView::Info(header, contact) && header.wf()
            && header.canonical() && contact.canonical(),
{
    let tokens = lex_spec(text)->Ok_0;
    lemma_lexed_canonical(text, 0);
    lemma_parsed_is_wf(tokens);
    if tokens[0].keyword == Keyword::DatabeskrivningStart {
        let slots = info_slots();
        let filled = match_slots(tokens, 0, slots, 0)->Ok_0.0;
        lemma_filled_origin(tokens, 0, slots, 0);
        assert forall|j: int| 0 <= j < 19 implies canonical_option(
            #[trigger] optional_text_in(filled, j),
        ) && canonical_value(text_in(filled, j)) by {
            assert forall|i: int| 0 <= i < filled[j].len() implies read_from(
                tokens,
                slots[j].keyword,
                #[trigger] filled[j][i],
            ) by {
                assert(read_from(tokens, slots[0 + j].keyword, filled[j][i]));
            }
            lemma_filled_text_canonical(tokens, slots, filled, j);
        }
    } else {
        // a document that opens otherwise holds forms
        if parse_tokens(tokens) is Ok {
            assert(parse_tokens(tokens)->Ok_0 is Blanketter);
        }
    }
}

/// Round trip: where a text holds an Info document, the text that the document is
/// written as holds the same document.
pub proof fn lemma_parse_written(text: Seq<char>)
    requires
        parse_spec(text) matches Ok(SRUView::Info(_, _)),
    ensures
        parse_spec(parse_spec(text)->Ok_0.text()) == parse_spec(text),
{
    lemma_parsed_info_canonical(text);
    let document = parse_spec(text)->Ok_0;
    match document {
        SRUView::Info(header, contact) => {
            lemma_info_round_trip(header, contact);
        },
        SRUView::Blanketter(_) => {},
    }
}

} // verus!
