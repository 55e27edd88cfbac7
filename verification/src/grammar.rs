//! Productions as runs of slots, and reading directives against them.
use vstd::prelude::*;
use vstd::string::StringExecFns;
use crate::lexer::{range_spells, token_views, Keyword, Token, TokenView};
use crate::text::{
    char_is_blank, chars_of, is_blank, parse_bounded, parse_decimal, push_decimal, render_decimal,
    text_of, trim_start,
};
use crate::timestamp::{lemma_parsed_stamp_wf, parse_timestamp, Timestamp};

verus! {

/// What the value of a directive must look like.
#[derive(Clone, Copy, Debug, PartialEq, Eq, Structural)]
pub enum ValueKind {
    /// No value at all: the directive brackets a section.
    Bare,
    /// The product name, which is always `SRU`.
    Product,
    /// Free text.
    Text,
    /// A decimal number that fits 32 bits.
    Number,
    /// `YYYYMMDD HHMMSS`.
    Stamp,
    /// A document identifier, and behind it an appendix identifier or nothing.
    Form,
    /// An organisation number and behind it a timestamp.
    Identity,
    /// A field code that fits 16 bits, and behind it the field's value.
    Field,
}

/// The kind of value that each keyword carries, wherever it stands.
pub open spec fn kind_of(keyword: Keyword) -> ValueKind {
    match keyword {
        _ if keyword.is_bracket() => ValueKind::Bare,
        Keyword::Produkt => ValueKind::Product,
        Keyword::Skapad => ValueKind::Stamp,
        Keyword::Postnr => ValueKind::Number,
        Keyword::Blankett => ValueKind::Form,
        Keyword::Identitet => ValueKind::Identity,
        Keyword::Uppgift => ValueKind::Field,
        _ => ValueKind::Text,
    }
}

/// The kind of value that `keyword` carries.
pub fn keyword_kind(keyword: Keyword) -> (kind: ValueKind)
    ensures
        kind == kind_of(keyword),
{
    match keyword {
        _ if keyword.brackets() => ValueKind::Bare,
        Keyword::Produkt => ValueKind::Product,
        Keyword::Skapad => ValueKind::Stamp,
        Keyword::Postnr => ValueKind::Number,
        Keyword::Blankett => ValueKind::Form,
        Keyword::Identitet => ValueKind::Identity,
        Keyword::Uppgift => ValueKind::Field,
        _ => ValueKind::Text,
    }
}

/// The value of a directive, read according to its kind.
#[derive(Clone, Debug, PartialEq, Eq)]
pub enum Value {
    /// No value.
    Bare,
    /// A text.
    Text(String),
    /// A number.
    Number(u32),
    /// A timestamp.
    Stamp(Timestamp),
    /// A document identifier and, if there is one, an appendix identifier.
    Form(String, Option<String>),
    /// An organisation number and a timestamp.
    Identity(String, Timestamp),
    /// A field code and the field's value.
    Field(u16, String),
}

/// A value with its texts as characters: what contracts say of a `Value`.
pub enum ValueView {
    Bare,
    Text(Seq<char>),
    Number(u32),
    Stamp(Timestamp),
    Form(Seq<char>, Option<Seq<char>>),
    Identity(Seq<char>, Timestamp),
    Field(u16, Seq<char>),
}

/// The characters of an optional string.
pub open spec fn optional_text(s: Option<String>) -> Option<Seq<char>> {
    match s {
        Some(s) => Some(s@),
        None => None,
    }
}

impl View for Value {
    type V = ValueView;

    open spec fn view(&self) -> ValueView {
        match *self {
            Value::Bare => ValueView::Bare,
            Value::Text(s) => ValueView::Text(s@),
            Value::Number(n) => ValueView::Number(n),
            Value::Stamp(t) => ValueView::Stamp(t),
            Value::Form(id, appendix) => ValueView::Form(id@, optional_text(appendix)),
            Value::Identity(org, t) => ValueView::Identity(org@, t),
            Value::Field(code, s) => ValueView::Field(code, s@),
        }
    }
}

/// Why a run of directives is not a document.
#[derive(Clone, Copy, Debug, PartialEq, Eq, Structural)]
pub enum GrammarError {
    /// The input holds no directive, or its first directive opens neither kind of document.
    UnrecognizedDocument,
    /// The directive at index `position` is `found`, where `expected` had to stand.
    UnexpectedDirective { found: Keyword, position: usize, expected: Keyword },
    /// The directive at index `position` stands behind the end of the document.
    TrailingDirective { found: Keyword, position: usize },
    /// The input ends where `expected` had to stand.
    MissingDirective { expected: Keyword },
    /// The directive at index `position` needs a number and holds none, or one too large.
    InvalidNumber { directive: Keyword, position: usize },
    /// The directive at index `position` needs a timestamp and holds none.
    InvalidTimestamp { directive: Keyword, position: usize },
    /// The value of the directive at index `position` has not the shape its keyword asks for.
    InvalidValue { directive: Keyword, position: usize },
}

/// A directive in words: its index among the directives, and its keyword.
pub open spec fn directive_name(directive: Keyword, position: usize) -> Seq<char> {
    "directive "@ + render_decimal(position as nat) + ", #"@ + directive.text()
}

/// Appends a directive in words.
fn push_directive_name(s: &mut String, directive: Keyword, position: usize)
    ensures
        final(s)@ == old(s)@ + directive_name(directive, position),
{
    s.append("directive ");
    push_decimal(s, position as u64);
    s.append(", #");
    s.append(directive.name());
    assert(s@ =~= old(s)@ + directive_name(directive, position));
}

impl GrammarError {
    /// The error in words: the directive that is at fault, and why.
    pub open spec fn message(self) -> Seq<char> {
        match self {
            GrammarError::UnrecognizedDocument =>
                "the input starts neither an Info document nor a run of forms"@,
            GrammarError::UnexpectedDirective { found, position, expected } => directive_name(
                found,
                position,
            ) + ", stands where #"@ + expected.text() + " is expected"@,
            GrammarError::TrailingDirective { found, position } => directive_name(found, position)
                + ", stands behind the end of the document"@,
            GrammarError::MissingDirective { expected } => "the input ends where #"@
                + expected.text() + " is expected"@,
            GrammarError::InvalidNumber { directive, position } => directive_name(
                directive,
                position,
            ) + ", holds no number within its range"@,
            GrammarError::InvalidTimestamp { directive, position } => directive_name(
                directive,
                position,
            ) + ", holds no timestamp"@,
            GrammarError::InvalidValue { directive, position } => directive_name(
                directive,
                position,
            ) + ", holds a value of another shape than its keyword asks for"@,
        }
    }

    /// The error in words.
    pub fn describe(&self) -> (s: String)
        ensures
            s@ == self.message(),
    {
        let mut s = String::new();
        match *self {
            GrammarError::UnrecognizedDocument => {
                s.append("the input starts neither an Info document nor a run of forms");
            },
            GrammarError::UnexpectedDirective { found, position, expected } => {
                push_directive_name(&mut s, found, position);
                s.append(", stands where #");
                s.append(expected.name());
                s.append(" is expected");
            },
            GrammarError::TrailingDirective { found, position } => {
                push_directive_name(&mut s, found, position);
                s.append(", stands behind the end of the document");
            },
            GrammarError::MissingDirective { expected } => {
                s.append("the input ends where #");
                s.append(expected.name());
                s.append(" is expected");
            },
            GrammarError::InvalidNumber { directive, position } => {
                push_directive_name(&mut s, directive, position);
                s.append(", holds no number within its range");
            },
            GrammarError::InvalidTimestamp { directive, position } => {
                push_directive_name(&mut s, directive, position);
                s.append(", holds no timestamp");
            },
            GrammarError::InvalidValue { directive, position } => {
                push_directive_name(&mut s, directive, position);
                s.append(", holds a value of another shape than its keyword asks for");
            },
        }
        assert(s@ =~= self.message());
        s
    }
}

/// The first index from `i` on that holds a blank; the length if there is none.
pub open spec fn word_end(s: Seq<char>, i: int) -> int
    decreases s.len() - i,
{
    if 0 <= i < s.len() && !is_blank(s[i]) {
        word_end(s, i + 1)
    } else {
        i
    }
}

/// The first word of `s`: everything before its first blank.
pub open spec fn first_word(s: Seq<char>) -> Seq<char> {
    s.subrange(0, word_end(s, 0))
}

/// What follows the first word of `s` and the blanks behind it.
pub open spec fn after_first_word(s: Seq<char>) -> Seq<char> {
    trim_start(s.subrange(word_end(s, 0), s.len() as int))
}

/// Whether `s` holds a blank.
pub open spec fn has_blank(s: Seq<char>) -> bool {
    exists|i: int| 0 <= i < s.len() && is_blank(#[trigger] s[i])
}

/// The value of the directive at index `position`, read according to its keyword.
pub open spec fn typed_value(token: TokenView, position: int) -> Result<ValueView, GrammarError> {
    let directive = token.keyword;
    let position = position as usize;
    let s = token.value;
    let invalid = GrammarError::InvalidValue { directive, position };
    match kind_of(directive) {
        ValueKind::Bare => if s.len() == 0 {
            Ok(ValueView::Bare)
        } else {
            Err(invalid)
        },
        ValueKind::Product => if s == "SRU"@ {
            Ok(ValueView::Text(s))
        } else {
            Err(invalid)
        },
        ValueKind::Text => Ok(ValueView::Text(s)),
        ValueKind::Number => match parse_decimal(s) {
            Some(n) if n <= u32::MAX => Ok(ValueView::Number(n as u32)),
            _ => Err(GrammarError::InvalidNumber { directive, position }),
        },
        ValueKind::Stamp => match parse_timestamp(s) {
            Some(t) => Ok(ValueView::Stamp(t)),
            None => Err(GrammarError::InvalidTimestamp { directive, position }),
        },
        ValueKind::Form => {
            let appendix = after_first_word(s);
            if s.len() == 0 || has_blank(appendix) {
                Err(invalid)
            } else if appendix.len() == 0 {
                Ok(ValueView::Form(first_word(s), None))
            } else {
                Ok(ValueView::Form(first_word(s), Some(appendix)))
            }
        },
        ValueKind::Identity => if s.len() == 0 {
            Err(invalid)
        } else {
            match parse_timestamp(after_first_word(s)) {
                Some(t) => Ok(ValueView::Identity(first_word(s), t)),
                None => Err(GrammarError::InvalidTimestamp { directive, position }),
            }
        },
        ValueKind::Field => match parse_decimal(first_word(s)) {
            Some(n) if n <= u16::MAX => Ok(ValueView::Field(n as u16, after_first_word(s))),
            _ => Err(GrammarError::InvalidNumber { directive, position }),
        },
    }
}

/// The views of a result of reading a value.
pub open spec fn value_result_view(r: Result<Value, GrammarError>) -> Result<
    ValueView,
    GrammarError,
> {
    match r {
        Ok(v) => Ok(v@),
        Err(e) => Err(e),
    }
}

/// Where the first word of `chars` ends and where the text behind it starts.
fn split_first_word(chars: &Vec<char>) -> (r: (usize, usize))
    ensures
        r.0 <= r.1 <= chars.len(),
        chars@.subrange(0, r.0 as int) == first_word(chars@),
        chars@.subrange(r.1 as int, chars.len() as int) == after_first_word(chars@),
{
    let mut a: usize = 0;
    while a < chars.len() && !char_is_blank(chars[a])
        invariant
            a <= chars.len(),
            word_end(chars@, a as int) == word_end(chars@, 0),
        decreases chars.len() - a,
    {
        a += 1;
    }
    let ghost tail = chars@.subrange(a as int, chars.len() as int);
    let mut b: usize = a;
    while b < chars.len() && char_is_blank(chars[b])
        invariant
            a <= b <= chars.len(),
            tail == chars@.subrange(a as int, chars.len() as int),
            trim_start(chars@.subrange(b as int, chars.len() as int)) == trim_start(tail),
        decreases chars.len() - b,
    {
        assert(chars@.subrange(b as int, chars.len() as int).drop_first() =~= chars@.subrange(
            b + 1,
            chars.len() as int,
        ));
        b += 1;
    }
    (a, b)
}

/// Whether `chars[from..]` holds a blank.
fn tail_has_blank(chars: &Vec<char>, from: usize) -> (b: bool)
    requires
        from <= chars.len(),
    ensures
        b == has_blank(chars@.subrange(from as int, chars.len() as int)),
{
    let ghost tail = chars@.subrange(from as int, chars.len() as int);
    let mut i: usize = from;
    while i < chars.len()
        invariant
            from <= i <= chars.len(),
            tail == chars@.subrange(from as int, chars.len() as int),
            forall|j: int| 0 <= j < i - from ==> !is_blank(#[trigger] tail[j]),
        decreases chars.len() - i,
    {
        if char_is_blank(chars[i]) {
            assert(is_blank(tail[i - from]));
            return true;
        }
        i += 1;
    }
    false
}

/// Reads the value of the directive at index `position` according to its keyword.
pub fn read_value(token: &Token, position: usize) -> (r: Result<Value, GrammarError>)
    ensures
        value_result_view(r) == typed_value(token@, position as int),
{
    let directive = token.keyword;
    let chars = chars_of(token.value.as_str());
    let n = chars.len();
    let invalid = GrammarError::InvalidValue { directive, position };
    assert(chars@.subrange(0, n as int) =~= chars@);
    match keyword_kind(directive) {
        ValueKind::Bare => if n == 0 {
            Ok(Value::Bare)
        } else {
            Err(invalid)
        },
        ValueKind::Product => if range_spells(&chars, 0, n, "SRU") {
            Ok(Value::Text(text_of(&chars, 0, n)))
        } else {
            Err(invalid)
        },
        ValueKind::Text => Ok(Value::Text(text_of(&chars, 0, n))),
        ValueKind::Number => match parse_bounded(&chars, 0, n, u32::MAX) {
            Some(number) => Ok(Value::Number(number)),
            None => Err(GrammarError::InvalidNumber { directive, position }),
        },
        ValueKind::Stamp => match Timestamp::parse(&chars, 0, n) {
            Some(t) => Ok(Value::Stamp(t)),
            None => Err(GrammarError::InvalidTimestamp { directive, position }),
        },
        ValueKind::Form => {
            let (a, b) = split_first_word(&chars);
            if n == 0 || tail_has_blank(&chars, b) {
                Err(invalid)
            } else if b == n {
                Ok(Value::Form(text_of(&chars, 0, a), None))
            } else {
                Ok(Value::Form(text_of(&chars, 0, a), Some(text_of(&chars, b, n))))
            }
        },
        ValueKind::Identity => {
            let (a, b) = split_first_word(&chars);
            if n == 0 {
                Err(invalid)
            } else {
                match Timestamp::parse(&chars, b, n) {
                    Some(t) => Ok(Value::Identity(text_of(&chars, 0, a), t)),
                    None => Err(GrammarError::InvalidTimestamp { directive, position }),
                }
            }
        },
        ValueKind::Field => {
            let (a, b) = split_first_word(&chars);
            match parse_bounded(&chars, 0, a, 65535) {
                Some(code) => Ok(Value::Field(code as u16, text_of(&chars, b, n))),
                None => Err(GrammarError::InvalidNumber { directive, position }),
            }
        },
    }
}

/// How often a directive may stand at its place in a production.
#[derive(Clone, Copy, Debug, PartialEq, Eq, Structural)]
pub enum Multiplicity {
    /// Exactly once.
    One,
    /// Once or not at all.
    Optional,
    /// Any number of times, one behind the other.
    Many,
}

/// One place in a production: the directive that stands there, and how often.
#[derive(Clone, Copy, Debug, PartialEq, Eq, Structural)]
pub struct Slot {
    pub keyword: Keyword,
    pub count: Multiplicity,
}

/// The end of the unbroken run of `keyword` directives that starts at index `p`.
pub open spec fn run_end(tokens: Seq<TokenView>, p: int, keyword: Keyword) -> int
    decreases tokens.len() - p,
{
    if 0 <= p < tokens.len() && tokens[p].keyword == keyword {
        run_end(tokens, p + 1, keyword)
    } else {
        p
    }
}

/// How far the directives that fill `slot` reach, when the slot is tried at index `p`.
pub open spec fn slot_end(tokens: Seq<TokenView>, p: int, slot: Slot) -> int {
    if slot.count == Multiplicity::Many {
        run_end(tokens, p, slot.keyword)
    } else if 0 <= p < tokens.len() && tokens[p].keyword == slot.keyword {
        p + 1
    } else {
        p
    }
}

/// What fills a slot starts where the slot is tried and ends within the directives;
/// a slot takes something exactly where the directive there carries its keyword.
pub proof fn lemma_slot_end_bounds(tokens: Seq<TokenView>, p: int, slot: Slot)
    requires
        0 <= p <= tokens.len(),
    ensures
        p <= slot_end(tokens, p, slot) <= tokens.len(),
        p <= run_end(tokens, p, slot.keyword) <= tokens.len(),
        slot_end(tokens, p, slot) > p <==> p < tokens.len() && tokens[p].keyword == slot.keyword,
    decreases tokens.len() - p,
{
    if p < tokens.len() {
        lemma_slot_end_bounds(tokens, p + 1, slot);
    }
}

/// The values of the directives from index `p` up to `e`, or the first error among them.
pub open spec fn typed_values(tokens: Seq<TokenView>, p: int, e: int) -> Result<
    Seq<ValueView>,
    GrammarError,
>
    decreases e - p,
{
    if p >= e {
        Ok(Seq::empty())
    } else {
        match typed_value(tokens[p], p) {
            Err(error) => Err(error),
            Ok(v) => match typed_values(tokens, p + 1, e) {
                Err(error) => Err(error),
                Ok(vs) => Ok(seq![v] + vs),
            },
        }
    }
}

/// Reads the directives from index `p` on against the slots from index `k` on, each
/// slot taking what it can before the next is tried. The result holds, for each of those
/// slots, the values of the directives that filled it, and the index behind the last
/// directive taken.
pub open spec fn match_slots(tokens: Seq<TokenView>, p: int, slots: Seq<Slot>, k: int) -> Result<
    (Seq<Seq<ValueView>>, int),
    GrammarError,
>
    decreases slots.len() - k,
{
    if k < 0 || k >= slots.len() {
        Ok((Seq::empty(), p))
    } else {
        let slot = slots[k];
        let e = slot_end(tokens, p, slot);
        if e == p && slot.count == Multiplicity::One {
            if 0 <= p < tokens.len() {
                Err(
                    GrammarError::UnexpectedDirective {
                        found: tokens[p].keyword,
                        position: p as usize,
                        expected: slot.keyword,
                    },
                )
            } else {
                Err(GrammarError::MissingDirective { expected: slot.keyword })
            }
        } else {
            match typed_values(tokens, p, e) {
                Err(error) => Err(error),
                Ok(values) => match match_slots(tokens, e, slots, k + 1) {
                    Err(error) => Err(error),
                    Ok((rest, end)) => Ok((seq![values] + rest, end)),
                },
            }
        }
    }
}

/// The views of a run of values.
pub open spec fn value_views(values: Seq<Value>) -> Seq<ValueView> {
    values.map_values(|v: Value| v@)
}

/// The views of the values that filled a run of slots.
pub open spec fn filled_views(filled: Seq<Vec<Value>>) -> Seq<Seq<ValueView>> {
    filled.map_values(|values: Vec<Value>| value_views(values@))
}

/// The end of the unbroken run of `keyword` directives that starts at index `p`.
fn find_run_end(tokens: &Vec<Token>, p: usize, keyword: Keyword) -> (e: usize)
    requires
        p <= tokens.len(),
    ensures
        p <= e <= tokens.len(),
        e == run_end(token_views(tokens@), p as int, keyword),
{
    let mut e: usize = p;
    while e < tokens.len() && tokens[e].keyword == keyword
        invariant
            p <= e <= tokens.len(),
            run_end(token_views(tokens@), e as int, keyword) == run_end(
                token_views(tokens@),
                p as int,
                keyword,
            ),
        decreases tokens.len() - e,
    {
        e += 1;
    }
    e
}

/// Reads the values of the directives from index `p` up to `e`.
fn read_values(tokens: &Vec<Token>, p: usize, e: usize) -> (r: Result<Vec<Value>, GrammarError>)
    requires
        p <= e <= tokens.len(),
    ensures
        match r {
            Ok(values) => typed_values(token_views(tokens@), p as int, e as int) == Ok::<
                Seq<ValueView>,
                GrammarError,
            >(value_views(values@)),
            Err(error) => typed_values(token_views(tokens@), p as int, e as int) == Err::<
                Seq<ValueView>,
                GrammarError,
            >(error),
        },
{
    let ghost views = token_views(tokens@);
    let mut values: Vec<Value> = Vec::new();
    let mut i: usize = p;
    while i < e
        invariant
            p <= i <= e <= tokens.len(),
            views == token_views(tokens@),
            typed_values(views, p as int, e as int) == match typed_values(views, i as int, e as int) {
                Ok(rest) => Ok::<Seq<ValueView>, GrammarError>(value_views(values@) + rest),
                Err(error) => Err(error),
            },
        decreases e - i,
    {
        match read_value(&tokens[i], i) {
            Ok(value) => {
                proof {
                    let rest = typed_values(views, i + 1, e as int);
                    let before = value_views(values@);
                    let after = value_views(values@.push(value));
                    assert(after =~= before.push(value@));
                    if rest is Ok {
                        assert(before + (seq![value@] + rest->Ok_0) =~= after + rest->Ok_0);
                    }
                }
                values.push(value);
            },
            Err(error) => {
                return Err(error);
            },
        }
        i += 1;
    }
    assert(value_views(values@) + Seq::<ValueView>::empty() =~= value_views(values@));
    Ok(values)
}

/// Reads the directives from index `start` on against `slots`.
pub fn fill_slots(tokens: &Vec<Token>, start: usize, slots: &Vec<Slot>) -> (r: Result<
    (Vec<Vec<Value>>, usize),
    GrammarError,
>)
    requires
        start <= tokens.len(),
    ensures
        match r {
            Ok((filled, end)) => {
                &&& match_slots(token_views(tokens@), start as int, slots@, 0) == Ok::<
                    (Seq<Seq<ValueView>>, int),
                    GrammarError,
                >((filled_views(filled@), end as int))
                &&& start <= end <= tokens.len()
                &&& filled.len() == slots.len()
            },
            Err(error) => match_slots(token_views(tokens@), start as int, slots@, 0) == Err::<
                (Seq<Seq<ValueView>>, int),
                GrammarError,
            >(error),
        },
{
    let ghost views = token_views(tokens@);
    let mut filled: Vec<Vec<Value>> = Vec::new();
    let mut p: usize = start;
    let mut k: usize = 0;
    while k < slots.len()
        invariant
            start <= p <= tokens.len(),
            k <= slots.len(),
            filled.len() == k,
            views == token_views(tokens@),
            match_slots(views, start as int, slots@, 0) == match match_slots(
                views,
                p as int,
                slots@,
                k as int,
            ) {
                Ok((rest, end)) => Ok::<(Seq<Seq<ValueView>>, int), GrammarError>(
                    (filled_views(filled@) + rest, end),
                ),
                Err(error) => Err(error),
            },
        decreases slots.len() - k,
    {
        let slot = slots[k];
        let e = match slot.count {
            Multiplicity::Many => find_run_end(tokens, p, slot.keyword),
            _ => if p < tokens.len() && tokens[p].keyword == slot.keyword {
                p + 1
            } else {
                p
            },
        };
        if e == p {
            match slot.count {
                Multiplicity::One => {
                    if p < tokens.len() {
                        return Err(
                            GrammarError::UnexpectedDirective {
                                found: tokens[p].keyword,
                                position: p,
                                expected: slot.keyword,
                            },
                        );
                    } else {
                        return Err(GrammarError::MissingDirective { expected: slot.keyword });
                    }
                },
                _ => {},
            }
        }
        match read_values(tokens, p, e) {
            Ok(values) => {
                proof {
                    let rest = match_slots(views, e as int, slots@, k + 1);
                    let before = filled_views(filled@);
                    let after = filled_views(filled@.push(values));
                    assert(after =~= before.push(value_views(values@)));
                    if rest is Ok {
                        assert(before + (seq![value_views(values@)] + rest->Ok_0.0) =~= after
                            + rest->Ok_0.0);
                    }
                }
                filled.push(values);
            },
            Err(error) => {
                return Err(error);
            },
        }
        p = e;
        k += 1;
    }
    assert(filled_views(filled@) + Seq::<Seq<ValueView>>::empty() =~= filled_views(filled@));
    Ok((filled, p))
}

/// Whether `value` is one that values of kind `kind` are read into.
pub open spec fn value_has_kind(value: ValueView, kind: ValueKind) -> bool {
    match kind {
        ValueKind::Bare => value is Bare,
        ValueKind::Product => value == ValueView::Text("SRU"@),
        ValueKind::Text => value is Text,
        ValueKind::Number => value is Number,
        ValueKind::Stamp => value matches ValueView::Stamp(t) && t.wf(),
        ValueKind::Form => value is Form,
        ValueKind::Identity => value matches ValueView::Identity(_, t) && t.wf(),
        ValueKind::Field => value is Field,
    }
}

/// Where the directives from `p` up to `e` all carry `keyword` and their values can be
/// read, there is one value for each, of the shape of the keyword's kind.
pub proof fn lemma_typed_values_shape(tokens: Seq<TokenView>, p: int, e: int, keyword: Keyword)
    requires
        0 <= p <= e <= tokens.len(),
        forall|i: int| p <= i < e ==> (#[trigger] tokens[i]).keyword == keyword,
        typed_values(tokens, p, e) is Ok,
    ensures
        typed_values(tokens, p, e)->Ok_0.len() == e - p,
        forall|i: int|
            0 <= i < e - p ==> {
                &&& typed_value(tokens[p + i], p + i) == Ok::<ValueView, GrammarError>(
                    #[trigger] typed_values(tokens, p, e)->Ok_0[i],
                )
                &&& value_has_kind(typed_values(tokens, p, e)->Ok_0[i], kind_of(keyword))
            },
    decreases e - p,
{
    if p < e {
        lemma_typed_values_shape(tokens, p + 1, e, keyword);
        lemma_parsed_stamp_wf(tokens[p].value);
        lemma_parsed_stamp_wf(after_first_word(tokens[p].value));
        let v = typed_value(tokens[p], p)->Ok_0;
        let rest = typed_values(tokens, p + 1, e)->Ok_0;
        let all = typed_values(tokens, p, e)->Ok_0;
        assert(all =~= seq![v] + rest);
        assert forall|i: int| 0 <= i < e - p implies {
            &&& typed_value(tokens[p + i], p + i) == Ok::<ValueView, GrammarError>(#[trigger] all[i])
            &&& value_has_kind(all[i], kind_of(keyword))
        } by {
            if i > 0 {
                assert(all[i] == rest[i - 1]);
            }
        }
    }
}

/// The directives that fill a slot all carry the keyword of the slot.
pub proof fn lemma_slot_run(tokens: Seq<TokenView>, p: int, slot: Slot)
    requires
        0 <= p <= tokens.len(),
    ensures
        forall|i: int|
            p <= i < slot_end(tokens, p, slot) ==> (#[trigger] tokens[i]).keyword == slot.keyword,
        forall|i: int|
            p <= i < run_end(tokens, p, slot.keyword) ==> (#[trigger] tokens[i]).keyword
                == slot.keyword,
    decreases tokens.len() - p,
{
    if p < tokens.len() {
        lemma_slot_run(tokens, p + 1, slot);
    }
}

/// What `match_slots` gives where it succeeds: one run of values for each slot from
/// `k` on, and an end that is not before the start; a slot that stands exactly once
/// holds one value, and an optional one at most one.
pub proof fn lemma_match_slots_shape(tokens: Seq<TokenView>, p: int, slots: Seq<Slot>, k: int)
    requires
        0 <= p <= tokens.len(),
        0 <= k <= slots.len(),
        match_slots(tokens, p, slots, k) is Ok,
    ensures
        ({
            let (filled, end) = match_slots(tokens, p, slots, k)->Ok_0;
            &&& filled.len() == slots.len() - k
            &&& p <= end <= tokens.len()
            &&& k < slots.len() && slots[k].count == Multiplicity::One ==> p < end
            &&& forall|j: int|
                0 <= j < filled.len() ==> {
                    &&& slots[k + j].count == Multiplicity::One ==> (#[trigger] filled[j]).len() == 1
                    &&& slots[k + j].count == Multiplicity::Optional ==> filled[j].len() <= 1
                    &&& forall|i: int|
                        0 <= i < filled[j].len() ==> value_has_kind(
                            #[trigger] filled[j][i],
                            kind_of(slots[k + j].keyword),
                        )
                }
        }),
    decreases slots.len() - k,
{
    if k < slots.len() {
        let slot = slots[k];
        let e = slot_end(tokens, p, slot);
        lemma_slot_end_bounds(tokens, p, slot);
        lemma_slot_run(tokens, p, slot);
        lemma_typed_values_shape(tokens, p, e, slot.keyword);
        lemma_match_slots_shape(tokens, e, slots, k + 1);
        let values = typed_values(tokens, p, e)->Ok_0;
        let (rest, end) = match_slots(tokens, e, slots, k + 1)->Ok_0;
        let (filled, end2) = match_slots(tokens, p, slots, k)->Ok_0;
        assert(filled =~= seq![values] + rest);
        assert forall|j: int| 0 <= j < filled.len() implies {
            &&& slots[k + j].count == Multiplicity::One ==> (#[trigger] filled[j]).len() == 1
            &&& slots[k + j].count == Multiplicity::Optional ==> filled[j].len() <= 1
            &&& forall|i: int|
                0 <= i < filled[j].len() ==> value_has_kind(
                    #[trigger] filled[j][i],
                    kind_of(slots[k + j].keyword),
                )
        } by {
            if j > 0 {
                assert(filled[j] == rest[j - 1]);
            }
        }
    }
}

/// A slot for a directive that stands exactly once.
pub open spec fn one(keyword: Keyword) -> Slot {
    Slot { keyword, count: Multiplicity::One }
}

/// A slot for a directive that may be left out.
pub open spec fn optional(keyword: Keyword) -> Slot {
    Slot { keyword, count: Multiplicity::Optional }
}

/// A slot for a directive that may stand any number of times.
pub open spec fn many(keyword: Keyword) -> Slot {
    Slot { keyword, count: Multiplicity::Many }
}

/// The directive `keyword` with the value `value`, if there is a value; else nothing.
pub open spec fn optional_directive(keyword: Keyword, value: Option<Seq<char>>) -> Seq<TokenView> {
    match value {
        Some(value) => seq![TokenView { keyword, value }],
        None => Seq::empty(),
    }
}

/// The directives that the slots from `k` on are written as, where `texts` holds the
/// value to write for each slot, or nothing for a slot that is left out.
pub open spec fn render_slots(slots: Seq<Slot>, texts: Seq<Option<Seq<char>>>, k: int) -> Seq<
    TokenView,
>
    decreases slots.len() - k,
{
    if k < 0 || k >= slots.len() {
        Seq::empty()
    } else {
        optional_directive(slots[k].keyword, texts[k]) + render_slots(slots, texts, k + 1)
    }
}

/// The characters of a run of optional strings.
pub open spec fn optional_texts(texts: Seq<Option<String>>) -> Seq<Option<Seq<char>>> {
    texts.map_values(|text: Option<String>| optional_text(text))
}

/// Writes the slots as directives, each with its text, leaving out those without one.
pub fn write_slots(slots: &Vec<Slot>, texts: &Vec<Option<String>>) -> (tokens: Vec<Token>)
    requires
        texts.len() == slots.len(),
    ensures
        token_views(tokens@) == render_slots(slots@, optional_texts(texts@), 0),
{
    let ghost views = optional_texts(texts@);
    let mut tokens: Vec<Token> = Vec::new();
    let mut k: usize = 0;
    assert(token_views(tokens@) =~= Seq::<TokenView>::empty());
    while k < slots.len()
        invariant
            k <= slots.len(),
            texts.len() == slots.len(),
            views == optional_texts(texts@),
            token_views(tokens@) + render_slots(slots@, views, k as int) == render_slots(
                slots@,
                views,
                0,
            ),
        decreases slots.len() - k,
    {
        let ghost before = token_views(tokens@);
        let ghost later = render_slots(slots@, views, k + 1);
        match &texts[k] {
            Some(text) => {
                let token = Token { keyword: slots[k].keyword, value: text.clone() };
                tokens.push(token);
                assert(token_views(tokens@) =~= before.push(token@));
                assert(before.push(token@) + later =~= before + (seq![token@] + later));
            },
            None => {
                assert(before + (Seq::<TokenView>::empty() + later) =~= before + later);
            },
        }
        k += 1;
    }
    assert(token_views(tokens@) + Seq::<TokenView>::empty() =~= token_views(tokens@));
    tokens
}

} // verus!
