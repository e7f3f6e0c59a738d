//! JSON documents and their canonical text: no white space, and the fields of
//! an object in the order of their names.

use crate::bytes::{bytes_less, lex_less, lex_total, lex_transitive};
use crate::error::{sql_error, SqlError, SqlErrorView};
use crate::sorting::{in_order, sort, views, Ranked, SortItem};
use crate::text::owned;
use vstd::prelude::*;
use vstd::string::*;
use vstd::utf8::encode_utf8;

verus! {

/// A JSON document. A number is kept as its text.
pub enum Json {
    Null,
    Bool(bool),
    Number(String),
    Text(String),
    Array(Vec<Json>),
    Object(Vec<(String, Json)>),
}

/// What a [`Json`] document holds.
pub enum JsonView {
    Null,
    Bool(bool),
    Number(Seq<char>),
    Text(Seq<char>),
    Array(Seq<JsonView>),
    Object(Seq<(Seq<char>, JsonView)>),
}

/// What a document holds, part by part.
pub open spec fn json_view(json: Json) -> JsonView
    decreases json,
{
    match json {
        Json::Null => JsonView::Null,
        Json::Bool(b) => JsonView::Bool(b),
        Json::Number(n) => JsonView::Number(n@),
        Json::Text(s) => JsonView::Text(s@),
        Json::Array(items) => JsonView::Array(
            Seq::new(
                items@.len(),
                |i: int|
                    if 0 <= i < items@.len() {
                        json_view(items@[i])
                    } else {
                        JsonView::Null
                    },
            ),
        ),
        Json::Object(fields) => JsonView::Object(
            Seq::new(
                fields@.len(),
                |i: int|
                    if 0 <= i < fields@.len() {
                        (fields@[i].0@, json_view(fields@[i].1))
                    } else {
                        (Seq::empty(), JsonView::Null)
                    },
            ),
        ),
    }
}

impl View for Json {
    type V = JsonView;

    open spec fn view(&self) -> JsonView {
        json_view(*self)
    }
}

/// `serde_json`'s own form of a document, which is only handed on.
#[verifier::external_type_specification]
#[verifier::external_body]
pub struct ExValue(serde_json::Value);

/// The document that a text writes in JSON, or the line that says why it
/// writes none.
pub uninterp spec fn json_document(text: Seq<char>) -> std::result::Result<JsonView, Seq<char>>;

/// Whether every number of a document is written with digits and a minus sign
/// alone.
pub open spec fn whole_numbers(json: JsonView) -> bool
    decreases json,
{
    match json {
        JsonView::Number(n) => forall|i: int|
            0 <= i < n.len() ==> (#[trigger] n[i] == '-' || '0' <= n[i] <= '9'),
        JsonView::Array(items) => forall|i: int|
            0 <= i < items.len() ==> #[trigger] whole_numbers(items[i]),
        JsonView::Object(fields) => forall|i: int|
            0 <= i < fields.len() ==> whole_numbers((#[trigger] fields[i]).1),
        _ => true,
    }
}

/// `serde_json::from_str` into a document, numbers written as `serde_json`
/// writes them: the result depends on the text alone, and a document whose
/// numbers are whole is read back from its own canonical text. Nothing of that
/// kind is said of a number with a fraction or an exponent: `serde_json` may
/// read the text that it wrote of one as a neighbouring number. Which texts are
/// JSON, what they hold, and the words of the error are left unsaid.
#[verifier::external_body]
fn parse_json(text: &str) -> (document: std::result::Result<Json, String>)
    ensures
        match document {
            Ok(json) => json_document(text@) == Ok::<JsonView, Seq<char>>(json@) && (whole_numbers(
                json@,
            ) ==> json_document(canonical_text(json@)) == Ok::<JsonView, Seq<char>>(json@)),
            Err(why) => json_document(text@) == Err::<JsonView, Seq<char>>(why@),
        },
{
    let value: serde_json::Value = serde_json::from_str(text).map_err(
        |e: serde_json::Error| e.to_string(),
    )?;
    Ok(json_tree(&value))
}

/// A `serde_json::Value` as a document, part by part. Nothing is promised of
/// it beyond what is promised of the parser that hands it out.
#[verifier::external_body]
fn json_tree(value: &serde_json::Value) -> Json {
    match value {
        serde_json::Value::Null => Json::Null,
        serde_json::Value::Bool(b) => Json::Bool(*b),
        serde_json::Value::Number(n) => Json::Number(n.to_string()),
        serde_json::Value::String(s) => Json::Text(s.clone()),
        serde_json::Value::Array(a) => Json::Array(a.iter().map(json_tree).collect()),
        serde_json::Value::Object(o) => {
            Json::Object(o.iter().map(|(k, v)| (k.clone(), json_tree(v))).collect())
        },
    }
}

/// The characters that stand for one character of a JSON string.
pub open spec fn json_escape(c: char) -> Seq<char> {
    let v = c as nat;
    if c == '"' {
        seq!['\\', '"']
    } else if c == '\\' {
        seq!['\\', '\\']
    } else if v == 8 {
        seq!['\\', 'b']
    } else if v == 9 {
        seq!['\\', 't']
    } else if v == 10 {
        seq!['\\', 'n']
    } else if v == 12 {
        seq!['\\', 'f']
    } else if v == 13 {
        seq!['\\', 'r']
    } else if v < 32 {
        seq!['\\', 'u', '0', '0', crate::text::hex_digit(v / 16), crate::text::hex_digit(v % 16)]
    } else {
        seq![c]
    }
}

/// The characters of a JSON string between its quotation marks.
pub open spec fn json_escaped(s: Seq<char>) -> Seq<char>
    decreases s.len(),
{
    if s.len() == 0 {
        s
    } else {
        json_escaped(s.drop_last()) + json_escape(s.last())
    }
}

/// A text as a JSON string.
pub open spec fn json_quoted(s: Seq<char>) -> Seq<char> {
    seq!['"'] + json_escaped(s) + seq!['"']
}

/// `serde_json::to_string` of a text: the text between quotation marks, with
/// the quotation mark, the reverse solidus and the control characters below
/// the space escaped, and every other character itself.
#[verifier::external_body]
fn quote(text: &str) -> (quoted: String)
    ensures
        quoted@ == json_quoted(text@),
{
    serde_json::to_string(text).unwrap_or_default()
}

/// Texts one after the other, with a comma between any two.
pub open spec fn comma_joined(parts: Seq<Seq<char>>) -> Seq<char>
    decreases parts.len(),
{
    if parts.len() == 0 {
        Seq::empty()
    } else if parts.len() == 1 {
        parts[0]
    } else {
        comma_joined(parts.drop_last()) + seq![','] + parts.last()
    }
}

/// The name of a field and the text that the object shows for it.
pub struct Field {
    pub name: String,
    pub text: String,
}

/// What a [`Field`] holds.
pub struct FieldView {
    pub name: Seq<char>,
    pub text: Seq<char>,
}

impl View for Field {
    type V = FieldView;

    open spec fn view(&self) -> FieldView {
        FieldView { name: self.name@, text: self.text@ }
    }
}

// Fields stand in the order of the UTF-8 bytes of their names.
impl Ranked for FieldView {
    open spec fn before(self, other: FieldView) -> bool {
        lex_less(encode_utf8(self.name), encode_utf8(other.name))
    }

    proof fn never_both_ways(a: FieldView, b: FieldView) {
        lex_total(encode_utf8(a.name), encode_utf8(b.name));
    }

    proof fn order_carries_over(a: FieldView, b: FieldView, c: FieldView) {
        let (x, y, z) = (encode_utf8(a.name), encode_utf8(b.name), encode_utf8(c.name));
        lex_total(x, y);
        lex_total(y, z);
        lex_total(x, z);
        if lex_less(z, x) {
            if x == y {
            } else {
                lex_transitive(z, x, y);
            }
        }
    }
}

impl SortItem for Field {
    fn is_before(&self, other: &Field) -> (before: bool) {
        bytes_less(self.name.as_str().as_bytes(), other.name.as_str().as_bytes())
    }
}

/// The text of a field: its name as a JSON string, a colon and the text of its
/// value.
pub open spec fn field_text(field: FieldView) -> Seq<char> {
    json_quoted(field.name) + seq![':'] + field.text
}

/// The canonical text of a document.
pub open spec fn canonical_text(json: JsonView) -> Seq<char>
    decreases json,
{
    match json {
        JsonView::Null => "null"@,
        JsonView::Bool(b) => if b {
            "true"@
        } else {
            "false"@
        },
        JsonView::Number(n) => n,
        JsonView::Text(s) => json_quoted(s),
        JsonView::Array(items) => seq!['['] + comma_joined(item_texts(items)) + seq![']'],
        JsonView::Object(fields) => {
            let parts = in_order(shown_fields(fields)).map_values(|f: FieldView| field_text(f));
            seq!['{'] + comma_joined(parts) + seq!['}']
        },
    }
}

/// The canonical texts of some documents.
pub open spec fn item_texts(items: Seq<JsonView>) -> Seq<Seq<char>>
    decreases items,
{
    if items.len() == 0 {
        Seq::empty()
    } else {
        item_texts(items.drop_last()).push(canonical_text(items.last()))
    }
}

/// The fields of an object, each with the canonical text of its value.
pub open spec fn shown_fields(fields: Seq<(Seq<char>, JsonView)>) -> Seq<FieldView>
    decreases fields,
{
    if fields.len() == 0 {
        Seq::empty()
    } else {
        shown_fields(fields.drop_last()).push(
            FieldView { name: fields.last().0, text: canonical_text(fields.last().1) },
        )
    }
}

fn join_texts(parts: &Vec<String>) -> (text: String)
    ensures
        text@ == comma_joined(views(parts@)),
{
    let mut text = String::new();
    let mut i: usize = 0;
    let ghost all = views(parts@);
    while i < parts.len()
        invariant
            all == views(parts@),
            i <= parts@.len(),
            text@ == comma_joined(all.subrange(0, i as int)),
        decreases parts@.len() - i,
    {
        let ghost wider = all.subrange(0, i + 1);
        assert(wider.drop_last() == all.subrange(0, i as int));
        assert(wider.last() == parts@[i as int]@);
        let ghost before = text@;
        if i > 0 {
            text.push(',');
        }
        text.append(parts[i].as_str());
        i += 1;
        assert(text@ == comma_joined(wider));
    }
    assert(all.subrange(0, i as int) == all);
    text
}

fn show_field(field: &Field) -> (text: String)
    ensures
        text@ == field_text(field@),
{
    let mut text = quote(field.name.as_str());
    text.push(':');
    text.append(field.text.as_str());
    assert(text@ == field_text(field@));
    text
}

fn show_fields(fields: &Vec<Field>) -> (parts: Vec<String>)
    ensures
        views(parts@) == views(fields@).map_values(|f: FieldView| field_text(f)),
{
    let mut parts: Vec<String> = Vec::new();
    let mut i: usize = 0;
    while i < fields.len()
        invariant
            i <= fields@.len(),
            parts@.len() == i,
            forall|k: int| 0 <= k < i ==> (#[trigger] parts@[k])@ == field_text(fields@[k]@),
        decreases fields@.len() - i,
    {
        parts.push(show_field(&fields[i]));
        i += 1;
    }
    assert(views(parts@) =~= views(fields@).map_values(|f: FieldView| field_text(f)));
    parts
}

/// Writes a document in its canonical text.
pub fn canonical_json_value(json: &Json) -> (text: String)
    ensures
        text@ == canonical_text(json@),
    decreases json,
{
    match json {
        Json::Null => owned("null"),
        Json::Bool(b) => if *b {
            owned("true")
        } else {
            owned("false")
        },
        Json::Number(n) => n.clone(),
        Json::Text(s) => quote(s.as_str()),
        Json::Array(items) => {
            let mut parts: Vec<String> = Vec::new();
            let mut i: usize = 0;
            let ghost held = json@->Array_0;
            assert(views(parts@) == item_texts(held.subrange(0, 0)));
            while i < items.len()
                invariant
                    *json == Json::Array(*items),
                    json@ == JsonView::Array(held),
                    held.len() == items@.len(),
                    i <= items@.len(),
                    views(parts@) == item_texts(held.subrange(0, i as int)),
                decreases items@.len() - i,
            {
                let ghost before = parts@;
                assert(decreases_to!(*json => *items));
                assert(decreases_to!(*items => items@));
                assert(decreases_to!(items@ => items@[i as int]));
                let text = canonical_json_value(&items[i]);
                let ghost shown = text@;
                parts.push(text);
                assert(views(parts@) == views(before).push(shown));
                i += 1;
                assert(held.subrange(0, i as int).drop_last() == held.subrange(0, i - 1));
            }
            assert(held.subrange(0, i as int) == held);
            let mut text = String::new();
            text.push('[');
            text.append(join_texts(&parts).as_str());
            text.push(']');
            assert(text@ == seq!['['] + comma_joined(item_texts(held)) + seq![']']);
            text
        },
        Json::Object(fields) => {
            let mut shown: Vec<Field> = Vec::new();
            let mut i: usize = 0;
            let ghost held = json@->Object_0;
            assert(views(shown@) == shown_fields(held.subrange(0, 0)));
            while i < fields.len()
                invariant
                    *json == Json::Object(*fields),
                    json@ == JsonView::Object(held),
                    held.len() == fields@.len(),
                    i <= fields@.len(),
                    views(shown@) == shown_fields(held.subrange(0, i as int)),
                decreases fields@.len() - i,
            {
                let ghost before = shown@;
                assert(decreases_to!(*json => *fields));
                assert(decreases_to!(*fields => fields@));
                assert(decreases_to!(fields@ => fields@[i as int]));
                assert(decreases_to!(fields@[i as int] => fields@[i as int].1));
                let field = Field {
                    name: fields[i].0.clone(),
                    text: canonical_json_value(&fields[i].1),
                };
                let ghost added = field@;
                shown.push(field);
                assert(views(shown@) == views(before).push(added));
                i += 1;
                assert(held.subrange(0, i as int).drop_last() == held.subrange(0, i - 1));
            }
            assert(held.subrange(0, i as int) == held);
            let parts = show_fields(&sort(shown));
            let mut text = String::new();
            text.push('{');
            text.append(join_texts(&parts).as_str());
            text.push('}');
            proof {
                let whole = comma_joined(
                    in_order(shown_fields(held)).map_values(|f: FieldView| field_text(f)),
                );
                assert(text@ == seq!['{'] + whole + seq!['}']);
            }
            text
        },
    }
}

/// The canonical text of the document that a text writes, or why it writes
/// none.
pub open spec fn canonical_of(
    document: std::result::Result<JsonView, Seq<char>>,
) -> std::result::Result<Seq<char>, SqlErrorView> {
    match document {
        Ok(json) => Ok(canonical_text(json)),
        Err(why) => Err(sql_error("22P02"@, why)),
    }
}

/// The canonical text of a text, or the error for one that is no JSON.
pub open spec fn canonical(text: Seq<char>) -> std::result::Result<Seq<char>, SqlErrorView> {
    canonical_of(json_document(text))
}

/// Whether a text writes a document whose numbers are whole.
pub open spec fn holds_whole_numbers(text: Seq<char>) -> bool {
    json_document(text) matches Ok(json) && whole_numbers(json)
}

/// Brings a JSON text into its canonical form. That of a document whose
/// numbers are whole is its own canonical form.
pub fn canonical_json(input: &str) -> (text: std::result::Result<String, SqlError>)
    ensures
        match text {
            Ok(t) => canonical(input@) == Ok::<Seq<char>, SqlErrorView>(t@),
            Err(e) => canonical(input@) == Err::<Seq<char>, SqlErrorView>(e@),
        },
        text matches Ok(t) ==> holds_whole_numbers(input@) ==> canonical(t@) == Ok::<
            Seq<char>,
            SqlErrorView,
        >(t@) && holds_whole_numbers(t@),
{
    match parse_json(input) {
        Ok(json) => Ok(canonical_json_value(&json)),
        Err(why) => Err(SqlError::new("22P02", why.as_str())),
    }
}

} // verus!
