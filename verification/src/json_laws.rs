//! What the canonical text of a JSON document says.

use crate::bytes::lex_less;
use crate::json::{
    canonical_of, canonical_text, comma_joined, item_texts, json_escape, json_escaped, json_quoted,
    shown_fields, FieldView, JsonView,
};
use crate::sorting::{in_order, sorting_permutes};
use crate::text::hex_digit;
use vstd::prelude::*;
use vstd::string::*;
use vstd::utf8::encode_utf8;

verus! {

/// The value of a hexadecimal digit.
pub open spec fn hex_value(c: char) -> Option<int> {
    if '0' <= c <= '9' {
        Some(c as int - '0' as int)
    } else if 'a' <= c <= 'f' {
        Some(10 + c as int - 'a' as int)
    } else {
        None
    }
}

/// The character behind a reverse solidus, and how many characters stand for
/// it.
pub open spec fn read_escape(e: Seq<char>) -> Option<(char, int)> {
    if e.len() < 2 {
        None
    } else if e[1] == '"' || e[1] == '\\' || e[1] == '/' {
        Some((e[1], 2))
    } else if e[1] == 'b' {
        Some((8 as char, 2))
    } else if e[1] == 't' {
        Some((9 as char, 2))
    } else if e[1] == 'n' {
        Some((10 as char, 2))
    } else if e[1] == 'f' {
        Some((12 as char, 2))
    } else if e[1] == 'r' {
        Some((13 as char, 2))
    } else if e[1] == 'u' && e.len() >= 6 {
        match (hex_value(e[2]), hex_value(e[3]), hex_value(e[4]), hex_value(e[5])) {
            (Some(a), Some(b), Some(c), Some(d)) => Some(
                ((4096 * a + 256 * b + 16 * c + d) as char, 6),
            ),
            _ => None,
        }
    } else {
        None
    }
}

/// The characters of a JSON string, as a reader takes them between the
/// quotation marks.
pub open spec fn read_string(e: Seq<char>) -> Option<Seq<char>>
    decreases e.len(),
{
    if e.len() == 0 {
        Some(Seq::empty())
    } else if e[0] == '"' || (e[0] as int) < 32 {
        None
    } else if e[0] == '\\' {
        match read_escape(e) {
            Some((c, n)) => if 0 < n <= e.len() {
                match read_string(e.subrange(n, e.len() as int)) {
                    Some(rest) => Some(seq![c] + rest),
                    None => None,
                }
            } else {
                None
            },
            None => None,
        }
    } else {
        match read_string(e.subrange(1, e.len() as int)) {
            Some(rest) => Some(seq![e[0]] + rest),
            None => None,
        }
    }
}

proof fn lemma_escaped_front(s: Seq<char>)
    requires
        s.len() > 0,
    ensures
        json_escaped(s) == json_escape(s[0]) + json_escaped(s.drop_first()),
    decreases s.len(),
{
    if s.len() == 1 {
        assert(s.drop_last() =~= Seq::empty());
        assert(s.drop_first() =~= Seq::empty());
        assert(json_escaped(s.drop_last()) == Seq::<char>::empty());
        assert(json_escaped(s.drop_first()) == Seq::<char>::empty());
        assert(json_escaped(s) =~= json_escape(s[0]) + json_escaped(s.drop_first()));
    } else {
        let front = s.drop_last();
        lemma_escaped_front(front);
        assert(front.drop_first() =~= s.drop_first().drop_last());
        assert(s.drop_first().last() == s.last());
        assert(json_escaped(s) =~= json_escape(s[0]) + json_escaped(s.drop_first()));
    }
}

#[verifier::spinoff_prover]
proof fn lemma_escape_read(c: char, rest: Seq<char>)
    ensures
        ({
            let e = json_escape(c) + rest;
            let n = json_escape(c).len() as int;
            &&& n > 0
            &&& e.subrange(n, e.len() as int) == rest
            &&& e[0] != '"' && (e[0] as int) >= 32
            &&& e[0] == '\\' ==> read_escape(e) == Some((c, n))
            &&& e[0] != '\\' ==> n == 1 && e[0] == c
        }),
{
    let e = json_escape(c) + rest;
    let n = json_escape(c).len() as int;
    assert(e.subrange(n, e.len() as int) =~= rest);
    let v = c as nat;
    if v < 32 && c != '"' && v != 8 && v != 9 && v != 10 && v != 12 && v != 13 {
        assert(e[2] == '0' && e[3] == '0');
        assert(e[4] == hex_digit(v / 16));
        assert(e[5] == hex_digit(v % 16));
        assert(v / 16 < 2 && v % 16 < 16 && 16 * (v / 16) + v % 16 == v);
        assert(hex_value('0') == Some(0int));
        assert(hex_value(e[4]) == Some((v / 16) as int));
        assert(hex_value(e[5]) == Some((v % 16) as int));
    }
}

/// A text stands as a JSON string that says exactly the text, whatever it
/// holds.
pub proof fn strings_say_their_text(s: Seq<char>)
    ensures
        json_quoted(s).len() >= 2,
        json_quoted(s)[0] == '"',
        json_quoted(s).last() == '"',
        read_string(json_quoted(s).subrange(1, json_quoted(s).len() - 1)) == Some(s),
{
    lemma_read_escaped(s);
    assert(json_quoted(s).subrange(1, json_quoted(s).len() - 1) =~= json_escaped(s));
}

proof fn lemma_read_escaped(s: Seq<char>)
    ensures
        read_string(json_escaped(s)) == Some(s),
    decreases s.len(),
{
    if s.len() == 0 {
        assert(s =~= Seq::empty());
    } else {
        let rest = s.drop_first();
        lemma_escaped_front(s);
        lemma_read_escaped(rest);
        lemma_escape_read(s[0], json_escaped(rest));
        assert(seq![s[0]] + rest =~= s);
    }
}

/// Parts stand in their order with a comma between each two of them.
pub proof fn commas_stand_between(parts: Seq<Seq<char>>, last: Seq<char>)
    ensures
        comma_joined(Seq::empty()) == Seq::<char>::empty(),
        parts.len() == 0 ==> comma_joined(parts.push(last)) == last,
        parts.len() > 0 ==> comma_joined(parts.push(last)) == comma_joined(parts).push(',') + last,
{
    assert(parts.push(last).drop_last() =~= parts);
    if parts.len() > 0 {
        assert(comma_joined(parts) + seq![','] =~= comma_joined(parts).push(','));
    }
}

/// Bytes stand before others where the first byte that differs is smaller, or
/// where they end first.
pub proof fn bytes_stand_by_the_first_difference(a: Seq<u8>, b: Seq<u8>, k: int)
    requires
        0 <= k <= a.len(),
        k <= b.len(),
        a.subrange(0, k) == b.subrange(0, k),
    ensures
        k == a.len() && k < b.len() ==> lex_less(a, b),
        k == b.len() ==> !lex_less(a, b),
        k < a.len() && k < b.len() && a[k] != b[k] ==> (lex_less(a, b) <==> a[k] < b[k]),
    decreases k,
{
    if k > 0 {
        assert(a[0] == a.subrange(0, k)[0] && b[0] == b.subrange(0, k)[0]);
        let (x, y) = (a.drop_first(), b.drop_first());
        assert(x.subrange(0, k - 1) =~= a.subrange(0, k).subrange(1, k));
        assert(y.subrange(0, k - 1) =~= b.subrange(0, k).subrange(1, k));
        bytes_stand_by_the_first_difference(x, y, k - 1);
    }
}

proof fn lemma_items(items: Seq<JsonView>)
    ensures
        item_texts(items) == items.map_values(|j: JsonView| canonical_text(j)),
    decreases items.len(),
{
    if items.len() == 0 {
        assert(item_texts(items) =~= items.map_values(|j: JsonView| canonical_text(j)));
    } else {
        lemma_items(items.drop_last());
        assert(item_texts(items) =~= items.map_values(|j: JsonView| canonical_text(j)));
    }
}

proof fn lemma_fields(fields: Seq<(Seq<char>, JsonView)>)
    ensures
        shown_fields(fields) == fields.map_values(
            |f: (Seq<char>, JsonView)| FieldView { name: f.0, text: canonical_text(f.1) },
        ),
    decreases fields.len(),
{
    let shown = |f: (Seq<char>, JsonView)| FieldView { name: f.0, text: canonical_text(f.1) };
    if fields.len() == 0 {
        assert(shown_fields(fields) =~= fields.map_values(shown));
    } else {
        lemma_fields(fields.drop_last());
        assert(shown_fields(fields) =~= fields.map_values(shown));
    }
}

/// The words, numbers and strings of a document stand as they are, and a list
/// holds its items in their order between brackets.
pub proof fn plain_documents_are_shown(json: JsonView)
    ensures
        json is Null ==> canonical_text(json) == "null"@,
        json == JsonView::Bool(true) ==> canonical_text(json) == "true"@,
        json == JsonView::Bool(false) ==> canonical_text(json) == "false"@,
        json matches JsonView::Number(n) ==> canonical_text(json) == n,
        json matches JsonView::Text(s) ==> (canonical_text(json).len() >= 2 && canonical_text(
            json,
        )[0] == '"' && canonical_text(json).last() == '"' && read_string(
            canonical_text(json).subrange(1, canonical_text(json).len() - 1),
        ) == Some(s)),
        json matches JsonView::Array(items) ==> canonical_text(json) == seq!['['] + comma_joined(
            items.map_values(|j: JsonView| canonical_text(j)),
        ) + seq![']'],
{
    match json {
        JsonView::Text(s) => strings_say_their_text(s),
        JsonView::Array(items) => lemma_items(items),
        _ => {},
    }
}

/// Whether fields stand in the order of the bytes of their names.
pub open spec fn stand_by_name(fields: Seq<FieldView>) -> bool {
    forall|i: int, j: int|
        0 <= i < j < fields.len() ==> !lex_less(
            encode_utf8((#[trigger] fields[j]).name),
            encode_utf8((#[trigger] fields[i]).name),
        )
}

/// An object shows every one of its fields once, by the bytes of their names,
/// each as its name, a colon and its value, between braces.
pub proof fn objects_are_shown_by_name(fields: Seq<(Seq<char>, JsonView)>) -> (shown: Seq<
    FieldView,
>)
    ensures
        stand_by_name(shown),
        shown.to_multiset() == fields.map_values(
            |f: (Seq<char>, JsonView)| FieldView { name: f.0, text: canonical_text(f.1) },
        ).to_multiset(),
        canonical_text(JsonView::Object(fields)) == seq!['{'] + comma_joined(
            shown.map_values(|f: FieldView| json_quoted(f.name) + seq![':'] + f.text),
        ) + seq!['}'],
{
    let all = shown_fields(fields);
    let shown = in_order(all);
    lemma_fields(fields);
    sorting_permutes(all);
    assert(shown.map_values(|f: FieldView| json_quoted(f.name) + seq![':'] + f.text)
        =~= shown.map_values(|f: FieldView| crate::json::field_text(f)));
    shown
}

/// A document that can be read has a canonical text, and one that cannot is
/// refused as malformed.
pub proof fn documents_are_shown(document: std::result::Result<JsonView, Seq<char>>)
    ensures
        document matches Ok(json) ==> canonical_of(document) == Ok::<_, crate::error::SqlErrorView>(
            canonical_text(json),
        ),
        document is Err ==> (canonical_of(document) matches Err(e) && e.code == "22P02"@),
{
}

} // verus!
