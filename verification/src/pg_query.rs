//! What the gateway reads out of a statement's text: its parameters, and
//! whether it says anything at all.

use crate::error::{sql_error, SqlError, SqlErrorView};
use crate::names::NameMap;
use crate::pg_values::MAX_PROTOCOL_ITEMS;
use crate::text::{is_space, space_char, text_bytes, text_chars};
use vstd::prelude::*;
use vstd::string::*;
use vstd::utf8::encode_utf8;

verus! {

pub const MAX_STATEMENT_BYTES: usize = 1_048_576;

/// Whether a byte is a decimal digit.
pub open spec fn digit_byte(b: u8) -> bool {
    0x30 <= b <= 0x39
}

/// The place behind the digits that start at `at`.
pub open spec fn digits_end(sql: Seq<u8>, at: int) -> int
    decreases sql.len() - at,
{
    if 0 <= at < sql.len() && digit_byte(sql[at]) {
        digits_end(sql, at + 1)
    } else {
        at
    }
}

/// The number that digits write.
pub open spec fn digits_value(s: Seq<u8>) -> nat
    decreases s.len(),
{
    if s.len() == 0 {
        0
    } else {
        10 * digits_value(s.drop_last()) + (s.last() - 0x30) as nat
    }
}

/// The place behind the quoted text whose opening mark stands before `at`. A
/// doubled mark stands for itself; a text that is not closed reaches to the
/// end.
pub open spec fn quote_end(sql: Seq<u8>, at: int, mark: u8) -> int
    decreases sql.len() - at,
{
    if at < 0 || at >= sql.len() {
        at
    } else if sql[at] == mark {
        if at + 1 < sql.len() && sql[at + 1] == mark {
            quote_end(sql, at + 2, mark)
        } else {
            at + 1
        }
    } else {
        quote_end(sql, at + 1, mark)
    }
}

pub proof fn lemma_quote_end(sql: Seq<u8>, at: int, mark: u8)
    requires
        0 <= at <= sql.len(),
    ensures
        at <= quote_end(sql, at, mark) <= sql.len(),
    decreases sql.len() - at,
{
    if at < sql.len() {
        if sql[at] == mark {
            if at + 1 < sql.len() && sql[at + 1] == mark {
                lemma_quote_end(sql, at + 2, mark);
            }
        } else {
            lemma_quote_end(sql, at + 1, mark);
        }
    }
}

pub proof fn lemma_digits_end(sql: Seq<u8>, at: int)
    requires
        0 <= at <= sql.len(),
    ensures
        at <= digits_end(sql, at) <= sql.len(),
    decreases sql.len() - at,
{
    if at < sql.len() && digit_byte(sql[at]) {
        lemma_digits_end(sql, at + 1);
    }
}

/// The largest parameter number from a place on, or `most` where none is
/// larger; nothing where a number is beyond what the protocol can hold. Quoted
/// text has no parameters.
pub open spec fn largest_parameter(sql: Seq<u8>, at: int, most: nat) -> Option<nat>
    decreases sql.len() - at,
{
    if at < 0 || at >= sql.len() {
        Some(most)
    } else if sql[at] == 0x27 || sql[at] == 0x22 {
        proof {
            lemma_quote_end(sql, at + 1, sql[at]);
        }
        largest_parameter(sql, quote_end(sql, at + 1, sql[at]), most)
    } else if sql[at] == 0x24 && digits_end(sql, at + 1) > at + 1 {
        let end = digits_end(sql, at + 1);
        let n = digits_value(sql.subrange(at + 1, end));
        proof {
            lemma_digits_end(sql, at + 1);
        }
        if n > MAX_PROTOCOL_ITEMS {
            None
        } else {
            largest_parameter(
                sql,
                end,
                if n > most {
                    n
                } else {
                    most
                },
            )
        }
    } else {
        largest_parameter(sql, at + 1, most)
    }
}

/// The types of a statement's parameters: those that the client gave, and no
/// type for the rest.
pub open spec fn inferred_types(sql: Seq<char>, supplied: Seq<u32>) -> Result<
    Seq<u32>,
    SqlErrorView,
> {
    match largest_parameter(encode_utf8(sql), 0, supplied.len()) {
        None => Err(sql_error("54000"@, "parameter number exceeds protocol limit"@)),
        Some(most) => Ok(supplied + Seq::new((most - supplied.len()) as nat, |i: int| 0u32)),
    }
}

fn skip_quote(sql: &[u8], at: usize, mark: u8) -> (end: usize)
    requires
        at <= sql@.len(),
    ensures
        end == quote_end(sql@, at as int, mark),
        at <= end <= sql@.len(),
{
    let mut i: usize = at;
    while i < sql.len()
        invariant
            at <= i <= sql@.len(),
            quote_end(sql@, at as int, mark) == quote_end(sql@, i as int, mark),
        decreases sql@.len() - i,
    {
        let n = sql.len();
        if sql[i] == mark {
            if n - i >= 2 && sql[i + 1] == mark {
                i += 2;
                continue;
            }
            return i + 1;
        }
        i += 1;
    }
    i
}

proof fn lemma_digits_grow(s: Seq<u8>, i: int)
    requires
        0 <= i <= s.len(),
        forall|k: int| 0 <= k < s.len() ==> digit_byte(#[trigger] s[k]),
    ensures
        digits_value(s.subrange(0, i)) <= digits_value(s),
    decreases s.len(),
{
    if i == s.len() {
        assert(s.subrange(0, i) == s);
    } else {
        let front = s.drop_last();
        assert forall|k: int| 0 <= k < front.len() implies digit_byte(#[trigger] front[k]) by {
            assert(front[k] == s[k]);
        }
        lemma_digits_grow(front, i);
        assert(front.subrange(0, i) == s.subrange(0, i));
    }
}

proof fn lemma_digits_between(sql: Seq<u8>, at: int, k: int)
    requires
        0 <= at <= k < digits_end(sql, at),
    ensures
        k < sql.len(),
        digit_byte(sql[k]),
    decreases sql.len() - at,
{
    if at < k {
        lemma_digits_between(sql, at + 1, k);
    }
}

/// Reads the digits that start at `at`: the place behind them, and their
/// number where the protocol can hold it.
fn read_parameter(sql: &[u8], at: usize) -> (found: (usize, Option<usize>))
    requires
        at <= sql@.len(),
    ensures
        found.0 == digits_end(sql@, at as int),
        at <= found.0 <= sql@.len(),
        match found.1 {
            Some(n) => n == digits_value(sql@.subrange(at as int, found.0 as int)) && n
                <= MAX_PROTOCOL_ITEMS,
            None => digits_value(sql@.subrange(at as int, found.0 as int)) > MAX_PROTOCOL_ITEMS,
        },
{
    let mut end: usize = at;
    let mut value: usize = 0;
    let mut held = true;
    proof {
        lemma_digits_end(sql@, at as int);
    }
    let ghost last = digits_end(sql@, at as int);
    let ghost whole = sql@.subrange(at as int, last);
    proof {
        assert forall|k: int| 0 <= k < whole.len() implies digit_byte(#[trigger] whole[k]) by {
            lemma_digits_between(sql@, at as int, at + k);
        }
    }
    assert(sql@.subrange(at as int, at as int) == Seq::<u8>::empty());
    while end < sql.len() && sql[end] >= 0x30 && sql[end] <= 0x39
        invariant
            at <= end <= sql@.len(),
            last == digits_end(sql@, at as int),
            at <= last <= sql@.len(),
            digits_end(sql@, end as int) == last,
            end <= last,
            whole == sql@.subrange(at as int, last),
            forall|k: int| 0 <= k < whole.len() ==> digit_byte(#[trigger] whole[k]),
            held ==> value == digits_value(sql@.subrange(at as int, end as int)) && value
                <= MAX_PROTOCOL_ITEMS,
            !held ==> digits_value(whole) > MAX_PROTOCOL_ITEMS,
        decreases sql@.len() - end,
    {
        proof {
            lemma_digits_end(sql@, end + 1);
            assert(sql@.subrange(at as int, end + 1).drop_last() == sql@.subrange(
                at as int,
                end as int,
            ));
            assert(whole.subrange(0, end + 1 - at) == sql@.subrange(at as int, end + 1));
            lemma_digits_grow(whole, end + 1 - at);
        }
        if held {
            let next = 10 * value + (sql[end] - 0x30) as usize;
            if next > MAX_PROTOCOL_ITEMS {
                held = false;
            } else {
                value = next;
            }
        }
        end += 1;
    }
    if held {
        (end, Some(value))
    } else {
        (end, None)
    }
}

#[verifier::loop_isolation(false)]
fn find_largest(sql: &[u8], supplied: usize) -> (most: Option<usize>)
    ensures
        match most {
            Some(n) => largest_parameter(sql@, 0, supplied as nat) == Some(n as nat) && n
                >= supplied,
            None => largest_parameter(sql@, 0, supplied as nat) is None,
        },
{
    let mut most: usize = supplied;
    let mut i: usize = 0;
    while i < sql.len()
        invariant
            i <= sql@.len(),
            most >= supplied,
            largest_parameter(sql@, 0, supplied as nat) == largest_parameter(
                sql@,
                i as int,
                most as nat,
            ),
        decreases sql@.len() - i,
    {
        if sql[i] == 0x27 || sql[i] == 0x22 {
            i = skip_quote(sql, i + 1, sql[i]);
            continue;
        }
        if sql[i] == 0x24 {
            let start = i + 1;
            let (end, number) = read_parameter(sql, start);
            if end > start {
                match number {
                    None => {
                        return None;
                    },
                    Some(n) => {
                        if n > most {
                            most = n;
                        }
                    },
                }
                i = end;
                continue;
            }
        }
        i += 1;
    }
    Some(most)
}

/// Finds the types of a statement's parameters.
pub fn infer_parameter_types(sql: &str, supplied: &[u32]) -> (result: Result<Vec<u32>, SqlError>)
    ensures
        match result {
            Ok(types) => inferred_types(sql@, supplied@) == Ok::<_, SqlErrorView>(types@),
            Err(e) => inferred_types(sql@, supplied@) == Err::<Seq<u32>, _>(e@),
        },
{
    let bytes = text_bytes(sql);
    let most = match find_largest(bytes.as_slice(), supplied.len()) {
        Some(most) => most,
        None => {
            return Err(SqlError::new("54000", "parameter number exceeds protocol limit"));
        },
    };
    let mut types: Vec<u32> = vstd::slice::slice_to_vec(supplied);
    let mut i: usize = supplied.len();
    while i < most
        invariant
            supplied@.len() <= i <= most,
            types@ == supplied@ + Seq::new((i - supplied@.len()) as nat, |k: int| 0u32),
        decreases most - i,
    {
        types.push(0);
        i += 1;
        assert(types@ =~= supplied@ + Seq::new((i - supplied@.len()) as nat, |k: int| 0u32));
    }
    assert(types@ =~= supplied@ + Seq::new((most - supplied@.len()) as nat, |k: int| 0u32));
    Ok(types)
}

/// Whether a text says nothing: white space and semicolons.
pub open spec fn says_nothing(sql: Seq<char>) -> bool {
    forall|i: int| 0 <= i < sql.len() ==> is_space(#[trigger] sql[i]) || sql[i] == ';'
}

/// Tests whether a text says nothing.
pub fn is_empty_query(sql: &str) -> (empty: bool)
    ensures
        empty == says_nothing(sql@),
{
    let chars = text_chars(sql);
    let mut i: usize = 0;
    while i < chars.len()
        invariant
            chars@ == sql@,
            i <= chars@.len(),
            forall|k: int| 0 <= k < i ==> is_space(#[trigger] chars@[k]) || chars@[k] == ';',
        decreases chars@.len() - i,
    {
        let c = chars[i];
        if !space_char(c) && c != ';' {
            assert(!is_space(chars@[i as int]));
            return false;
        }
        i += 1;
    }
    true
}

/// Whether a statement is longer than one may be, in bytes.
pub fn statement_exceeds_limit(sql: &str) -> (exceeds: bool)
    ensures
        exceeds == (encode_utf8(sql@).len() > MAX_STATEMENT_BYTES),
{
    text_bytes(sql).len() > MAX_STATEMENT_BYTES
}

/// Whether a new name would be one too many. The unnamed resource does not
/// count, nor does a name that is there already.
pub open spec fn names_used_up<T>(resources: Map<Seq<char>, T>, name: Seq<char>, limit: nat) -> bool {
    name.len() != 0 && !resources.dom().contains(name) && resources.dom().remove(
        Seq::empty(),
    ).len() >= limit
}

/// Tests whether a new name would be one too many.
pub fn named_resource_limit_reached<T>(resources: &NameMap<T>, name: &str, limit: usize) -> (reached:
    bool)
    ensures
        reached == names_used_up(resources@, name@, limit as nat),
{
    if text_chars(name).len() == 0 || resources.contains_key(name) {
        return false;
    }
    let unnamed = resources.contains_key("");
    let count = resources.len();
    proof {
        reveal_strlit("");
        assert(""@ =~= Seq::<char>::empty());
    }
    if unnamed {
        count - 1 >= limit
    } else {
        count >= limit
    }
}

} // verus!
