//! The text forms of values that clients send: truth values, byte strings,
//! dates, times and identifiers.

use crate::bytes::array16;
use crate::calendar::{civil_days, days_from_civil};
use crate::text::{
    ascii_lower_text, char_lists, fields, hex_char_value, hex_value, parse_integer, read_integer,
    same_text_ignoring_case, split_chars, text_chars, text_of_chars, trim_chars, trimmed,
};
use crate::transport::{begins_with, text_begins_with};
use vstd::prelude::*;
use vstd::string::*;

verus! {

// ---------------------------------------------------------------------------
// Truth values
// ---------------------------------------------------------------------------

/// The truth value that a text writes.
pub open spec fn read_bool(text: Seq<char>) -> Option<bool> {
    let word = ascii_lower_text(trimmed(text));
    if word == "t"@ || word == "true"@ || word == "1"@ || word == "on"@ || word == "yes"@ {
        Some(true)
    } else if word == "f"@ || word == "false"@ || word == "0"@ || word == "off"@ || word == "no"@ {
        Some(false)
    } else {
        None
    }
}

// Whether a word is a given one in lower case.
fn is_word(word: &str, lower: &str) -> (same: bool)
    requires
        ascii_lower_text(lower@) == lower@,
    ensures
        same == (ascii_lower_text(word@) == lower@),
{
    same_text_ignoring_case(word, lower)
}

proof fn lemma_words_are_lower()
    ensures
        ascii_lower_text("t"@) == "t"@,
        ascii_lower_text("true"@) == "true"@,
        ascii_lower_text("1"@) == "1"@,
        ascii_lower_text("on"@) == "on"@,
        ascii_lower_text("yes"@) == "yes"@,
        ascii_lower_text("f"@) == "f"@,
        ascii_lower_text("false"@) == "false"@,
        ascii_lower_text("0"@) == "0"@,
        ascii_lower_text("off"@) == "off"@,
        ascii_lower_text("no"@) == "no"@,
{
    reveal_strlit("t");
    reveal_strlit("true");
    reveal_strlit("1");
    reveal_strlit("on");
    reveal_strlit("yes");
    reveal_strlit("f");
    reveal_strlit("false");
    reveal_strlit("0");
    reveal_strlit("off");
    reveal_strlit("no");
    assert(ascii_lower_text("t"@) =~= "t"@);
    assert(ascii_lower_text("true"@) =~= "true"@);
    assert(ascii_lower_text("1"@) =~= "1"@);
    assert(ascii_lower_text("on"@) =~= "on"@);
    assert(ascii_lower_text("yes"@) =~= "yes"@);
    assert(ascii_lower_text("f"@) =~= "f"@);
    assert(ascii_lower_text("false"@) =~= "false"@);
    assert(ascii_lower_text("0"@) =~= "0"@);
    assert(ascii_lower_text("off"@) =~= "off"@);
    assert(ascii_lower_text("no"@) =~= "no"@);
}

/// Reads a truth value.
pub fn parse_bool(text: &str) -> (value: Option<bool>)
    ensures
        value == read_bool(text@),
{
    let chars = text_chars(text);
    let word = text_of_chars(trim_chars(chars.as_slice()));
    let w = word.as_str();
    proof {
        lemma_words_are_lower();
    }
    if is_word(w, "t") || is_word(w, "true") || is_word(w, "1") || is_word(w, "on") || is_word(
        w,
        "yes",
    ) {
        Some(true)
    } else if is_word(w, "f") || is_word(w, "false") || is_word(w, "0") || is_word(w, "off")
        || is_word(w, "no") {
        Some(false)
    } else {
        None
    }
}

// ---------------------------------------------------------------------------
// Byte strings and identifiers
// ---------------------------------------------------------------------------

/// The byte that two characters write: two hexadecimal characters, or one
/// behind a plus sign.
pub open spec fn pair_value(high: char, low: char) -> Option<u8> {
    match (hex_value(high), hex_value(low)) {
        (Some(h), Some(l)) => Some((16 * h + l) as u8),
        (None, Some(l)) => if high == '+' {
            Some(l as u8)
        } else {
            None
        },
        _ => None,
    }
}

/// Whether every pair of characters writes a byte.
pub open spec fn all_pairs(s: Seq<char>) -> bool {
    s.len() % 2 == 0 && forall|i: int|
        0 <= i < s.len() / 2 ==> pair_value(s[2 * i], #[trigger] s[2 * i + 1]) is Some
}

/// The bytes that the pairs of characters write.
pub open spec fn pair_bytes(s: Seq<char>) -> Option<Seq<u8>> {
    if all_pairs(s) {
        Some(Seq::new((s.len() / 2) as nat, |i: int| pair_value(s[2 * i], s[2 * i + 1])->0))
    } else {
        None
    }
}

fn read_pair(high: char, low: char) -> (value: Option<u8>)
    ensures
        value == pair_value(high, low),
{
    match (hex_char_value(high), hex_char_value(low)) {
        (Some(h), Some(l)) => Some(16 * h + l),
        (None, Some(l)) => if high == '+' {
            Some(l)
        } else {
            None
        },
        _ => None,
    }
}

fn parse_pairs(s: &[char]) -> (bytes: Option<Vec<u8>>)
    ensures
        match bytes {
            Some(b) => pair_bytes(s@) == Some(b@),
            None => pair_bytes(s@) is None,
        },
{
    if s.len() % 2 != 0 {
        return None;
    }
    let n = s.len() / 2;
    let mut bytes: Vec<u8> = Vec::new();
    let mut i: usize = 0;
    while i < n
        invariant
            i <= n,
            2 * n == s@.len(),
            bytes@.len() == i,
            forall|k: int|
                0 <= k < i ==> pair_value(s@[2 * k], #[trigger] s@[2 * k + 1]) == Some(bytes@[k]),
        decreases n - i,
    {
        let ghost total = s.len();
        assert(2 * i + 1 < total);
        match read_pair(s[2 * i], s[2 * i + 1]) {
            Some(byte) => bytes.push(byte),
            None => {
                assert(pair_value(s@[2 * (i as int)], s@[2 * (i as int) + 1]) is None);
                return None;
            },
        }
        i += 1;
    }
    assert(bytes@ =~= Seq::new(
        (s@.len() / 2) as nat,
        |k: int| pair_value(s@[2 * k], s@[2 * k + 1])->0,
    ));
    Some(bytes)
}

/// The byte string that a text writes: pairs of hexadecimal characters behind
/// `\x`.
pub open spec fn read_bytea(text: Seq<char>) -> Option<Seq<u8>> {
    if begins_with(text, "\\x"@) {
        pair_bytes(text.subrange(2, text.len() as int))
    } else {
        None
    }
}

/// Reads a byte string.
pub fn parse_bytea_text(text: &str) -> (bytes: Option<Vec<u8>>)
    ensures
        match bytes {
            Some(b) => read_bytea(text@) == Some(b@),
            None => read_bytea(text@) is None,
        },
{
    if !text_begins_with(text, "\\x") {
        return None;
    }
    proof {
        reveal_strlit("\\x");
    }
    let chars = text_chars(text);
    let n = chars.len();
    parse_pairs(vstd::slice::slice_subrange(chars.as_slice(), 2, n))
}

/// A text without its hyphens.
pub open spec fn without_hyphens(s: Seq<char>) -> Seq<char>
    decreases s.len(),
{
    if s.len() == 0 {
        s
    } else if s.last() == '-' {
        without_hyphens(s.drop_last())
    } else {
        without_hyphens(s.drop_last()).push(s.last())
    }
}

/// The sixteen bytes of an identifier; hyphens may stand anywhere.
pub open spec fn read_uuid(text: Seq<char>) -> Option<Seq<u8>> {
    let clean = without_hyphens(trimmed(text));
    if clean.len() == 32 {
        pair_bytes(clean)
    } else {
        None
    }
}

/// Reads an identifier.
pub fn parse_uuid(text: &str) -> (uuid: Option<[u8; 16]>)
    ensures
        match uuid {
            Some(u) => read_uuid(text@) == Some(u@),
            None => read_uuid(text@) is None,
        },
{
    let chars = text_chars(text);
    let s = trim_chars(chars.as_slice());
    let mut clean: Vec<char> = Vec::new();
    let mut i: usize = 0;
    assert(s@.subrange(0, 0) == Seq::<char>::empty());
    while i < s.len()
        invariant
            i <= s@.len(),
            clean@ == without_hyphens(s@.subrange(0, i as int)),
        decreases s@.len() - i,
    {
        assert(s@.subrange(0, i + 1).drop_last() == s@.subrange(0, i as int));
        if s[i] != '-' {
            clean.push(s[i]);
        }
        i += 1;
    }
    assert(s@.subrange(0, i as int) == s@);
    if clean.len() != 32 {
        return None;
    }
    match parse_pairs(clean.as_slice()) {
        Some(bytes) => Some(array16(bytes.as_slice())),
        None => None,
    }
}

// ---------------------------------------------------------------------------
// Dates and times
// ---------------------------------------------------------------------------

/// A number that fits in 64 bits with a sign.
pub open spec fn fits64(value: int) -> Option<int> {
    if i64::MIN <= value <= i64::MAX {
        Some(value)
    } else {
        None
    }
}

/// A 64-bit signed number in decimal notation.
pub open spec fn read_i64(s: Seq<char>) -> Option<int> {
    match read_integer(s) {
        Some(n) => fits64(n),
        None => None,
    }
}

fn parse_i64(s: &[char]) -> (value: Option<i64>)
    ensures
        match value {
            Some(n) => read_i64(s@) == Some(n as int),
            None => read_i64(s@) is None,
        },
{
    parse_integer(s)
}

/// The day that a text `year-month-day` writes, counted from 1970-01-01.
pub open spec fn read_date(text: Seq<char>) -> Option<int> {
    let parts = fields(trimmed(text), '-');
    if parts.len() != 3 {
        None
    } else {
        match (read_i64(parts[0]), read_i64(parts[1]), read_i64(parts[2])) {
            (Some(year), Some(month), Some(day)) => {
                let days = civil_days(year, month, day);
                if 1 <= month <= 12 && 1 <= day <= 31 && i32::MIN <= days <= i32::MAX {
                    Some(days)
                } else {
                    None
                }
            },
            _ => None,
        }
    }
}

// Years that are millions away have no day number that fits in 32 bits.
proof fn lemma_far_years(year: int, month: int, day: int)
    requires
        1 <= month <= 12,
        1 <= day <= 31,
        year < -10_000_000 || year > 10_000_000,
    ensures
        civil_days(year, month, day) < i32::MIN || civil_days(year, month, day) > i32::MAX,
{
    let y = if month <= 2 {
        year - 1
    } else {
        year
    };
    let shifted = if y >= 0 {
        y
    } else {
        y - 399
    };
    let era = shifted / 400;
    let yoe = y - era * 400;
    assert(400 * era <= shifted < 400 * era + 400);
    if year > 0 {
        assert(era >= 24_999);
        assert(0 <= yoe < 400);
    } else {
        assert(era <= -25_000);
        assert(yoe <= 798);
    }
    assert(yoe * 365 + yoe / 4 - yoe / 100 <= 300_000);
    assert(yoe >= 0);
    assert(yoe * 365 + yoe / 4 - yoe / 100 >= 0);
}

/// Reads a date.
pub fn parse_date_text(text: &str) -> (days: Option<i32>)
    ensures
        match days {
            Some(d) => read_date(text@) == Some(d as int),
            None => read_date(text@) is None,
        },
{
    let chars = text_chars(text);
    parse_date_chars(chars.as_slice())
}

fn parse_date_chars(text: &[char]) -> (days: Option<i32>)
    ensures
        match days {
            Some(d) => read_date(text@) == Some(d as int),
            None => read_date(text@) is None,
        },
{
    let parts = split_chars(trim_chars(text), '-');
    let ghost names = char_lists(parts@);
    if parts.len() != 3 {
        return None;
    }
    assert(names[0] == parts@[0]@ && names[1] == parts@[1]@ && names[2] == parts@[2]@);
    match (
        parse_i64(parts[0].as_slice()),
        parse_i64(parts[1].as_slice()),
        parse_i64(parts[2].as_slice()),
    ) {
        (Some(year), Some(month), Some(day)) => {
            if month < 1 || month > 12 || day < 1 || day > 31 {
                return None;
            }
            if year < -10_000_000 || year > 10_000_000 {
                proof {
                    lemma_far_years(year as int, month as int, day as int);
                }
                return None;
            }
            match days_from_civil(year, month, day) {
                Some(days) => {
                    if days < i32::MIN as i64 || days > i32::MAX as i64 {
                        return None;
                    }
                    Some(days as i32)
                },
                None => None,
            }
        },
        _ => None,
    }
}

/// A text without the repetitions of another at its end.
pub open spec fn without_end(s: Seq<char>, end: Seq<char>) -> Seq<char>
    decreases s.len(),
{
    if end.len() > 0 && end.len() <= s.len() && s.subrange(s.len() - end.len(), s.len() as int)
        == end {
        without_end(s.subrange(0, s.len() - end.len()), end)
    } else {
        s
    }
}

fn cut_end<'a>(s: &'a [char], end: &str) -> (rest: &'a [char])
    ensures
        rest@ == without_end(s@, end@),
{
    let e = text_chars(end);
    let m = e.len();
    let mut n = s.len();
    assert(s@.subrange(0, n as int) == s@);
    while m > 0 && m <= n && same_chars(
        vstd::slice::slice_subrange(s, n - m, n),
        e.as_slice(),
    )
        invariant
            e@ == end@,
            m == e@.len(),
            n <= s@.len(),
            without_end(s@.subrange(0, n as int), end@) == without_end(s@, end@),
        decreases n,
    {
        let ghost whole = s@.subrange(0, n as int);
        assert(whole.subrange(n - m, n as int) == s@.subrange(n - m, n as int));
        assert(whole.subrange(0, n - m) == s@.subrange(0, n - m));
        n -= m;
    }
    let ghost whole = s@.subrange(0, n as int);
    if m > 0 && m <= n {
        assert(whole.subrange(n - m, n as int) == s@.subrange(n - m, n as int));
    }
    vstd::slice::slice_subrange(s, 0, n)
}

fn same_chars(a: &[char], b: &[char]) -> (same: bool)
    ensures
        same == (a@ == b@),
{
    if a.len() != b.len() {
        return false;
    }
    let mut i: usize = 0;
    while i < a.len()
        invariant
            a@.len() == b@.len(),
            i <= a@.len(),
            forall|k: int| 0 <= k < i ==> a@[k] == b@[k],
        decreases a@.len() - i,
    {
        if a[i] != b[i] {
            return false;
        }
        i += 1;
    }
    assert(a@ =~= b@);
    true
}

/// The place of the first blank or `T` at or behind `at`.
pub open spec fn time_mark(s: Seq<char>, at: int) -> Option<int>
    decreases s.len() - at,
{
    if at < 0 || at >= s.len() {
        None
    } else if s[at] == ' ' || s[at] == 'T' {
        Some(at)
    } else {
        time_mark(s, at + 1)
    }
}

/// The place of the first point at or behind `at`.
pub open spec fn point_mark(s: Seq<char>, at: int) -> Option<int>
    decreases s.len() - at,
{
    if at < 0 || at >= s.len() {
        None
    } else if s[at] == '.' {
        Some(at)
    } else {
        point_mark(s, at + 1)
    }
}

fn find_time_mark(s: &[char]) -> (at: Option<usize>)
    ensures
        match at {
            Some(p) => time_mark(s@, 0) == Some(p as int) && p < s@.len(),
            None => time_mark(s@, 0) is None,
        },
{
    let mut i: usize = 0;
    while i < s.len()
        invariant
            i <= s@.len(),
            time_mark(s@, 0) == time_mark(s@, i as int),
        decreases s@.len() - i,
    {
        if s[i] == ' ' || s[i] == 'T' {
            return Some(i);
        }
        i += 1;
    }
    None
}

fn find_point(s: &[char]) -> (at: Option<usize>)
    ensures
        match at {
            Some(p) => point_mark(s@, 0) == Some(p as int) && p < s@.len(),
            None => point_mark(s@, 0) is None,
        },
{
    let mut i: usize = 0;
    while i < s.len()
        invariant
            i <= s@.len(),
            point_mark(s@, 0) == point_mark(s@, i as int),
        decreases s@.len() - i,
    {
        if s[i] == '.' {
            return Some(i);
        }
        i += 1;
    }
    None
}

/// The first six characters of a fraction, filled up with zeros.
pub open spec fn six_digits(fraction: Seq<char>) -> Seq<char> {
    Seq::new(
        6,
        |i: int|
            if i < fraction.len() {
                fraction[i]
            } else {
                '0'
            },
    )
}

/// The seconds and microseconds that a text writes.
pub open spec fn read_seconds(s: Seq<char>) -> Option<(int, int)> {
    match point_mark(s, 0) {
        None => match read_i64(s) {
            Some(second) => Some((second, 0int)),
            None => None,
        },
        Some(at) => match (
            read_i64(s.subrange(0, at)),
            read_i64(six_digits(s.subrange(at + 1, s.len() as int))),
        ) {
            (Some(second), Some(micros)) => Some((second, micros)),
            _ => None,
        },
    }
}

fn parse_seconds(s: &[char]) -> (found: Option<(i64, i64)>)
    ensures
        match found {
            Some((second, micros)) => read_seconds(s@) == Some((second as int, micros as int)),
            None => read_seconds(s@) is None,
        },
{
    match find_point(s) {
        None => match parse_i64(s) {
            Some(second) => Some((second, 0)),
            None => None,
        },
        Some(at) => {
            let n = s.len();
            assert(at < n);
            let fraction = vstd::slice::slice_subrange(s, at + 1, n);
            let mut six: Vec<char> = Vec::new();
            let mut i: usize = 0;
            while i < 6
                invariant
                    i <= 6,
                    six@.len() == i,
                    forall|k: int| 0 <= k < i ==> six@[k] == six_digits(fraction@)[k],
                decreases 6 - i,
            {
                six.push(
                    if i < fraction.len() {
                        fraction[i]
                    } else {
                        '0'
                    },
                );
                i += 1;
            }
            assert(six@ =~= six_digits(fraction@));
            match (
                parse_i64(vstd::slice::slice_subrange(s, 0, at)),
                parse_i64(six.as_slice()),
            ) {
                (Some(second), Some(micros)) => Some((second, micros)),
                _ => None,
            }
        },
    }
}

/// A sum of two numbers that must each fit in 64 bits.
pub open spec fn sum64(a: Option<int>, b: Option<int>) -> Option<int> {
    match (a, b) {
        (Some(a), Some(b)) => fits64(a + b),
        _ => None,
    }
}

/// The microseconds of a day and a time; every step must fit in 64 bits.
pub open spec fn instant(days: int, hour: int, minute: int, second: int, micros: int) -> Option<int> {
    let clock = sum64(
        sum64(
            sum64(fits64(hour * 3_600_000_000), fits64(minute * 60_000_000)),
            fits64(second * 1_000_000),
        ),
        Some(micros),
    );
    sum64(fits64(days * 86_400_000_000), clock)
}

/// The microseconds that a text `date time` writes, counted from 1970. The zone
/// may be given as UTC; numbers below zero are taken as they stand.
pub open spec fn read_timestamp(text: Seq<char>) -> Option<int> {
    let s = without_end(without_end(trimmed(text), "+00"@), "+00:00"@);
    match time_mark(s, 0) {
        None => None,
        Some(at) => {
            let parts = fields(s.subrange(at + 1, s.len() as int), ':');
            match read_date(s.subrange(0, at)) {
                None => None,
                Some(days) => if parts.len() != 3 {
                    None
                } else {
                    match (read_i64(parts[0]), read_i64(parts[1]), read_seconds(parts[2])) {
                        (Some(hour), Some(minute), Some((second, micros))) => if hour > 23 || minute
                            > 59 || second > 59 {
                            None
                        } else {
                            instant(days, hour, minute, second, micros)
                        },
                        _ => None,
                    }
                },
            }
        },
    }
}

fn checked_sum(a: Option<i64>, b: Option<i64>) -> (sum: Option<i64>)
    ensures
        match (a, b) {
            (Some(x), Some(y)) => match sum {
                Some(s) => fits64(x + y) == Some(s as int),
                None => fits64(x + y) is None,
            },
            _ => sum is None,
        },
{
    match (a, b) {
        (Some(x), Some(y)) => x.checked_add(y),
        _ => None,
    }
}

fn make_instant(days: i32, hour: i64, minute: i64, second: i64, micros: i64) -> (value: Option<i64>)
    ensures
        match value {
            Some(v) => instant(
                days as int,
                hour as int,
                minute as int,
                second as int,
                micros as int,
            ) == Some(v as int),
            None => instant(
                days as int,
                hour as int,
                minute as int,
                second as int,
                micros as int,
            ) is None,
        },
{
    let hours = hour.checked_mul(3_600_000_000);
    let minutes = minute.checked_mul(60_000_000);
    let seconds = second.checked_mul(1_000_000);
    let whole = (days as i64).checked_mul(86_400_000_000);
    checked_sum(
        whole,
        checked_sum(checked_sum(checked_sum(hours, minutes), seconds), Some(micros)),
    )
}

/// Reads a date with a time.
pub fn parse_timestamp_text(text: &str) -> (value: Option<i64>)
    ensures
        match value {
            Some(v) => read_timestamp(text@) == Some(v as int),
            None => read_timestamp(text@) is None,
        },
{
    let chars = text_chars(text);
    let s = cut_end(cut_end(trim_chars(chars.as_slice()), "+00"), "+00:00");
    let at = match find_time_mark(s) {
        Some(at) => at,
        None => {
            return None;
        },
    };
    let n = s.len();
    assert(at < n);
    let days = match parse_date_chars(vstd::slice::slice_subrange(s, 0, at)) {
        Some(days) => days,
        None => {
            return None;
        },
    };
    let parts = split_chars(vstd::slice::slice_subrange(s, at + 1, n), ':');
    let ghost names = char_lists(parts@);
    if parts.len() != 3 {
        return None;
    }
    assert(names[0] == parts@[0]@ && names[1] == parts@[1]@ && names[2] == parts@[2]@);
    match (
        parse_i64(parts[0].as_slice()),
        parse_i64(parts[1].as_slice()),
        parse_seconds(parts[2].as_slice()),
    ) {
        (Some(hour), Some(minute), Some((second, micros))) => {
            if hour > 23 || minute > 59 || second > 59 {
                return None;
            }
            make_instant(days, hour, minute, second, micros)
        },
        _ => None,
    }
}

} // verus!
