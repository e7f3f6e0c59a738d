//! Values that are shown as text and read back from it.

use crate::calendar::{
    civil, civil_date_counts_back, date_chars, date_text, days_have_dates,
    later_days_have_later_years, time_text, timestamp_chars, without_trailing_zeros,
};
use crate::datum::{in_bounds, uuid_chars, DatumView, FloatTexts, SqlType};
use crate::error::SqlErrorView;
use crate::json::canonical;
use crate::pg_text::{
    instant, pair_bytes, pair_value, point_mark, read_bool, read_date, read_i64, read_seconds,
    read_timestamp, read_uuid, six_digits, time_mark, without_end, without_hyphens,
};
use crate::pg_values::text_param;
use crate::text::{
    all_digits, ascii_lower_text, decimal_reads_back, digits, fields, hex_chars, hex_digit,
    hex_value, is_digit, is_space, lemma_digits_read_back, number, padded, read_integer, trimmed,
    zeros,
};
use vstd::prelude::*;
use vstd::string::*;

verus! {

// ---------------------------------------------------------------------------
// Fields
// ---------------------------------------------------------------------------

// Whether a character does not stand in a text.
spec fn lacks(s: Seq<char>, c: char) -> bool {
    forall|i: int| 0 <= i < s.len() ==> #[trigger] s[i] != c
}

proof fn lemma_fields_joined(a: Seq<char>, b: Seq<char>, sep: char)
    requires
        lacks(b, sep),
    ensures
        fields(a.push(sep) + b, sep) == fields(a, sep).push(b),
    decreases b.len(),
{
    let whole = a.push(sep) + b;
    if b.len() == 0 {
        assert(whole =~= a.push(sep));
        assert(whole.drop_last() =~= a);
        assert(b =~= Seq::<char>::empty());
    } else {
        let front = b.drop_last();
        assert forall|i: int| 0 <= i < front.len() implies #[trigger] front[i] != sep by {
            assert(front[i] == b[i]);
        }
        lemma_fields_joined(a, front, sep);
        assert(whole.drop_last() =~= a.push(sep) + front);
        assert(whole.last() == b.last());
        let before = fields(a, sep).push(front);
        assert(before.update(before.len() - 1, before.last().push(b.last())) =~= fields(
            a,
            sep,
        ).push(b)) by {
            assert(front.push(b.last()) =~= b);
        }
    }
}

proof fn lemma_one_field(s: Seq<char>, sep: char)
    requires
        lacks(s, sep),
    ensures
        fields(s, sep) == seq![s],
    decreases s.len(),
{
    if s.len() > 0 {
        let front = s.drop_last();
        assert forall|i: int| 0 <= i < front.len() implies #[trigger] front[i] != sep by {
            assert(front[i] == s[i]);
        }
        lemma_one_field(front, sep);
        assert(s.last() != sep);
        assert(front.push(s.last()) =~= s);
        assert(seq![front].update(0, front.push(s.last())) =~= seq![s]);
    } else {
        assert(s =~= Seq::<char>::empty());
        assert(seq![Seq::<char>::empty()] =~= seq![s]);
    }
}

proof fn lemma_three_fields(a: Seq<char>, b: Seq<char>, c: Seq<char>, sep: char)
    requires
        lacks(a, sep),
        lacks(b, sep),
        lacks(c, sep),
    ensures
        fields((a.push(sep) + b).push(sep) + c, sep) == seq![a, b, c],
{
    lemma_one_field(a, sep);
    lemma_fields_joined(a, b, sep);
    lemma_fields_joined(a.push(sep) + b, c, sep);
    assert(seq![a].push(b).push(c) =~= seq![a, b, c]);
}

// ---------------------------------------------------------------------------
// Numbers
// ---------------------------------------------------------------------------

proof fn lemma_leading_zeros(count: nat, d: Seq<char>)
    ensures
        number(zeros(count as int) + d) == number(d),
    decreases d.len() + count,
{
    if d.len() == 0 {
        assert(d =~= Seq::<char>::empty());
        if count > 0 {
            let z = zeros(count as int);
            assert(z + d =~= z);
            assert(z.drop_last() =~= zeros(count - 1));
            lemma_leading_zeros((count - 1) as nat, d);
            assert(zeros(count - 1) + d =~= zeros(count - 1));
        } else {
            assert(zeros(0) + d =~= d);
        }
    } else {
        let whole = zeros(count as int) + d;
        assert(whole.drop_last() =~= zeros(count as int) + d.drop_last());
        lemma_leading_zeros(count, d.drop_last());
    }
}

// A number that is filled up with zeros reads back.
proof fn lemma_padded(value: int, width: int)
    requires
        0 <= value,
    ensures
        all_digits(padded(value, width)),
        padded(value, width).len() > 0,
        padded(value, width).len() >= width,
        number(padded(value, width)) == value,
        read_integer(padded(value, width)) == Some(value),
        lacks(padded(value, width), '-'),
        lacks(padded(value, width), ':'),
        lacks(padded(value, width), ' '),
        lacks(padded(value, width), 'T'),
        lacks(padded(value, width), '.'),
        lacks(padded(value, width), '+'),
{
    let d = digits(value as nat);
    let p = padded(value, width);
    lemma_digits_read_back(value as nat);
    let count = width - d.len();
    let n: nat = if count < 0 {
        0
    } else {
        count as nat
    };
    assert(zeros(count) =~= zeros(n as int));
    lemma_leading_zeros(n, d);
    assert forall|i: int| 0 <= i < p.len() implies is_digit(#[trigger] p[i]) by {
        if i >= zeros(count).len() {
            assert(p[i] == d[i - zeros(count).len()]);
        }
    }
    assert(is_digit(p[0]));
}

proof fn lemma_read_padded(value: int, width: int)
    requires
        0 <= value <= i64::MAX,
    ensures
        read_i64(padded(value, width)) == Some(value),
{
    lemma_padded(value, width);
}

// A number of at most six digits fills six places exactly.
proof fn lemma_small_padded(value: int, width: nat)
    requires
        0 <= value,
        (width == 2 && value < 100) || (width == 6 && value < 1_000_000),
    ensures
        padded(value, width as int).len() == width,
{
    reveal_with_fuel(digits, 7);
    let d = digits(value as nat);
    assert(d.len() <= width);
}

// ---------------------------------------------------------------------------
// White space
// ---------------------------------------------------------------------------

proof fn lemma_not_trimmed(s: Seq<char>)
    requires
        s.len() > 0,
        !is_space(s[0]),
        !is_space(s.last()),
    ensures
        trimmed(s) == s,
{
}

// ---------------------------------------------------------------------------
// Dates
// ---------------------------------------------------------------------------

proof fn lemma_date_text(year: int, month: int, day: int)
    requires
        0 <= year <= i64::MAX,
        1 <= month <= 12,
        1 <= day <= 31,
    ensures
        fields(date_text(year, month, day), '-') == seq![
            padded(year, 4),
            padded(month, 2),
            padded(day, 2),
        ],
        trimmed(date_text(year, month, day)) == date_text(year, month, day),
        lacks(date_text(year, month, day), ' '),
        lacks(date_text(year, month, day), 'T'),
        date_text(year, month, day).len() > 0,
        is_digit(date_text(year, month, day)[0]),
{
    let (y, m, d) = (padded(year, 4), padded(month, 2), padded(day, 2));
    lemma_padded(year, 4);
    lemma_padded(month, 2);
    lemma_padded(day, 2);
    lemma_three_fields(y, m, d, '-');
    let text = date_text(year, month, day);
    assert(text =~= (y.push('-') + m).push('-') + d);
    assert(text[0] == y[0]);
    assert(is_digit(y[0]));
    assert(text.last() == d.last());
    assert(is_digit(d.last()));
    lemma_not_trimmed(text);
}

/// A date from the year zero on that is shown as text reads back.
pub proof fn dates_read_back(days: int)
    requires
        -719_528 <= days <= i32::MAX,
    ensures
        read_date(date_chars(days)) == Some(days),
{
    days_have_dates(days);
    later_days_have_later_years(days);
    let date = civil(days);
    lemma_date_text(date.0, date.1, date.2);
    lemma_read_padded(date.0, 4);
    lemma_read_padded(date.1, 2);
    lemma_read_padded(date.2, 2);
    civil_date_counts_back(days, date.0, date.1, date.2);
}

// ---------------------------------------------------------------------------
// Times
// ---------------------------------------------------------------------------

proof fn lemma_time_mark(s: Seq<char>, at: int, n: int)
    requires
        0 <= at <= n < s.len(),
        s[n] == ' ',
        forall|k: int| 0 <= k < n ==> #[trigger] s[k] != ' ' && s[k] != 'T',
    ensures
        time_mark(s, at) == Some(n),
    decreases n - at,
{
    if at < n {
        lemma_time_mark(s, at + 1, n);
    }
}

proof fn lemma_point_mark(s: Seq<char>, at: int, n: int)
    requires
        0 <= at <= n < s.len(),
        s[n] == '.',
        forall|k: int| 0 <= k < n ==> #[trigger] s[k] != '.',
    ensures
        point_mark(s, at) == Some(n),
    decreases n - at,
{
    if at < n {
        lemma_point_mark(s, at + 1, n);
    }
}

proof fn lemma_no_point(s: Seq<char>, at: int)
    requires
        lacks(s, '.'),
        0 <= at,
    ensures
        point_mark(s, at) is None,
    decreases s.len() - at,
{
    if at < s.len() {
        assert(s[at] != '.');
        lemma_no_point(s, at + 1);
    }
}

proof fn lemma_no_zone(s: Seq<char>)
    requires
        lacks(s, '+'),
    ensures
        without_end(s, "+00"@) == s,
        without_end(s, "+00:00"@) == s,
{
    reveal_strlit("+00");
    reveal_strlit("+00:00");
    if s.len() >= 3 {
        assert(s.subrange(s.len() - 3, s.len() as int)[0] == s[s.len() - 3]);
        assert("+00"@[0] == '+');
    }
    if s.len() >= 6 {
        assert(s.subrange(s.len() - 6, s.len() as int)[0] == s[s.len() - 6]);
        assert("+00:00"@[0] == '+');
    }
}

// Zeros at the end of a fraction do not change it.
proof fn lemma_fraction(s: Seq<char>)
    requires
        s.len() <= 6,
    ensures
        six_digits(without_trailing_zeros(s)) == six_digits(s),
        without_trailing_zeros(s).len() <= s.len(),
        forall|i: int|
            0 <= i < without_trailing_zeros(s).len() ==> #[trigger] without_trailing_zeros(s)[i]
                == s[i],
        without_trailing_zeros(s).len() > 0 ==> without_trailing_zeros(s).last() != '0',
        without_trailing_zeros(s).len() == 0 ==> forall|i: int|
            0 <= i < s.len() ==> #[trigger] s[i] == '0',
    decreases s.len(),
{
    if s.len() > 0 && s.last() == '0' {
        lemma_fraction(s.drop_last());
        assert(six_digits(s.drop_last()) =~= six_digits(s));
        if without_trailing_zeros(s).len() == 0 {
            assert forall|i: int| 0 <= i < s.len() implies #[trigger] s[i] == '0' by {
                if i < s.len() - 1 {
                    assert(s.drop_last()[i] == '0');
                }
            }
        }
    }
}

proof fn lemma_zeros_are_zero(s: Seq<char>)
    requires
        forall|i: int| 0 <= i < s.len() ==> #[trigger] s[i] == '0',
    ensures
        number(s) == 0,
    decreases s.len(),
{
    if s.len() > 0 {
        lemma_zeros_are_zero(s.drop_last());
    }
}

// The seconds of a time of day with their fraction.
spec fn seconds_text(second: int, fraction: int) -> Seq<char> {
    if fraction == 0 {
        padded(second, 2)
    } else {
        padded(second, 2).push('.') + without_trailing_zeros(padded(fraction, 6))
    }
}

proof fn lemma_seconds(second: int, fraction: int)
    requires
        0 <= second < 60,
        0 <= fraction < 1_000_000,
    ensures
        read_seconds(seconds_text(second, fraction)) == Some((second, fraction)),
        lacks(seconds_text(second, fraction), ':'),
        lacks(seconds_text(second, fraction), '+'),
        seconds_text(second, fraction).len() > 0,
        is_digit(seconds_text(second, fraction).last()),
{
    let s = padded(second, 2);
    let text = seconds_text(second, fraction);
    lemma_padded(second, 2);
    lemma_read_padded(second, 2);
    if fraction == 0 {
        lemma_no_point(s, 0);
        assert(is_digit(s.last()));
    } else {
        let p = padded(fraction, 6);
        let f = without_trailing_zeros(p);
        lemma_padded(fraction, 6);
        lemma_read_padded(fraction, 6);
        lemma_small_padded(fraction, 6);
        lemma_fraction(p);
        if f.len() == 0 {
            lemma_zeros_are_zero(p);
        }
        assert(six_digits(p) =~= p);
        let n = s.len() as int;
        assert forall|k: int| 0 <= k < n implies #[trigger] text[k] != '.' by {
            assert(text[k] == s[k]);
        }
        lemma_point_mark(text, 0, n);
        assert(text.subrange(0, n) =~= s);
        assert(text.subrange(n + 1, text.len() as int) =~= f);
        assert forall|k: int| 0 <= k < text.len() implies #[trigger] text[k] != ':' && text[k]
            != '+' by {
            if k < n {
                assert(text[k] == s[k]);
            } else if k > n {
                assert(text[k] == f[k - n - 1]);
                assert(f[k - n - 1] == p[k - n - 1]);
            }
        }
        assert(text.last() == f.last());
        assert(f.last() == p[f.len() - 1]);
        assert(is_digit(p[f.len() - 1]));
    }
}

// The parts of a time of day.
proof fn lemma_time_text(micros: int)
    requires
        0 <= micros < 86_400_000_000,
    ensures
        ({
            let seconds = micros / 1_000_000;
            let (h, m, s) = (seconds / 3_600, seconds % 3_600 / 60, seconds % 60);
            let f = micros % 1_000_000;
            let text = time_text(micros);
            &&& 0 <= h <= 23
            &&& 0 <= m <= 59
            &&& 0 <= s <= 59
            &&& 0 <= f < 1_000_000
            &&& h * 3_600_000_000 + m * 60_000_000 + s * 1_000_000 + f == micros
            &&& fields(text, ':') == seq![padded(h, 2), padded(m, 2), seconds_text(s, f)]
            &&& lacks(text, '+')
            &&& text.len() > 0
            &&& is_digit(text.last())
        }),
{
    let seconds = micros / 1_000_000;
    let (h, m, s) = (seconds / 3_600, seconds % 3_600 / 60, seconds % 60);
    let f = micros % 1_000_000;
    let text = time_text(micros);
    let (a, b, c) = (padded(h, 2), padded(m, 2), seconds_text(s, f));
    lemma_padded(h, 2);
    lemma_padded(m, 2);
    lemma_seconds(s, f);
    lemma_three_fields(a, b, c, ':');
    assert(text =~= (a.push(':') + b).push(':') + c);
    assert(text.last() == c.last());
    assert forall|k: int| 0 <= k < text.len() implies #[trigger] text[k] != '+' by {
        if k < a.len() {
            assert(text[k] == a[k]);
        } else if a.len() < k < a.len() + 1 + b.len() {
            assert(text[k] == b[k - a.len() - 1]);
        } else if k > a.len() + 1 + b.len() {
            assert(text[k] == c[k - a.len() - b.len() - 2]);
        }
    }
}

proof fn lemma_date_has_no_plus(year: int, month: int, day: int)
    requires
        0 <= year,
        1 <= month <= 12,
        1 <= day <= 31,
    ensures
        lacks(date_text(year, month, day), '+'),
{
    let (y, m, d) = (padded(year, 4), padded(month, 2), padded(day, 2));
    lemma_padded(year, 4);
    lemma_padded(month, 2);
    lemma_padded(day, 2);
    let text = date_text(year, month, day);
    assert forall|k: int| 0 <= k < text.len() implies #[trigger] text[k] != '+' by {
        if k < y.len() {
            assert(text[k] == y[k]);
        } else if y.len() < k < y.len() + 1 + m.len() {
            assert(text[k] == m[k - y.len() - 1]);
        } else if k > y.len() + 1 + m.len() {
            assert(text[k] == d[k - y.len() - m.len() - 2]);
        }
    }
}

/// A moment from the year zero on that is shown as text reads back.
pub proof fn timestamps_read_back(micros: int)
    requires
        -719_528 * 86_400_000_000 <= micros <= i64::MAX,
    ensures
        read_timestamp(timestamp_chars(micros)) == Some(micros),
{
    let days = micros / 86_400_000_000;
    let clock = micros % 86_400_000_000;
    assert(-719_528 <= days <= i32::MAX);
    let date = date_chars(days);
    let time = time_text(clock);
    let text = timestamp_chars(micros);
    days_have_dates(days);
    later_days_have_later_years(days);
    let c = civil(days);
    lemma_date_text(c.0, c.1, c.2);
    lemma_date_has_no_plus(c.0, c.1, c.2);
    dates_read_back(days);
    lemma_time_text(clock);
    let n = date.len() as int;
    assert(text[0] == date[0]);
    assert(text.last() == time.last());
    lemma_not_trimmed(text);
    assert forall|k: int| 0 <= k < text.len() implies #[trigger] text[k] != '+' by {
        if k < n {
            assert(text[k] == date[k]);
        } else if k > n {
            assert(text[k] == time[k - n - 1]);
        }
    }
    lemma_no_zone(text);
    assert forall|k: int| 0 <= k < n implies #[trigger] text[k] != ' ' && text[k] != 'T' by {
        assert(text[k] == date[k]);
    }
    lemma_time_mark(text, 0, n);
    assert(text.subrange(0, n) =~= date);
    assert(text.subrange(n + 1, text.len() as int) =~= time);
    let seconds = clock / 1_000_000;
    let (h, m, s) = (seconds / 3_600, seconds % 3_600 / 60, seconds % 60);
    let f = clock % 1_000_000;
    lemma_read_padded(h, 2);
    lemma_read_padded(m, 2);
    lemma_seconds(s, f);
    assert(instant(days, h, m, s, f) == Some(micros));
}

// ---------------------------------------------------------------------------
// Identifiers
// ---------------------------------------------------------------------------

proof fn lemma_hyphens_split(a: Seq<char>, b: Seq<char>)
    ensures
        without_hyphens(a + b) == without_hyphens(a) + without_hyphens(b),
    decreases b.len(),
{
    if b.len() == 0 {
        assert(a + b =~= a);
        assert(without_hyphens(b) =~= Seq::<char>::empty());
        assert(without_hyphens(a) + without_hyphens(b) =~= without_hyphens(a));
    } else {
        assert((a + b).drop_last() =~= a + b.drop_last());
        lemma_hyphens_split(a, b.drop_last());
        assert(without_hyphens(a + b) =~= without_hyphens(a) + without_hyphens(b));
    }
}

proof fn lemma_no_hyphens(s: Seq<char>)
    requires
        lacks(s, '-'),
    ensures
        without_hyphens(s) == s,
        without_hyphens(s.push('-')) == s,
    decreases s.len(),
{
    if s.len() > 0 {
        let front = s.drop_last();
        assert forall|i: int| 0 <= i < front.len() implies #[trigger] front[i] != '-' by {
            assert(front[i] == s[i]);
        }
        lemma_no_hyphens(front);
        assert(s.last() != '-');
        assert(front.push(s.last()) =~= s);
    }
    assert(s.push('-').drop_last() =~= s);
}

proof fn lemma_hex_char(value: nat)
    requires
        value < 16,
    ensures
        hex_digit(value) != '-',
        !is_space(hex_digit(value)),
{
}

/// An identifier that is shown as text reads back.
pub proof fn identifiers_read_back(v: Seq<u8>)
    requires
        v.len() == 16,
    ensures
        read_uuid(uuid_chars(v)) == Some(v),
{
    let h = hex_chars(v);
    assert forall|i: int| 0 <= i < h.len() implies #[trigger] h[i] != '-' && !is_space(h[i]) by {
        let b = v[i / 2] as nat;
        assert(b / 16 < 16 && b % 16 < 16);
        lemma_hex_char(b / 16);
        lemma_hex_char(b % 16);
    }
    let (a, b, c, d, e) = (
        h.subrange(0, 8),
        h.subrange(8, 12),
        h.subrange(12, 16),
        h.subrange(16, 20),
        h.subrange(20, 32),
    );
    assert(lacks(a, '-') && lacks(b, '-') && lacks(c, '-') && lacks(d, '-') && lacks(e, '-'));
    lemma_no_hyphens(a);
    lemma_no_hyphens(b);
    lemma_no_hyphens(c);
    lemma_no_hyphens(d);
    lemma_no_hyphens(e);
    let text = uuid_chars(v);
    let ab = a.push('-') + b.push('-');
    let abc = ab + c.push('-');
    let abcd = abc + d.push('-');
    lemma_hyphens_split(a.push('-'), b.push('-'));
    lemma_hyphens_split(ab, c.push('-'));
    lemma_hyphens_split(abc, d.push('-'));
    lemma_hyphens_split(abcd, e);
    assert(text == abcd + e);
    assert(without_hyphens(text) =~= h);
    assert(text[0] == h[0]);
    assert(text.last() == h[31]);
    lemma_not_trimmed(text);
    lemma_hex_pairs(v);
}

// ---------------------------------------------------------------------------
// Whole values
// ---------------------------------------------------------------------------

/// Whether a value of a type is shown as a text that it reads back from.
pub open spec fn is_shown_as(value: DatumView, ty: SqlType) -> bool {
    match value {
        DatumView::Boolean(_) => ty == SqlType::Boolean,
        DatumView::Int16(_) => ty == SqlType::SmallInt,
        DatumView::Int32(_) => ty == SqlType::Integer,
        DatumView::Int64(_) => ty == SqlType::BigInt,
        DatumView::Text(_) => ty == SqlType::Text || ty is Varchar,
        DatumView::Bytes(_) => ty == SqlType::Bytea,
        DatumView::Date(d) => ty == SqlType::Date && d >= -719_528,
        DatumView::Timestamp(t) => ty == SqlType::Timestamp && t >= -719_528 * 86_400_000_000,
        DatumView::TimestampTz(t) => ty == SqlType::TimestampTz && t >= -719_528 * 86_400_000_000,
        DatumView::Uuid(_) => ty == SqlType::Uuid,
        DatumView::Jsonb(j) => ty == SqlType::Jsonb && canonical(j) == Ok::<_, SqlErrorView>(j),
        _ => false,
    }
}

proof fn lemma_hex_pairs(bytes: Seq<u8>)
    ensures
        pair_bytes(hex_chars(bytes)) == Some(bytes),
{
    let s = hex_chars(bytes);
    assert forall|i: int| 0 <= i < s.len() / 2 implies pair_value(
        s[2 * i],
        #[trigger] s[2 * i + 1],
    ) == Some(bytes[i]) by {
        let b = bytes[i] as nat;
        assert((2 * i) / 2 == i && (2 * i + 1) / 2 == i);
        assert((2 * i) % 2 == 0 && (2 * i + 1) % 2 == 1);
        assert(b / 16 < 16 && b % 16 < 16);
        assert(hex_value(s[2 * i]) == Some(b / 16));
        assert(hex_value(s[2 * i + 1]) == Some(b % 16));
    }
    assert(pair_bytes(s)->0 =~= bytes);
}

proof fn lemma_bool_words()
    ensures
        read_bool("true"@) == Some(true),
        read_bool("false"@) == Some(false),
{
    reveal_strlit("true");
    reveal_strlit("false");
    reveal_strlit("t");
    reveal_strlit("1");
    reveal_strlit("on");
    reveal_strlit("yes");
    lemma_not_trimmed("true"@);
    lemma_not_trimmed("false"@);
    assert(ascii_lower_text("true"@) =~= "true"@);
    assert(ascii_lower_text("false"@) =~= "false"@);
    assert("false"@.len() == 5 && "true"@.len() == 4 && "t"@.len() == 1 && "1"@.len() == 1
        && "on"@.len() == 2 && "yes"@.len() == 3);
}

/// A value that is shown as text and bound again as text of its type comes back
/// as it was.
pub proof fn text_values_read_back(
    value: DatumView,
    ty: SqlType,
    floats: FloatTexts,
    float: Option<u64>,
)
    requires
        in_bounds(value),
        is_shown_as(value, ty),
    ensures
        text_param(value.text(floats), ty.oid_number(), float) == Some(value),
{
    match value {
        DatumView::Boolean(b) => {
            lemma_bool_words();
        },
        DatumView::Int16(n) => {
            decimal_reads_back(n);
        },
        DatumView::Int32(n) => {
            decimal_reads_back(n);
        },
        DatumView::Int64(n) => {
            decimal_reads_back(n);
        },
        DatumView::Bytes(b) => {
            let text = value.text(floats);
            reveal_strlit("\\x");
            lemma_hex_pairs(b);
            assert(text.subrange(0, 2) =~= "\\x"@);
            assert(text.subrange(2, text.len() as int) =~= hex_chars(b));
        },
        DatumView::Date(d) => {
            dates_read_back(d);
        },
        DatumView::Timestamp(t) => {
            timestamps_read_back(t);
        },
        DatumView::TimestampTz(t) => {
            timestamps_read_back(t);
        },
        DatumView::Uuid(v) => {
            identifiers_read_back(v);
        },
        _ => {},
    }
}

} // verus!
