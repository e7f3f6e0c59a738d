//! Text building blocks: strings as sequences of characters, decimal and
//! hexadecimal notation, and the conversions between text and UTF-8 bytes.

use vstd::prelude::*;
use vstd::string::*;
use vstd::utf8::*;

verus! {

/// `String::push` appends one character to the text.
pub assume_specification[ String::push ](text: &mut String, c: char)
    ensures
        final(text)@ == old(text)@.push(c),
;

/// `String::from_utf8` accepts exactly the well-formed UTF-8 byte strings and
/// keeps their characters.
#[verifier::external_body]
pub(crate) fn utf8_text(bytes: &[u8]) -> (text: Option<String>)
    ensures
        text is Some <==> valid_utf8(bytes@),
        text is Some ==> text->0@ == decode_utf8(bytes@),
{
    String::from_utf8(bytes.to_vec()).ok()
}

/// The UTF-8 bytes of a text.
pub fn text_bytes(text: &str) -> (bytes: Vec<u8>)
    ensures
        bytes@ == encode_utf8(text@),
{
    vstd::slice::slice_to_vec(text.as_bytes())
}

/// The characters of a text, one by one.
pub fn text_chars(text: &str) -> (chars: Vec<char>)
    ensures
        chars@ == text@,
{
    let mut chars: Vec<char> = Vec::new();
    for c in it: text.chars()
        invariant
            chars@ == text@.subrange(0, it.index() as int),
            it.seq() == text@,
    {
        chars.push(c);
        assert(chars@ == text@.subrange(0, it.index() + 1));
    }
    assert(text@.subrange(0, text@.len() as int) == text@);
    chars
}

/// Whether two byte strings hold the same bytes.
pub fn same_bytes(a: &[u8], b: &[u8]) -> (same: bool)
    ensures
        same == (a@ == b@),
{
    if a.len() != b.len() {
        return false;
    }
    let mut i: usize = 0;
    while i < a.len()
        invariant
            a@.len() == b@.len(),
            i <= a@.len(),
            forall|k: int| 0 <= k < i ==> a@[k] == b@[k],
        decreases a@.len() - i,
    {
        if a[i] != b[i] {
            return false;
        }
        i += 1;
    }
    assert(a@ =~= b@);
    true
}

/// Whether two texts hold the same characters.
pub fn same_text(a: &str, b: &str) -> (same: bool)
    ensures
        same == (a@ == b@),
{
    let same = same_bytes(a.as_bytes(), b.as_bytes());
    proof {
        if same {
            encode_utf8_decode_utf8(a@);
            encode_utf8_decode_utf8(b@);
        }
    }
    same
}

/// A copy of a text.
pub fn owned(text: &str) -> (copy: String)
    ensures
        copy@ == text@,
{
    text.to_owned()
}

/// The text `a` followed by the text `b`.
pub fn joined(a: &str, b: &str) -> (text: String)
    ensures
        text@ == a@ + b@,
{
    let mut text = a.to_owned();
    text.append(b);
    text
}

/// The text `a`, then `b`, then `c`.
pub fn joined3(a: &str, b: &str, c: &str) -> (text: String)
    ensures
        text@ == a@ + b@ + c@,
{
    let mut text = a.to_owned();
    text.append(b);
    text.append(c);
    text
}

/// The text of a run of characters.
pub fn text_of_chars(chars: &[char]) -> (text: String)
    ensures
        text@ == chars@,
{
    let mut text = String::new();
    let mut i: usize = 0;
    while i < chars.len()
        invariant
            i <= chars@.len(),
            text@ == chars@.subrange(0, i as int),
        decreases chars@.len() - i,
    {
        text.push(chars[i]);
        i += 1;
        assert(text@ == chars@.subrange(0, i as int));
    }
    assert(chars@.subrange(0, i as int) == chars@);
    text
}

// ---------------------------------------------------------------------------
// Decimal notation
// ---------------------------------------------------------------------------

/// The character of a decimal digit.
pub open spec fn digit(value: nat) -> char {
    (48 + value) as char
}

/// The decimal digits of a natural number, most significant first.
pub open spec fn digits(value: nat) -> Seq<char>
    decreases value,
{
    if value < 10 {
        seq![digit(value)]
    } else {
        digits(value / 10).push(digit(value % 10))
    }
}

/// The decimal notation of an integer: a minus sign where it is negative, and
/// the digits of its magnitude.
pub open spec fn decimal(value: int) -> Seq<char> {
    if value < 0 {
        seq!['-'] + digits((-value) as nat)
    } else {
        digits(value as nat)
    }
}

/// `count` zero digits; none where `count` is negative.
pub open spec fn zeros(count: int) -> Seq<char> {
    Seq::new(if count < 0 { 0nat } else { count as nat }, |i: int| '0')
}

/// The decimal notation of an integer, filled up with zeros behind the sign to
/// `width` characters.
pub open spec fn padded(value: int, width: int) -> Seq<char> {
    if value < 0 {
        seq!['-'] + zeros(width - 1 - digits((-value) as nat).len()) + digits((-value) as nat)
    } else {
        zeros(width - digits(value as nat).len()) + digits(value as nat)
    }
}

fn push_digit(text: &mut String, value: u64)
    requires
        value < 10,
    ensures
        final(text)@ == old(text)@.push(digit(value as nat)),
{
    let code: u8 = 48 + value as u8;
    text.push(code as char);
}

/// Appends the decimal digits of a natural number.
pub fn push_digits(text: &mut String, value: u64)
    ensures
        final(text)@ == old(text)@ + digits(value as nat),
    decreases value,
{
    if value < 10 {
        push_digit(text, value);
        assert(text@ == old(text)@ + digits(value as nat));
    } else {
        push_digits(text, value / 10);
        push_digit(text, value % 10);
        assert(text@ == old(text)@ + digits(value as nat));
    }
}

/// The magnitude of a signed integer.
pub fn magnitude(value: i64) -> (m: u64)
    ensures
        m == if value < 0 { -value } else { value as int },
{
    if value >= 0 {
        value as u64
    } else if value == i64::MIN {
        0x8000_0000_0000_0000
    } else {
        (-value) as u64
    }
}

/// Appends the decimal notation of a signed integer.
pub fn push_decimal(text: &mut String, value: i64)
    ensures
        final(text)@ == old(text)@ + decimal(value as int),
{
    if value < 0 {
        text.push('-');
    }
    push_digits(text, magnitude(value));
    assert(text@ == old(text)@ + decimal(value as int));
}

/// The decimal notation of a natural number.
pub fn digits_text(value: u64) -> (text: String)
    ensures
        text@ == digits(value as nat),
{
    let mut text = String::new();
    push_digits(&mut text, value);
    assert(Seq::<char>::empty() + digits(value as nat) == digits(value as nat));
    text
}

/// The decimal notation of a signed integer.
pub fn decimal_text(value: i64) -> (text: String)
    ensures
        text@ == decimal(value as int),
{
    let mut text = String::new();
    push_decimal(&mut text, value);
    assert(Seq::<char>::empty() + decimal(value as int) == decimal(value as int));
    text
}

fn push_zeros(text: &mut String, count: usize)
    ensures
        final(text)@ == old(text)@ + zeros(count as int),
{
    let mut done: usize = 0;
    assert(text@ == old(text)@ + zeros(0));
    while done < count
        invariant
            done <= count,
            text@ == old(text)@ + zeros(done as int),
        decreases count - done,
    {
        text.push('0');
        done += 1;
        assert(text@ == old(text)@ + zeros(done as int));
    }
}

/// Appends an integer filled up with zeros to `width` characters.
pub fn push_padded(text: &mut String, value: i64, width: usize)
    ensures
        final(text)@ == old(text)@ + padded(value as int, width as int),
{
    let size = digits_text(magnitude(value));
    let len: usize = size.as_str().unicode_len();
    if value < 0 {
        text.push('-');
        if len < width && width - len >= 1 {
            push_zeros(text, width - len - 1);
        } else {
            assert(zeros(width - 1 - len) == Seq::<char>::empty());
        }
    } else if len < width {
        push_zeros(text, width - len);
    } else {
        assert(zeros(width - len) == Seq::<char>::empty());
    }
    push_digits(text, magnitude(value));
    assert(text@ == old(text)@ + padded(value as int, width as int));
}

/// Whether a character is one of the ten decimal digits.
pub open spec fn is_digit(c: char) -> bool {
    '0' <= c && c <= '9'
}

/// Whether every character is a decimal digit.
pub open spec fn all_digits(s: Seq<char>) -> bool {
    forall|i: int| 0 <= i < s.len() ==> is_digit(#[trigger] s[i])
}

/// The number that a run of decimal digits writes.
pub open spec fn number(s: Seq<char>) -> nat
    decreases s.len(),
{
    if s.len() == 0 {
        0
    } else {
        number(s.drop_last()) * 10 + (s.last() as int - 48) as nat
    }
}

/// The natural number that a text writes in decimal digits, if it does.
pub open spec fn read_digits(s: Seq<char>) -> Option<nat> {
    if s.len() > 0 && all_digits(s) {
        Some(number(s))
    } else {
        None
    }
}

/// The natural number that a text writes: digits, behind a plus sign or not.
pub open spec fn read_natural(s: Seq<char>) -> Option<nat> {
    if s.len() > 0 && s[0] == '+' {
        read_digits(s.drop_first())
    } else {
        read_digits(s)
    }
}

/// The integer that a text writes: digits, behind a sign or not.
pub open spec fn read_integer(s: Seq<char>) -> Option<int> {
    if s.len() > 0 && s[0] == '-' {
        match read_digits(s.drop_first()) {
            Some(n) => Some(-n),
            None => None,
        }
    } else {
        match read_natural(s) {
            Some(n) => Some(n as int),
            None => None,
        }
    }
}

proof fn lemma_number_grows(s: Seq<char>, i: int)
    requires
        all_digits(s),
        0 <= i <= s.len(),
    ensures
        number(s.subrange(0, i)) <= number(s),
    decreases s.len(),
{
    if i == s.len() {
        assert(s.subrange(0, i) == s);
    } else {
        let front = s.drop_last();
        assert forall|k: int| 0 <= k < front.len() implies is_digit(#[trigger] front[k]) by {
            assert(front[k] == s[k]);
        }
        lemma_number_grows(front, i);
        assert(front.subrange(0, i) == s.subrange(0, i));
    }
}

/// Reads decimal digits as a number no greater than `limit`.
pub fn parse_digits(s: &[char], limit: u64) -> (value: Option<u64>)
    ensures
        value matches Some(n) ==> read_digits(s@) == Some(n as nat) && n <= limit,
        value is None ==> (read_digits(s@) matches Some(n) ==> n > limit),
{
    if s.len() == 0 {
        return None;
    }
    let mut value: u64 = 0;
    let mut i: usize = 0;
    assert(number(s@.subrange(0, 0)) == 0);
    while i < s.len()
        invariant
            i <= s@.len(),
            value <= limit,
            all_digits(s@.subrange(0, i as int)),
            value == number(s@.subrange(0, i as int)),
        decreases s@.len() - i,
    {
        let c = s[i];
        if c < '0' || c > '9' {
            assert(!is_digit(s@[i as int]));
            return None;
        }
        let d: u64 = (c as u32 - 48) as u64;
        let ghost wider = s@.subrange(0, i + 1);
        assert(wider.drop_last() == s@.subrange(0, i as int));
        assert(wider.last() == c);
        assert(number(wider) == value * 10 + d);
        assert(all_digits(s@) ==> number(wider) <= number(s@)) by {
            if all_digits(s@) {
                lemma_number_grows(s@, i + 1);
            }
        }
        if value > limit / 10 {
            assert(value * 10 + d > limit) by {
                assert(value >= limit / 10 + 1);
            }
            return None;
        }
        assert(value * 10 <= limit);
        if d > limit - value * 10 {
            return None;
        }
        value = value * 10 + d;
        i += 1;
        assert forall|k: int| 0 <= k < wider.len() implies is_digit(#[trigger] wider[k]) by {
            if k < i - 1 {
                assert(wider[k] == s@.subrange(0, i - 1)[k]);
            }
        }
    }
    assert(s@.subrange(0, i as int) == s@);
    Some(value)
}

/// Reads a natural number no greater than `limit`.
pub fn parse_natural(s: &[char], limit: u64) -> (value: Option<u64>)
    ensures
        value matches Some(n) ==> read_natural(s@) == Some(n as nat) && n <= limit,
        value is None ==> (read_natural(s@) matches Some(n) ==> n > limit),
{
    if s.len() > 0 && s[0] == '+' {
        let rest = vstd::slice::slice_subrange(s, 1, s.len());
        assert(rest@ == s@.drop_first());
        parse_digits(rest, limit)
    } else {
        parse_digits(s, limit)
    }
}

/// Reads a signed integer.
pub fn parse_integer(s: &[char]) -> (value: Option<i64>)
    ensures
        value matches Some(n) ==> read_integer(s@) == Some(n as int),
        value is None ==> (read_integer(s@) matches Some(n) ==> n < i64::MIN || n > i64::MAX),
{
    if s.len() > 0 && s[0] == '-' {
        let rest = vstd::slice::slice_subrange(s, 1, s.len());
        assert(rest@ == s@.drop_first());
        match parse_digits(rest, 0x8000_0000_0000_0000) {
            Some(n) => if n == 0x8000_0000_0000_0000 {
                Some(i64::MIN)
            } else {
                Some(-(n as i64))
            },
            None => None,
        }
    } else {
        match parse_natural(s, 0x7fff_ffff_ffff_ffff) {
            Some(n) => Some(n as i64),
            None => None,
        }
    }
}

/// The decimal digits of a number read back.
pub proof fn lemma_digits_read_back(value: nat)
    ensures
        digits(value).len() > 0,
        all_digits(digits(value)),
        number(digits(value)) == value,
    decreases value,
{
    if value < 10 {
        let s = digits(value);
        assert(s.drop_last() == Seq::<char>::empty());
        assert(number(s.drop_last()) == 0);
        assert(s.last() == digit(value));
    } else {
        lemma_digits_read_back(value / 10);
        let s = digits(value);
        assert(s.drop_last() == digits(value / 10));
        assert forall|k: int| 0 <= k < s.len() implies is_digit(#[trigger] s[k]) by {
            if k < s.len() - 1 {
                assert(s[k] == digits(value / 10)[k]);
            }
        }
    }
}

/// Reading the decimal notation of an integer gives that integer back.
pub proof fn decimal_reads_back(value: int)
    ensures
        read_integer(decimal(value)) == Some(value),
{
    if value < 0 {
        lemma_digits_read_back((-value) as nat);
        assert(decimal(value).drop_first() == digits((-value) as nat));
    } else {
        lemma_digits_read_back(value as nat);
        assert(is_digit(digits(value as nat)[0]));
    }
}

/// Two integers with the same decimal notation are the same integer.
pub proof fn decimal_is_injective(a: int, b: int)
    requires
        decimal(a) == decimal(b),
    ensures
        a == b,
{
    decimal_reads_back(a);
    decimal_reads_back(b);
}

// ---------------------------------------------------------------------------
// Hexadecimal notation
// ---------------------------------------------------------------------------

/// The lower-case hexadecimal character of a value below sixteen.
pub open spec fn hex_digit(value: nat) -> char {
    if value < 10 {
        (48 + value) as char
    } else {
        (87 + value) as char
    }
}

/// Two lower-case hexadecimal characters for every byte.
pub open spec fn hex_chars(bytes: Seq<u8>) -> Seq<char> {
    Seq::new(
        2 * bytes.len(),
        |i: int|
            if i % 2 == 0 {
                hex_digit(bytes[i / 2] as nat / 16)
            } else {
                hex_digit(bytes[i / 2] as nat % 16)
            },
    )
}

fn push_hex_digit(text: &mut String, value: u8)
    requires
        value < 16,
    ensures
        final(text)@ == old(text)@.push(hex_digit(value as nat)),
{
    let code: u8 = if value < 10 {
        48 + value
    } else {
        87 + value
    };
    text.push(code as char);
}

/// The lower-case hexadecimal notation of a byte string.
pub fn hex(bytes: &[u8]) -> (text: String)
    ensures
        text@ == hex_chars(bytes@),
{
    let mut text = String::new();
    let mut i: usize = 0;
    while i < bytes.len()
        invariant
            i <= bytes@.len(),
            text@ == hex_chars(bytes@.subrange(0, i as int)),
        decreases bytes@.len() - i,
    {
        push_hex_digit(&mut text, bytes[i] / 16);
        push_hex_digit(&mut text, bytes[i] % 16);
        i += 1;
        assert(text@ == hex_chars(bytes@.subrange(0, i as int)));
    }
    assert(bytes@.subrange(0, i as int) == bytes@);
    text
}

/// The value of a hexadecimal character, upper or lower case.
pub open spec fn hex_value(c: char) -> Option<nat> {
    if '0' <= c && c <= '9' {
        Some((c as int - 48) as nat)
    } else if 'a' <= c && c <= 'f' {
        Some((c as int - 87) as nat)
    } else if 'A' <= c && c <= 'F' {
        Some((c as int - 55) as nat)
    } else {
        None
    }
}

/// Reads one hexadecimal character of either case.
pub fn hex_char_value(c: char) -> (value: Option<u8>)
    ensures
        value matches Some(v) ==> hex_value(c) == Some(v as nat) && v < 16,
        value is None ==> hex_value(c) is None,
{
    if c >= '0' && c <= '9' {
        Some((c as u32 - 48) as u8)
    } else if c >= 'a' && c <= 'f' {
        Some((c as u32 - 87) as u8)
    } else if c >= 'A' && c <= 'F' {
        Some((c as u32 - 55) as u8)
    } else {
        None
    }
}

// ---------------------------------------------------------------------------
// Character classes
// ---------------------------------------------------------------------------

/// The lower-case form of an ASCII letter; any other character itself.
pub open spec fn ascii_lower(c: char) -> char {
    if 'A' <= c && c <= 'Z' {
        (c as int + 32) as char
    } else {
        c
    }
}

/// A text with its ASCII letters in lower case.
pub open spec fn ascii_lower_text(s: Seq<char>) -> Seq<char> {
    s.map_values(|c: char| ascii_lower(c))
}

/// Reads one character in ASCII lower case.
pub fn lower_char(c: char) -> (lower: char)
    ensures
        lower == ascii_lower(c),
{
    if c >= 'A' && c <= 'Z' {
        let code: u8 = c as u8 + 32;
        code as char
    } else {
        c
    }
}

/// Whether two texts agree but for the case of ASCII letters.
pub fn same_text_ignoring_case(a: &str, b: &str) -> (same: bool)
    ensures
        same == (ascii_lower_text(a@) == ascii_lower_text(b@)),
{
    let x = text_chars(a);
    let y = text_chars(b);
    if x.len() != y.len() {
        assert(ascii_lower_text(a@).len() != ascii_lower_text(b@).len());
        return false;
    }
    let mut i: usize = 0;
    while i < x.len()
        invariant
            x@ == a@,
            y@ == b@,
            x@.len() == y@.len(),
            i <= x@.len(),
            forall|k: int| 0 <= k < i ==> ascii_lower(x@[k]) == ascii_lower(y@[k]),
        decreases x@.len() - i,
    {
        if lower_char(x[i]) != lower_char(y[i]) {
            assert(ascii_lower_text(a@)[i as int] != ascii_lower_text(b@)[i as int]);
            return false;
        }
        i += 1;
    }
    assert(ascii_lower_text(a@) =~= ascii_lower_text(b@));
    true
}

/// The characters that separate words: Unicode's white space.
pub open spec fn is_space(c: char) -> bool {
    let v = c as int;
    ||| 0x09 <= v <= 0x0d
    ||| v == 0x20
    ||| v == 0x85
    ||| v == 0xa0
    ||| v == 0x1680
    ||| 0x2000 <= v <= 0x200a
    ||| v == 0x2028
    ||| v == 0x2029
    ||| v == 0x202f
    ||| v == 0x205f
    ||| v == 0x3000
}

pub fn space_char(c: char) -> (space: bool)
    ensures
        space == is_space(c),
{
    let v: u32 = c as u32;
    (v >= 0x09 && v <= 0x0d) || v == 0x20 || v == 0x85 || v == 0xa0 || v == 0x1680 || (v >= 0x2000
        && v <= 0x200a) || v == 0x2028 || v == 0x2029 || v == 0x202f || v == 0x205f || v == 0x3000
}

/// A text without the white space at its end.
pub open spec fn trimmed_end(s: Seq<char>) -> Seq<char>
    decreases s.len(),
{
    if s.len() > 0 && is_space(s.last()) {
        trimmed_end(s.drop_last())
    } else {
        s
    }
}

/// A text without the white space at its start.
pub open spec fn trimmed_start(s: Seq<char>) -> Seq<char>
    decreases s.len(),
{
    if s.len() > 0 && is_space(s[0]) {
        trimmed_start(s.drop_first())
    } else {
        s
    }
}

/// A text without the white space at either end.
pub open spec fn trimmed(s: Seq<char>) -> Seq<char> {
    trimmed_end(trimmed_start(s))
}

/// Cuts the white space off both ends of a text.
pub fn trim_chars<'a>(s: &'a [char]) -> (rest: &'a [char])
    ensures
        rest@ == trimmed(s@),
{
    let mut start: usize = 0;
    assert(s@.subrange(0, s@.len() as int) == s@);
    while start < s.len() && space_char(s[start])
        invariant
            start <= s@.len(),
            trimmed_start(s@.subrange(start as int, s@.len() as int)) == trimmed_start(s@),
        decreases s@.len() - start,
    {
        assert(s@.subrange(start as int, s@.len() as int).drop_first() == s@.subrange(
            start + 1,
            s@.len() as int,
        ));
        start += 1;
    }
    let mut end: usize = s.len();
    assert(trimmed_start(s@) == s@.subrange(start as int, s@.len() as int));
    while end > start && space_char(s[end - 1])
        invariant
            start <= end <= s@.len(),
            trimmed_end(s@.subrange(start as int, end as int)) == trimmed(s@),
        decreases end,
    {
        assert(s@.subrange(start as int, end as int).drop_last() == s@.subrange(
            start as int,
            end - 1,
        ));
        end -= 1;
    }
    vstd::slice::slice_subrange(s, start, end)
}

// ---------------------------------------------------------------------------
// Fields
// ---------------------------------------------------------------------------

/// The stretches of a text between the separators; a text without a separator
/// is one stretch.
pub open spec fn fields(s: Seq<char>, separator: char) -> Seq<Seq<char>>
    decreases s.len(),
{
    if s.len() == 0 {
        seq![Seq::empty()]
    } else {
        let before = fields(s.drop_last(), separator);
        if s.last() == separator {
            before.push(Seq::empty())
        } else {
            before.update(before.len() - 1, before.last().push(s.last()))
        }
    }
}

/// The texts that a list of character lists stands for.
pub open spec fn char_lists(parts: Seq<Vec<char>>) -> Seq<Seq<char>> {
    parts.map_values(|p: Vec<char>| p@)
}

/// Splits a text at every separator.
pub fn split_chars(s: &[char], separator: char) -> (parts: Vec<Vec<char>>)
    ensures
        char_lists(parts@) == fields(s@, separator),
        parts@.len() > 0,
{
    let mut parts: Vec<Vec<char>> = Vec::new();
    let mut part: Vec<char> = Vec::new();
    let mut i: usize = 0;
    assert(s@.subrange(0, 0) == Seq::<char>::empty());
    assert(char_lists(parts@).push(part@) =~= fields(s@.subrange(0, 0), separator));
    while i < s.len()
        invariant
            i <= s@.len(),
            char_lists(parts@).push(part@) == fields(s@.subrange(0, i as int), separator),
        decreases s@.len() - i,
    {
        let ghost before = char_lists(parts@);
        let ghost last = part@;
        assert(s@.subrange(0, i + 1).drop_last() == s@.subrange(0, i as int));
        if s[i] == separator {
            parts.push(part);
            part = Vec::new();
            assert(char_lists(parts@) =~= before.push(last));
            assert(part@ =~= Seq::<char>::empty());
        } else {
            part.push(s[i]);
            assert(before.push(last).update(before.len() as int, last.push(s@[i as int])) =~= before.push(
                part@,
            ));
        }
        i += 1;
    }
    assert(s@.subrange(0, i as int) == s@);
    let ghost before = char_lists(parts@);
    let ghost last = part@;
    parts.push(part);
    assert(char_lists(parts@) =~= before.push(last));
    parts
}

} // verus!
