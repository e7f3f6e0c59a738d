//! How addresses and DNS names are read.

use crate::address::{
    bounded_number, double_colon, group_bytes, hex_number, last_place, read_address, read_dotted,
    read_group, read_groups, read_octet, read_v6, SocketAddressView,
};
use crate::endpoint::{dns_name_fault, is_alphanumeric, is_dns_label};
use crate::text::{digits, fields, lemma_digits_read_back, read_digits};
use vstd::prelude::*;

verus! {

/// Parts with a separator between each two of them.
pub open spec fn joined_by(parts: Seq<Seq<char>>, separator: char) -> Seq<char>
    decreases parts.len(),
{
    if parts.len() == 0 {
        Seq::empty()
    } else if parts.len() == 1 {
        parts[0]
    } else {
        joined_by(parts.drop_last(), separator).push(separator) + parts.last()
    }
}

proof fn lemma_fields_more(s: Seq<char>, t: Seq<char>, separator: char)
    requires
        !t.contains(separator),
    ensures
        fields(s, separator).len() > 0,
        fields(s + t, separator) == fields(s, separator).update(
            fields(s, separator).len() - 1,
            fields(s, separator).last() + t,
        ),
    decreases t.len(),
{
    lemma_fields_some(s, separator);
    let before = fields(s, separator);
    let n = before.len() as int;
    if t.len() == 0 {
        assert(s + t =~= s);
        assert(before.last() + t =~= before.last());
        assert(before.update(n - 1, before.last() + t) =~= before);
    } else {
        let front = t.drop_last();
        assert forall|i: int| 0 <= i < front.len() implies front[i] != separator by {
            assert(t[i] == front[i]);
            assert(t.contains(t[i]));
        }
        lemma_fields_more(s, front, separator);
        assert((s + t).drop_last() =~= s + front);
        assert((s + t).last() == t.last());
        assert(t.contains(t.last()));
        let middle = fields(s + front, separator);
        assert(middle.last().push(t.last()) =~= before.last() + t);
        assert(middle.update(n - 1, middle.last().push(t.last())) =~= before.update(
            n - 1,
            before.last() + t,
        ));
    }
}

proof fn lemma_fields_some(s: Seq<char>, separator: char)
    ensures
        fields(s, separator).len() > 0,
    decreases s.len(),
{
    if s.len() > 0 {
        lemma_fields_some(s.drop_last(), separator);
    }
}

/// A text falls into the parts between its separators.
pub proof fn parts_stand_between_separators(parts: Seq<Seq<char>>, separator: char)
    requires
        parts.len() > 0,
        forall|i: int| 0 <= i < parts.len() ==> !(#[trigger] parts[i]).contains(separator),
    ensures
        fields(joined_by(parts, separator), separator) == parts,
    decreases parts.len(),
{
    let none = Seq::<char>::empty();
    if parts.len() == 1 {
        lemma_fields_more(none, parts[0], separator);
        assert(none + parts[0] =~= parts[0]);
        assert(fields(none, separator) == seq![none]);
        assert(fields(parts[0], separator) =~= parts);
    } else {
        let front = parts.drop_last();
        assert forall|i: int| 0 <= i < front.len() implies !(#[trigger] front[i]).contains(
            separator,
        ) by {
            assert(front[i] == parts[i]);
        }
        parts_stand_between_separators(front, separator);
        let s = joined_by(front, separator).push(separator);
        assert(s.drop_last() =~= joined_by(front, separator));
        assert(fields(s, separator) == front.push(none));
        lemma_fields_more(s, parts.last(), separator);
        assert(none + parts.last() =~= parts.last());
        assert(fields(joined_by(parts, separator), separator) =~= parts);
    }
}

proof fn lemma_last_place(front: Seq<char>, c: char, rest: Seq<char>)
    requires
        !rest.contains(c),
    ensures
        last_place(front.push(c) + rest, c) == Some(front.len() as int),
    decreases rest.len(),
{
    let s = front.push(c) + rest;
    if rest.len() == 0 {
        assert(s =~= front.push(c));
    } else {
        assert(rest.contains(rest.last()));
        assert(s.drop_last() =~= front.push(c) + rest.drop_last());
        assert forall|i: int| 0 <= i < rest.drop_last().len() implies rest.drop_last()[i] != c by {
            assert(rest.contains(rest[i]));
        }
        lemma_last_place(front, c, rest.drop_last());
    }
}

proof fn lemma_no_place(s: Seq<char>, c: char)
    requires
        !s.contains(c),
    ensures
        last_place(s, c) is None,
    decreases s.len(),
{
    if s.len() > 0 {
        assert(s.contains(s.last()));
        assert forall|i: int| 0 <= i < s.drop_last().len() implies s.drop_last()[i] != c by {
            assert(s.contains(s[i]));
        }
        lemma_no_place(s.drop_last(), c);
    }
}

proof fn lemma_digits_only(n: nat)
    ensures
        digits(n).len() > 0,
        read_digits(digits(n)) == Some(n),
        forall|i: int| 0 <= i < digits(n).len() ==> '0' <= #[trigger] digits(n)[i] <= '9',
{
    lemma_digits_read_back(n);
    assert forall|i: int| 0 <= i < digits(n).len() implies '0' <= #[trigger] digits(n)[i] <= '9' by {
        assert(crate::text::is_digit(digits(n)[i]));
    }
}

proof fn lemma_octet(n: u8)
    ensures
        read_octet(digits(n as nat)) == Some(n),
{
    lemma_digits_only(n as nat);
    reveal_with_fuel(digits, 4);
    let v = n as nat;
    if v >= 10 {
        assert(digits(v / 10).len() <= 2);
        if v >= 100 {
            assert(v / 10 / 10 >= 1 && v / 10 / 10 < 10);
            assert(digits(v)[0] == crate::text::digit(v / 10 / 10));
        } else {
            assert(digits(v)[0] == crate::text::digit(v / 10));
        }
        assert(digits(v)[0] != '0');
    }
}

/// The four parts of an IPv4 address in decimal digits.
pub open spec fn dotted_parts(a: u8, b: u8, c: u8, d: u8) -> Seq<Seq<char>> {
    seq![digits(a as nat), digits(b as nat), digits(c as nat), digits(d as nat)]
}

proof fn lemma_dotted(a: u8, b: u8, c: u8, d: u8)
    ensures
        read_dotted(joined_by(dotted_parts(a, b, c, d), '.')) == Some(seq![a, b, c, d]),
        joined_by(dotted_parts(a, b, c, d), '.').len() > 0,
        '0' <= joined_by(dotted_parts(a, b, c, d), '.')[0] <= '9',
{
    let parts = dotted_parts(a, b, c, d);
    lemma_octet(a);
    lemma_octet(b);
    lemma_octet(c);
    lemma_octet(d);
    lemma_digits_only(a as nat);
    lemma_digits_only(b as nat);
    lemma_digits_only(c as nat);
    lemma_digits_only(d as nat);
    assert forall|i: int| 0 <= i < parts.len() implies !(#[trigger] parts[i]).contains('.') by {
        if parts[i].contains('.') {
            let k = choose|k: int| 0 <= k < parts[i].len() && parts[i][k] == '.';
            assert('0' <= parts[i][k] <= '9');
        }
    }
    parts_stand_between_separators(parts, '.');
    assert(Seq::new(4, |i: int| read_octet(parts[i])->0) =~= seq![a, b, c, d]);
    reveal_with_fuel(joined_by, 5);
    assert(parts.drop_last().drop_last().drop_last()[0] == digits(a as nat));
    assert(joined_by(parts, '.')[0] == digits(a as nat)[0]);
}

/// An IPv4 address in decimal digits, with its port behind a colon, is read as
/// it is.
pub proof fn dotted_addresses_are_read(a: u8, b: u8, c: u8, d: u8, port: u16)
    ensures
        read_address(
            joined_by(dotted_parts(a, b, c, d), '.').push(':') + digits(port as nat),
        ) == Some(SocketAddressView { ip: seq![a, b, c, d], port, flowinfo: 0, scope: 0 }),
{
    let host = joined_by(dotted_parts(a, b, c, d), '.');
    let text = host.push(':') + digits(port as nat);
    lemma_dotted(a, b, c, d);
    lemma_port(host, port);
}

proof fn lemma_port(host: Seq<char>, port: u16)
    ensures
        ({
            let text = host.push(':') + digits(port as nat);
            let at = host.len() as int;
            &&& last_place(text, ':') == Some(at)
            &&& text.subrange(0, at) == host
            &&& bounded_number(text.subrange(at + 1, text.len() as int), 65_535) == Some(
                port as nat,
            )
        }),
{
    let text = host.push(':') + digits(port as nat);
    let at = host.len() as int;
    lemma_digits_only(port as nat);
    let tail = digits(port as nat);
    if tail.contains(':') {
        let k = choose|k: int| 0 <= k < tail.len() && tail[k] == ':';
        assert('0' <= tail[k] <= '9');
    }
    lemma_last_place(host, ':', tail);
    assert(text.subrange(0, at) =~= host);
    assert(text.subrange(at + 1, text.len() as int) =~= tail);
}

/// A hexadecimal digit.
pub open spec fn hex_char(value: int) -> char {
    if value < 10 {
        ('0' as int + value) as char
    } else {
        ('a' as int + value - 10) as char
    }
}

/// Four hexadecimal digits.
pub open spec fn hex_group(v: u16) -> Seq<char> {
    seq![
        hex_char(v as int / 4096),
        hex_char(v as int / 256 % 16),
        hex_char(v as int / 16 % 16),
        hex_char(v as int % 16),
    ]
}

/// Groups of four hexadecimal digits, with colons between them.
pub open spec fn hex_groups(groups: Seq<u16>) -> Seq<char> {
    joined_by(groups.map_values(|g: u16| hex_group(g)), ':')
}

/// The bytes of groups, two to a group.
pub open spec fn bytes_of_groups(groups: Seq<u16>) -> Seq<u8> {
    Seq::new(
        2 * groups.len(),
        |i: int|
            if i % 2 == 0 {
                (groups[i / 2] / 256) as u8
            } else {
                (groups[i / 2] % 256) as u8
            },
    )
}

proof fn lemma_hex_char(value: int)
    requires
        0 <= value < 16,
    ensures
        crate::text::hex_value(hex_char(value)) == Some(value as nat),
        hex_char(value) != ':' && hex_char(value) != '.' && hex_char(value) != '%',
{
}

proof fn lemma_group(v: u16)
    ensures
        read_group(hex_group(v)) == Some(v as nat),
        forall|i: int|
            0 <= i < 4 ==> (#[trigger] hex_group(v)[i] != ':' && hex_group(v)[i] != '.'
                && hex_group(v)[i] != '%'),
{
    let n = v as int;
    let g = hex_group(v);
    lemma_hex_char(n / 4096);
    lemma_hex_char(n / 256 % 16);
    lemma_hex_char(n / 16 % 16);
    lemma_hex_char(n % 16);
    let s3 = g.drop_last();
    let s2 = s3.drop_last();
    let s1 = s2.drop_last();
    let s0 = s1.drop_last();
    assert(s0.len() == 0);
    assert(hex_number(s0) == Some(0nat));
    assert(s1.last() == hex_char(n / 4096));
    assert(hex_number(s1) == Some((n / 4096) as nat));
    assert(s2.last() == hex_char(n / 256 % 16));
    assert(hex_number(s2) == Some((16 * (n / 4096) + n / 256 % 16) as nat));
    assert(s3.last() == hex_char(n / 16 % 16));
    assert(hex_number(s3) == Some(
        (16 * (16 * (n / 4096) + n / 256 % 16) + n / 16 % 16) as nat,
    ));
    assert(g.last() == hex_char(n % 16));
    assert(n == 16 * (16 * (16 * (n / 4096) + n / 256 % 16) + n / 16 % 16) + n % 16);
}

proof fn lemma_group_bytes(parts: Seq<Seq<char>>, groups: Seq<u16>, count: int)
    requires
        parts == groups.map_values(|g: u16| hex_group(g)),
        0 <= count <= groups.len(),
    ensures
        group_bytes(parts, count) == Some(bytes_of_groups(groups.subrange(0, count))),
    decreases count,
{
    let some = groups.subrange(0, count);
    if count == 0 {
        assert(bytes_of_groups(some) =~= Seq::empty());
    } else {
        lemma_group_bytes(parts, groups, count - 1);
        let v = groups[count - 1];
        lemma_group(v);
        assert(parts[count - 1] == hex_group(v));
        let front = bytes_of_groups(groups.subrange(0, count - 1));
        let all = front.push((v / 256) as u8).push((v % 256) as u8);
        assert(bytes_of_groups(some) =~= all) by {
            assert forall|i: int| 0 <= i < all.len() implies bytes_of_groups(some)[i] == all[i] by {
                if i < 2 * (count - 1) {
                    assert(0 <= i / 2 < count - 1);
                    assert(groups.subrange(0, count - 1)[i / 2] == some[i / 2]);
                } else {
                    assert(i / 2 == count - 1);
                    assert(some[count - 1] == v);
                }
            }
        }
    }
}

/// Whether a text neither begins nor ends with a colon, and has no two side by
/// side.
spec fn spaced(s: Seq<char>) -> bool {
    &&& s.len() > 0 ==> s[0] != ':' && s.last() != ':'
    &&& forall|i: int| 0 <= i < s.len() - 1 ==> #[trigger] s[i] != ':' || s[i + 1] != ':'
}

proof fn lemma_spaced(groups: Seq<u16>)
    ensures
        spaced(hex_groups(groups)),
        !hex_groups(groups).contains('%'),
        groups.len() > 0 ==> hex_groups(groups).len() > 0,
        groups.len() == 0 ==> hex_groups(groups).len() == 0,
    decreases groups.len(),
{
    let parts = groups.map_values(|g: u16| hex_group(g));
    if groups.len() > 0 {
        let last = groups.last();
        lemma_group(last);
        assert(parts.last() == hex_group(last));
        if groups.len() == 1 {
            assert(hex_groups(groups) == hex_group(last));
        } else {
            let front = groups.drop_last();
            lemma_spaced(front);
            assert(parts.drop_last() =~= front.map_values(|g: u16| hex_group(g)));
            let (a, b) = (hex_groups(front), hex_group(last));
            let s = hex_groups(groups);
            let n = a.len() as int;
            assert(s == a.push(':') + b);
            assert forall|i: int| 0 <= i < s.len() - 1 implies #[trigger] s[i] != ':' || s[i + 1]
                != ':' by {
                if i < n - 1 {
                    assert(a[i] == s[i] && a[i + 1] == s[i + 1]);
                } else if i == n - 1 {
                    assert(s[i] == a.last());
                } else {
                    assert(s[i + 1] == b[i + 1 - n - 1]);
                }
            }
            assert forall|i: int| 0 <= i < s.len() implies s[i] != '%' by {
                if i < n {
                    assert(a.contains(a[i]));
                } else if i > n {
                    assert(s[i] == b[i - n - 1]);
                }
            }
            assert(s[0] == a[0]);
            assert(s.last() == b[3]);
        }
    }
}

proof fn lemma_no_double(s: Seq<char>, from: int)
    requires
        spaced(s),
        0 <= from,
    ensures
        double_colon(s, from) is None,
    decreases s.len() - from,
{
    if from + 1 < s.len() {
        assert(s[from] != ':' || s[from + 1] != ':');
        lemma_no_double(s, from + 1);
    }
}

proof fn lemma_double(a: Seq<char>, b: Seq<char>, from: int)
    requires
        spaced(a),
        0 <= from <= a.len(),
    ensures
        double_colon(a + seq![':', ':'] + b, from) == Some(a.len() as int),
    decreases a.len() - from,
{
    let s = a + seq![':', ':'] + b;
    if from < a.len() {
        assert(s[from] != ':' || s[from + 1] != ':') by {
            if from < a.len() - 1 {
                assert(s[from] == a[from] && s[from + 1] == a[from + 1]);
                assert(a[from] != ':' || a[from + 1] != ':');
            } else {
                assert(s[from] == a.last());
            }
        }
        lemma_double(a, b, from + 1);
    }
}

proof fn lemma_groups(groups: Seq<u16>, dotted: bool)
    ensures
        read_groups(hex_groups(groups), dotted) == Some(bytes_of_groups(groups)),
{
    let parts = groups.map_values(|g: u16| hex_group(g));
    lemma_spaced(groups);
    if groups.len() == 0 {
        assert(bytes_of_groups(groups) =~= Seq::empty());
    } else {
        assert forall|i: int| 0 <= i < parts.len() implies !(#[trigger] parts[i]).contains(':') by {
            lemma_group(groups[i]);
            assert(parts[i] == hex_group(groups[i]));
        }
        parts_stand_between_separators(parts, ':');
        let last = parts.last();
        lemma_group(groups.last());
        assert(last == hex_group(groups.last()));
        assert(!last.contains('.'));
        parts_stand_between_separators(seq![last], '.');
        assert(joined_by(seq![last], '.') == last);
        lemma_group_bytes(parts, groups, groups.len() as int);
        assert(groups.subrange(0, groups.len() as int) =~= groups);
    }
}

/// What stands between the brackets of an IPv6 address, with its port behind a
/// colon, is the address; a percent sign puts the number of its zone behind it.
pub proof fn bracketed_addresses_are_read(host: Seq<char>, ip: Seq<u8>, port: u16, scope: u32)
    requires
        read_v6(host) == Some(ip),
        !host.contains('%'),
    ensures
        read_address((seq!['['] + host + seq![']']).push(':') + digits(port as nat)) == Some(
            SocketAddressView { ip, port, flowinfo: 0, scope: 0 },
        ),
        read_address(
            (seq!['['] + (host.push('%') + digits(scope as nat)) + seq![']']).push(':') + digits(
                port as nat,
            ),
        ) == Some(SocketAddressView { ip, port, flowinfo: 0, scope }),
{
    let whole = seq!['['] + host + seq![']'];
    lemma_port(whole, port);
    assert(whole.subrange(1, whole.len() - 1) =~= host);
    lemma_no_place(host, '%');
    let zoned = host.push('%') + digits(scope as nat);
    let whole = seq!['['] + zoned + seq![']'];
    lemma_port(whole, port);
    assert(whole.subrange(1, whole.len() - 1) =~= zoned);
    lemma_digits_only(scope as nat);
    let tail = digits(scope as nat);
    if tail.contains('%') {
        let k = choose|k: int| 0 <= k < tail.len() && tail[k] == '%';
        assert('0' <= tail[k] <= '9');
    }
    lemma_last_place(host, '%', tail);
    assert(zoned.subrange(0, host.len() as int) =~= host);
    assert(zoned.subrange(host.len() as int + 1, zoned.len() as int) =~= tail);
}

/// Eight groups of hexadecimal digits are an IPv6 address, and two colons stand
/// for as many groups of zeros as are missing.
pub proof fn groups_are_read(groups: Seq<u16>, head: Seq<u16>, tail: Seq<u16>)
    ensures
        groups.len() == 8 ==> read_v6(hex_groups(groups)) == Some(bytes_of_groups(groups)),
        groups.len() != 8 ==> read_v6(hex_groups(groups)) is None,
        head.len() + tail.len() <= 7 ==> read_v6(
            hex_groups(head) + seq![':', ':'] + hex_groups(tail),
        ) == Some(
            bytes_of_groups(head) + Seq::new(
                (16 - 2 * head.len() - 2 * tail.len()) as nat,
                |i: int| 0u8,
            ) + bytes_of_groups(tail),
        ),
        head.len() + tail.len() > 7 ==> read_v6(
            hex_groups(head) + seq![':', ':'] + hex_groups(tail),
        ) is None,
{
    lemma_spaced(groups);
    lemma_groups(groups, true);
    lemma_no_double(hex_groups(groups), 0);
    let (a, b) = (hex_groups(head), hex_groups(tail));
    let s = a + seq![':', ':'] + b;
    lemma_spaced(head);
    lemma_double(a, b, 0);
    assert(s.subrange(0, a.len() as int) =~= a);
    assert(s.subrange(a.len() as int + 2, s.len() as int) =~= b);
    lemma_groups(head, false);
    lemma_groups(tail, true);
}

/// Labels of one to sixty-three letters, digits and hyphens, that neither begin
/// nor end with a hyphen, make a DNS name where it is no longer than 253
/// characters; and every DNS name is made of such labels.
pub proof fn labels_make_names(labels: Seq<Seq<char>>)
    requires
        labels.len() > 0,
        forall|i: int| 0 <= i < labels.len() ==> !(#[trigger] labels[i]).contains('.'),
    ensures
        ({
            let name = joined_by(labels, '.');
            dns_name_fault(name) is None <==> 1 <= name.len() <= 253 && forall|i: int|
                0 <= i < labels.len() ==> is_label(#[trigger] labels[i])
        }),
{
    let name = joined_by(labels, '.');
    parts_stand_between_separators(labels, '.');
    assert forall|i: int| 0 <= i < labels.len() implies is_label(#[trigger] labels[i])
        == is_dns_label(labels[i]) by {
        let s = labels[i];
        if is_dns_label(s) {
            assert forall|k: int| 0 <= k < s.len() implies is_letter(#[trigger] s[k]) || s[k]
                == '-' by {
                assert(is_alphanumeric(s[k]) || s[k] == '-');
            }
        }
        if is_label(s) {
            assert forall|k: int| 0 <= k < s.len() implies is_alphanumeric(#[trigger] s[k]) || s[k]
                == '-' by {
                assert(is_letter(s[k]) || s[k] == '-');
            }
        }
    }
    if forall|i: int| 0 <= i < labels.len() ==> is_label(#[trigger] labels[i]) {
        lemma_ascii(labels);
    }
}

/// A letter or a digit.
pub open spec fn is_letter(c: char) -> bool {
    '0' <= c <= '9' || 'a' <= c <= 'z' || 'A' <= c <= 'Z'
}

/// A label of a DNS name.
pub open spec fn is_label(s: Seq<char>) -> bool {
    &&& 1 <= s.len() <= 63
    &&& forall|k: int| 0 <= k < s.len() ==> is_letter(#[trigger] s[k]) || s[k] == '-'
    &&& s[0] != '-' && s.last() != '-'
}

proof fn lemma_ascii(labels: Seq<Seq<char>>)
    requires
        forall|i: int| 0 <= i < labels.len() ==> is_label(#[trigger] labels[i]),
    ensures
        forall|k: int|
            0 <= k < joined_by(labels, '.').len() ==> (#[trigger] joined_by(labels, '.')[k]) as int
                <= 127,
    decreases labels.len(),
{
    let name = joined_by(labels, '.');
    if labels.len() > 0 {
        let last = labels.last();
        assert(is_label(labels[labels.len() - 1]));
        if labels.len() > 1 {
            let front = labels.drop_last();
            assert forall|i: int| 0 <= i < front.len() implies is_label(#[trigger] front[i]) by {
                assert(front[i] == labels[i]);
            }
            lemma_ascii(front);
            let a = joined_by(front, '.');
            let n = a.len() as int;
            assert forall|k: int| 0 <= k < name.len() implies (#[trigger] name[k]) as int <= 127 by {
                if k < n {
                    assert(name[k] == a[k]);
                } else if k > n {
                    assert(name[k] == last[k - n - 1]);
                    assert(is_letter(last[k - n - 1]) || last[k - n - 1] == '-');
                }
            }
        } else {
            assert forall|k: int| 0 <= k < name.len() implies (#[trigger] name[k]) as int <= 127 by {
                assert(is_letter(last[k]) || last[k] == '-');
            }
        }
    }
}

/// An address that stands for every one of a machine is all zeros; one that
/// stays within it begins with 127, or is the IPv6 address of one.
pub proof fn special_addresses_are_known(a: SocketAddressView)
    requires
        a.is_valid(),
    ensures
        a.is_unspecified() <==> forall|i: int| 0 <= i < a.ip.len() ==> #[trigger] a.ip[i] == 0,
        a.ip.len() == 4 ==> (a.is_loopback() <==> a.ip[0] == 127),
        a.ip.len() == 16 ==> (a.is_loopback() <==> a.ip[15] == 1 && forall|i: int|
            0 <= i < 15 ==> #[trigger] a.ip[i] == 0),
{
    let zeros = Seq::new(a.ip.len(), |i: int| 0u8);
    if forall|i: int| 0 <= i < a.ip.len() ==> #[trigger] a.ip[i] == 0 {
        assert(a.ip =~= zeros);
    }
    if a.is_unspecified() {
        assert forall|i: int| 0 <= i < a.ip.len() implies #[trigger] a.ip[i] == 0 by {
            assert(zeros[i] == 0);
        }
    }
    if a.ip.len() == 16 {
        let one = Seq::new(15, |i: int| 0u8).push(1);
        if a.ip[15] == 1 && forall|i: int| 0 <= i < 15 ==> #[trigger] a.ip[i] == 0 {
            assert(a.ip =~= one);
        }
        if a.is_loopback() {
            assert(one[15] == 1);
            assert forall|i: int| 0 <= i < 15 implies #[trigger] a.ip[i] == 0 by {
                assert(one[i] == 0);
            }
        }
    }
}

} // verus!
