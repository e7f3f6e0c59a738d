//! Socket addresses: an IP address and a port, and the notation that they are
//! written in.

use crate::text::{
    char_lists, fields, hex_char_value, hex_value, parse_digits, read_digits,
    same_bytes, split_chars, text_chars,
};
use vstd::prelude::*;

verus! {

/// An IP address and a port. An IPv4 address has four bytes, an IPv6 address
/// sixteen.
#[derive(Clone, Debug, PartialEq, Eq)]
pub struct SocketAddress {
    pub ip: Vec<u8>,
    pub port: u16,
    pub flowinfo: u32,
    pub scope: u32,
}

#[verifier::ext_equal]
pub struct SocketAddressView {
    pub ip: Seq<u8>,
    pub port: u16,
    pub flowinfo: u32,
    pub scope: u32,
}

impl View for SocketAddress {
    type V = SocketAddressView;

    open spec fn view(&self) -> SocketAddressView {
        SocketAddressView {
            ip: self.ip@,
            port: self.port,
            flowinfo: self.flowinfo,
            scope: self.scope,
        }
    }
}

impl SocketAddressView {
    /// An address has four or sixteen bytes.
    pub open spec fn is_valid(self) -> bool {
        self.ip.len() == 4 || self.ip.len() == 16
    }

    pub open spec fn is_v4(self) -> bool {
        self.ip.len() == 4
    }

    /// Whether the address reaches only the machine itself.
    pub open spec fn is_loopback(self) -> bool {
        if self.is_v4() {
            self.ip[0] == 127
        } else {
            self.ip == Seq::new(15, |i: int| 0u8).push(1)
        }
    }

    /// Whether the address stands for every local address.
    pub open spec fn is_unspecified(self) -> bool {
        self.ip == Seq::new(self.ip.len(), |i: int| 0u8)
    }
}

// ---------------------------------------------------------------------------
// The notation
// ---------------------------------------------------------------------------

/// The value of one byte in dotted notation: at most three digits, no leading
/// zero, at most 255.
pub open spec fn read_octet(s: Seq<char>) -> Option<u8> {
    match read_digits(s) {
        Some(n) => if n <= 255 && s.len() <= 3 && (s.len() == 1 || s[0] != '0') {
            Some(n as u8)
        } else {
            None
        },
        None => None,
    }
}

/// The four bytes of an IPv4 address in dotted notation.
pub open spec fn read_dotted(s: Seq<char>) -> Option<Seq<u8>> {
    let parts = fields(s, '.');
    if parts.len() == 4 && read_octet(parts[0]) is Some && read_octet(parts[1]) is Some
        && read_octet(parts[2]) is Some && read_octet(parts[3]) is Some {
        Some(Seq::new(4, |i: int| read_octet(parts[i])->0))
    } else {
        None
    }
}

/// The value of a run of hexadecimal characters.
pub open spec fn hex_number(s: Seq<char>) -> Option<nat>
    decreases s.len(),
{
    if s.len() == 0 {
        Some(0)
    } else {
        match (hex_number(s.drop_last()), hex_value(s.last())) {
            (Some(front), Some(last)) => Some(16 * front + last),
            _ => None,
        }
    }
}

/// The value of one group of an IPv6 address: one to four hexadecimal
/// characters.
pub open spec fn read_group(s: Seq<char>) -> Option<nat> {
    if 1 <= s.len() <= 4 {
        hex_number(s)
    } else {
        None
    }
}

/// The bytes of the first `count` fields, each a group of two bytes.
pub open spec fn group_bytes(parts: Seq<Seq<char>>, count: int) -> Option<Seq<u8>>
    decreases count,
{
    if count <= 0 {
        Some(Seq::empty())
    } else {
        match (group_bytes(parts, count - 1), read_group(parts[count - 1])) {
            (Some(front), Some(g)) => Some(front.push((g / 256) as u8).push((g % 256) as u8)),
            _ => None,
        }
    }
}

/// The bytes of a run of groups with colons between them. Where `dotted`, the
/// last may be an IPv4 address in dotted notation. An empty text is no group.
pub open spec fn read_groups(s: Seq<char>, dotted: bool) -> Option<Seq<u8>> {
    let parts = fields(s, ':');
    let n = parts.len() as int;
    if s.len() == 0 {
        Some(Seq::empty())
    } else if dotted && read_dotted(parts.last()) is Some {
        match group_bytes(parts, n - 1) {
            Some(front) => Some(front + read_dotted(parts.last())->0),
            None => None,
        }
    } else {
        group_bytes(parts, n)
    }
}

/// The place of the first pair of colons at or after `from`.
pub open spec fn double_colon(s: Seq<char>, from: int) -> Option<int>
    decreases s.len() - from,
{
    if from < 0 || from + 1 >= s.len() {
        None
    } else if s[from] == ':' && s[from + 1] == ':' {
        Some(from)
    } else {
        double_colon(s, from + 1)
    }
}

/// The sixteen bytes of an IPv6 address. A pair of colons stands for one or
/// more groups of zeros.
pub open spec fn read_v6(s: Seq<char>) -> Option<Seq<u8>> {
    match double_colon(s, 0) {
        None => match read_groups(s, true) {
            Some(bytes) => if bytes.len() == 16 {
                Some(bytes)
            } else {
                None
            },
            None => None,
        },
        Some(at) => match (
            read_groups(s.subrange(0, at), false),
            read_groups(s.subrange(at + 2, s.len() as int), true),
        ) {
            (Some(head), Some(tail)) => if head.len() + tail.len() <= 14 {
                Some(
                    head + Seq::new((16 - head.len() - tail.len()) as nat, |i: int| 0u8) + tail,
                )
            } else {
                None
            },
            _ => None,
        },
    }
}

/// The place of the last `c` in a text.
pub open spec fn last_place(s: Seq<char>, c: char) -> Option<int>
    decreases s.len(),
{
    if s.len() == 0 {
        None
    } else if s.last() == c {
        Some(s.len() - 1)
    } else {
        last_place(s.drop_last(), c)
    }
}

/// A number of decimal digits that is at most `limit`.
pub open spec fn bounded_number(s: Seq<char>, limit: nat) -> Option<nat> {
    match read_digits(s) {
        Some(n) => if n <= limit {
            Some(n)
        } else {
            None
        },
        None => None,
    }
}

/// What stands between the brackets of an IPv6 socket address: an address,
/// and after a percent sign the number of its scope.
pub open spec fn read_scoped(s: Seq<char>) -> Option<(Seq<u8>, u32)> {
    match last_place(s, '%') {
        None => match read_v6(s) {
            Some(ip) => Some((ip, 0u32)),
            None => None,
        },
        Some(at) => match (
            read_v6(s.subrange(0, at)),
            bounded_number(s.subrange(at + 1, s.len() as int), u32::MAX as nat),
        ) {
            (Some(ip), Some(scope)) => Some((ip, scope as u32)),
            _ => None,
        },
    }
}

/// The socket address that a text writes: `1.2.3.4:80`, `[::1]:80` or
/// `[fe80::1%2]:80`.
pub open spec fn read_address(s: Seq<char>) -> Option<SocketAddressView> {
    match last_place(s, ':') {
        None => None,
        Some(at) => {
            let host = s.subrange(0, at);
            match bounded_number(s.subrange(at + 1, s.len() as int), u16::MAX as nat) {
                None => None,
                Some(port) => if host.len() >= 2 && host[0] == '[' && host.last() == ']' {
                    match read_scoped(host.subrange(1, host.len() - 1)) {
                        Some((ip, scope)) => Some(
                            SocketAddressView { ip, port: port as u16, flowinfo: 0, scope },
                        ),
                        None => None,
                    }
                } else {
                    match read_dotted(host) {
                        Some(ip) => Some(
                            SocketAddressView { ip, port: port as u16, flowinfo: 0, scope: 0 },
                        ),
                        None => None,
                    }
                },
            }
        },
    }
}

// ---------------------------------------------------------------------------
// Reading it
// ---------------------------------------------------------------------------

fn parse_octet(s: &[char]) -> (value: Option<u8>)
    ensures
        value == read_octet(s@),
{
    match parse_digits(s, 255) {
        Some(n) => if s.len() <= 3 && (s.len() == 1 || s[0] != '0') {
            Some(n as u8)
        } else {
            None
        },
        None => None,
    }
}

fn parse_dotted(s: &[char]) -> (ip: Option<Vec<u8>>)
    ensures
        ip matches Some(b) ==> read_dotted(s@) == Some(b@),
        ip is None ==> read_dotted(s@) is None,
{
    let parts = split_chars(s, '.');
    let ghost names = fields(s@, '.');
    assert(names == char_lists(parts@));
    if parts.len() != 4 {
        return None;
    }
    assert(forall|i: int| 0 <= i < 4 ==> names[i] == (#[trigger] parts@[i])@);
    let a = parse_octet(parts[0].as_slice());
    let b = parse_octet(parts[1].as_slice());
    let c = parse_octet(parts[2].as_slice());
    let d = parse_octet(parts[3].as_slice());
    match (a, b, c, d) {
        (Some(a), Some(b), Some(c), Some(d)) => {
            let mut ip: Vec<u8> = Vec::new();
            ip.push(a);
            ip.push(b);
            ip.push(c);
            ip.push(d);
            assert(ip@ =~= read_dotted(s@)->0);
            Some(ip)
        },
        _ => None,
    }
}

fn parse_group(s: &[char]) -> (value: Option<u16>)
    ensures
        value matches Some(v) ==> read_group(s@) == Some(v as nat),
        value is None ==> read_group(s@) is None,
{
    if s.len() == 0 || s.len() > 4 {
        return None;
    }
    let mut value: u32 = 0;
    let mut i: usize = 0;
    let ghost mut bound: nat = 1;
    assert(s@.subrange(0, 0) == Seq::<char>::empty());
    while i < s.len()
        invariant
            i <= s@.len() <= 4,
            hex_number(s@.subrange(0, i as int)) == Some(value as nat),
            value < bound,
            i == 0 ==> bound == 1,
            i == 1 ==> bound == 16,
            i == 2 ==> bound == 256,
            i == 3 ==> bound == 4096,
            i == 4 ==> bound == 65536,
        decreases s@.len() - i,
    {
        assert(s@.subrange(0, i + 1).drop_last() == s@.subrange(0, i as int));
        match hex_char_value(s[i]) {
            Some(v) => {
                value = 16 * value + v as u32;
                proof {
                    bound = 16 * bound;
                }
            },
            None => {
                proof {
                    assert(hex_number(s@.subrange(0, i + 1)) is None);
                    lemma_hex_number_prefix(s@, i + 1);
                }
                return None;
            },
        }
        i += 1;
    }
    assert(s@.subrange(0, i as int) == s@);
    Some(value as u16)
}

proof fn lemma_hex_number_prefix(s: Seq<char>, i: int)
    requires
        0 <= i <= s.len(),
        hex_number(s.subrange(0, i)) is None,
    ensures
        hex_number(s) is None,
    decreases s.len() - i,
{
    if i == s.len() {
        assert(s.subrange(0, i) == s);
    } else {
        assert(s.subrange(0, i + 1).drop_last() == s.subrange(0, i));
        lemma_hex_number_prefix(s, i + 1);
    }
}

proof fn lemma_group_bytes_prefix(parts: Seq<Seq<char>>, i: int, count: int)
    requires
        0 <= i <= count,
        group_bytes(parts, i) is None,
    ensures
        group_bytes(parts, count) is None,
    decreases count - i,
{
    if i < count {
        lemma_group_bytes_prefix(parts, i + 1, count);
    }
}

fn parse_group_bytes(parts: &Vec<Vec<char>>, count: usize) -> (bytes: Option<Vec<u8>>)
    requires
        count <= parts@.len(),
    ensures
        bytes matches Some(b) ==> group_bytes(char_lists(parts@), count as int) == Some(b@),
        bytes is None ==> group_bytes(char_lists(parts@), count as int) is None,
{
    let mut bytes: Vec<u8> = Vec::new();
    let mut i: usize = 0;
    let ghost names = char_lists(parts@);
    assert(bytes@ =~= Seq::<u8>::empty());
    while i < count
        invariant
            i <= count <= parts@.len(),
            names == char_lists(parts@),
            group_bytes(names, i as int) == Some(bytes@),
        decreases count - i,
    {
        assert(names[i as int] == parts@[i as int]@);
        match parse_group(parts[i].as_slice()) {
            Some(g) => {
                bytes.push((g / 256) as u8);
                bytes.push((g % 256) as u8);
            },
            None => {
                proof {
                    lemma_group_bytes_prefix(names, i + 1, count as int);
                }
                return None;
            },
        }
        i += 1;
    }
    Some(bytes)
}

fn parse_groups(s: &[char], dotted: bool) -> (bytes: Option<Vec<u8>>)
    ensures
        bytes matches Some(b) ==> read_groups(s@, dotted) == Some(b@),
        bytes is None ==> read_groups(s@, dotted) is None,
{
    if s.len() == 0 {
        let none: Vec<u8> = Vec::new();
        assert(none@ =~= Seq::<u8>::empty());
        return Some(none);
    }
    let parts = split_chars(s, ':');
    let n = parts.len();
    let ghost names = fields(s@, ':');
    assert(names.last() == parts@.last()@);
    if dotted {
        if let Some(last) = parse_dotted(parts[n - 1].as_slice()) {
            return match parse_group_bytes(&parts, n - 1) {
                Some(front) => {
                    let mut bytes = front;
                    let mut tail = last;
                    bytes.append(&mut tail);
                    Some(bytes)
                },
                None => None,
            };
        }
    }
    parse_group_bytes(&parts, n)
}

fn find_double_colon(s: &[char]) -> (at: Option<usize>)
    ensures
        at matches Some(p) ==> double_colon(s@, 0) == Some(p as int) && p + 2 <= s@.len(),
        at is None ==> double_colon(s@, 0) is None,
{
    let mut i: usize = 0;
    while i < s.len() && s.len() - i >= 2
        invariant
            i <= s@.len(),
            double_colon(s@, i as int) == double_colon(s@, 0),
        decreases s@.len() - i,
    {
        if s[i] == ':' && s[i + 1] == ':' {
            return Some(i);
        }
        i += 1;
    }
    None
}

fn parse_v6(s: &[char]) -> (ip: Option<Vec<u8>>)
    ensures
        ip matches Some(b) ==> read_v6(s@) == Some(b@),
        ip is None ==> read_v6(s@) is None,
{
    match find_double_colon(s) {
        None => match parse_groups(s, true) {
            Some(bytes) => if bytes.len() == 16 {
                Some(bytes)
            } else {
                None
            },
            None => None,
        },
        Some(at) => {
            let front = vstd::slice::slice_subrange(s, 0, at);
            let n = s.len();
            assert(at + 2 <= n);
            let back = vstd::slice::slice_subrange(s, at + 2, n);
            match (parse_groups(front, false), parse_groups(back, true)) {
                (Some(head), Some(tail)) => {
                    if head.len() > 14 || tail.len() > 14 || head.len() + tail.len() > 14 {
                        return None;
                    }
                    let ghost (h, t) = (head@, tail@);
                    let gap: usize = 16 - head.len() - tail.len();
                    let mut bytes = head;
                    let mut i: usize = 0;
                    while i < gap
                        invariant
                            i <= gap,
                            bytes@ =~= h + Seq::new(i as nat, |k: int| 0u8),
                        decreases gap - i,
                    {
                        bytes.push(0);
                        i += 1;
                    }
                    let mut rest = tail;
                    bytes.append(&mut rest);
                    assert(bytes@ =~= h + Seq::new(gap as nat, |k: int| 0u8) + t);
                    Some(bytes)
                },
                _ => None,
            }
        },
    }
}

fn find_last(s: &[char], c: char) -> (at: Option<usize>)
    ensures
        at matches Some(p) ==> last_place(s@, c) == Some(p as int) && p < s@.len(),
        at is None ==> last_place(s@, c) is None,
{
    let mut end: usize = s.len();
    assert(s@.subrange(0, end as int) == s@);
    while end > 0
        invariant
            end <= s@.len(),
            last_place(s@.subrange(0, end as int), c) == last_place(s@, c),
        decreases end,
    {
        assert(s@.subrange(0, end as int).drop_last() == s@.subrange(0, end - 1));
        if s[end - 1] == c {
            return Some(end - 1);
        }
        end -= 1;
    }
    None
}

fn parse_bounded(s: &[char], limit: u64) -> (value: Option<u64>)
    ensures
        value matches Some(n) ==> bounded_number(s@, limit as nat) == Some(n as nat) && n <= limit,
        value is None ==> bounded_number(s@, limit as nat) is None,
{
    parse_digits(s, limit)
}

fn parse_scoped(s: &[char]) -> (found: Option<(Vec<u8>, u32)>)
    ensures
        found matches Some((ip, scope)) ==> read_scoped(s@) == Some((ip@, scope)),
        found is None ==> read_scoped(s@) is None,
{
    match find_last(s, '%') {
        None => match parse_v6(s) {
            Some(ip) => Some((ip, 0)),
            None => None,
        },
        Some(at) => {
            let front = vstd::slice::slice_subrange(s, 0, at);
            let n = s.len();
            assert(at < n);
            let back = vstd::slice::slice_subrange(s, at + 1, n);
            match (parse_v6(front), parse_bounded(back, u32::MAX as u64)) {
                (Some(ip), Some(scope)) => Some((ip, scope as u32)),
                _ => None,
            }
        },
    }
}

fn parse_host_and_port(s: &[char]) -> (address: Option<SocketAddress>)
    ensures
        address matches Some(a) ==> read_address(s@) == Some(a@),
        address is None ==> read_address(s@) is None,
{
    let at = match find_last(s, ':') {
        Some(at) => at,
        None => {
            return None;
        },
    };
    let host = vstd::slice::slice_subrange(s, 0, at);
    let total = s.len();
    assert(at < total);
    let back = vstd::slice::slice_subrange(s, at + 1, total);
    let port: u16 = match parse_bounded(back, u16::MAX as u64) {
        Some(port) => port as u16,
        None => {
            return None;
        },
    };
    let n = host.len();
    if n >= 2 && host[0] == '[' && host[n - 1] == ']' {
        match parse_scoped(vstd::slice::slice_subrange(host, 1, n - 1)) {
            Some((ip, scope)) => Some(SocketAddress { ip, port, flowinfo: 0, scope }),
            None => None,
        }
    } else {
        match parse_dotted(host) {
            Some(ip) => Some(SocketAddress { ip, port, flowinfo: 0, scope: 0 }),
            None => None,
        }
    }
}

/// Whatever a text writes, the address has four or sixteen bytes.
pub proof fn read_addresses_are_valid(s: Seq<char>)
    ensures
        read_address(s) matches Some(a) ==> a.is_valid(),
{
}

impl SocketAddress {
    /// Reads a socket address.
    pub fn parse(text: &str) -> (address: Option<SocketAddress>)
        ensures
            address matches Some(a) ==> read_address(text@) == Some(a@) && a@.is_valid(),
            address is None ==> read_address(text@) is None,
    {
        let chars = text_chars(text);
        proof {
            read_addresses_are_valid(text@);
        }
        parse_host_and_port(chars.as_slice())
    }

    pub fn is_v4(&self) -> (v4: bool)
        ensures
            v4 == self@.is_v4(),
    {
        self.ip.len() == 4
    }

    pub fn is_loopback(&self) -> (loopback: bool)
        requires
            self@.is_valid(),
        ensures
            loopback == self@.is_loopback(),
    {
        if self.ip.len() == 4 {
            return self.ip[0] == 127;
        }
        let mut i: usize = 0;
        while i < 15
            invariant
                i <= 15,
                self.ip@.len() == 16,
                forall|k: int| 0 <= k < i ==> self.ip@[k] == 0,
            decreases 15 - i,
        {
            if self.ip[i] != 0 {
                assert(Seq::new(15, |k: int| 0u8).push(1)[i as int] == 0);
                return false;
            }
            i += 1;
        }
        let last = self.ip[15] == 1;
        assert(Seq::new(15, |k: int| 0u8).push(1)[15] == 1);
        assert(last ==> self.ip@ =~= Seq::new(15, |k: int| 0u8).push(1));
        last
    }

    pub fn is_unspecified(&self) -> (unspecified: bool)
        ensures
            unspecified == self@.is_unspecified(),
    {
        let mut i: usize = 0;
        let ghost zeros = Seq::new(self.ip@.len(), |k: int| 0u8);
        while i < self.ip.len()
            invariant
                i <= self.ip@.len(),
                zeros == Seq::new(self.ip@.len(), |k: int| 0u8),
                forall|k: int| 0 <= k < i ==> self.ip@[k] == 0,
            decreases self.ip@.len() - i,
        {
            if self.ip[i] != 0 {
                assert(zeros[i as int] == 0);
                return false;
            }
            i += 1;
        }
        assert(self.ip@ =~= zeros);
        true
    }

    /// Whether two addresses name the same host, port, flow and scope.
    pub fn same_as(&self, other: &SocketAddress) -> (same: bool)
        ensures
            same == (self@ == other@),
    {
        let same = same_bytes(self.ip.as_slice(), other.ip.as_slice()) && self.port == other.port
            && self.flowinfo == other.flowinfo && self.scope == other.scope;
        assert(same ==> self@ =~= other@);
        same
    }
}

} // verus!
