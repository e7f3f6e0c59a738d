//! The notations inside a configuration: endpoints, DNS names and digests.

use crate::address::{read_address, SocketAddress, SocketAddressView};
use crate::config_error::{ConfigError, ConfigErrorView};
use crate::error::{debug_notation, debug_text};
use crate::text::{
    char_lists, digits, digits_text, fields, hex, hex_char_value, hex_chars, hex_value, joined3,
    split_chars, text_chars, text_of_chars,
};
use crate::transport::{begins_with, text_begins_with};
use vstd::prelude::*;
use vstd::string::*;

verus! {

// ---------------------------------------------------------------------------
// Endpoints
// ---------------------------------------------------------------------------

/// Whether a text holds one of the characters that no bare address has.
pub open spec fn is_more_than_authority(s: Seq<char>) -> bool {
    s.contains('/') || s.contains('?') || s.contains('#') || s.contains('@')
}

/// The part of an endpoint behind the scheme, and whether there is a scheme.
pub open spec fn authority(endpoint: Seq<char>) -> (Seq<char>, bool) {
    if begins_with(endpoint, "https://"@) {
        (endpoint.subrange("https://"@.len() as int, endpoint.len() as int), true)
    } else {
        (endpoint, false)
    }
}

/// The address that an endpoint names, and whether it asks for HTTPS.
pub open spec fn endpoint_outcome(endpoint: Seq<char>) -> Result<
    (SocketAddressView, bool),
    ConfigErrorView,
> {
    let (text, https) = authority(endpoint);
    let shown = "initial node endpoint "@ + debug_notation(endpoint);
    if text.len() == 0 || is_more_than_authority(text) {
        Err(
            ConfigErrorView::Invalid(
                shown + " is not a bare socket address or HTTPS socket seed"@,
            ),
        )
    } else {
        match read_address(text) {
            None => Err(ConfigErrorView::Invalid(shown + " is not a socket address"@)),
            Some(address) => if address.port == 0 {
                Err(ConfigErrorView::Invalid("initial node endpoint port must be nonzero"@))
            } else {
                Ok((address, https))
            },
        }
    }
}

fn has_char(s: &[char], c: char) -> (found: bool)
    ensures
        found == s@.contains(c),
{
    let mut i: usize = 0;
    while i < s.len()
        invariant
            i <= s@.len(),
            forall|k: int| 0 <= k < i ==> s@[k] != c,
        decreases s@.len() - i,
    {
        if s[i] == c {
            return true;
        }
        i += 1;
    }
    false
}

/// Reads an endpoint: a bare socket address or an HTTPS one.
pub fn parse_initial_endpoint(endpoint: &str) -> (result: Result<
    (SocketAddress, bool),
    ConfigError,
>)
    ensures
        match result {
            Ok((address, https)) => endpoint_outcome(endpoint@) == Ok::<_, ConfigErrorView>(
                (address@, https),
            ) && address@.is_valid(),
            Err(e) => endpoint_outcome(endpoint@) == Err::<(SocketAddressView, bool), _>(e@),
        },
{
    let chars = text_chars(endpoint);
    let https = text_begins_with(endpoint, "https://");
    let n = chars.len();
    let skip: usize = if https {
        8
    } else {
        0
    };
    proof {
        reveal_strlit("https://");
        assert(endpoint@.subrange(0, endpoint@.len() as int) == endpoint@);
    }
    let text = vstd::slice::slice_subrange(chars.as_slice(), skip, n);
    assert((text@, https) == authority(endpoint@));
    if text.len() == 0 || has_char(text, '/') || has_char(text, '?') || has_char(text, '#')
        || has_char(text, '@') {
        return Err(
            ConfigError::Invalid(
                joined3(
                    "initial node endpoint ",
                    debug_text(endpoint).as_str(),
                    " is not a bare socket address or HTTPS socket seed",
                ),
            ),
        );
    }
    match SocketAddress::parse(text_of_chars(text).as_str()) {
        None => Err(
            ConfigError::Invalid(
                joined3(
                    "initial node endpoint ",
                    debug_text(endpoint).as_str(),
                    " is not a socket address",
                ),
            ),
        ),
        Some(address) => if address.port == 0 {
            Err(crate::config_error::invalid("initial node endpoint port must be nonzero"))
        } else {
            Ok((address, https))
        },
    }
}

// ---------------------------------------------------------------------------
// DNS names
// ---------------------------------------------------------------------------

pub open spec fn is_alphanumeric(c: char) -> bool {
    ('0' <= c && c <= '9') || ('a' <= c && c <= 'z') || ('A' <= c && c <= 'Z')
}

/// Whether a text is one label of a DNS name.
pub open spec fn is_dns_label(s: Seq<char>) -> bool {
    &&& 1 <= s.len() <= 63
    &&& forall|i: int| 0 <= i < s.len() ==> is_alphanumeric(#[trigger] s[i]) || s[i] == '-'
    &&& is_alphanumeric(s[0])
    &&& is_alphanumeric(s.last())
}

pub open spec fn is_ascii(s: Seq<char>) -> bool {
    forall|i: int| 0 <= i < s.len() ==> (#[trigger] s[i]) as int <= 127
}

/// What is wrong with a DNS name.
pub open spec fn dns_name_fault(s: Seq<char>) -> Option<Seq<char>> {
    let labels = fields(s, '.');
    if s.len() == 0 || s.len() > 253 || !is_ascii(s) {
        Some("must be a nonempty ASCII name no longer than 253 bytes"@)
    } else if !(forall|i: int| 0 <= i < labels.len() ==> is_dns_label(#[trigger] labels[i])) {
        Some("contains an invalid DNS label"@)
    } else {
        None
    }
}

fn alphanumeric(c: char) -> (found: bool)
    ensures
        found == is_alphanumeric(c),
{
    (c >= '0' && c <= '9') || (c >= 'a' && c <= 'z') || (c >= 'A' && c <= 'Z')
}

fn dns_label(s: &[char]) -> (found: bool)
    ensures
        found == is_dns_label(s@),
{
    let n = s.len();
    if n == 0 || n > 63 || !alphanumeric(s[0]) || !alphanumeric(s[n - 1]) {
        return false;
    }
    let mut i: usize = 0;
    while i < n
        invariant
            i <= n == s@.len(),
            forall|k: int| 0 <= k < i ==> is_alphanumeric(#[trigger] s@[k]) || s@[k] == '-',
        decreases n - i,
    {
        if !alphanumeric(s[i]) && s[i] != '-' {
            assert(!is_alphanumeric(s@[i as int]));
            return false;
        }
        i += 1;
    }
    true
}

fn ascii(s: &[char]) -> (found: bool)
    ensures
        found == is_ascii(s@),
{
    let mut i: usize = 0;
    while i < s.len()
        invariant
            i <= s@.len(),
            forall|k: int| 0 <= k < i ==> (#[trigger] s@[k]) as int <= 127,
        decreases s@.len() - i,
    {
        if s[i] > '\x7f' {
            assert(s@[i as int] as int > 127);
            return false;
        }
        i += 1;
    }
    true
}

/// Checks a DNS name.
pub fn validate_dns_name(value: &str) -> (result: Result<(), &'static str>)
    ensures
        match result {
            Ok(()) => dns_name_fault(value@) is None,
            Err(text) => dns_name_fault(value@) == Some(text@),
        },
{
    let chars = text_chars(value);
    if chars.len() == 0 || chars.len() > 253 || !ascii(chars.as_slice()) {
        return Err("must be a nonempty ASCII name no longer than 253 bytes");
    }
    let parts = split_chars(chars.as_slice(), '.');
    let ghost labels = fields(value@, '.');
    let mut i: usize = 0;
    while i < parts.len()
        invariant
            i <= parts@.len(),
            labels == char_lists(parts@),
            labels == fields(value@, '.'),
            1 <= value@.len() <= 253,
            is_ascii(value@),
            forall|k: int| 0 <= k < i ==> is_dns_label(#[trigger] labels[k]),
        decreases parts@.len() - i,
    {
        assert(labels[i as int] == parts@[i as int]@);
        if !dns_label(parts[i].as_slice()) {
            return Err("contains an invalid DNS label");
        }
        i += 1;
    }
    Ok(())
}

// ---------------------------------------------------------------------------
// Hexadecimal fields
// ---------------------------------------------------------------------------

/// Whether every character is hexadecimal, upper or lower case.
pub open spec fn all_hex(s: Seq<char>) -> bool {
    forall|i: int| 0 <= i < s.len() ==> hex_value(#[trigger] s[i]) is Some
}

/// Whether every character is hexadecimal and no letter is upper case.
pub open spec fn all_lower_hex(s: Seq<char>) -> bool {
    forall|i: int|
        0 <= i < s.len() ==> hex_value(#[trigger] s[i]) is Some && !('A' <= s[i] && s[i] <= 'F')
}

/// The byte that two hexadecimal characters write.
pub open spec fn hex_pair(high: char, low: char) -> u8 {
    (16 * hex_value(high)->0 + hex_value(low)->0) as u8
}

/// The bytes that a run of hexadecimal characters writes.
pub open spec fn hex_bytes(s: Seq<char>) -> Seq<u8> {
    Seq::new((s.len() / 2) as nat, |i: int| hex_pair(s[2 * i], s[2 * i + 1]))
}

/// The value of a hexadecimal character.
pub fn hex_nibble(value: char) -> (nibble: u8)
    requires
        hex_value(value) is Some,
    ensures
        hex_value(value) == Some(nibble as nat),
        nibble < 16,
{
    match hex_char_value(value) {
        Some(v) => v,
        None => 0,
    }
}

fn all_hex_chars(s: &[char]) -> (found: bool)
    ensures
        found == all_hex(s@),
{
    let mut i: usize = 0;
    while i < s.len()
        invariant
            i <= s@.len(),
            forall|k: int| 0 <= k < i ==> hex_value(#[trigger] s@[k]) is Some,
        decreases s@.len() - i,
    {
        if hex_char_value(s[i]).is_none() {
            assert(hex_value(s@[i as int]) is None);
            return false;
        }
        i += 1;
    }
    true
}

fn all_lower_hex_chars(s: &[char]) -> (found: bool)
    ensures
        found == all_lower_hex(s@),
{
    let mut i: usize = 0;
    while i < s.len()
        invariant
            i <= s@.len(),
            forall|k: int|
                0 <= k < i ==> hex_value(#[trigger] s@[k]) is Some && !('A' <= s@[k] && s@[k]
                    <= 'F'),
        decreases s@.len() - i,
    {
        if hex_char_value(s[i]).is_none() || (s[i] >= 'A' && s[i] <= 'F') {
            assert(hex_value(s@[i as int]) is None || ('A' <= s@[i as int] && s@[i as int] <= 'F'));
            return false;
        }
        i += 1;
    }
    true
}

fn read_hex_pairs(s: &[char]) -> (bytes: Vec<u8>)
    requires
        all_hex(s@),
    ensures
        bytes@ == hex_bytes(s@),
{
    let mut bytes: Vec<u8> = Vec::new();
    let mut i: usize = 0;
    let n = s.len() / 2;
    while i < n
        invariant
            i <= n,
            2 * n <= s@.len() < 2 * n + 2,
            all_hex(s@),
            bytes@.len() == i,
            forall|k: int| 0 <= k < i ==> bytes@[k] == hex_pair(s@[2 * k], s@[2 * k + 1]),
        decreases n - i,
    {
        let ghost total = s.len();
        assert(2 * i + 1 < total);
        let high = hex_nibble(s[2 * i]);
        let low = hex_nibble(s[2 * i + 1]);
        bytes.push(16 * high + low);
        i += 1;
    }
    assert(bytes@ =~= hex_bytes(s@));
    bytes
}

/// What a field of `size` bytes in lower-case hexadecimal notation writes.
pub open spec fn lower_hex_outcome(value: Seq<char>, size: nat, label: Seq<char>) -> Result<
    Seq<u8>,
    ConfigErrorView,
> {
    if value.len() == 2 * size && all_lower_hex(value) {
        Ok(hex_bytes(value))
    } else {
        Err(
            ConfigErrorView::Invalid(
                label + " must be exactly "@ + digits((2 * size) as nat)
                    + " lower-case hexadecimal characters"@,
            ),
        )
    }
}

/// Reads a field of `size` bytes in lower-case hexadecimal notation.
pub fn decode_lower_hex(value: &str, size: usize, label: &str) -> (result: Result<
    Vec<u8>,
    ConfigError,
>)
    requires
        2 * size <= u32::MAX,
    ensures
        match result {
            Ok(bytes) => lower_hex_outcome(value@, size as nat, label@) == Ok::<_, ConfigErrorView>(
                bytes@,
            ),
            Err(e) => lower_hex_outcome(value@, size as nat, label@) == Err::<Seq<u8>, _>(e@),
        },
{
    let chars = text_chars(value);
    if chars.len() != 2 * size || !all_lower_hex_chars(chars.as_slice()) {
        let mut text = joined3(label, " must be exactly ", digits_text((2 * size) as u64).as_str());
        text.append(" lower-case hexadecimal characters");
        return Err(ConfigError::Invalid(text));
    }
    assert(all_hex(chars@));
    Ok(read_hex_pairs(chars.as_slice()))
}

/// Writes bytes in lower-case hexadecimal notation.
pub fn encode_lower_hex(bytes: &[u8]) -> (text: String)
    ensures
        text@ == hex_chars(bytes@),
{
    hex(bytes)
}

/// Whether a text is the hexadecimal notation of a SHA-256 digest.
pub open spec fn is_sha256_text(value: Seq<char>) -> bool {
    value.len() == 64 && all_hex(value)
}

/// Reads a SHA-256 digest in hexadecimal notation of either case.
pub fn decode_sha256(value: &str) -> (result: Result<[u8; 32], &'static str>)
    ensures
        match result {
            Ok(digest) => is_sha256_text(value@) && digest@ == hex_bytes(value@),
            Err(text) => !is_sha256_text(value@) && text@
                == "must be exactly 64 hexadecimal characters"@,
        },
{
    let chars = text_chars(value);
    if chars.len() != 64 || !all_hex_chars(chars.as_slice()) {
        return Err("must be exactly 64 hexadecimal characters");
    }
    Ok(crate::bytes::array32(read_hex_pairs(chars.as_slice()).as_slice()))
}

/// Hexadecimal notation gives back the bytes that were written.
pub proof fn lower_hex_reads_back(bytes: Seq<u8>)
    ensures
        all_lower_hex(hex_chars(bytes)),
        hex_bytes(hex_chars(bytes)) == bytes,
{
    let text = hex_chars(bytes);
    assert forall|i: int| 0 <= i < text.len() implies hex_value(#[trigger] text[i]) is Some && !(
    'A' <= text[i] && text[i] <= 'F') by {
        let b = bytes[i / 2] as nat;
        assert(b / 16 < 16 && b % 16 < 16);
    }
    assert forall|i: int| 0 <= i < bytes.len() implies hex_bytes(text)[i] == bytes[i] by {
        let b = bytes[i] as nat;
        assert((2 * i) / 2 == i && (2 * i + 1) / 2 == i);
        assert((2 * i) % 2 == 0 && (2 * i + 1) % 2 == 1);
        assert(hex_value(text[2 * i]) == Some(b / 16));
        assert(hex_value(text[2 * i + 1]) == Some(b % 16));
    }
    assert(hex_bytes(text) =~= bytes);
}

} // verus!
