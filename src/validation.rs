//! Validation of configuration fields: interface names, MTU, addresses, ranges,
//! endpoints, key text and keepalive intervals.

use vstd::prelude::*;
use crate::addr::{cidr_literal, ip_literal, parse_cidr, parse_ip};
use crate::error::{msg, WgAgentError};
use crate::text::{ascii_alnum, is_alphanumeric, parse_unsigned, unicode_alphanumeric, unsigned_text_value};

verus! {

pub open spec fn config_error<T>(r: Result<T, WgAgentError>) -> bool {
    r matches Err(WgAgentError::Config(_))
}

pub open spec fn interface_char(c: char) -> bool {
    unicode_alphanumeric(c) || c == '_' || c == '-'
}

/// An interface name: one to fifteen bytes of letters, digits, `_` and `-`.
pub open spec fn interface_name_ok(s: Seq<char>) -> bool {
    &&& s.len() > 0
    &&& utf8_len(s) <= 15
    &&& forall|i: int| 0 <= i < s.len() ==> interface_char(#[trigger] s[i])
}

/// The length of a text in bytes, as `str::len` reports it.
pub open spec fn utf8_len(s: Seq<char>) -> usize {
    vstd::utf8::encode_utf8(s).len() as usize
}

fn all_chars_match_interface(s: &str) -> (r: bool)
    ensures
        r == forall|i: int| 0 <= i < s@.len() ==> interface_char(#[trigger] s@[i]),
{
    let n = s.unicode_len();
    let mut i: usize = 0;
    while i < n
        invariant
            n == s@.len(),
            i <= n,
            forall|j: int| 0 <= j < i ==> interface_char(#[trigger] s@[j]),
        decreases n - i,
    {
        let c = s.get_char(i);
        if !(is_alphanumeric(c) || c == '_' || c == '-') {
            assert(!interface_char(s@[i as int]));
            return false;
        }
        i = i + 1;
    }
    true
}

/// Checks an interface name: not empty, at most 15 bytes, only letters, digits, `_`, `-`.
pub fn validate_interface_name(name: &str) -> (r: Result<(), WgAgentError>)
    ensures
        r is Ok <==> interface_name_ok(name@),
        r is Err ==> config_error(r),
{
    if name.is_empty() {
        return Err(WgAgentError::Config(msg("Interface name cannot be empty")));
    }
    if name.len() > 15 {
        return Err(WgAgentError::Config(msg("Interface name exceeds 15 characters")));
    }
    if !all_chars_match_interface(name) {
        return Err(WgAgentError::Config(msg("Interface name contains invalid characters")));
    }
    Ok(())
}

pub open spec fn mtu_ok(mtu: u16) -> bool {
    1280 <= mtu <= 1500
}

/// Checks that an MTU lies in 1280..=1500.
pub fn validate_mtu(mtu: u16) -> (r: Result<(), WgAgentError>)
    ensures
        r is Ok <==> mtu_ok(mtu),
        r is Err ==> config_error(r),
{
    if mtu < 1280 || mtu > 1500 {
        return Err(WgAgentError::Config(msg("MTU is out of valid range (1280-1500)")));
    }
    Ok(())
}

/// Checks that the text is an IP literal.
pub fn validate_ip_address(ip: &str) -> (r: Result<(), WgAgentError>)
    ensures
        r is Ok <==> ip_literal(ip@) is Some,
        r is Err ==> config_error(r),
{
    match parse_ip(ip) {
        Some(_) => Ok(()),
        None => Err(WgAgentError::Config(msg("Invalid IP address"))),
    }
}

/// Checks a CIDR range: an IP literal, `/`, and a prefix of at most 32 (IPv4) or 128 (IPv6).
pub fn validate_cidr(cidr: &str) -> (r: Result<(), WgAgentError>)
    ensures
        r is Ok <==> cidr_literal(cidr@) is Some,
        r is Err ==> config_error(r),
{
    match parse_cidr(cidr) {
        Ok(_) => Ok(()),
        Err(_) => Err(WgAgentError::Config(msg("Invalid CIDR notation"))),
    }
}

/// The position of the last `c` in `s`.
pub open spec fn last_index_of(s: Seq<char>, c: char, k: int) -> bool {
    0 <= k < s.len() && s[k] == c && forall|j: int| k < j < s.len() ==> s[j] != c
}

/// An endpoint `host:port`: split at the last `:`, a port from 1 to 65535 and a
/// host that is not empty.
pub open spec fn endpoint_text_ok(s: Seq<char>) -> bool {
    exists|k: int|
        #![trigger last_index_of(s, ':', k)]
        last_index_of(s, ':', k) && k > 0 && match unsigned_text_value(
            s.subrange(k + 1, s.len() as int),
            65535,
        ) {
            Some(p) => p != 0,
            None => false,
        }
}

/// The position of the last `c` in `s`, if any.
pub fn find_last(s: &str, c: char) -> (r: Option<usize>)
    ensures
        match r {
            Some(k) => last_index_of(s@, c, k as int),
            None => forall|k: int| 0 <= k < s@.len() ==> s@[k] != c,
        },
{
    let n = s.unicode_len();
    let mut i: usize = n;
    while i > 0
        invariant
            n == s@.len(),
            i <= n,
            forall|j: int| i <= j < n ==> s@[j] != c,
        decreases i,
    {
        if s.get_char(i - 1) == c {
            return Some(i - 1);
        }
        i = i - 1;
    }
    None
}

/// Checks an endpoint `host:port`; the host may be a name or an address.
pub fn validate_endpoint(endpoint: &str) -> (r: Result<(), WgAgentError>)
    ensures
        r is Ok <==> endpoint_text_ok(endpoint@),
        r is Err ==> config_error(r),
{
    let n = endpoint.unicode_len();
    let k = match find_last(endpoint, ':') {
        Some(k) => k,
        None => {
            return Err(WgAgentError::Config(msg("Invalid endpoint format (expected host:port)")));
        },
    };
    assert forall|k2: int| last_index_of(endpoint@, ':', k2) implies k2 == k by {
        if k2 < k {
        } else if k2 > k {
        }
    }
    let port = parse_unsigned(endpoint, k + 1, n, 65535);
    match port {
        None => {
            return Err(WgAgentError::Config(msg("Invalid port in endpoint")));
        },
        Some(p) => {
            if p == 0 {
                return Err(WgAgentError::Config(msg("Port number cannot be 0")));
            }
        },
    }
    if k == 0 {
        return Err(WgAgentError::Config(msg("Host cannot be empty in endpoint")));
    }
    Ok(())
}

/// Checks that a file path is not empty.
pub fn validate_file_path(path: &str) -> (r: Result<(), WgAgentError>)
    ensures
        r is Ok <==> path@.len() > 0,
        r is Err ==> config_error(r),
{
    if path.is_empty() {
        return Err(WgAgentError::Config(msg("File path cannot be empty")));
    }
    Ok(())
}

pub open spec fn key_text_char(c: char) -> bool {
    unicode_alphanumeric(c) || c == '+' || c == '/' || c == '='
}

/// Public key text: 44 bytes of base64 characters.
pub open spec fn public_key_text_ok(s: Seq<char>) -> bool {
    &&& s.len() > 0
    &&& utf8_len(s) == 44
    &&& forall|i: int| 0 <= i < s.len() ==> key_text_char(#[trigger] s[i])
}

/// Checks base64 public key text: not empty, 44 bytes, only base64 characters.
pub fn validate_public_key(key: &str) -> (r: Result<(), WgAgentError>)
    ensures
        r is Ok <==> public_key_text_ok(key@),
        r is Err ==> config_error(r),
{
    if key.is_empty() {
        return Err(WgAgentError::Config(msg("Public key cannot be empty")));
    }
    if key.len() != 44 {
        return Err(WgAgentError::Config(msg("Invalid public key length (expected 44 characters)")));
    }
    let n = key.unicode_len();
    let mut i: usize = 0;
    while i < n
        invariant
            n == key@.len(),
            i <= n,
            forall|j: int| 0 <= j < i ==> key_text_char(#[trigger] key@[j]),
        decreases n - i,
    {
        let c = key.get_char(i);
        if !(is_alphanumeric(c) || c == '+' || c == '/' || c == '=') {
            assert(!key_text_char(key@[i as int]));
            return Err(WgAgentError::Config(msg("Public key contains invalid base64 characters")));
        }
        i = i + 1;
    }
    Ok(())
}

/// A keepalive interval: 0 (off) or 10 to 300 seconds.
pub open spec fn keepalive_ok(secs: u16) -> bool {
    secs == 0 || (10 <= secs && secs <= 300)
}

/// Checks a keepalive interval: 0 disables it, else it lies in 10..=300 seconds.
pub fn validate_keepalive(secs: u16) -> (r: Result<(), WgAgentError>)
    ensures
        r is Ok <==> keepalive_ok(secs),
        r is Err ==> config_error(r),
{
    if secs > 0 && secs < 10 {
        return Err(WgAgentError::Config(msg("Keepalive interval is too short (minimum 10 seconds or 0)")));
    }
    if secs > 300 {
        return Err(WgAgentError::Config(msg("Keepalive interval is too long (maximum 300 seconds)")));
    }
    Ok(())
}

} // verus!
