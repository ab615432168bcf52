//! Endpoints and how they are written: a dotted-decimal IPv4 address, a colon and a
//! port.

use crate::decimal::{
    all_digits, all_digits_slice, decimal_text, decimal_value, lemma_decimal_text,
    lemma_decimal_text_short, lemma_unsigned_value_of_decimal_text, parse_unsigned, push_decimal,
    unsigned_value,
};
use crate::text::{
    index_of, is_word, lemma_contains_iff_index_inside, lemma_index_of_unique,
    lemma_split_joined, lemma_split_whole, split, split_first, split_slice,
};
use vstd::prelude::*;

verus! {

/// Why a line yields no endpoint.
#[derive(Clone, Copy, Debug, PartialEq, Eq, Structural)]
pub enum ExtractError {
    /// The part of the line that should hold `address:port` has no colon.
    MalformedEndpoint,
    /// What stands before the colon is not a dotted-decimal IPv4 address.
    InvalidAddress,
}

/// The target of a reachability probe.
#[derive(Clone, Copy, Debug, PartialEq, Eq)]
pub struct Endpoint {
    /// The four octets of the IPv4 address, first octet first.
    pub address: [u8; 4],
    /// The TCP port.
    pub port: u16,
}

/// What `s` denotes as one octet of a dotted-decimal address: one to three decimal
/// digits, without a leading zero unless the octet is the single digit `0`, and at
/// most 255.
pub open spec fn octet_value(s: Seq<char>) -> Option<u8> {
    if 1 <= s.len() <= 3 && all_digits(s) && (s.len() == 1 || s[0] != '0') && decimal_value(s)
        <= 255 {
        Some(decimal_value(s) as u8)
    } else {
        None
    }
}

/// What `s` denotes as a dotted-decimal IPv4 address: exactly four octets separated
/// by full stops.
pub open spec fn address_value(s: Seq<char>) -> Option<[u8; 4]> {
    let parts = split(s, '.');
    if parts.len() == 4 && octet_value(parts[0]) is Some && octet_value(parts[1]) is Some
        && octet_value(parts[2]) is Some && octet_value(parts[3]) is Some {
        Some(
            [
                octet_value(parts[0])->0,
                octet_value(parts[1])->0,
                octet_value(parts[2])->0,
                octet_value(parts[3])->0,
            ],
        )
    } else {
        None
    }
}

/// The port that `s` denotes: its value as an unsigned 16-bit integer, and 0 where
/// it has none.
pub open spec fn port_value(s: Seq<char>) -> u16 {
    match unsigned_value(s, 65535) {
        Some(v) => v as u16,
        None => 0,
    }
}

/// What stands before the first colon of `s`: all of `s` if it has no colon.
pub open spec fn address_part(s: Seq<char>) -> Seq<char> {
    s.take(index_of(s, ':'))
}

/// What follows the first colon of `s`: nothing if it has no colon.
pub open spec fn port_part(s: Seq<char>) -> Seq<char> {
    s.skip(index_of(s, ':') + 1)
}

/// What `s` denotes as `address:port`. The address ends at the first colon; the port
/// is all that follows it. Without a colon `s` is malformed; with one, the address
/// decides whether there is an endpoint, and the port never fails.
pub open spec fn endpoint_value(s: Seq<char>) -> Result<Endpoint, ExtractError> {
    if s.contains(':') {
        match address_value(address_part(s)) {
            Some(address) => Ok(Endpoint { address, port: port_value(port_part(s)) }),
            None => Err(ExtractError::InvalidAddress),
        }
    } else {
        Err(ExtractError::MalformedEndpoint)
    }
}

/// How an address is written: its octets in decimal, separated by full stops.
pub open spec fn address_text(address: [u8; 4]) -> Seq<char> {
    decimal_text(address[0] as nat) + seq!['.'] + decimal_text(address[1] as nat) + seq!['.']
        + decimal_text(address[2] as nat) + seq!['.'] + decimal_text(address[3] as nat)
}

/// How an endpoint is written: the address, a colon, the port in decimal.
pub open spec fn endpoint_text(endpoint: Endpoint) -> Seq<char> {
    address_text(endpoint.address) + seq![':'] + decimal_text(endpoint.port as nat)
}

/// Reading the numeral of an octet gives the octet.
pub proof fn lemma_octet_round_trip(octet: u8)
    ensures
        octet_value(decimal_text(octet as nat)) == Some(octet),
{
    lemma_decimal_text(octet as nat);
    lemma_decimal_text_short(octet as nat);
}

/// Reading an address as it is written gives the address.
pub proof fn lemma_address_round_trip(address: [u8; 4])
    ensures
        address_value(address_text(address)) == Some(address),
{
    let t0 = decimal_text(address[0] as nat);
    let t1 = decimal_text(address[1] as nat);
    let t2 = decimal_text(address[2] as nat);
    let t3 = decimal_text(address[3] as nat);
    lemma_decimal_text(address[0] as nat);
    lemma_decimal_text(address[1] as nat);
    lemma_decimal_text(address[2] as nat);
    lemma_decimal_text(address[3] as nat);
    let r2 = t2 + seq!['.'] + t3;
    let r1 = t1 + seq!['.'] + r2;
    let r0 = t0 + seq!['.'] + r1;
    assert(r0 =~= address_text(address));
    lemma_split_whole(t3, '.');
    lemma_split_joined(t2, '.', t3);
    lemma_split_joined(t1, '.', r2);
    lemma_split_joined(t0, '.', r1);
    assert(split(r0, '.') =~= seq![t0, t1, t2, t3]);
    lemma_octet_round_trip(address[0]);
    lemma_octet_round_trip(address[1]);
    lemma_octet_round_trip(address[2]);
    lemma_octet_round_trip(address[3]);
    assert(address_value(r0)->0 =~= address);
}

/// Extraction round-trips: reading an endpoint as it is written gives that
/// endpoint, for every address and every port from 0 to 65535.
pub proof fn lemma_endpoint_round_trip(endpoint: Endpoint)
    ensures
        endpoint_value(endpoint_text(endpoint)) == Ok::<Endpoint, ExtractError>(endpoint),
{
    let a = address_text(endpoint.address);
    let p = decimal_text(endpoint.port as nat);
    let s = endpoint_text(endpoint);
    lemma_contains_iff_index_inside(s, ':');
    lemma_decimal_text(endpoint.address[0] as nat);
    lemma_decimal_text(endpoint.address[1] as nat);
    lemma_decimal_text(endpoint.address[2] as nat);
    lemma_decimal_text(endpoint.address[3] as nat);
    assert forall|j: int| 0 <= j < a.len() implies #[trigger] s[j] != ':' by {
        assert(s[j] == a[j]);
    }
    lemma_index_of_unique(s, ':', a.len() as int);
    assert(s.take(a.len() as int) =~= a);
    assert(s.skip(a.len() as int + 1) =~= p);
    lemma_address_round_trip(endpoint.address);
    lemma_unsigned_value_of_decimal_text(endpoint.port as nat, 65535);
}

/// An endpoint as it is written holds no whitespace.
pub proof fn lemma_endpoint_text_is_word(endpoint: Endpoint)
    ensures
        is_word(endpoint_text(endpoint)),
        endpoint_text(endpoint).len() > 0,
{
    lemma_decimal_text(endpoint.address[0] as nat);
    lemma_decimal_text(endpoint.address[1] as nat);
    lemma_decimal_text(endpoint.address[2] as nat);
    lemma_decimal_text(endpoint.address[3] as nat);
    lemma_decimal_text(endpoint.port as nat);
}

/// Reads one octet of a dotted-decimal address.
pub fn parse_octet(s: &[char]) -> (r: Option<u8>)
    ensures
        r == octet_value(s@),
{
    if s.len() < 1 || s.len() > 3 || !all_digits_slice(s) {
        return None;
    }
    if s.len() > 1 && s[0] == '0' {
        return None;
    }
    match parse_unsigned(s, 255) {
        Some(v) => Some(v as u8),
        None => None,
    }
}

/// Reads a dotted-decimal IPv4 address.
pub fn parse_address(s: &[char]) -> (r: Option<[u8; 4]>)
    ensures
        r == address_value(s@),
{
    let parts = split_slice(s, '.');
    if parts.len() != 4 {
        return None;
    }
    match (parse_octet(parts[0]), parse_octet(parts[1]), parse_octet(parts[2]), parse_octet(parts[3])) {
        (Some(a), Some(b), Some(c), Some(d)) => Some([a, b, c, d]),
        _ => None,
    }
}

/// Reads a port; what is no unsigned 16-bit integer reads as port 0.
pub fn parse_port(s: &[char]) -> (r: u16)
    ensures
        r == port_value(s@),
{
    match parse_unsigned(s, 65535) {
        Some(v) => v as u16,
        None => 0,
    }
}

/// Reads `address:port`.
pub fn parse_endpoint(s: &[char]) -> (r: Result<Endpoint, ExtractError>)
    ensures
        r == endpoint_value(s@),
{
    let (head, tail) = split_first(s, ':');
    proof {
        lemma_contains_iff_index_inside(s@, ':');
    }
    match tail {
        None => Err(ExtractError::MalformedEndpoint),
        Some(port_part) => match parse_address(head) {
            None => Err(ExtractError::InvalidAddress),
            Some(address) => Ok(Endpoint { address, port: parse_port(port_part) }),
        },
    }
}

impl Endpoint {
    /// The endpoint written as `address:port`. What is written reads back as this
    /// endpoint.
    pub fn to_text(&self) -> (r: String)
        ensures
            r@ == endpoint_text(*self),
            endpoint_value(r@) == Ok::<Endpoint, ExtractError>(*self),
    {
        proof {
            lemma_endpoint_round_trip(*self);
        }
        let mut out = String::new();
        push_decimal(&mut out, self.address[0] as u64);
        out.push('.');
        push_decimal(&mut out, self.address[1] as u64);
        out.push('.');
        push_decimal(&mut out, self.address[2] as u64);
        out.push('.');
        push_decimal(&mut out, self.address[3] as u64);
        out.push(':');
        push_decimal(&mut out, self.port as u64);
        out
    }
}

} // verus!
