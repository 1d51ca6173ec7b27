//! Addresses as text: four numbers up to 255 with dots between them.

use crate::enums::Failure;
use crate::text::{
    append_decimal, decimal, digit_value, free_of, lemma_decimal_reads_back, lemma_split_joined,
    lemma_split_single, octet_of, parse_octet, split, split_text,
};
use vstd::prelude::*;
use vstd::string::*;

verus! {

/// An address: four bytes, the first being the highest.
pub type Ipv4 = [u8; 4];

/// The dotted text of an address.
pub open spec fn ipv4_text(a: Seq<u8>) -> Seq<char>
    recommends
        a.len() == 4,
{
    decimal(a[0] as nat) + seq!['.'] + decimal(a[1] as nat) + seq!['.'] + decimal(a[2] as nat)
        + seq!['.'] + decimal(a[3] as nat)
}

/// The address that a dotted text writes, if it writes one: exactly four
/// fields, each of one to three digits and no more than 255.
pub open spec fn text_ipv4(s: Seq<char>) -> Option<Seq<u8>> {
    let f = split_text(s, '.');
    if f.len() == 4 && octet_of(f[0]) is Some && octet_of(f[1]) is Some && octet_of(f[2]) is Some
        && octet_of(f[3]) is Some {
        Some(seq![octet_of(f[0])->0, octet_of(f[1])->0, octet_of(f[2])->0, octet_of(f[3])->0])
    } else {
        None
    }
}

/// Writes an address as dotted text.
pub fn ipv4_to_str_address(address: &Ipv4) -> (text: String)
    ensures
        text@ == ipv4_text(address@),
{
    let mut text = String::new();
    append_decimal(&mut text, address[0] as u64);
    text.append(".");
    append_decimal(&mut text, address[1] as u64);
    text.append(".");
    append_decimal(&mut text, address[2] as u64);
    text.append(".");
    append_decimal(&mut text, address[3] as u64);
    proof {
        reveal_strlit(".");
        assert("."@ =~= seq!['.']);
        assert(text@ =~= ipv4_text(address@));
    }
    text
}

/// Reads an address from dotted text. Text that writes no address is
/// `Invalid`.
pub fn str_address_to_ipv4(text: &str) -> (address: Result<Ipv4, Failure>)
    ensures
        match address {
            Ok(a) => text_ipv4(text@) == Some(a@),
            Err(e) => e == Failure::Invalid && text_ipv4(text@) is None,
        },
{
    let fields = split(text, '.');
    if fields.len() != 4 {
        return Err(Failure::Invalid);
    }
    let ghost f = fields.deep_view();
    assert(f[0] == fields[0]@ && f[1] == fields[1]@ && f[2] == fields[2]@ && f[3] == fields[3]@);
    let a = match parse_octet(fields[0]) {
        Some(v) => v,
        None => {
            return Err(Failure::Invalid);
        },
    };
    let b = match parse_octet(fields[1]) {
        Some(v) => v,
        None => {
            return Err(Failure::Invalid);
        },
    };
    let c = match parse_octet(fields[2]) {
        Some(v) => v,
        None => {
            return Err(Failure::Invalid);
        },
    };
    let d = match parse_octet(fields[3]) {
        Some(v) => v,
        None => {
            return Err(Failure::Invalid);
        },
    };
    let address: Ipv4 = [a, b, c, d];
    assert(address@ =~= seq![a, b, c, d]);
    Ok(address)
}

/// Whether two addresses are the same.
pub fn same_address(a: &Ipv4, b: &Ipv4) -> (same: bool)
    ensures
        same == (a@ == b@),
{
    let same = a[0] == b[0] && a[1] == b[1] && a[2] == b[2] && a[3] == b[3];
    if same {
        assert(a@ =~= b@);
    }
    same
}

/// The decimal text of a byte is a field that reads back as that byte, and
/// holds no dot.
pub proof fn lemma_octet_reads_back(b: u8)
    ensures
        octet_of(decimal(b as nat)) == Some(b),
        free_of(decimal(b as nat), '.'),
{
    lemma_decimal_reads_back(b as nat);
    let d = decimal(b as nat);
    assert forall|i: int| 0 <= i < d.len() implies d[i] != '.' by {
        assert(digit_value(d[i]) is Some);
    }
}

/// Four fields with dots between them, each free of dots, are cut into
/// those four fields.
proof fn lemma_split_quad(d0: Seq<char>, d1: Seq<char>, d2: Seq<char>, d3: Seq<char>)
    requires
        free_of(d0, '.'),
        free_of(d1, '.'),
        free_of(d2, '.'),
        free_of(d3, '.'),
    ensures
        split_text(d0 + seq!['.'] + d1 + seq!['.'] + d2 + seq!['.'] + d3, '.') == seq![
            d0,
            d1,
            d2,
            d3,
        ],
{
    let dot = seq!['.'];
    let r2 = d2 + dot + d3;
    let r1 = d1 + dot + r2;
    let r0 = d0 + dot + r1;
    lemma_split_single(d3, '.');
    lemma_split_joined(d2, d3, '.');
    assert(split_text(r2, '.') =~= seq![d2, d3]);
    lemma_split_joined(d1, r2, '.');
    assert(split_text(r1, '.') =~= seq![d1, d2, d3]);
    lemma_split_joined(d0, r1, '.');
    assert(split_text(r0, '.') =~= seq![d0, d1, d2, d3]);
    assert(d0 + dot + d1 + dot + d2 + dot + d3 =~= r0);
}

/// An address is read back from its dotted text.
pub proof fn lemma_ipv4_round_trip(a: Seq<u8>)
    requires
        a.len() == 4,
    ensures
        text_ipv4(ipv4_text(a)) == Some(a),
{
    let d0 = decimal(a[0] as nat);
    let d1 = decimal(a[1] as nat);
    let d2 = decimal(a[2] as nat);
    let d3 = decimal(a[3] as nat);
    lemma_octet_reads_back(a[0]);
    lemma_octet_reads_back(a[1]);
    lemma_octet_reads_back(a[2]);
    lemma_octet_reads_back(a[3]);
    lemma_split_quad(d0, d1, d2, d3);
    let f = split_text(ipv4_text(a), '.');
    assert(f == seq![d0, d1, d2, d3]);
    assert(f.len() == 4 && f[0] == d0 && f[1] == d1 && f[2] == d2 && f[3] == d3);
    assert(text_ipv4(ipv4_text(a))->0 =~= a);
}

} // verus!
