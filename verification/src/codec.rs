//! The wire encoding for contract-to-contract initialization arguments.
//!
//! Arguments are encoded after a fixed five-byte header marking raw
//! invocation data, each in declaration order, with a length-prefixed
//! little-endian encoding: a string as a `u32` byte count followed by its
//! UTF-8 bytes, a byte blob as a `u32` count followed by the bytes, a
//! sequence as a `u32` count followed by its elements, and an address as a
//! kind byte followed by the 20 identifier bytes little-endian.
//!
//! Every decoder is specified against a total specification-level parser,
//! and parsing an encoding is proved to give back the encoded values.

use vstd::prelude::*;
use vstd::bytes::{
    lemma_auto_spec_u32_to_from_le_bytes, lemma_auto_spec_u64_to_from_le_bytes,
    spec_u32_from_le_bytes, spec_u32_to_le_bytes, spec_u64_from_le_bytes, spec_u64_to_le_bytes,
    u32_from_le_bytes, u32_to_le_bytes, u64_from_le_bytes, u64_to_le_bytes,
};
use vstd::slice::{slice_subrange, slice_to_vec};
use vstd::utf8::{decode_utf8, encode_utf8, encode_utf8_decode_utf8, encode_utf8_valid_utf8,
    valid_utf8};
use crate::addr::{Address, AddressKind};

verus! {

/// The five header bytes that open every raw invocation payload.
pub open spec fn spec_header() -> Seq<u8> {
    seq![0xffu8, 0xffu8, 0xffu8, 0xffu8, 0x0fu8]
}

/// The byte tag of an address kind.
pub open spec fn spec_kind_byte(k: AddressKind) -> u8 {
    match k {
        AddressKind::Account => 0,
        AddressKind::SystemContract => 1,
        AddressKind::PublicContract => 2,
        AddressKind::ZkContract => 3,
    }
}

/// The address kind a byte tag names, if any.
pub open spec fn spec_byte_kind(b: u8) -> Option<AddressKind> {
    if b == 0 {
        Some(AddressKind::Account)
    } else if b == 1 {
        Some(AddressKind::SystemContract)
    } else if b == 2 {
        Some(AddressKind::PublicContract)
    } else if b == 3 {
        Some(AddressKind::ZkContract)
    } else {
        None
    }
}

/// A byte blob fits behind its 32-bit length prefix.
pub open spec fn blob_encodable(b: Seq<u8>) -> bool {
    b.len() <= u32::MAX
}

/// A string's UTF-8 bytes fit behind a 32-bit length prefix.
pub open spec fn str_encodable(s: Seq<char>) -> bool {
    encode_utf8(s).len() <= u32::MAX
}

/// Encoding of a byte blob: length prefix, then the bytes.
pub open spec fn enc_blob(b: Seq<u8>) -> Seq<u8> {
    spec_u32_to_le_bytes(b.len() as u32) + b
}

/// Encoding of a string: length prefix, then its UTF-8 bytes.
pub open spec fn enc_str(s: Seq<char>) -> Seq<u8> {
    enc_blob(encode_utf8(s))
}

/// Encoding of an address: kind byte, then the 20 identifier bytes.
pub open spec fn enc_address(a: Address) -> Seq<u8> {
    seq![spec_kind_byte(a.kind)] + spec_u64_to_le_bytes(a.id_a) + spec_u64_to_le_bytes(a.id_b)
        + spec_u32_to_le_bytes(a.id_c)
}

/// Parses four little-endian bytes as a `u32`.
pub open spec fn parse_u32(b: Seq<u8>, pos: int) -> Option<(u32, int)> {
    if 0 <= pos && pos + 4 <= b.len() {
        Some((spec_u32_from_le_bytes(b.subrange(pos, pos + 4)), pos + 4))
    } else {
        None
    }
}

/// Parses eight little-endian bytes as a `u64`.
pub open spec fn parse_u64(b: Seq<u8>, pos: int) -> Option<(u64, int)> {
    if 0 <= pos && pos + 8 <= b.len() {
        Some((spec_u64_from_le_bytes(b.subrange(pos, pos + 8)), pos + 8))
    } else {
        None
    }
}

/// Parses a length-prefixed byte blob.
pub open spec fn parse_blob(b: Seq<u8>, pos: int) -> Option<(Seq<u8>, int)> {
    match parse_u32(b, pos) {
        Some((n, p)) => if p + n <= b.len() {
            Some((b.subrange(p, p + n), p + n))
        } else {
            None
        },
        None => None,
    }
}

/// Parses a length-prefixed UTF-8 string.
pub open spec fn parse_str(b: Seq<u8>, pos: int) -> Option<(Seq<char>, int)> {
    match parse_blob(b, pos) {
        Some((bs, p)) => if valid_utf8(bs) {
            Some((decode_utf8(bs), p))
        } else {
            None
        },
        None => None,
    }
}

/// Parses a 21-byte address.
pub open spec fn parse_address(b: Seq<u8>, pos: int) -> Option<(Address, int)> {
    if 0 <= pos && pos + 21 <= b.len() {
        match spec_byte_kind(b[pos]) {
            Some(kind) => Some(
                (
                    Address {
                        kind,
                        id_a: spec_u64_from_le_bytes(b.subrange(pos + 1, pos + 9)),
                        id_b: spec_u64_from_le_bytes(b.subrange(pos + 9, pos + 17)),
                        id_c: spec_u32_from_le_bytes(b.subrange(pos + 17, pos + 21)),
                    },
                    pos + 21,
                ),
            ),
            None => None,
        }
    } else {
        None
    }
}

/// Parsing four bytes laid down by the `u32` encoding gives the value back.
pub proof fn lemma_parse_u32_enc(b: Seq<u8>, pos: int, x: u32)
    requires
        0 <= pos,
        pos + 4 <= b.len(),
        b.subrange(pos, pos + 4) == spec_u32_to_le_bytes(x),
    ensures
        parse_u32(b, pos) == Some((x, pos + 4)),
{
    lemma_auto_spec_u32_to_from_le_bytes();
    assert(spec_u32_to_le_bytes(x).len() == 4);
    assert(spec_u32_from_le_bytes(spec_u32_to_le_bytes(x)) == x);
}

/// Parsing eight bytes laid down by the `u64` encoding gives the value back.
pub proof fn lemma_parse_u64_enc(b: Seq<u8>, pos: int, x: u64)
    requires
        0 <= pos,
        pos + 8 <= b.len(),
        b.subrange(pos, pos + 8) == spec_u64_to_le_bytes(x),
    ensures
        parse_u64(b, pos) == Some((x, pos + 8)),
{
    lemma_auto_spec_u64_to_from_le_bytes();
    assert(spec_u64_to_le_bytes(x).len() == 8);
    assert(spec_u64_from_le_bytes(spec_u64_to_le_bytes(x)) == x);
}

/// Parsing a blob encoding laid down in a larger buffer gives the blob back.
pub proof fn lemma_parse_blob_enc(b: Seq<u8>, pos: int, data: Seq<u8>)
    requires
        0 <= pos,
        blob_encodable(data),
        pos + enc_blob(data).len() <= b.len(),
        b.subrange(pos, pos + enc_blob(data).len()) == enc_blob(data),
    ensures
        parse_blob(b, pos) == Some((data, pos + 4 + data.len())),
{
    lemma_auto_spec_u32_to_from_le_bytes();
    assert(spec_u32_to_le_bytes(data.len() as u32).len() == 4);
    let e = enc_blob(data);
    let n = data.len() as int;
    assert(e.len() == 4 + n);
    assert(b.subrange(pos, pos + 4) =~= e.subrange(0, 4));
    assert(e.subrange(0, 4) =~= spec_u32_to_le_bytes(data.len() as u32));
    lemma_parse_u32_enc(b, pos, data.len() as u32);
    assert(b.subrange(pos + 4, pos + 4 + n) =~= e.subrange(4, 4 + n));
    assert(e.subrange(4, 4 + n) =~= data);
}

/// Parsing a string encoding laid down in a larger buffer gives the string
/// back.
pub proof fn lemma_parse_str_enc(b: Seq<u8>, pos: int, s: Seq<char>)
    requires
        0 <= pos,
        str_encodable(s),
        pos + enc_str(s).len() <= b.len(),
        b.subrange(pos, pos + enc_str(s).len()) == enc_str(s),
    ensures
        parse_str(b, pos) == Some((s, pos + enc_str(s).len())),
{
    lemma_auto_spec_u32_to_from_le_bytes();
    assert(spec_u32_to_le_bytes(encode_utf8(s).len() as u32).len() == 4);
    lemma_parse_blob_enc(b, pos, encode_utf8(s));
    encode_utf8_valid_utf8(s);
    encode_utf8_decode_utf8(s);
}

/// Parsing an address encoding laid down in a larger buffer gives the
/// address back.
pub proof fn lemma_parse_address_enc(b: Seq<u8>, pos: int, a: Address)
    requires
        0 <= pos,
        pos + 21 <= b.len(),
        b.subrange(pos, pos + 21) == enc_address(a),
    ensures
        parse_address(b, pos) == Some((a, pos + 21)),
{
    lemma_auto_spec_u32_to_from_le_bytes();
    lemma_auto_spec_u64_to_from_le_bytes();
    assert(spec_u32_to_le_bytes(a.id_c).len() == 4);
    assert(spec_u64_to_le_bytes(a.id_a).len() == 8);
    assert(spec_u64_to_le_bytes(a.id_b).len() == 8);
    let e = enc_address(a);
    assert(e.len() == 21);
    assert(b[pos] == e[0]);
    assert(e[0] == spec_kind_byte(a.kind));
    assert(b.subrange(pos + 1, pos + 9) =~= e.subrange(1, 9));
    assert(e.subrange(1, 9) =~= spec_u64_to_le_bytes(a.id_a));
    assert(b.subrange(pos + 9, pos + 17) =~= e.subrange(9, 17));
    assert(e.subrange(9, 17) =~= spec_u64_to_le_bytes(a.id_b));
    assert(b.subrange(pos + 17, pos + 21) =~= e.subrange(17, 21));
    assert(e.subrange(17, 21) =~= spec_u32_to_le_bytes(a.id_c));
    lemma_auto_spec_u32_to_from_le_bytes();
    lemma_auto_spec_u64_to_from_le_bytes();
}

/// Appends a `u32`, little-endian.
pub fn push_u32(out: &mut Vec<u8>, x: u32)
    ensures
        final(out)@ == old(out)@ + spec_u32_to_le_bytes(x),
{
    let mut b = u32_to_le_bytes(x);
    out.append(&mut b);
}

/// Appends a `u64`, little-endian.
pub fn push_u64(out: &mut Vec<u8>, x: u64)
    ensures
        final(out)@ == old(out)@ + spec_u64_to_le_bytes(x),
{
    let mut b = u64_to_le_bytes(x);
    out.append(&mut b);
}

/// Appends a length-prefixed byte blob.
pub fn push_blob(out: &mut Vec<u8>, data: &Vec<u8>)
    requires
        data@.len() <= u32::MAX,
    ensures
        final(out)@ == old(out)@ + enc_blob(data@),
{
    push_u32(out, data.len() as u32);
    let n = data.len();
    let mut i: usize = 0;
    while i < n
        invariant
            n == data@.len(),
            0 <= i <= n,
            out@ == old(out)@ + spec_u32_to_le_bytes(n as u32) + data@.subrange(0, i as int),
        decreases n - i,
    {
        out.push(data[i]);
        proof {
            assert(out@ =~= old(out)@ + spec_u32_to_le_bytes(n as u32) + data@.subrange(
                0,
                i + 1 as int,
            ));
        }
        i += 1;
    }
    proof {
        assert(data@.subrange(0, n as int) =~= data@);
        assert(final(out)@ =~= old(out)@ + enc_blob(data@));
    }
}

/// Appends a length-prefixed string as its UTF-8 bytes.
pub fn push_str(out: &mut Vec<u8>, s: &String)
    requires
        str_encodable(s@),
    ensures
        final(out)@ == old(out)@ + enc_str(s@),
{
    let bs = slice_to_vec(s.as_str().as_bytes());
    push_blob(out, &bs);
}

/// Appends a 21-byte address.
pub fn push_address(out: &mut Vec<u8>, a: &Address)
    ensures
        final(out)@ == old(out)@ + enc_address(*a),
{
    let kb: u8 = match a.kind {
        AddressKind::Account => 0,
        AddressKind::SystemContract => 1,
        AddressKind::PublicContract => 2,
        AddressKind::ZkContract => 3,
    };
    out.push(kb);
    push_u64(out, a.id_a);
    push_u64(out, a.id_b);
    push_u32(out, a.id_c);
    proof {
        assert(final(out)@ =~= old(out)@ + enc_address(*a));
    }
}

/// Reads a little-endian `u32`.
pub fn read_u32(v: &Vec<u8>, pos: usize) -> (r: Option<(u32, usize)>)
    ensures
        match r {
            Some((x, np)) => parse_u32(v@, pos as int) == Some((x, np as int)),
            None => parse_u32(v@, pos as int) is None,
        },
{
    if v.len() >= 4 && pos <= v.len() - 4 {
        let s = slice_subrange(v.as_slice(), pos, pos + 4);
        let x = u32_from_le_bytes(s);
        Some((x, pos + 4))
    } else {
        None
    }
}

/// Reads a little-endian `u64`.
pub fn read_u64(v: &Vec<u8>, pos: usize) -> (r: Option<(u64, usize)>)
    ensures
        match r {
            Some((x, np)) => parse_u64(v@, pos as int) == Some((x, np as int)),
            None => parse_u64(v@, pos as int) is None,
        },
{
    if v.len() >= 8 && pos <= v.len() - 8 {
        let s = slice_subrange(v.as_slice(), pos, pos + 8);
        let x = u64_from_le_bytes(s);
        Some((x, pos + 8))
    } else {
        None
    }
}

/// Reads a length-prefixed byte blob.
pub fn read_blob(v: &Vec<u8>, pos: usize) -> (r: Option<(Vec<u8>, usize)>)
    ensures
        match r {
            Some((b, np)) => parse_blob(v@, pos as int) == Some((b@, np as int)),
            None => parse_blob(v@, pos as int) is None,
        },
{
    match read_u32(v, pos) {
        Some((n, p)) => {
            let nn = n as usize;
            if nn <= v.len() && p <= v.len() - nn {
                let s = slice_subrange(v.as_slice(), p, p + nn);
                let b = slice_to_vec(s);
                Some((b, p + nn))
            } else {
                None
            }
        },
        None => None,
    }
}

/// Relies on `String::from_utf8`: returns the string whose UTF-8 encoding
/// is the given bytes when they are valid UTF-8, and nothing otherwise.
#[verifier::external_body]
fn string_from_utf8(v: Vec<u8>) -> (r: Option<String>)
    ensures
        r matches Some(s) ==> valid_utf8(v@) && s@ == decode_utf8(v@),
        r is None ==> !valid_utf8(v@),
{
    match String::from_utf8(v) {
        Ok(s) => Some(s),
        Err(_) => None,
    }
}

/// Reads a length-prefixed UTF-8 string.
pub fn read_str(v: &Vec<u8>, pos: usize) -> (r: Option<(String, usize)>)
    ensures
        match r {
            Some((s, np)) => parse_str(v@, pos as int) == Some((s@, np as int)),
            None => parse_str(v@, pos as int) is None,
        },
{
    match read_blob(v, pos) {
        Some((b, p)) => match string_from_utf8(b) {
            Some(s) => Some((s, p)),
            None => None,
        },
        None => None,
    }
}

/// Reads a 21-byte address.
pub fn read_address(v: &Vec<u8>, pos: usize) -> (r: Option<(Address, usize)>)
    ensures
        match r {
            Some((a, np)) => parse_address(v@, pos as int) == Some((a, np as int)),
            None => parse_address(v@, pos as int) is None,
        },
{
    if v.len() >= 21 && pos <= v.len() - 21 {
        let kind: AddressKind = match v[pos] {
            0u8 => AddressKind::Account,
            1u8 => AddressKind::SystemContract,
            2u8 => AddressKind::PublicContract,
            3u8 => AddressKind::ZkContract,
            _ => { return None; },
        };
        let id_a = u64_from_le_bytes(slice_subrange(v.as_slice(), pos + 1, pos + 9));
        let id_b = u64_from_le_bytes(slice_subrange(v.as_slice(), pos + 9, pos + 17));
        let id_c = u32_from_le_bytes(slice_subrange(v.as_slice(), pos + 17, pos + 21));
        Some((Address { kind, id_a, id_b, id_c }, pos + 21))
    } else {
        None
    }
}


/// Every string in the sequence fits behind its length prefix.
pub open spec fn all_strs_encodable(v: Seq<Seq<char>>) -> bool {
    forall|i: int| 0 <= i < v.len() ==> str_encodable(#[trigger] v[i])
}

/// Encoding of string elements, in order, without the leading count.
pub open spec fn enc_str_items(v: Seq<Seq<char>>) -> Seq<u8>
    decreases v.len(),
{
    if v.len() == 0 {
        Seq::empty()
    } else {
        enc_str(v.first()) + enc_str_items(v.drop_first())
    }
}

/// Encoding of a string sequence: element count, then the elements.
pub open spec fn enc_str_list(v: Seq<Seq<char>>) -> Seq<u8> {
    spec_u32_to_le_bytes(v.len() as u32) + enc_str_items(v)
}

/// Encoding of address elements, in order, without the leading count.
pub open spec fn enc_addr_items(v: Seq<Address>) -> Seq<u8>
    decreases v.len(),
{
    if v.len() == 0 {
        Seq::empty()
    } else {
        enc_address(v.first()) + enc_addr_items(v.drop_first())
    }
}

/// Encoding of an address sequence: element count, then the elements.
pub open spec fn enc_addr_list(v: Seq<Address>) -> Seq<u8> {
    spec_u32_to_le_bytes(v.len() as u32) + enc_addr_items(v)
}

/// Appending one string to the elements extends their encoding at the end.
pub proof fn lemma_enc_str_items_push(v: Seq<Seq<char>>, s: Seq<char>)
    ensures
        enc_str_items(v.push(s)) == enc_str_items(v) + enc_str(s),
    decreases v.len(),
{
    if v.len() == 0 {
        assert(v.push(s).drop_first() =~= Seq::<Seq<char>>::empty());
        assert(v.push(s).first() == s);
        assert(enc_str_items(Seq::<Seq<char>>::empty()) == Seq::<u8>::empty());
        assert(enc_str_items(v.push(s)) == enc_str(s) + Seq::<u8>::empty());
        assert(enc_str_items(v.push(s)) =~= enc_str_items(v) + enc_str(s));
    } else {
        assert(v.push(s).drop_first() =~= v.drop_first().push(s));
        assert(v.push(s).first() == v.first());
        lemma_enc_str_items_push(v.drop_first(), s);
        assert(v.push(s).len() > 0);
        let e0 = enc_str(v.first());
        let r1 = enc_str_items(v.drop_first());
        let s1 = enc_str(s);
        assert(enc_str_items(v.push(s)) == e0 + (r1 + s1));
        assert(enc_str_items(v) + enc_str(s) == (e0 + r1) + s1);
        assert(e0 + (r1 + s1) =~= (e0 + r1) + s1);
    }
}

/// Appending one address to the elements extends their encoding at the end.
pub proof fn lemma_enc_addr_items_push(v: Seq<Address>, a: Address)
    ensures
        enc_addr_items(v.push(a)) == enc_addr_items(v) + enc_address(a),
    decreases v.len(),
{
    if v.len() == 0 {
        assert(v.push(a).drop_first() =~= Seq::<Address>::empty());
        assert(v.push(a).first() == a);
        assert(enc_addr_items(Seq::<Address>::empty()) == Seq::<u8>::empty());
        assert(enc_addr_items(v.push(a)) == enc_address(a) + Seq::<u8>::empty());
        assert(enc_addr_items(v.push(a)) =~= enc_addr_items(v) + enc_address(a));
    } else {
        assert(v.push(a).drop_first() =~= v.drop_first().push(a));
        assert(v.push(a).first() == v.first());
        lemma_enc_addr_items_push(v.drop_first(), a);
        assert(v.push(a).len() > 0);
        let e0 = enc_address(v.first());
        let r1 = enc_addr_items(v.drop_first());
        let s1 = enc_address(a);
        assert(enc_addr_items(v.push(a)) == e0 + (r1 + s1));
        assert(enc_addr_items(v) + enc_address(a) == (e0 + r1) + s1);
        assert(e0 + (r1 + s1) =~= (e0 + r1) + s1);
    }
}

/// Parses a fixed count of string elements.
pub open spec fn parse_str_items(b: Seq<u8>, pos: int, n: nat) -> Option<(Seq<Seq<char>>, int)>
    decreases n,
{
    if n == 0 {
        Some((Seq::empty(), pos))
    } else {
        match parse_str(b, pos) {
            Some((s, p)) => match parse_str_items(b, p, (n - 1) as nat) {
                Some((v, p2)) => Some((seq![s] + v, p2)),
                None => None,
            },
            None => None,
        }
    }
}

/// Parses a count-prefixed string sequence.
pub open spec fn parse_str_list(b: Seq<u8>, pos: int) -> Option<(Seq<Seq<char>>, int)> {
    match parse_u32(b, pos) {
        Some((n, p)) => parse_str_items(b, p, n as nat),
        None => None,
    }
}

/// Parses a fixed count of address elements.
pub open spec fn parse_addr_items(b: Seq<u8>, pos: int, n: nat) -> Option<(Seq<Address>, int)>
    decreases n,
{
    if n == 0 {
        Some((Seq::empty(), pos))
    } else {
        match parse_address(b, pos) {
            Some((a, p)) => match parse_addr_items(b, p, (n - 1) as nat) {
                Some((v, p2)) => Some((seq![a] + v, p2)),
                None => None,
            },
            None => None,
        }
    }
}

/// Parses a count-prefixed address sequence.
pub open spec fn parse_addr_list(b: Seq<u8>, pos: int) -> Option<(Seq<Address>, int)> {
    match parse_u32(b, pos) {
        Some((n, p)) => parse_addr_items(b, p, n as nat),
        None => None,
    }
}

/// Parsing string elements laid down by their encoding gives them back.
pub proof fn lemma_parse_str_items_enc(b: Seq<u8>, pos: int, v: Seq<Seq<char>>)
    requires
        0 <= pos,
        all_strs_encodable(v),
        pos + enc_str_items(v).len() <= b.len(),
        b.subrange(pos, pos + enc_str_items(v).len()) == enc_str_items(v),
    ensures
        parse_str_items(b, pos, v.len()) == Some((v, pos + enc_str_items(v).len())),
    decreases v.len(),
{
    if v.len() > 0 {
        let e = enc_str_items(v);
        let e0 = enc_str(v.first());
        let rest = enc_str_items(v.drop_first());
        assert(e == e0 + rest);
        assert(b.subrange(pos, pos + e0.len() as int) =~= e.subrange(0, e0.len() as int));
        assert(e.subrange(0, e0.len() as int) =~= e0);
        assert(str_encodable(v.first()));
        lemma_parse_str_enc(b, pos, v.first());
        let p = pos + e0.len() as int;
        assert(b.subrange(p, p + rest.len() as int) =~= e.subrange(
            e0.len() as int,
            e.len() as int,
        ));
        assert(e.subrange(e0.len() as int, e.len() as int) =~= rest);
        assert(all_strs_encodable(v.drop_first())) by {
            assert(forall|i: int|
                0 <= i < v.drop_first().len() ==> #[trigger] v.drop_first()[i] == v[i + 1]);
        }
        lemma_parse_str_items_enc(b, p, v.drop_first());
        assert(seq![v.first()] + v.drop_first() =~= v);
    }
}

/// Parsing address elements laid down by their encoding gives them back.
pub proof fn lemma_parse_addr_items_enc(b: Seq<u8>, pos: int, v: Seq<Address>)
    requires
        0 <= pos,
        pos + enc_addr_items(v).len() <= b.len(),
        b.subrange(pos, pos + enc_addr_items(v).len()) == enc_addr_items(v),
    ensures
        parse_addr_items(b, pos, v.len()) == Some((v, pos + enc_addr_items(v).len())),
    decreases v.len(),
{
    if v.len() > 0 {
        lemma_auto_spec_u32_to_from_le_bytes();
        lemma_auto_spec_u64_to_from_le_bytes();
        assert(spec_u32_to_le_bytes(v.first().id_c).len() == 4);
        assert(spec_u64_to_le_bytes(v.first().id_a).len() == 8);
        assert(spec_u64_to_le_bytes(v.first().id_b).len() == 8);
        let e = enc_addr_items(v);
        let e0 = enc_address(v.first());
        let rest = enc_addr_items(v.drop_first());
        assert(e == e0 + rest);
        assert(e0.len() == 21);
        assert(b.subrange(pos, pos + 21) =~= e.subrange(0, 21));
        assert(e.subrange(0, 21) =~= e0);
        lemma_parse_address_enc(b, pos, v.first());
        let p = pos + 21;
        assert(b.subrange(p, p + rest.len() as int) =~= e.subrange(21, e.len() as int));
        assert(e.subrange(21, e.len() as int) =~= rest);
        lemma_parse_addr_items_enc(b, p, v.drop_first());
        assert(seq![v.first()] + v.drop_first() =~= v);
    }
}

/// Parsing a string list laid down by its encoding gives it back.
pub proof fn lemma_parse_str_list_enc(b: Seq<u8>, pos: int, v: Seq<Seq<char>>)
    requires
        0 <= pos,
        v.len() <= u32::MAX,
        all_strs_encodable(v),
        pos + enc_str_list(v).len() <= b.len(),
        b.subrange(pos, pos + enc_str_list(v).len()) == enc_str_list(v),
    ensures
        parse_str_list(b, pos) == Some((v, pos + enc_str_list(v).len())),
{
    lemma_auto_spec_u32_to_from_le_bytes();
    assert(spec_u32_to_le_bytes(v.len() as u32).len() == 4);
    let e = enc_str_list(v);
    assert(b.subrange(pos, pos + 4) =~= e.subrange(0, 4));
    assert(e.subrange(0, 4) =~= spec_u32_to_le_bytes(v.len() as u32));
    lemma_parse_u32_enc(b, pos, v.len() as u32);
    assert(b.subrange(pos + 4, pos + 4 + enc_str_items(v).len() as int) =~= e.subrange(
        4,
        e.len() as int,
    ));
    assert(e.subrange(4, e.len() as int) =~= enc_str_items(v));
    lemma_parse_str_items_enc(b, pos + 4, v);
}

/// Parsing an address list laid down by its encoding gives it back.
pub proof fn lemma_parse_addr_list_enc(b: Seq<u8>, pos: int, v: Seq<Address>)
    requires
        0 <= pos,
        v.len() <= u32::MAX,
        pos + enc_addr_list(v).len() <= b.len(),
        b.subrange(pos, pos + enc_addr_list(v).len()) == enc_addr_list(v),
    ensures
        parse_addr_list(b, pos) == Some((v, pos + enc_addr_list(v).len())),
{
    lemma_auto_spec_u32_to_from_le_bytes();
    assert(spec_u32_to_le_bytes(v.len() as u32).len() == 4);
    let e = enc_addr_list(v);
    assert(b.subrange(pos, pos + 4) =~= e.subrange(0, 4));
    assert(e.subrange(0, 4) =~= spec_u32_to_le_bytes(v.len() as u32));
    lemma_parse_u32_enc(b, pos, v.len() as u32);
    assert(b.subrange(pos + 4, pos + 4 + enc_addr_items(v).len() as int) =~= e.subrange(
        4,
        e.len() as int,
    ));
    assert(e.subrange(4, e.len() as int) =~= enc_addr_items(v));
    lemma_parse_addr_items_enc(b, pos + 4, v);
}



/// Appends a count-prefixed string sequence.
pub fn push_str_list(out: &mut Vec<u8>, xs: &Vec<String>)
    requires
        xs@.len() <= u32::MAX,
        all_strs_encodable(xs@.map_values(|s: String| s@)),
    ensures
        final(out)@ == old(out)@ + enc_str_list(xs@.map_values(|s: String| s@)),
{
    let ghost vw = xs@.map_values(|s: String| s@);
    push_u32(out, xs.len() as u32);
    let n = xs.len();
    let mut i: usize = 0;
    while i < n
        invariant
            n == xs@.len(),
            0 <= i <= n,
            vw == xs@.map_values(|s: String| s@),
            all_strs_encodable(vw),
            out@ == old(out)@ + spec_u32_to_le_bytes(n as u32) + enc_str_items(
                vw.subrange(0, i as int),
            ),
        decreases n - i,
    {
        proof {
            assert(str_encodable(vw[i as int]));
            assert(vw[i as int] == xs@[i as int]@);
        }
        push_str(out, &xs[i]);
        proof {
            lemma_enc_str_items_push(vw.subrange(0, i as int), vw[i as int]);
            assert(vw.subrange(0, i + 1 as int) =~= vw.subrange(0, i as int).push(vw[i as int]));
            assert(out@ =~= old(out)@ + spec_u32_to_le_bytes(n as u32) + enc_str_items(
                vw.subrange(0, i + 1 as int)));
        }
        i += 1;
    }
    proof {
        assert(vw.subrange(0, n as int) =~= vw);
        assert(final(out)@ =~= old(out)@ + enc_str_list(vw));
    }
}

/// Appends a count-prefixed address sequence.
pub fn push_addr_list(out: &mut Vec<u8>, xs: &Vec<Address>)
    requires
        xs@.len() <= u32::MAX,
    ensures
        final(out)@ == old(out)@ + enc_addr_list(xs@),
{
    push_u32(out, xs.len() as u32);
    let n = xs.len();
    let mut i: usize = 0;
    while i < n
        invariant
            n == xs@.len(),
            0 <= i <= n,
            out@ == old(out)@ + spec_u32_to_le_bytes(n as u32) + enc_addr_items(
                xs@.subrange(0, i as int),
            ),
        decreases n - i,
    {
        push_address(out, &xs[i]);
        proof {
            lemma_enc_addr_items_push(xs@.subrange(0, i as int), xs@[i as int]);
            assert(xs@.subrange(0, i + 1 as int) =~= xs@.subrange(0, i as int).push(
                xs@[i as int]));
            assert(out@ =~= old(out)@ + spec_u32_to_le_bytes(n as u32) + enc_addr_items(
                xs@.subrange(0, i + 1 as int)));
        }
        i += 1;
    }
    proof {
        assert(xs@.subrange(0, n as int) =~= xs@);
        assert(final(out)@ =~= old(out)@ + enc_addr_list(xs@));
    }
}

/// Reads a count-prefixed string sequence.
pub fn read_str_list(v: &Vec<u8>, pos: usize) -> (r: Option<(Vec<String>, usize)>)
    ensures
        match r {
            Some((xs, np)) => parse_str_list(v@, pos as int) == Some(
                (xs@.map_values(|s: String| s@), np as int),
            ),
            None => parse_str_list(v@, pos as int) is None,
        },
{
    match read_u32(v, pos) {
        None => None,
        Some((n, p0)) => {
            let mut xs: Vec<String> = Vec::new();
            let mut cur = p0;
            let mut i: u32 = 0;
            while i < n
                invariant
                    0 <= i <= n,
                    parse_str_list(v@, pos as int) == (match parse_str_items(
                        v@,
                        cur as int,
                        (n - i) as nat,
                    ) {
                        Some((tail, p2)) => Some::<(Seq<Seq<char>>, int)>(
                            (xs@.map_values(|s: String| s@) + tail, p2),
                        ),
                        None => None::<(Seq<Seq<char>>, int)>,
                    }),
                decreases n - i,
            {
                match read_str(v, cur) {
                    None => {
                        return None;
                    },
                    Some((s, np)) => {
                        proof {
                            let f = |s: String| s@;
                            let tail0 = parse_str_items(v@, np as int, (n - i - 1) as nat);
                            if tail0 is Some {
                                let (t2, p3) = tail0->Some_0;
                                assert(xs@.push(s).map_values(f) =~= xs@.map_values(f).push(
                                    s@));
                                assert(xs@.map_values(f) + (seq![s@] + t2) =~= xs@.push(
                                    s,
                                ).map_values(f) + t2);
                            }
                        }
                        xs.push(s);
                        cur = np;
                        i += 1;
                    },
                }
            }
            proof {
                let f = |s: String| s@;
                assert(parse_str_items(v@, cur as int, 0) == Some::<(Seq<Seq<char>>, int)>(
                    (Seq::empty(), cur as int)));
                assert(xs@.map_values(f) + Seq::<Seq<char>>::empty() =~= xs@.map_values(f));
            }
            Some((xs, cur))
        },
    }
}

/// Reads a count-prefixed address sequence.
pub fn read_addr_list(v: &Vec<u8>, pos: usize) -> (r: Option<(Vec<Address>, usize)>)
    ensures
        match r {
            Some((xs, np)) => parse_addr_list(v@, pos as int) == Some((xs@, np as int)),
            None => parse_addr_list(v@, pos as int) is None,
        },
{
    match read_u32(v, pos) {
        None => None,
        Some((n, p0)) => {
            let mut xs: Vec<Address> = Vec::new();
            let mut cur = p0;
            let mut i: u32 = 0;
            while i < n
                invariant
                    0 <= i <= n,
                    parse_addr_list(v@, pos as int) == (match parse_addr_items(
                        v@,
                        cur as int,
                        (n - i) as nat,
                    ) {
                        Some((tail, p2)) => Some::<(Seq<Address>, int)>((xs@ + tail, p2)),
                        None => None::<(Seq<Address>, int)>,
                    }),
                decreases n - i,
            {
                match read_address(v, cur) {
                    None => {
                        return None;
                    },
                    Some((a, np)) => {
                        proof {
                            let tail0 = parse_addr_items(v@, np as int, (n - i - 1) as nat);
                            if tail0 is Some {
                                let (t2, p3) = tail0->Some_0;
                                assert(xs@ + (seq![a] + t2) =~= xs@.push(a) + t2);
                            }
                        }
                        xs.push(a);
                        cur = np;
                        i += 1;
                    },
                }
            }
            proof {
                assert(parse_addr_items(v@, cur as int, 0) == Some::<(Seq<Address>, int)>(
                    (Seq::empty(), cur as int)));
                assert(xs@ + Seq::<Address>::empty() =~= xs@);
            }
            Some((xs, cur))
        },
    }
}



/// Constructor arguments of a ballot, as carried by a deployment request.
#[derive(Debug)]
pub struct BallotInitData {
    pub options: Vec<String>,
    pub title: String,
    pub description: String,
    pub organization: Address,
    pub administrator: Address,
    pub eligible_voters: Vec<Address>,
    pub duration_seconds: u64,
}

/// Mathematical view of [`BallotInitData`].
pub struct BallotInitView {
    pub options: Seq<Seq<char>>,
    pub title: Seq<char>,
    pub description: Seq<char>,
    pub organization: Address,
    pub administrator: Address,
    pub eligible_voters: Seq<Address>,
    pub duration_seconds: u64,
}

impl View for BallotInitData {
    type V = BallotInitView;

    open spec fn view(&self) -> BallotInitView {
        BallotInitView {
            options: self.options@.map_values(|s: String| s@),
            title: self.title@,
            description: self.description@,
            organization: self.organization,
            administrator: self.administrator,
            eligible_voters: self.eligible_voters@,
            duration_seconds: self.duration_seconds,
        }
    }
}

/// All the variable-length parts fit behind their length prefixes.
pub open spec fn ballot_init_encodable(d: BallotInitView) -> bool {
    &&& d.options.len() <= u32::MAX
    &&& all_strs_encodable(d.options)
    &&& str_encodable(d.title)
    &&& str_encodable(d.description)
    &&& d.eligible_voters.len() <= u32::MAX
}

/// Encoding of a ballot's constructor arguments: the header, then each
/// argument in declaration order.
pub open spec fn enc_ballot_init(d: BallotInitView) -> Seq<u8> {
    spec_header() + enc_str_list(d.options) + enc_str(d.title) + enc_str(d.description)
        + enc_address(d.organization) + enc_address(d.administrator) + enc_addr_list(
        d.eligible_voters,
    ) + spec_u64_to_le_bytes(d.duration_seconds)
}

/// Parses a whole ballot constructor payload; every byte must be consumed.
pub open spec fn parse_ballot_init(b: Seq<u8>) -> Option<BallotInitView> {
    if b.len() >= 5 && b.subrange(0, 5) == spec_header() {
        match parse_str_list(b, 5) {
            Some((options, p1)) => match parse_str(b, p1) {
                Some((title, p2)) => match parse_str(b, p2) {
                    Some((description, p3)) => match parse_address(b, p3) {
                        Some((organization, p4)) => match parse_address(b, p4) {
                            Some((administrator, p5)) => match parse_addr_list(b, p5) {
                                Some((eligible_voters, p6)) => match parse_u64(b, p6) {
                                    Some((duration_seconds, p7)) => if p7 == b.len() {
                                        Some(
                                            BallotInitView {
                                                options,
                                                title,
                                                description,
                                                organization,
                                                administrator,
                                                eligible_voters,
                                                duration_seconds,
                                            },
                                        )
                                    } else {
                                        None
                                    },
                                    None => None,
                                },
                                None => None,
                            },
                            None => None,
                        },
                        None => None,
                    },
                    None => None,
                },
                None => None,
            },
            None => None,
        }
    } else {
        None
    }
}

/// Encodes a ballot's constructor arguments.
pub fn encode_ballot_init(d: &BallotInitData) -> (r: Vec<u8>)
    requires
        ballot_init_encodable(d@),
    ensures
        r@ == enc_ballot_init(d@),
{
    let mut out: Vec<u8> = Vec::new();
    out.push(0xff);
    out.push(0xff);
    out.push(0xff);
    out.push(0xff);
    out.push(0x0f);
    proof {
        assert(out@ =~= spec_header());
    }
    push_str_list(&mut out, &d.options);
    push_str(&mut out, &d.title);
    push_str(&mut out, &d.description);
    push_address(&mut out, &d.organization);
    push_address(&mut out, &d.administrator);
    push_addr_list(&mut out, &d.eligible_voters);
    push_u64(&mut out, d.duration_seconds);
    proof {
        assert(out@ =~= enc_ballot_init(d@));
    }
    out
}

/// Decodes a ballot's constructor arguments.
pub fn decode_ballot_init(v: &Vec<u8>) -> (r: Option<BallotInitData>)
    ensures
        match r {
            Some(d) => parse_ballot_init(v@) == Some(d@),
            None => parse_ballot_init(v@) is None,
        },
{
    if v.len() < 5 {
        return None;
    }
    if !(v[0] == 0xff && v[1] == 0xff && v[2] == 0xff && v[3] == 0xff && v[4] == 0x0f) {
        proof {
            assert(v@.subrange(0, 5) != spec_header());
        }
        return None;
    }
    proof {
        assert(v@.subrange(0, 5) =~= spec_header());
    }
    let (options, p1) = match read_str_list(v, 5) {
        Some(x) => x,
        None => { return None; },
    };
    let (title, p2) = match read_str(v, p1) {
        Some(x) => x,
        None => { return None; },
    };
    let (description, p3) = match read_str(v, p2) {
        Some(x) => x,
        None => { return None; },
    };
    let (organization, p4) = match read_address(v, p3) {
        Some(x) => x,
        None => { return None; },
    };
    let (administrator, p5) = match read_address(v, p4) {
        Some(x) => x,
        None => { return None; },
    };
    let (eligible_voters, p6) = match read_addr_list(v, p5) {
        Some(x) => x,
        None => { return None; },
    };
    let (duration_seconds, p7) = match read_u64(v, p6) {
        Some(x) => x,
        None => { return None; },
    };
    if p7 != v.len() {
        return None;
    }
    Some(
        BallotInitData {
            options,
            title,
            description,
            organization,
            administrator,
            eligible_voters,
            duration_seconds,
        },
    )
}

/// Round trip: parsing the encoding of a ballot's constructor arguments
/// yields the arguments unchanged.
pub proof fn lemma_ballot_init_round_trip(d: BallotInitView)
    requires
        ballot_init_encodable(d),
    ensures
        Some(d) == parse_ballot_init(enc_ballot_init(d)),
{
    lemma_auto_spec_u32_to_from_le_bytes();
    lemma_auto_spec_u64_to_from_le_bytes();
    let b = enc_ballot_init(d);
    let e1 = enc_str_list(d.options);
    let e2 = enc_str(d.title);
    let e3 = enc_str(d.description);
    let e4 = enc_address(d.organization);
    let e5 = enc_address(d.administrator);
    let e6 = enc_addr_list(d.eligible_voters);
    let e7 = spec_u64_to_le_bytes(d.duration_seconds);
    assert(spec_u64_to_le_bytes(d.duration_seconds).len() == 8);
    let p1 = 5 + e1.len() as int;
    let p2 = p1 + e2.len() as int;
    let p3 = p2 + e3.len() as int;
    let p4 = p3 + e4.len() as int;
    let p5 = p4 + e5.len() as int;
    let p6 = p5 + e6.len() as int;
    let p7 = p6 + 8;
    assert(b.len() == p7);
    assert(b.subrange(0, 5) =~= spec_header());
    assert(b.subrange(5, p1) =~= e1);
    lemma_parse_str_list_enc(b, 5, d.options);
    assert(b.subrange(p1, p1 + e2.len() as int) =~= e2);
    lemma_parse_str_enc(b, p1, d.title);
    assert(b.subrange(p2, p2 + e3.len() as int) =~= e3);
    lemma_parse_str_enc(b, p2, d.description);
    assert(spec_u32_to_le_bytes(d.organization.id_c).len() == 4);
    assert(spec_u64_to_le_bytes(d.organization.id_a).len() == 8);
    assert(spec_u64_to_le_bytes(d.organization.id_b).len() == 8);
    assert(e4.len() == 21);
    assert(b.subrange(p3, p3 + 21) =~= e4);
    lemma_parse_address_enc(b, p3, d.organization);
    assert(spec_u32_to_le_bytes(d.administrator.id_c).len() == 4);
    assert(spec_u64_to_le_bytes(d.administrator.id_a).len() == 8);
    assert(spec_u64_to_le_bytes(d.administrator.id_b).len() == 8);
    assert(e5.len() == 21);
    assert(b.subrange(p4, p4 + 21) =~= e5);
    lemma_parse_address_enc(b, p4, d.administrator);
    assert(b.subrange(p5, p5 + e6.len() as int) =~= e6);
    lemma_parse_addr_list_enc(b, p5, d.eligible_voters);
    assert(b.subrange(p6, p6 + 8) =~= e7);
    lemma_parse_u64_enc(b, p6, d.duration_seconds);
}


/// Constructor arguments of an organization, as carried by a deployment
/// request.
#[derive(Debug)]
pub struct OrgInitData {
    pub name: String,
    pub description: String,
    pub profile_image: String,
    pub banner_image: String,
    pub website: String,
    pub x_account: String,
    pub discord_server: String,
    pub administrator: Address,
    pub ballot_contract_zkwa: Vec<u8>,
    pub ballot_contract_abi: Vec<u8>,
    pub factory_address: Address,
}

/// Mathematical view of [`OrgInitData`].
pub struct OrgInitView {
    pub name: Seq<char>,
    pub description: Seq<char>,
    pub profile_image: Seq<char>,
    pub banner_image: Seq<char>,
    pub website: Seq<char>,
    pub x_account: Seq<char>,
    pub discord_server: Seq<char>,
    pub administrator: Address,
    pub ballot_contract_zkwa: Seq<u8>,
    pub ballot_contract_abi: Seq<u8>,
    pub factory_address: Address,
}

impl View for OrgInitData {
    type V = OrgInitView;

    open spec fn view(&self) -> OrgInitView {
        OrgInitView {
            name: self.name@,
            description: self.description@,
            profile_image: self.profile_image@,
            banner_image: self.banner_image@,
            website: self.website@,
            x_account: self.x_account@,
            discord_server: self.discord_server@,
            administrator: self.administrator,
            ballot_contract_zkwa: self.ballot_contract_zkwa@,
            ballot_contract_abi: self.ballot_contract_abi@,
            factory_address: self.factory_address,
        }
    }
}

/// All the variable-length parts fit behind their length prefixes.
pub open spec fn org_init_encodable(d: OrgInitView) -> bool {
    &&& str_encodable(d.name)
    &&& str_encodable(d.description)
    &&& str_encodable(d.profile_image)
    &&& str_encodable(d.banner_image)
    &&& str_encodable(d.website)
    &&& str_encodable(d.x_account)
    &&& str_encodable(d.discord_server)
    &&& blob_encodable(d.ballot_contract_zkwa)
    &&& blob_encodable(d.ballot_contract_abi)
}

/// Encoding of an organization's constructor arguments: the header, then
/// each argument in declaration order.
pub open spec fn enc_org_init(d: OrgInitView) -> Seq<u8> {
    spec_header() + enc_str(d.name) + enc_str(d.description) + enc_str(d.profile_image)
        + enc_str(d.banner_image) + enc_str(d.website) + enc_str(d.x_account) + enc_str(
        d.discord_server,
    ) + enc_address(d.administrator) + enc_blob(d.ballot_contract_zkwa) + enc_blob(
        d.ballot_contract_abi,
    ) + enc_address(d.factory_address)
}

/// Parses a whole organization constructor payload; every byte must be
/// consumed.
pub open spec fn parse_org_init(b: Seq<u8>) -> Option<OrgInitView> {
    if b.len() >= 5 && b.subrange(0, 5) == spec_header() {
        match parse_str(b, 5) {
            Some((name, p1)) => match parse_str(b, p1) {
                Some((description, p2)) => match parse_str(b, p2) {
                    Some((profile_image, p3)) => match parse_str(b, p3) {
                        Some((banner_image, p4)) => match parse_str(b, p4) {
                            Some((website, p5)) => match parse_str(b, p5) {
                                Some((x_account, p6)) => match parse_str(b, p6) {
                                    Some((discord_server, p7)) => match parse_address(b, p7) {
                                        Some((administrator, p8)) => match parse_blob(b, p8) {
                                            Some((ballot_contract_zkwa, p9)) => match parse_blob(
                                                b,
                                                p9,
                                            ) {
                                                Some((ballot_contract_abi, p10)) => match parse_address(
                                                    b,
                                                    p10,
                                                ) {
                                                    Some((factory_address, p11)) => if p11
                                                        == b.len() {
                                                        Some(
                                                            OrgInitView {
                                                                name,
                                                                description,
                                                                profile_image,
                                                                banner_image,
                                                                website,
                                                                x_account,
                                                                discord_server,
                                                                administrator,
                                                                ballot_contract_zkwa,
                                                                ballot_contract_abi,
                                                                factory_address,
                                                            },
                                                        )
                                                    } else {
                                                        None
                                                    },
                                                    None => None,
                                                },
                                                None => None,
                                            },
                                            None => None,
                                        },
                                        None => None,
                                    },
                                    None => None,
                                },
                                None => None,
                            },
                            None => None,
                        },
                        None => None,
                    },
                    None => None,
                },
                None => None,
            },
            None => None,
        }
    } else {
        None
    }
}

/// Encodes an organization's constructor arguments.
pub fn encode_org_init(d: &OrgInitData) -> (r: Vec<u8>)
    requires
        org_init_encodable(d@),
    ensures
        r@ == enc_org_init(d@),
{
    let mut out: Vec<u8> = Vec::new();
    out.push(0xff);
    out.push(0xff);
    out.push(0xff);
    out.push(0xff);
    out.push(0x0f);
    proof {
        assert(out@ =~= spec_header());
    }
    push_str(&mut out, &d.name);
    push_str(&mut out, &d.description);
    push_str(&mut out, &d.profile_image);
    push_str(&mut out, &d.banner_image);
    push_str(&mut out, &d.website);
    push_str(&mut out, &d.x_account);
    push_str(&mut out, &d.discord_server);
    push_address(&mut out, &d.administrator);
    push_blob(&mut out, &d.ballot_contract_zkwa);
    push_blob(&mut out, &d.ballot_contract_abi);
    push_address(&mut out, &d.factory_address);
    proof {
        assert(out@ =~= enc_org_init(d@));
    }
    out
}

/// Decodes an organization's constructor arguments.
pub fn decode_org_init(v: &Vec<u8>) -> (r: Option<OrgInitData>)
    ensures
        match r {
            Some(d) => parse_org_init(v@) == Some(d@),
            None => parse_org_init(v@) is None,
        },
{
    if v.len() < 5 {
        return None;
    }
    if !(v[0] == 0xff && v[1] == 0xff && v[2] == 0xff && v[3] == 0xff && v[4] == 0x0f) {
        proof {
            assert(v@.subrange(0, 5) != spec_header());
        }
        return None;
    }
    proof {
        assert(v@.subrange(0, 5) =~= spec_header());
    }
    let (name, p1) = match read_str(v, 5) {
        Some(x) => x,
        None => { return None; },
    };
    let (description, p2) = match read_str(v, p1) {
        Some(x) => x,
        None => { return None; },
    };
    let (profile_image, p3) = match read_str(v, p2) {
        Some(x) => x,
        None => { return None; },
    };
    let (banner_image, p4) = match read_str(v, p3) {
        Some(x) => x,
        None => { return None; },
    };
    let (website, p5) = match read_str(v, p4) {
        Some(x) => x,
        None => { return None; },
    };
    let (x_account, p6) = match read_str(v, p5) {
        Some(x) => x,
        None => { return None; },
    };
    let (discord_server, p7) = match read_str(v, p6) {
        Some(x) => x,
        None => { return None; },
    };
    let (administrator, p8) = match read_address(v, p7) {
        Some(x) => x,
        None => { return None; },
    };
    let (ballot_contract_zkwa, p9) = match read_blob(v, p8) {
        Some(x) => x,
        None => { return None; },
    };
    let (ballot_contract_abi, p10) = match read_blob(v, p9) {
        Some(x) => x,
        None => { return None; },
    };
    let (factory_address, p11) = match read_address(v, p10) {
        Some(x) => x,
        None => { return None; },
    };
    if p11 != v.len() {
        return None;
    }
    Some(
        OrgInitData {
            name,
            description,
            profile_image,
            banner_image,
            website,
            x_account,
            discord_server,
            administrator,
            ballot_contract_zkwa,
            ballot_contract_abi,
            factory_address,
        },
    )
}

/// Round trip: parsing the encoding of an organization's constructor
/// arguments yields the arguments unchanged.
#[verifier::rlimit(100)]
#[verifier::spinoff_prover]
pub proof fn lemma_org_init_round_trip(d: OrgInitView)
    requires
        org_init_encodable(d),
    ensures
        Some(d) == parse_org_init(enc_org_init(d)),
{
    lemma_auto_spec_u32_to_from_le_bytes();
    lemma_auto_spec_u64_to_from_le_bytes();
    let b = enc_org_init(d);
    let e1 = enc_str(d.name);
    let e2 = enc_str(d.description);
    let e3 = enc_str(d.profile_image);
    let e4 = enc_str(d.banner_image);
    let e5 = enc_str(d.website);
    let e6 = enc_str(d.x_account);
    let e7 = enc_str(d.discord_server);
    let e8 = enc_address(d.administrator);
    let e9 = enc_blob(d.ballot_contract_zkwa);
    let e10 = enc_blob(d.ballot_contract_abi);
    let e11 = enc_address(d.factory_address);
    assert(spec_u32_to_le_bytes(d.administrator.id_c).len() == 4);
    assert(spec_u64_to_le_bytes(d.administrator.id_a).len() == 8);
    assert(spec_u64_to_le_bytes(d.administrator.id_b).len() == 8);
    assert(e8.len() == 21);
    assert(spec_u32_to_le_bytes(d.factory_address.id_c).len() == 4);
    assert(spec_u64_to_le_bytes(d.factory_address.id_a).len() == 8);
    assert(spec_u64_to_le_bytes(d.factory_address.id_b).len() == 8);
    assert(e11.len() == 21);
    let p1 = 5 + e1.len() as int;
    let p2 = p1 + e2.len() as int;
    let p3 = p2 + e3.len() as int;
    let p4 = p3 + e4.len() as int;
    let p5 = p4 + e5.len() as int;
    let p6 = p5 + e6.len() as int;
    let p7 = p6 + e7.len() as int;
    let p8 = p7 + 21;
    let p9 = p8 + e9.len() as int;
    let p10 = p9 + e10.len() as int;
    let p11 = p10 + 21;
    assert(b.len() == p11);
    assert(b.subrange(0, 5) =~= spec_header());
    assert(b.subrange(5, p1) =~= e1);
    lemma_parse_str_enc(b, 5, d.name);
    assert(b.subrange(p1, p2) =~= e2);
    lemma_parse_str_enc(b, p1, d.description);
    assert(b.subrange(p2, p3) =~= e3);
    lemma_parse_str_enc(b, p2, d.profile_image);
    assert(b.subrange(p3, p4) =~= e4);
    lemma_parse_str_enc(b, p3, d.banner_image);
    assert(b.subrange(p4, p5) =~= e5);
    lemma_parse_str_enc(b, p4, d.website);
    assert(b.subrange(p5, p6) =~= e6);
    lemma_parse_str_enc(b, p5, d.x_account);
    assert(b.subrange(p6, p7) =~= e7);
    lemma_parse_str_enc(b, p6, d.discord_server);
    assert(b.subrange(p7, p8) =~= e8);
    lemma_parse_address_enc(b, p7, d.administrator);
    assert(b.subrange(p8, p9) =~= e9);
    lemma_parse_blob_enc(b, p8, d.ballot_contract_zkwa);
    assert(b.subrange(p9, p10) =~= e10);
    lemma_parse_blob_enc(b, p9, d.ballot_contract_abi);
    assert(b.subrange(p10, p11) =~= e11);
    lemma_parse_address_enc(b, p10, d.factory_address);
}



/// Encoding of the factory's ballot deployment request: the header, then
/// the options, the title and the description.
pub open spec fn enc_ballot_request(
    options: Seq<Seq<char>>,
    title: Seq<char>,
    description: Seq<char>,
) -> Seq<u8> {
    spec_header() + enc_str_list(options) + enc_str(title) + enc_str(description)
}

/// Encodes the factory's ballot deployment request.
pub fn encode_ballot_request(options: &Vec<String>, title: &String, description: &String) -> (r:
    Vec<u8>)
    requires
        options@.len() <= u32::MAX,
        all_strs_encodable(options@.map_values(|s: String| s@)),
        str_encodable(title@),
        str_encodable(description@),
    ensures
        r@ == enc_ballot_request(options@.map_values(|s: String| s@), title@, description@),
{
    let mut out: Vec<u8> = Vec::new();
    out.push(0xff);
    out.push(0xff);
    out.push(0xff);
    out.push(0xff);
    out.push(0x0f);
    proof {
        assert(out@ =~= spec_header());
    }
    push_str_list(&mut out, options);
    push_str(&mut out, title);
    push_str(&mut out, description);
    proof {
        assert(out@ =~= enc_ballot_request(
            options@.map_values(|s: String| s@),
            title@,
            description@,
        ));
    }
    out
}


} // verus!
