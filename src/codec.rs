//! The SSH binary encoding: big-endian integers, length-prefixed strings,
//! and the framing of a payload into the outbound buffer.
use byteorder::{BigEndian, ByteOrder};
use cryptovec::CryptoVec;
use vstd::prelude::*;

verus! {

/// The value of four big-endian bytes.
pub open spec fn be32(b: Seq<u8>) -> int
    recommends
        b.len() >= 4,
{
    b[0] as int * 0x1000000 + b[1] as int * 0x10000 + b[2] as int * 0x100 + b[3] as int
}

/// The four big-endian bytes of `x`.
pub open spec fn u32_be(x: u32) -> Seq<u8> {
    seq![
        (x / 0x1000000) as u8,
        ((x / 0x10000) % 0x100) as u8,
        ((x / 0x100) % 0x100) as u8,
        (x % 0x100) as u8,
    ]
}

/// An SSH string: its length as four big-endian bytes, then its bytes.
pub open spec fn ssh_string(s: Seq<u8>) -> Seq<u8> {
    u32_be(s.len() as u32) + s
}

/// A payload as it stands in the outbound buffer: its length, then itself.
pub open spec fn framed(p: Seq<u8>) -> Seq<u8> {
    u32_be(p.len() as u32) + p
}

/// A boolean on the wire.
pub open spec fn bool_byte(b: bool) -> u8 {
    if b { 1 } else { 0 }
}

/// The byte at `pos`, and the position after it.
pub open spec fn parse_u8(b: Seq<u8>, pos: int) -> Option<(u8, int)> {
    if 0 <= pos < b.len() {
        Some((b[pos], pos + 1))
    } else {
        None
    }
}

/// The big-endian `u32` at `pos`, and the position after it.
pub open spec fn parse_u32(b: Seq<u8>, pos: int) -> Option<(u32, int)> {
    if 0 <= pos && pos + 4 <= b.len() {
        Some((be32(b.subrange(pos, pos + 4)) as u32, pos + 4))
    } else {
        None
    }
}

/// The SSH string at `pos`, and the position after it.
pub open spec fn parse_string(b: Seq<u8>, pos: int) -> Option<(Seq<u8>, int)> {
    match parse_u32(b, pos) {
        Some((n, p)) => if p + n <= b.len() {
            Some((b.subrange(p, p + n), p + n))
        } else {
            None
        },
        None => None,
    }
}

pub proof fn lemma_be32_u32_be(x: u32)
    ensures
        be32(u32_be(x)) == x as int,
{
}

#[verifier::external_type_specification]
#[verifier::external_body]
pub struct ExCryptoVec(CryptoVec);

/// The bytes held by a `CryptoVec`.
pub uninterp spec fn crypto_bytes(v: CryptoVec) -> Seq<u8>;

/// Relies on `CryptoVec::new`: a new buffer holds no byte.
#[verifier::external_body]
pub(crate) fn crypto_vec_new() -> (r: CryptoVec)
    ensures
        crypto_bytes(r) == Seq::<u8>::empty(),
{
    CryptoVec::new()
}

/// Relies on `CryptoVec::extend`: the slice is appended. The sum of the old
/// length and the slice's cannot overflow, both being held in memory.
#[verifier::external_body]
pub(crate) fn crypto_vec_extend(v: &mut CryptoVec, s: &[u8])
    ensures
        crypto_bytes(*final(v)) == crypto_bytes(*old(v)) + s@,
{
    v.extend(s)
}

/// Relies on `CryptoVec::push_u32_be`: four big-endian bytes are appended.
#[verifier::external_body]
pub(crate) fn crypto_vec_push_u32_be(v: &mut CryptoVec, x: u32)
    ensures
        crypto_bytes(*final(v)) == crypto_bytes(*old(v)) + u32_be(x),
{
    v.push_u32_be(x)
}

/// Relies on byteorder's `BigEndian::read_u32`: the four bytes at `pos`,
/// most significant first.
#[verifier::external_body]
fn read_be_u32(b: &[u8], pos: usize) -> (r: u32)
    requires
        pos + 4 <= b@.len(),
    ensures
        r as int == be32(b@.subrange(pos as int, pos + 4)),
{
    BigEndian::read_u32(&b[pos..])
}

/// Reads one byte.
pub fn read_u8(b: &[u8], pos: usize) -> (r: Option<(u8, usize)>)
    ensures
        match (r, parse_u8(b@, pos as int)) {
            (Some((x, p)), Some((y, q))) => x == y && p == q,
            (None, None) => true,
            _ => false,
        },
{
    if pos < b.len() {
        Some((b[pos], pos + 1))
    } else {
        None
    }
}

/// Reads a big-endian `u32`.
pub fn read_u32(b: &[u8], pos: usize) -> (r: Option<(u32, usize)>)
    ensures
        match (r, parse_u32(b@, pos as int)) {
            (Some((x, p)), Some((y, q))) => x == y && p == q,
            (None, None) => true,
            _ => false,
        },
{
    if pos <= b.len() && b.len() - pos >= 4 {
        let x = read_be_u32(b, pos);
        Some((x, pos + 4))
    } else {
        None
    }
}

/// Reads an SSH string, returning the span of its bytes; its end is the
/// position after it.
pub fn read_string_span(b: &[u8], pos: usize) -> (r: Option<(usize, usize)>)
    ensures
        match (r, parse_string(b@, pos as int)) {
            (Some((s, e)), Some((y, q))) => b@.subrange(s as int, e as int) == y && e == q
                && s <= e <= b@.len(),
            (None, None) => true,
            _ => false,
        },
{
    match read_u32(b, pos) {
        Some((n, p)) => {
            if b.len() - p >= n as usize {
                Some((p, p + n as usize))
            } else {
                None
            }
        },
        None => None,
    }
}

/// Reads an SSH string into a vector of its own.
pub fn read_string(b: &[u8], pos: usize) -> (r: Option<(Vec<u8>, usize)>)
    ensures
        match (r, parse_string(b@, pos as int)) {
            (Some((x, p)), Some((y, q))) => x@ == y && p == q,
            (None, None) => true,
            _ => false,
        },
{
    match read_string_span(b, pos) {
        Some((s, e)) => {
            let mut v: Vec<u8> = Vec::new();
            v.extend_from_slice(&b[s..e]);
            Some((v, e))
        },
        None => None,
    }
}

/// Appends the four big-endian bytes of `x`.
pub fn push_u32(v: &mut Vec<u8>, x: u32)
    ensures
        final(v)@ == old(v)@ + u32_be(x),
{
    v.push((x / 0x1000000) as u8);
    v.push(((x / 0x10000) % 0x100) as u8);
    v.push(((x / 0x100) % 0x100) as u8);
    v.push((x % 0x100) as u8);
    assert(final(v)@ =~= old(v)@ + u32_be(x));
}

/// Appends `s` as an SSH string.
pub fn push_string(v: &mut Vec<u8>, s: &[u8])
    ensures
        final(v)@ == old(v)@ + ssh_string(s@),
{
    push_u32(v, #[verifier::truncate] (s.len() as u32));
    v.extend_from_slice(s);
    assert(final(v)@ =~= old(v)@ + ssh_string(s@));
}

/// Frames `payload` into the outbound buffer: its length, then itself.
pub fn push_packet(w: &mut CryptoVec, payload: &[u8])
    ensures
        crypto_bytes(*final(w)) == crypto_bytes(*old(w)) + framed(payload@),
{
    crypto_vec_push_u32_be(w, #[verifier::truncate] (payload.len() as u32));
    crypto_vec_extend(w, payload);
    assert(crypto_bytes(*final(w)) =~= crypto_bytes(*old(w)) + framed(payload@));
}

} // verus!
