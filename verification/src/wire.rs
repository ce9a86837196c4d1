//! Wire-format primitives shared by the packet codecs: big-endian 16-bit
//! values, length-prefixed fields, and the UTF-8 boundary between raw
//! bytes and text.

use vstd::prelude::*;

verus! {

/// Largest byte count a 16-bit length prefix can announce.
pub const FIELD_MAX: usize = 65535;

/// The two bytes of `v`, most significant first.
pub open spec fn spec_u16_be(v: u16) -> Seq<u8> {
    seq![(v / 256) as u8, (v % 256) as u8]
}

/// The value read back from two big-endian bytes.
pub open spec fn spec_u16_from_be(hi: u8, lo: u8) -> u16 {
    (hi * 256 + lo) as u16
}

pub proof fn lemma_u16_be_round_trip(v: u16)
    ensures
        spec_u16_from_be(spec_u16_be(v)[0], spec_u16_be(v)[1]) == v,
{
}

/// A byte field on the wire: 16-bit big-endian length, then the bytes.
/// Meaningful only when `bytes` fits the prefix.
pub open spec fn spec_bytes_field(bytes: Seq<u8>) -> Seq<u8> {
    spec_u16_be(bytes.len() as u16) + bytes
}

/// A UTF-8 string field on the wire: its encoding, length-prefixed.
pub open spec fn spec_str_field(s: Seq<char>) -> Seq<u8> {
    spec_bytes_field(vstd::utf8::encode_utf8(s))
}

/// Append `v` to `buf`, most significant byte first.
pub fn push_u16_be(buf: &mut Vec<u8>, v: u16)
    ensures
        final(buf)@ == old(buf)@ + spec_u16_be(v),
{
    buf.push((v / 256) as u8);
    buf.push((v % 256) as u8);
    assert(buf@ =~= old(buf)@ + spec_u16_be(v));
}

/// Append a length-prefixed byte field to `buf`.
pub fn encode_bytes_field(buf: &mut Vec<u8>, data: &[u8])
    requires
        data@.len() <= FIELD_MAX,
    ensures
        final(buf)@ == old(buf)@ + spec_bytes_field(data@),
{
    push_u16_be(buf, data.len() as u16);
    buf.extend_from_slice(data);
    assert(buf@ =~= old(buf)@ + spec_bytes_field(data@));
}

/// Append a length-prefixed UTF-8 string field to `buf`.
pub fn encode_str_field(buf: &mut Vec<u8>, s: &str)
    requires
        vstd::utf8::encode_utf8(s@).len() <= FIELD_MAX,
    ensures
        final(buf)@ == old(buf)@ + spec_str_field(s@),
{
    let bytes = s.as_bytes();
    encode_bytes_field(buf, bytes);
}

/// Relies on `core::str::from_utf8`: it succeeds exactly on valid UTF-8,
/// and the returned slice holds the decoded characters of those bytes.
#[verifier::external_body]
pub fn bytes_to_str(bytes: &[u8]) -> (r: Option<&str>)
    ensures
        r is Some <==> vstd::utf8::valid_utf8(bytes@),
        r matches Some(s) ==> s@ == vstd::utf8::decode_utf8(bytes@),
{
    core::str::from_utf8(bytes).ok()
}

} // verus!
