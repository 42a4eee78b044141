//! The protobuf wire format, as far as SlateFS records use it.

use prost::encoding::{DecodeContext, WireType};
use prost::DecodeError;
use vstd::prelude::*;

verus! {

/// `v` in base 128, least significant digit first, with the high bit set on
/// every byte but the last.
pub open spec fn varint_bytes(v: nat) -> Seq<u8>
    decreases v,
{
    if v < 128 {
        seq![v as u8]
    } else {
        seq![(128 + v % 128) as u8] + varint_bytes(v / 128)
    }
}

/// The number that `s` starts with, written in at most `limit` bytes of which
/// the last of all holds a single bit, and what follows it.
pub open spec fn varint_read(s: Seq<u8>, limit: nat) -> Option<(nat, Seq<u8>)>
    decreases limit,
{
    if s.len() == 0 || limit == 0 {
        None
    } else if s[0] < 128 {
        if limit == 1 && s[0] >= 2 {
            None
        } else {
            Some((s[0] as nat, s.skip(1)))
        }
    } else {
        match varint_read(s.skip(1), (limit - 1) as nat) {
            Some((v, rest)) => Some(((s[0] - 128 + 128 * v) as nat, rest)),
            None => None,
        }
    }
}

/// A 64-bit number takes at most this many bytes.
pub open spec fn varint_limit() -> nat {
    10
}

/// The 64-bit number that `s` starts with, and what follows it.
pub open spec fn varint_of(s: Seq<u8>) -> Option<(nat, Seq<u8>)> {
    varint_read(s, varint_limit())
}

/// The field tag and wire type that `s` starts with, and what follows them.
pub open spec fn key_of(s: Seq<u8>) -> Option<(nat, nat, Seq<u8>)> {
    match varint_of(s) {
        Some((key, rest)) => if key <= u32::MAX && key % 8 <= 5 && key / 8 >= 1 {
            Some((key / 8, key % 8, rest))
        } else {
            None
        },
        None => None,
    }
}

/// What follows `len` bytes of `s`, where it has them.
pub open spec fn after_bytes(s: Seq<u8>, len: nat) -> Option<Seq<u8>> {
    if len <= s.len() {
        Some(s.skip(len as int))
    } else {
        None
    }
}

/// What follows the group with tag `tag` whose start `bytes` comes after, where
/// `prost::encoding::skip_field` can read past it.
pub uninterp spec fn skipped_group(tag: u32, bytes: Seq<u8>) -> Option<Seq<u8>>;

/// What follows the value of a field that nobody asked for.
pub open spec fn skipped_field(wire_type: nat, tag: u32, s: Seq<u8>) -> Option<Seq<u8>> {
    if wire_type == 0 {
        match varint_of(s) {
            Some((_, rest)) => Some(rest),
            None => None,
        }
    } else if wire_type == 1 {
        after_bytes(s, 8)
    } else if wire_type == 2 {
        match varint_of(s) {
            Some((len, rest)) => after_bytes(rest, len),
            None => None,
        }
    } else if wire_type == 3 {
        skipped_group(tag, s)
    } else if wire_type == 5 {
        after_bytes(s, 4)
    } else {
        None
    }
}

/// `prost::encoding::uint64::encode`: appends the key of a varint field and
/// then the value, both as varints.
#[verifier::external_body]
pub(crate) fn encode_uint64(tag: u32, value: u64, out: &mut Vec<u8>)
    requires
        1 <= tag < 0x2000_0000,
    ensures
        final(out)@ == old(out)@ + varint_bytes(8 * tag as nat) + varint_bytes(value as nat),
{
    prost::encoding::uint64::encode(tag, &value, out)
}

/// `prost::encoding::decode_key`: reads a tag and a wire type off the front, and
/// fails exactly where there is no such key.
#[verifier::external_body]
pub(crate) fn decode_key(buf: &[u8]) -> (r: std::result::Result<(u32, u8, &[u8]), DecodeError>)
    ensures
        r is Ok <==> key_of(buf@) is Some,
        r matches Ok((tag, wire_type, rest)) ==> key_of(buf@) == Some(
            (tag as nat, wire_type as nat, rest@),
        ),
{
    let mut rest = buf;
    let (tag, wire_type) = prost::encoding::decode_key(&mut rest)?;
    Ok((tag, wire_type as u8, rest))
}

/// `prost::encoding::uint64::merge`: reads the varint that a `uint64` field
/// holds off the front, and fails exactly where the wire type is another or
/// there is no varint.
#[verifier::external_body]
pub(crate) fn merge_uint64(wire_type: u8, buf: &[u8]) -> (r: std::result::Result<
    (u64, &[u8]),
    DecodeError,
>)
    ensures
        r is Ok <==> (wire_type == 0 && varint_of(buf@) is Some),
        r matches Ok((value, rest)) ==> varint_of(buf@) == Some((value as nat, rest@)),
{
    let mut rest = buf;
    let mut value: u64 = 0;
    let wire_type = WireType::try_from(u64::from(wire_type))?;
    prost::encoding::uint64::merge(wire_type, &mut value, &mut rest, DecodeContext::default())?;
    Ok((value, rest))
}

/// `prost::DecodeError::push`: adds the field that could not be read to the
/// wording of the error, of which nothing is claimed.
#[verifier::external_body]
pub(crate) fn name_field(error: DecodeError, message: &'static str, field: &'static str) -> (r:
    DecodeError) {
    let mut error = error;
    error.push(message, field);
    error
}

/// `prost::encoding::skip_field`: reads past the value of a field, and fails
/// exactly where there is no such value. Where a group ends is prost's to say;
/// whatever the field, what is left is an end of `buf`.
#[verifier::external_body]
pub(crate) fn skip_field(wire_type: u8, tag: u32, buf: &[u8]) -> (r: std::result::Result<
    &[u8],
    DecodeError,
>)
    ensures
        wire_type == 3 ==> (r is Ok <==> skipped_group(tag, buf@) is Some),
        r is Ok <==> skipped_field(wire_type as nat, tag, buf@) is Some,
        r matches Ok(rest) ==> skipped_field(wire_type as nat, tag, buf@) == Some(rest@),
        r matches Ok(rest) ==> rest@.len() <= buf@.len() && rest@ == buf@.skip(
            buf@.len() - rest@.len(),
        ),
{
    let mut rest = buf;
    let wire_type = WireType::try_from(u64::from(wire_type))?;
    prost::encoding::skip_field(wire_type, tag, &mut rest, DecodeContext::default())?;
    Ok(rest)
}

/// A number that is read leaves fewer bytes than there were, and fits.
pub proof fn lemma_varint_read(s: Seq<u8>, limit: nat)
    ensures
        varint_read(s, limit) matches Some((v, rest)) ==> rest.len() < s.len(),
    decreases limit,
{
    if s.len() > 0 && limit > 0 && s[0] >= 128 {
        lemma_varint_read(s.skip(1), (limit - 1) as nat);
    }
}

spec fn varint_range(limit: nat) -> nat
    decreases limit,
{
    if limit == 0 {
        1
    } else if limit == 1 {
        2
    } else {
        128 * varint_range((limit - 1) as nat)
    }
}

proof fn lemma_varint_round_trip(v: nat, limit: nat, rest: Seq<u8>)
    requires
        limit >= 1,
        v < varint_range(limit),
    ensures
        varint_read(varint_bytes(v) + rest, limit) == Some((v, rest)),
    decreases limit,
{
    let s = varint_bytes(v) + rest;
    if v < 128 {
        assert(s.skip(1) =~= rest);
    } else {
        assert(s.skip(1) =~= varint_bytes(v / 128) + rest);
        lemma_varint_round_trip(v / 128, (limit - 1) as nat, rest);
    }
}

/// Reading a number back gives the number that was written, and leaves what
/// was written after it.
pub proof fn varint_round_trips(v: u64, rest: Seq<u8>)
    ensures
        varint_of(varint_bytes(v as nat) + rest) == Some((v as nat, rest)),
{
    reveal_with_fuel(varint_range, 11);
    lemma_varint_round_trip(v as nat, 10, rest);
}

} // verus!
