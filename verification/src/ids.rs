//! File IDs as they are stored: eight bytes.

use vstd::prelude::*;

verus! {

/// The `width` lowest bytes of `n`, most significant first.
pub open spec fn be_bytes(n: nat, width: nat) -> Seq<u8>
    decreases width,
{
    if width == 0 {
        Seq::empty()
    } else {
        be_bytes(n / 256, (width - 1) as nat).push((n % 256) as u8)
    }
}

/// The number that `bytes` spell, most significant byte first.
pub open spec fn be_value(bytes: Seq<u8>) -> nat
    decreases bytes.len(),
{
    if bytes.len() == 0 {
        0
    } else {
        be_value(bytes.drop_last()) * 256 + bytes.last() as nat
    }
}

/// The stored form of an ID, most significant byte first.
pub open spec fn be_id(id: u64) -> Seq<u8> {
    be_bytes(id as nat, 8)
}

/// The stored form of an ID, least significant byte first.
pub open spec fn le_id(id: u64) -> Seq<u8> {
    be_id(id).reverse()
}

/// How a catalog stores IDs.
#[derive(Clone, Copy, Debug, PartialEq, Eq, Structural)]
pub enum IdForm {
    /// Most significant byte first, with ID 0 reserved.
    BigEndian,
    /// Least significant byte first.
    LittleEndian,
}

/// The stored form of an ID.
pub open spec fn stored_id(form: IdForm, id: u64) -> Seq<u8> {
    match form {
        IdForm::BigEndian => be_id(id),
        IdForm::LittleEndian => le_id(id),
    }
}

/// The ID that `bytes` hold, where they hold one.
pub open spec fn id_held(form: IdForm, bytes: Seq<u8>) -> Option<u64> {
    match form {
        IdForm::BigEndian => if bytes.len() == 8 && be_value(bytes) != 0 {
            Some(be_value(bytes) as u64)
        } else {
            None
        },
        IdForm::LittleEndian => if bytes.len() == 8 {
            Some(be_value(bytes.reverse()) as u64)
        } else {
            None
        },
    }
}

/// How many numbers `width` bytes can tell apart.
spec fn byte_range(width: nat) -> nat
    decreases width,
{
    if width == 0 {
        1
    } else {
        256 * byte_range((width - 1) as nat)
    }
}

proof fn lemma_byte_range_8()
    ensures
        byte_range(8) == u64::MAX + 1,
{
    reveal_with_fuel(byte_range, 9);
}

proof fn lemma_be_round_trip(n: nat, width: nat)
    requires
        n < byte_range(width),
    ensures
        be_bytes(n, width).len() == width,
        be_value(be_bytes(n, width)) == n,
    decreases width,
{
    if width > 0 {
        lemma_be_round_trip(n / 256, (width - 1) as nat);
        assert(be_bytes(n, width).drop_last() =~= be_bytes(n / 256, (width - 1) as nat));
    }
}

proof fn lemma_be_value_bound(bytes: Seq<u8>)
    ensures
        be_value(bytes) < byte_range(bytes.len()),
        be_bytes(be_value(bytes), bytes.len()) == bytes,
    decreases bytes.len(),
{
    if bytes.len() > 0 {
        lemma_be_value_bound(bytes.drop_last());
        assert(bytes.drop_last().push(bytes.last()) =~= bytes);
    } else {
        assert(be_bytes(0, 0) =~= bytes);
    }
}

/// An ID reads back as it was stored.
pub proof fn stored_ids_round_trip(id: u64)
    ensures
        be_id(id).len() == 8,
        be_value(be_id(id)) == id,
        le_id(id).len() == 8,
        be_value(le_id(id).reverse()) == id,
{
    lemma_byte_range_8();
    lemma_be_round_trip(id as nat, 8);
    assert(le_id(id).reverse() =~= be_id(id));
}

/// What is held as an ID is not the reserved one, and an ID that is not
/// reserved reads back as it was stored.
pub proof fn held_ids_round_trip(form: IdForm, id: u64, bytes: Seq<u8>)
    ensures
        form == IdForm::LittleEndian || id != 0 ==> id_held(form, stored_id(form, id)) == Some(id),
        form == IdForm::BigEndian ==> id_held(form, bytes) != Some(0u64),
{
    stored_ids_round_trip(id);
    if bytes.len() == 8 {
        lemma_byte_range_8();
        lemma_be_value_bound(bytes);
    }
}

fn push_be(out: &mut Vec<u8>, n: u64, width: usize)
    ensures
        final(out)@ == old(out)@ + be_bytes(n as nat, width as nat),
    decreases width,
{
    if width > 0 {
        push_be(out, n / 256, width - 1);
        out.push((n % 256) as u8);
    }
}

/// Stores an ID, most significant byte first.
pub fn id_to_be_bytes(id: u64) -> (r: Vec<u8>)
    ensures
        r@ == be_id(id),
{
    let mut out: Vec<u8> = Vec::new();
    push_be(&mut out, id, 8);
    assert(out@ =~= be_id(id));
    out
}

/// Stores an ID, least significant byte first.
pub fn id_to_le_bytes(id: u64) -> (r: Vec<u8>)
    ensures
        r@ == le_id(id),
{
    let be = id_to_be_bytes(id);
    proof {
        stored_ids_round_trip(id);
    }
    let mut out: Vec<u8> = Vec::new();
    let mut i: usize = 0;
    while i < 8
        invariant
            i <= 8,
            be@.len() == 8,
            out@.len() == i,
            forall|k: int| 0 <= k < i ==> #[trigger] out@[k] == be@[7 - k],
        decreases 8 - i,
    {
        out.push(be[7 - i]);
        i = i + 1;
    }
    assert(out@ =~= le_id(id));
    out
}

/// Reads eight bytes, most significant first.
pub fn id_from_be_bytes(bytes: &[u8]) -> (r: u64)
    requires
        bytes@.len() == 8,
    ensures
        r == be_value(bytes@),
{
    proof {
        lemma_byte_range_8();
        lemma_be_value_bound(bytes@);
    }
    let mut id: u64 = 0;
    let mut i: usize = 0;
    assert(bytes@.take(0) =~= Seq::empty());
    while i < 8
        invariant
            i <= 8,
            bytes@.len() == 8,
            id == be_value(bytes@.take(i as int)),
            byte_range(8) == u64::MAX + 1,
        decreases 8 - i,
    {
        proof {
            let upto = bytes@.take(i + 1);
            assert(upto.drop_last() =~= bytes@.take(i as int));
            lemma_be_value_bound(upto);
            lemma_byte_range_grows((i + 1) as nat, 8);
        }
        id = id * 256 + bytes[i] as u64;
        i = i + 1;
    }
    assert(bytes@.take(8) =~= bytes@);
    id
}

/// Reads eight bytes, least significant first.
pub fn id_from_le_bytes(bytes: &[u8]) -> (r: u64)
    requires
        bytes@.len() == 8,
    ensures
        r == be_value(bytes@.reverse()),
{
    let mut be: Vec<u8> = Vec::new();
    let mut i: usize = 0;
    while i < 8
        invariant
            i <= 8,
            bytes@.len() == 8,
            be@.len() == i,
            forall|k: int| 0 <= k < i ==> #[trigger] be@[k] == bytes@[7 - k],
        decreases 8 - i,
    {
        be.push(bytes[7 - i]);
        i = i + 1;
    }
    assert(be@ =~= bytes@.reverse());
    id_from_be_bytes(be.as_slice())
}

proof fn lemma_byte_range_grows(a: nat, b: nat)
    requires
        a <= b,
    ensures
        byte_range(a) <= byte_range(b),
    decreases b,
{
    if a < b {
        lemma_byte_range_grows(a, (b - 1) as nat);
    }
}

/// Every eight bytes hold the ID that they store, but for those of the reserved one, and
/// no other number of bytes holds any.
pub proof fn eight_bytes_hold_an_id(form: IdForm, bytes: Seq<u8>)
    ensures
        bytes.len() != 8 ==> id_held(form, bytes) is None,
        bytes.len() == 8 && id_held(form, bytes) is None ==> form == IdForm::BigEndian && bytes
            == stored_id(form, 0),
        id_held(form, bytes) matches Some(id) ==> stored_id(form, id) == bytes,
{
    if bytes.len() == 8 {
        lemma_byte_range_8();
        lemma_be_value_bound(bytes);
        lemma_be_value_bound(bytes.reverse());
        assert(bytes.reverse().reverse() =~= bytes);
    }
}

/// The least significant byte of an ID comes last in one form and first in the other.
pub proof fn forms_order_bytes_apart(id: u64)
    ensures
        stored_id(IdForm::BigEndian, id).len() == 8,
        stored_id(IdForm::LittleEndian, id).len() == 8,
        stored_id(IdForm::BigEndian, id)[7] == id % 256,
        stored_id(IdForm::LittleEndian, id)[0] == id % 256,
{
    stored_ids_round_trip(id);
}

} // verus!
