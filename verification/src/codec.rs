//! The persisted form of a custody record.
//!
//! One open escrow is stored as a fixed-size byte string: an 8-byte tag
//! identifying the record type to the host storage layer, then the fields in
//! order — `seed (8) | maker (32) | mint_a (32) | mint_b (32) | receive (8) |
//! authority proof (1)` — with the integers little-endian.

use vstd::prelude::*;

use vstd::bytes::{
    lemma_auto_spec_u64_to_from_le_bytes, spec_u64_to_le_bytes, u64_from_le_bytes, u64_to_le_bytes,
};
use vstd::slice::slice_subrange;

use crate::state::{AccountId, Escrow, EscrowV};

verus! {

/// The fixed tag that opens every persisted record.
pub const RECORD_TAG: [u8; 8] = [31, 213, 123, 187, 186, 22, 218, 155];

/// The size of a persisted record: the tag plus the fixed-size fields.
pub const RECORD_LEN: usize = 121;

/// A record value whose identifiers have the persisted width.
pub open spec fn wf_record(e: EscrowV) -> bool {
    e.maker.len() == 32 && e.mint_a.len() == 32 && e.mint_b.len() == 32
}

/// The persisted form of a record.
pub open spec fn spec_serialize_record(e: EscrowV) -> Seq<u8> {
    RECORD_TAG@ + spec_u64_to_le_bytes(e.seed) + e.maker + e.mint_a + e.mint_b
        + spec_u64_to_le_bytes(e.receive) + seq![e.bump]
}

/// The persisted form of a well-formed record takes exactly `RECORD_LEN`
/// bytes and opens with the tag.
pub proof fn lemma_serialized_shape(e: EscrowV)
    requires
        wf_record(e),
    ensures
        spec_serialize_record(e).len() == RECORD_LEN,
        forall|k: int| 0 <= k < 8 ==> spec_serialize_record(e)[k] == RECORD_TAG@[k],
{
    lemma_auto_spec_u64_to_from_le_bytes();
}

fn append_id(v: &mut Vec<u8>, id: &AccountId)
    ensures
        final(v)@ == old(v)@ + id@,
{
    let ghost v0 = v@;
    let mut i: usize = 0;
    while i < 32
        invariant
            0 <= i <= 32,
            v@ == v0 + id@.subrange(0, i as int),
        decreases 32 - i,
    {
        v.push(id.bytes[i]);
        proof {
            assert(v@ =~= v0 + id@.subrange(0, i + 1));
        }
        i += 1;
    }
    proof {
        assert(v0 + id@.subrange(0, 32) =~= v0 + id@);
    }
}

/// Serialize a custody record into its persisted form.
pub fn serialize_record(e: &Escrow) -> (r: Vec<u8>)
    ensures
        r@ == spec_serialize_record(e@),
        r@.len() == RECORD_LEN,
{
    let mut v: Vec<u8> = Vec::new();
    let mut i: usize = 0;
    while i < 8
        invariant
            0 <= i <= 8,
            v@ == RECORD_TAG@.subrange(0, i as int),
        decreases 8 - i,
    {
        v.push(RECORD_TAG[i]);
        proof {
            assert(v@ =~= RECORD_TAG@.subrange(0, i + 1));
        }
        i += 1;
    }
    proof {
        assert(v@ =~= RECORD_TAG@);
    }
    let mut seed_bytes = u64_to_le_bytes(e.seed);
    v.append(&mut seed_bytes);
    append_id(&mut v, &e.maker);
    append_id(&mut v, &e.mint_a);
    append_id(&mut v, &e.mint_b);
    let mut receive_bytes = u64_to_le_bytes(e.receive);
    v.append(&mut receive_bytes);
    v.push(e.bump);
    proof {
        lemma_auto_spec_u64_to_from_le_bytes();
        assert(v@ =~= spec_serialize_record(e@));
    }
    v
}

fn read_id(bytes: &Vec<u8>, off: usize) -> (r: AccountId)
    requires
        off + 32 <= bytes@.len(),
        bytes@.len() <= usize::MAX,
    ensures
        r@ == bytes@.subrange(off as int, off as int + 32),
{
    let mut buf: [u8; 32] = [0; 32];
    let mut i: usize = 0;
    while i < 32
        invariant
            0 <= i <= 32,
            off + 32 <= bytes@.len() <= usize::MAX,
            forall|j: int| 0 <= j < i ==> buf@[j] == bytes@[off + j],
        decreases 32 - i,
    {
        buf[i] = bytes[off + i];
        i += 1;
    }
    proof {
        assert(buf@ =~= bytes@.subrange(off as int, off as int + 32));
    }
    AccountId { bytes: buf }
}

/// Parse a persisted record.  Returns the record exactly when the bytes are
/// the persisted form of one; otherwise — a wrong length or a wrong tag —
/// returns `None`.
pub fn deserialize_record(bytes: &Vec<u8>) -> (r: Option<Escrow>)
    ensures
        (match r {
            Some(e) => bytes@ == spec_serialize_record(e@),
            None => forall|ev: EscrowV| wf_record(ev) ==> bytes@ != spec_serialize_record(ev),
        }),
{
    if bytes.len() != RECORD_LEN {
        proof {
            assert forall|ev: EscrowV| wf_record(ev) implies bytes@ != spec_serialize_record(
                ev,
            ) by {
                lemma_serialized_shape(ev);
            }
        }
        return None;
    }
    let mut i: usize = 0;
    while i < 8
        invariant
            0 <= i <= 8,
            bytes@.len() == RECORD_LEN,
            forall|j: int| 0 <= j < i ==> bytes@[j] == RECORD_TAG@[j],
        decreases 8 - i,
    {
        if bytes[i] != RECORD_TAG[i] {
            proof {
                assert forall|ev: EscrowV| wf_record(ev) implies bytes@ != spec_serialize_record(
                    ev,
                ) by {
                    lemma_serialized_shape(ev);
                    assert(spec_serialize_record(ev)[i as int] == RECORD_TAG@[i as int]);
                }
            }
            return None;
        }
        i += 1;
    }
    let seed = u64_from_le_bytes(slice_subrange(bytes.as_slice(), 8, 16));
    let maker = read_id(bytes, 16);
    let mint_a = read_id(bytes, 48);
    let mint_b = read_id(bytes, 80);
    let receive = u64_from_le_bytes(slice_subrange(bytes.as_slice(), 112, 120));
    let bump = bytes[120];
    let e = Escrow { seed, maker, mint_a, mint_b, receive, bump };
    proof {
        lemma_auto_spec_u64_to_from_le_bytes();
        assert(spec_u64_to_le_bytes(e@.seed) == bytes@.subrange(8, 16));
        assert(spec_u64_to_le_bytes(e@.receive) == bytes@.subrange(112, 120));
        assert(bytes@ =~= spec_serialize_record(e@));
    }
    Some(e)
}

} // verus!
