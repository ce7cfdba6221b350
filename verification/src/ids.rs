//! Unique identifiers of new feeds and subscriptions.

use vstd::prelude::*;
use crate::encoding::{le_bytes_u128, seed_index_block_encoding, encode_seed_index_block};
use crate::types::{BlockContext, UniqueId};

verus! {

/// What `frame_support::Hashable::blake2_128` gives for a byte vector: the
/// BLAKE2b-128 hash of the vector's SCALE encoding.
pub uninterp spec fn hashable_blake2_128(data: Seq<u8>) -> Seq<u8>;

/// `frame_support::Hashable::blake2_128` on a `Vec<u8>`, with the sixteen bytes
/// turned into the `u128` whose little-endian bytes they are. The hash is
/// named, not described. The call encodes the vector first, which panics past
/// `u32::MAX` bytes; `requires` leaves those out.
#[verifier::external_body]
pub(crate) fn blake2_128_id(data: &Vec<u8>) -> (id: UniqueId)
    requires
        data@.len() <= u32::MAX,
    ensures
        le_bytes_u128(id) == hashable_blake2_128(data@),
{
    u128::from_le_bytes(frame_support::Hashable::blake2_128(data))
}

/// The bytes that are hashed into the identifier created under `ctx`: the
/// random seed, the extrinsic index (0 where the chain knows none) and the block
/// number.
pub open spec fn unique_payload(ctx: BlockContext) -> Seq<u8> {
    seed_index_block_encoding(
        ctx.random_seed@,
        match ctx.extrinsic_index {
            Some(i) => i,
            None => 0,
        },
        ctx.block_number,
    )
}

/// The identifier created under `ctx`, by its bytes.
pub open spec fn unique_id_bytes(ctx: BlockContext) -> Seq<u8> {
    hashable_blake2_128(unique_payload(ctx))
}

/// The identifier created under `ctx`: the one whose little-endian bytes are
/// `unique_id_bytes(ctx)`.
pub open spec fn unique_id(ctx: BlockContext) -> UniqueId {
    choose|x: UniqueId| le_bytes_u128(x) == unique_id_bytes(ctx)
}

/// Two identifiers with the same bytes are the same identifier.
pub proof fn lemma_le_bytes_u128_injective(x: u128, y: u128)
    requires
        le_bytes_u128(x) == le_bytes_u128(y),
    ensures
        x == y,
{
    let bx = le_bytes_u128(x);
    let by = le_bytes_u128(y);
    assert(bx[0] == by[0] && bx[1] == by[1] && bx[2] == by[2] && bx[3] == by[3]);
    assert(bx[4] == by[4] && bx[5] == by[5] && bx[6] == by[6] && bx[7] == by[7]);
    assert(bx[8] == by[8] && bx[9] == by[9] && bx[10] == by[10] && bx[11] == by[11]);
    assert(bx[12] == by[12] && bx[13] == by[13] && bx[14] == by[14] && bx[15] == by[15]);
    assert(x == y) by (bit_vector)
        requires
            ((x >> 0u128) & 0xff) as u8 == ((y >> 0u128) & 0xff) as u8,
            ((x >> 8u128) & 0xff) as u8 == ((y >> 8u128) & 0xff) as u8,
            ((x >> 16u128) & 0xff) as u8 == ((y >> 16u128) & 0xff) as u8,
            ((x >> 24u128) & 0xff) as u8 == ((y >> 24u128) & 0xff) as u8,
            ((x >> 32u128) & 0xff) as u8 == ((y >> 32u128) & 0xff) as u8,
            ((x >> 40u128) & 0xff) as u8 == ((y >> 40u128) & 0xff) as u8,
            ((x >> 48u128) & 0xff) as u8 == ((y >> 48u128) & 0xff) as u8,
            ((x >> 56u128) & 0xff) as u8 == ((y >> 56u128) & 0xff) as u8,
            ((x >> 64u128) & 0xff) as u8 == ((y >> 64u128) & 0xff) as u8,
            ((x >> 72u128) & 0xff) as u8 == ((y >> 72u128) & 0xff) as u8,
            ((x >> 80u128) & 0xff) as u8 == ((y >> 80u128) & 0xff) as u8,
            ((x >> 88u128) & 0xff) as u8 == ((y >> 88u128) & 0xff) as u8,
            ((x >> 96u128) & 0xff) as u8 == ((y >> 96u128) & 0xff) as u8,
            ((x >> 104u128) & 0xff) as u8 == ((y >> 104u128) & 0xff) as u8,
            ((x >> 112u128) & 0xff) as u8 == ((y >> 112u128) & 0xff) as u8,
            ((x >> 120u128) & 0xff) as u8 == ((y >> 120u128) & 0xff) as u8,
    ;
}

/// Creates the unique identifier of a new feed or subscription from the
/// block's randomness, the extrinsic's index and the block number, so that
/// several can be created in one block.
pub fn new_unique_id(ctx: &BlockContext) -> (id: UniqueId)
    ensures
        le_bytes_u128(id) == unique_id_bytes(*ctx),
        id == unique_id(*ctx),
{
    let index: u32 = match ctx.extrinsic_index {
        Some(i) => i,
        None => 0,
    };
    let payload = encode_seed_index_block(&ctx.random_seed, index, ctx.block_number);
    let id = blake2_128_id(&payload);
    proof {
        let c = unique_id(*ctx);
        assert(le_bytes_u128(c) == unique_id_bytes(*ctx));
        lemma_le_bytes_u128_injective(c, id);
    }
    id
}

/// The sixteen little-endian bytes of an identifier.
pub fn id_bytes(id: UniqueId) -> (bytes: Vec<u8>)
    ensures
        bytes@ == le_bytes_u128(id),
{
    let mut bytes: Vec<u8> = Vec::with_capacity(16);
    let mut i: u32 = 0;
    while i < 16
        invariant
            i <= 16,
            bytes@ == le_bytes_u128(id).take(i as int),
        decreases 16 - i,
    {
        let b: u8 = ((id >> (8 * i)) & 0xff) as u8;
        proof {
            assert((8 * i) as u128 == (8 * (i as int)) as u128);
        }
        bytes.push(b);
        assert(bytes@ =~= le_bytes_u128(id).take(i + 1));
        i = i + 1;
    }
    assert(bytes@ =~= le_bytes_u128(id));
    bytes
}

} // verus!
