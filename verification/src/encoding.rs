//! The byte layouts that the registry writes and reads, and the calls into
//! `parity-scale-codec` that produce and parse them.

use vstd::prelude::*;
use parity_scale_codec::{Decode, Encode};

verus! {

/// The four little-endian bytes of `n`.
pub open spec fn le_bytes_u32(n: u32) -> Seq<u8> {
    seq![
        (n & 0xff) as u8,
        ((n >> 8) & 0xff) as u8,
        ((n >> 16) & 0xff) as u8,
        ((n >> 24) & 0xff) as u8,
    ]
}

/// Byte `i` (counted from the least significant end) of `x`.
pub open spec fn byte_of_u128(x: u128, i: int) -> u8 {
    ((x >> ((8 * i) as u128)) & 0xff) as u8
}

/// The sixteen little-endian bytes of `x`.
pub open spec fn le_bytes_u128(x: u128) -> Seq<u8> {
    Seq::new(16, |i: int| byte_of_u128(x, i))
}

/// The bytes that the codec produces for the tuple of a 32-byte seed and two
/// `u32` values: the seed as it stands, then each integer in little-endian order.
pub open spec fn seed_index_block_encoding(seed: Seq<u8>, index: u32, block: u32) -> Seq<u8> {
    seed + le_bytes_u32(index) + le_bytes_u32(block)
}

/// The codec's compact encoding of a length `n` below 2^32: one byte for
/// `n < 2^6`, two for `n < 2^14`, four for `n < 2^30` (each holding `n << 2`
/// with the mode in the low two bits), and otherwise the byte `0b11` followed
/// by the four little-endian bytes of `n`.
pub open spec fn compact_length(n: nat) -> Seq<u8> {
    if n < 0x40 {
        seq![(n * 4) as u8]
    } else if n < 0x4000 {
        let v = n * 4 + 1;
        seq![(v % 256) as u8, (v / 256) as u8]
    } else if n < 0x4000_0000 {
        le_bytes_u32((n * 4 + 2) as u32)
    } else {
        seq![3u8] + le_bytes_u32(n as u32)
    }
}

/// What the codec writes for a byte string: its compact length, then its bytes.
pub open spec fn scale_encoding_of_bytes(b: Seq<u8>) -> Seq<u8> {
    compact_length(b.len()) + b
}

/// What the codec writes for a list of byte strings (`Vec<Vec<u8>>`): the
/// compact length of the list, then each string as `scale_encoding_of_bytes`.
pub open spec fn scale_encoding_of_byte_lists(lists: Seq<Seq<u8>>) -> Seq<u8> {
    compact_length(lists.len()) + lists.map_values(|b: Seq<u8>| scale_encoding_of_bytes(b)).flatten()
}

/// A list of byte strings that the codec can encode: the list and each string
/// hold at most `u32::MAX` elements, the most a compact length can say.
pub open spec fn encodable_byte_lists(lists: Seq<Seq<u8>>) -> bool {
    &&& lists.len() <= u32::MAX
    &&& forall|i: int| 0 <= i < lists.len() ==> (#[trigger] lists[i]).len() <= u32::MAX
}

/// What `parity-scale-codec` reads from the front of `data` as a list of byte
/// strings (`Vec<Vec<u8>>`), or `None` where the bytes are no such list.
pub uninterp spec fn scale_decoding_of_byte_lists(data: Seq<u8>) -> Option<Seq<Seq<u8>>>;

/// `<u32 as Encode>::encode`. The codec writes `to_le_bytes()` of the integer,
/// and that is all this claims.
#[verifier::external_body]
pub(crate) fn encode_u32(n: u32) -> (bytes: Vec<u8>)
    ensures
        bytes@ == le_bytes_u32(n),
{
    n.encode()
}

/// `<(&[u8; 32], u32, u32) as Encode>::encode`. The codec encodes a tuple as the
/// concatenation of its members, a byte array as its bytes without a length,
/// and a `u32` as its little-endian bytes; this claims exactly that.
#[verifier::external_body]
pub(crate) fn encode_seed_index_block(seed: &[u8; 32], index: u32, block: u32) -> (bytes: Vec<u8>)
    ensures
        bytes@ == seed_index_block_encoding(seed@, index, block),
{
    (seed, index, block).encode()
}

/// `<Vec<Vec<u8>> as Encode>::encode`: the codec writes the compact length of
/// the list and then each string with its own compact length, as
/// `scale_encoding_of_byte_lists` says. It panics on a list or a string longer
/// than `u32::MAX`, which `requires` leaves out.
#[verifier::external_body]
pub(crate) fn encode_byte_lists(lists: &Vec<Vec<u8>>) -> (bytes: Vec<u8>)
    requires
        encodable_byte_lists(lists.deep_view()),
    ensures
        bytes@ == scale_encoding_of_byte_lists(lists.deep_view()),
{
    lists.encode()
}

/// `<Vec<Vec<u8>> as Decode>::decode` on the given bytes, with the codec's error
/// turned into `None`. Beside naming the result, this claims the codec's round
/// trip: bytes that the codec writes for a list it can encode decode to that
/// list.
#[verifier::external_body]
pub(crate) fn decode_byte_lists(data: &Vec<u8>) -> (lists: Option<Vec<Vec<u8>>>)
    ensures
        match lists {
            Some(l) => {
                &&& scale_decoding_of_byte_lists(data@) == Some(l.deep_view())
                &&& forall|w: Seq<Seq<u8>>|
                    encodable_byte_lists(w) && #[trigger] scale_encoding_of_byte_lists(w) == data@
                        ==> l.deep_view() == w
            },
            None => {
                &&& scale_decoding_of_byte_lists(data@) is None
                &&& forall|w: Seq<Seq<u8>>|
                    encodable_byte_lists(w) ==> #[trigger] scale_encoding_of_byte_lists(w) != data@
            },
        },
{
    match <Vec<Vec<u8>>>::decode(&mut &data[..]) {
        Ok(l) => Some(l),
        Err(_) => None,
    }
}

} // verus!
