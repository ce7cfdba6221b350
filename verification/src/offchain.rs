//! Handing the subscriptions of a block over to the offchain worker.

use vstd::prelude::*;
use crate::encoding::{
    le_bytes_u32, le_bytes_u128, scale_encoding_of_byte_lists, scale_decoding_of_byte_lists,
    encodable_byte_lists,
    encode_u32, encode_byte_lists, decode_byte_lists,
};
use crate::ids::id_bytes;
use crate::pallet::{Pallet, PalletView};
use crate::types::{BlockNumber, UniqueId};

verus! {

/// The prefix of the offchain storage keys: `b"newsfeed::indexing"`.
pub open spec fn onchain_tx_key() -> Seq<u8> {
    seq![
        110u8, 101, 119, 115, 102, 101, 101, 100, 58, 58,  // "newsfeed::"
        105, 110, 100, 101, 120, 105, 110, 103,  // "indexing"
    ]
}

/// The offchain storage key of block `block_number`: the prefix, a `/`, and the
/// encoded block number.
pub open spec fn derived_key_bytes(block_number: BlockNumber) -> Seq<u8> {
    onchain_tx_key().push(47u8 /* '/' */) + le_bytes_u32(block_number)
}

/// The identifiers of a queue of subscriptions as the offchain worker gets
/// them: each as its sixteen bytes.
pub open spec fn indexing_data(queue: Seq<UniqueId>) -> Seq<Seq<u8>> {
    queue.map_values(|id: UniqueId| le_bytes_u128(id))
}

/// What the offchain worker registers when it finds `stored` under its key:
/// the identifiers that the stored bytes decode to, or none.
pub open spec fn registrations(stored: Option<Seq<u8>>) -> Seq<Seq<u8>> {
    match stored {
        Some(b) => match scale_decoding_of_byte_lists(b) {
            Some(l) => l,
            None => Seq::empty(),
        },
        None => Seq::empty(),
    }
}

impl Pallet {
    /// The key under which the subscriptions of block `block_number` are handed
    /// to the offchain worker.
    pub fn dervied_key(block_number: BlockNumber) -> (key: Vec<u8>)
        ensures
            key@ == derived_key_bytes(block_number),
    {
        let mut key: Vec<u8> = vec![
            110u8, 101, 119, 115, 102, 101, 101, 100, 58, 58,  // "newsfeed::"
            105, 110, 100, 101, 120, 105, 110, 103,  // "indexing"
        ];
        key.push(47u8);
        let mut encoded = encode_u32(block_number);
        key.append(&mut encoded);
        assert(key@ =~= derived_key_bytes(block_number));
        key
    }

    /// Finalizes block `block_number`: where subscriptions are queued, empties
    /// the queue and returns the offchain key and the encoded identifiers to
    /// write under it; otherwise changes nothing.
    pub fn on_finalize(&mut self, block_number: BlockNumber) -> (r: Option<(Vec<u8>, Vec<u8>)>)
        requires
            old(self)@.wf(),
        ensures
            final(self)@.wf(),
            old(self)@.subscriptions_per_block.len() == 0 ==> r is None && final(self)@ == old(self)@,
            old(self)@.subscriptions_per_block.len() != 0 ==> {
                &&& r matches Some((key, value))
                &&& key@ == derived_key_bytes(block_number)
                &&& value@ == scale_encoding_of_byte_lists(
                    indexing_data(old(self)@.subscriptions_per_block),
                )
                &&& final(self)@ == (PalletView {
                    subscriptions_per_block: Seq::empty(),
                    ..old(self)@
                })
            },
    {
        if self.no_subscriptions_per_block() {
            return None;
        }
        let storage_key = Self::dervied_key(block_number);
        let subscriptions = self.take_subscriptions_per_block();
        let n = subscriptions.len();
        let mut idx_data: Vec<Vec<u8>> = Vec::with_capacity(n);
        let mut i: usize = 0;
        while i < n
            invariant
                n == subscriptions@.len(),
                i <= n,
                idx_data.deep_view() =~= indexing_data(subscriptions@.take(i as int)),
            decreases n - i,
        {
            let bytes = id_bytes(subscriptions[i]);
            idx_data.push(bytes);
            proof {
                assert(bytes.deep_view() =~= bytes@);
                assert(indexing_data(subscriptions@.take(i + 1)) =~= indexing_data(
                    subscriptions@.take(i as int),
                ).push(le_bytes_u128(subscriptions@[i as int])));
            }
            i = i + 1;
        }
        assert(subscriptions@.take(n as int) =~= subscriptions@);
        assert(encodable_byte_lists(idx_data.deep_view()));
        let value = encode_byte_lists(&idx_data);
        Some((storage_key, value))
    }

    /// What the offchain worker registers when it finds `stored` under the key
    /// of its block: the identifiers that the stored bytes decode to, each as
    /// its bytes, or none where nothing is stored or the bytes do not decode.
    pub fn offchain_worker(stored: &Option<Vec<u8>>) -> (ids: Vec<Vec<u8>>)
        ensures
            ids.deep_view() == registrations(
                match stored {
                    Some(b) => Some(b@),
                    None => None,
                },
            ),
            forall|l: Seq<Seq<u8>>|
                stored matches Some(b) && encodable_byte_lists(l) && #[trigger] scale_encoding_of_byte_lists(l) == b@
                    ==> ids.deep_view() == l,
    {
        match stored {
            Some(data) => match decode_byte_lists(data) {
                Some(l) => l,
                None => Vec::new(),
            },
            None => Vec::new(),
        }
    }
}

} // verus!
