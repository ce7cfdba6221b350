//! What holds of the registry across its calls.

use vstd::prelude::*;
use crate::encoding::{le_bytes_u32, seed_index_block_encoding};
use crate::ids::unique_payload;
use crate::offchain::derived_key_bytes;
use crate::pallet::{
    PalletView, first_index, holds_subscription, is_first_index,
    is_first_subscription_index, lemma_first_index, lemma_first_subscription_index,
    lemma_first_index_no_duplicates, first_subscription_index,
    lemma_swap_removed, swap_removed,
};
use crate::types::{
    AccountId, Balance, BlockContext, BlockNumber, DispatchError, Error, Origin, PaymentType,
    UniqueId, signer,
};
use crate::ids::unique_id;

verus! {

/// Two block numbers whose offchain keys agree are the same block number: each
/// block has a key of its own.
pub proof fn law_derived_key_unique(b1: BlockNumber, b2: BlockNumber)
    requires
        derived_key_bytes(b1) == derived_key_bytes(b2),
    ensures
        b1 == b2,
{
    let k1 = derived_key_bytes(b1);
    let k2 = derived_key_bytes(b2);
    assert(k1[19] == k2[19] && k1[20] == k2[20] && k1[21] == k2[21] && k1[22] == k2[22]);
    assert(le_bytes_u32(b1) =~= k1.subrange(19, 23));
    assert(le_bytes_u32(b2) =~= k2.subrange(19, 23));
    lemma_le_bytes_u32_injective(b1, b2);
}

/// Two integers with the same little-endian bytes are equal.
proof fn lemma_le_bytes_u32_injective(x: u32, y: u32)
    requires
        le_bytes_u32(x) == le_bytes_u32(y),
    ensures
        x == y,
{
    let bx = le_bytes_u32(x);
    let by = le_bytes_u32(y);
    assert(bx[0] == by[0] && bx[1] == by[1] && bx[2] == by[2] && bx[3] == by[3]);
    assert(x == y) by (bit_vector)
        requires
            (x & 0xff) as u8 == (y & 0xff) as u8,
            ((x >> 8) & 0xff) as u8 == ((y >> 8) & 0xff) as u8,
            ((x >> 16) & 0xff) as u8 == ((y >> 16) & 0xff) as u8,
            ((x >> 24) & 0xff) as u8 == ((y >> 24) & 0xff) as u8,
    ;
}

/// The bytes hashed into a new identifier differ between two extrinsics of one
/// block that have different indices, so that several feeds or subscriptions
/// can be created in one block: equal hashed bytes mean equal seed, index and
/// block number.
pub proof fn law_unique_payload_separates(c1: BlockContext, c2: BlockContext)
    requires
        unique_payload(c1) == unique_payload(c2),
    ensures
        c1.random_seed@ == c2.random_seed@,
        (match c1.extrinsic_index {
            Some(i) => i,
            None => 0u32,
        }) == (match c2.extrinsic_index {
            Some(i) => i,
            None => 0u32,
        }),
        c1.block_number == c2.block_number,
{
    let i1: u32 = match c1.extrinsic_index {
        Some(i) => i,
        None => 0,
    };
    let i2: u32 = match c2.extrinsic_index {
        Some(i) => i,
        None => 0,
    };
    let p1 = seed_index_block_encoding(c1.random_seed@, i1, c1.block_number);
    let p2 = seed_index_block_encoding(c2.random_seed@, i2, c2.block_number);
    assert(c1.random_seed@ =~= p1.subrange(0, 32));
    assert(c2.random_seed@ =~= p2.subrange(0, 32));
    assert(le_bytes_u32(i1) =~= p1.subrange(32, 36));
    assert(le_bytes_u32(i2) =~= p2.subrange(32, 36));
    assert(le_bytes_u32(c1.block_number) =~= p1.subrange(36, 40));
    assert(le_bytes_u32(c2.block_number) =~= p2.subrange(36, 40));
    lemma_le_bytes_u32_injective(i1, i2);
    lemma_le_bytes_u32_injective(c1.block_number, c2.block_number);
}

/// Handing a feed over makes the receiver its owner, lists it among the
/// receiver's feeds and no longer among the former owner's, and clears its
/// fees, so that nobody can subscribe until the new owner sets them.
pub proof fn law_transfer_moves_ownership(s: PalletView, id: UniqueId, to: AccountId)
    requires
        s.wf(),
        s.transfer_step(id, to) is Ok,
    ensures
        ({
            let from = s.news_feeds[id].owner;
            let t = s.with_transferred(id, to);
            &&& t.news_feeds[id].owner == to
            &&& t.news_feeds[id].subscribe_fee is None
            &&& t.news_feeds[id].unsubscribe_fee is None
            &&& t.owned(to).contains(id)
            &&& !t.owned(from).contains(id)
            &&& t.wf()
        }),
{
    let from = s.news_feeds[id].owner;
    let fl = s.owned(from);
    let p = first_index(fl, id);
    assert(s.owner_of_news_feeds.contains_key(from));
    assert(s.owned_ok(from, fl));
    lemma_first_index_no_duplicates(fl, id);
    lemma_swap_removed(fl, p);
    let t = s.with_transferred(id, to);
    assert(t.owned(to)[s.owned(to).len() as int] == id);
    assert(t.owned(from) == swap_removed(fl, p));
    crate::pallet::Pallet::lemma_transfer_keeps_wf(s, id, to);
}

/// Only the owner of a feed may hand it over: a signed call of anyone else is
/// refused with `NotNewsFeedOwner` and changes nothing.
pub proof fn law_only_owner_transfers(s: PalletView, caller: AccountId, to: AccountId, id: UniqueId)
    requires
        s.news_feeds.contains_key(id),
        s.news_feeds[id].owner != caller,
    ensures
        s.transfer_newsfeed_step(Origin::Signed(caller), to, id) == Err::<
            (PalletView, Seq<crate::types::Event>),
            DispatchError,
        >(DispatchError::Module(Error::NotNewsFeedOwner)),
{
}

/// Only the owner of a feed may set its fees: a signed call of anyone else is
/// refused with `NotNewsFeedOwner`.
pub proof fn law_only_owner_sets_fees(
    s: PalletView,
    caller: AccountId,
    id: UniqueId,
    subscribe_fee: Option<u128>,
    unsubscribe_fee: Option<u128>,
)
    requires
        s.news_feeds.contains_key(id),
        s.news_feeds[id].owner != caller,
    ensures
        s.set_fees_newsfeed_step(Origin::Signed(caller), id, subscribe_fee, unsubscribe_fee) == Err::<
            (PalletView, Seq<crate::types::Event>),
            DispatchError,
        >(DispatchError::Module(Error::NotNewsFeedOwner)),
{
}

/// Nobody can subscribe to a feed whose subscribe fee is `None`, whatever the
/// currency does.
pub proof fn law_no_subscription_without_fee(
    s: PalletView,
    subscription_id: UniqueId,
    newsfeed_id: UniqueId,
    to: AccountId,
    paid: bool,
)
    requires
        s.news_feeds.contains_key(newsfeed_id),
        s.news_feeds[newsfeed_id].subscribe_fee is None,
    ensures
        s.subscribe_step(subscription_id, newsfeed_id, to, paid) is Err,
{
}

/// An account subscribes to a feed at most once: a second subscription to a
/// feed it already holds is refused.
pub proof fn law_subscribe_once(
    s: PalletView,
    subscription_id: UniqueId,
    newsfeed_id: UniqueId,
    to: AccountId,
    paid: bool,
)
    requires
        s.has_subscribed(to, newsfeed_id),
    ensures
        s.subscribe_step(subscription_id, newsfeed_id, to, paid) is Err,
{
}

/// Where the checks refuse a subscription, the `subscribe_newsfeed` call fails
/// with the same error that `subscribe_newsfeed_payment` reports, whatever the
/// currency did; where they accept it, the call fails exactly when the payment
/// was not made or when the block's queue is full.
pub proof fn law_subscribe_payment_decides(
    s: PalletView,
    origin: Origin,
    ctx: BlockContext,
    newsfeed_id: UniqueId,
    paid: bool,
)
    ensures
        s.subscribe_newsfeed_payment(origin, newsfeed_id) matches Err(e) ==> s.subscribe_newsfeed_step(
            origin,
            ctx,
            newsfeed_id,
            paid,
        ) == Err::<(PalletView, Seq<crate::types::Event>), DispatchError>(e),
        s.subscribe_newsfeed_payment(origin, newsfeed_id) is Ok ==> (s.subscribe_newsfeed_step(
            origin,
            ctx,
            newsfeed_id,
            paid,
        ) is Ok <==> (paid && s.subscriptions_per_block.len()
            < s.config.max_subscriptions_per_block)),
{
}

/// Where cancelling a subscription asks for no payment, what the currency did
/// does not matter.
pub proof fn law_unsubscribe_without_fee_ignores_payment(
    s: PalletView,
    origin: Origin,
    subscription_id: UniqueId,
)
    requires
        s.unsubscribe_newsfeed_payment(origin, subscription_id) == Ok::<
            Option<crate::types::Payment>,
            DispatchError,
        >(None),
    ensures
        s.unsubscribe_newsfeed_step(origin, subscription_id, true) == s.unsubscribe_newsfeed_step(
            origin,
            subscription_id,
            false,
        ),
        s.unsubscribe_newsfeed_step(origin, subscription_id, true) is Ok,
{
}

/// Subscribing to a feed under a fresh identifier and then cancelling that
/// subscription, with every payment made, gives the account back exactly the
/// subscriptions it held before, and changes nothing else.
pub proof fn law_unsubscribe_undoes_subscribe(
    s: PalletView,
    subscription_id: UniqueId,
    newsfeed_id: UniqueId,
    to: AccountId,
)
    requires
        s.wf(),
        s.subscribe_step(subscription_id, newsfeed_id, to, true) is Ok,
        !holds_subscription(s.subscriptions_of(to), subscription_id),
    ensures
        ({
            let t = s.with_subscription(subscription_id, newsfeed_id, to);
            &&& t.unsubscribe_step(subscription_id, to, true) is Ok
            &&& t.with_unsubscribed(subscription_id, to) == (PalletView {
                subscriptions: s.subscriptions.insert(to, s.subscriptions_of(to)),
                ..s
            })
        }),
{
    let t = s.with_subscription(subscription_id, newsfeed_id, to);
    let l = s.subscriptions_of(to);
    let tl = t.subscriptions_of(to);
    let n = l.len() as int;
    assert(tl == l.push(
        crate::types::Subscription { id: subscription_id, newsfeed_id, owner: to },
    ));
    assert(is_first_subscription_index(tl, subscription_id, n)) by {
        assert forall|j: int| 0 <= j < n implies tl[j].id != subscription_id by {
            assert(tl[j] == l[j]);
        }
    }
    lemma_first_subscription_index(tl, subscription_id, n);
    assert(holds_subscription(tl, subscription_id)) by {
        assert(tl[n].id == subscription_id);
    }
    assert(swap_removed(tl, n) =~= l);
    let u = t.with_unsubscribed(subscription_id, to);
    assert(u.subscriptions =~= s.subscriptions.insert(to, s.subscriptions_of(to)));
    assert(u =~= PalletView { subscriptions: s.subscriptions.insert(to, s.subscriptions_of(to)), ..s });
}

/// Handing a feed over and back again returns it to its first owner with its
/// fees cleared, gives the receiver back exactly the list of feeds it owned
/// before, and gives the first owner back the same feeds, each once, though
/// possibly in another order; no other account's feeds change.
pub proof fn law_transfer_back_restores_ownership(s: PalletView, id: UniqueId, to: AccountId)
    requires
        s.wf(),
        s.transfer_step(id, to) is Ok,
    ensures
        ({
            let from = s.news_feeds[id].owner;
            let t = s.with_transferred(id, to);
            let u = t.with_transferred(id, from);
            &&& t.transfer_step(id, from) is Ok
            &&& u.news_feeds[id].owner == from
            &&& u.news_feeds[id].subscribe_fee is None
            &&& u.news_feeds[id].unsubscribe_fee is None
            &&& u.owned(to) == s.owned(to)
            &&& u.owned(from).to_multiset() == s.owned(from).to_multiset()
            &&& forall|a: AccountId| a != from && a != to ==> #[trigger] u.owned(a) == s.owned(a)
        }),
{
    let from = s.news_feeds[id].owner;
    let t = s.with_transferred(id, to);
    law_transfer_moves_ownership(s, id, to);
    let fl = s.owned(from);
    let tl = s.owned(to);
    assert(s.owner_of_news_feeds.contains_key(from));
    assert(s.owned_ok(from, fl));
    let p = first_index(fl, id);
    lemma_first_index_no_duplicates(fl, id);
    lemma_swap_removed(fl, p);
    assert(t.owned(from) == swap_removed(fl, p));
    assert(t.owned(from).len() < s.config.max_owned_news_feeds);
    assert(t.transfer_step(id, from) is Ok);
    law_transfer_moves_ownership(t, id, from);
    let u = t.with_transferred(id, from);
    // `to` loses the `id` that was appended to its list, at the end
    let ttl = t.owned(to);
    assert(ttl == tl.push(id));
    assert(!tl.contains(id)) by {
        if tl.contains(id) {
            let i = choose|i: int| 0 <= i < tl.len() && tl[i] == id;
            assert(s.owner_of_news_feeds.contains_key(to));
            assert(s.owned_ok(to, s.owner_of_news_feeds[to]));
        }
    }
    let w = tl.len() as int;
    assert(is_first_index(ttl, id, w)) by {
        assert forall|j: int| 0 <= j < w implies ttl[j] != id by {
            assert(ttl[j] == tl[j]);
        }
    }
    lemma_first_index(ttl, id, w);
    assert(u.owned(to) == swap_removed(ttl, w));
    assert(swap_removed(ttl, w) =~= tl);
    // `from` gets the same feeds back, `id` now at the end
    let nl = swap_removed(fl, p).push(id);
    assert(u.owned(from) == nl);
    assert(u.owner_of_news_feeds.contains_key(from));
    assert(u.owned_ok(from, nl));
    assert forall|x: UniqueId| #[trigger] nl.contains(x) <==> fl.contains(x) by {
        if nl.contains(x) {
            let k = choose|k: int| 0 <= k < nl.len() && nl[k] == x;
            if k < nl.len() - 1 {
                assert(swap_removed(fl, p).contains(x));
            }
        }
        if fl.contains(x) {
            if x == id {
                assert(nl[nl.len() - 1] == id);
            } else {
                assert(swap_removed(fl, p).contains(x));
                let k = choose|k: int| 0 <= k < swap_removed(fl, p).len() && swap_removed(fl, p)[k] == x;
                assert(nl[k] == x);
            }
        }
    }
    lemma_same_elements_same_multiset(nl, fl);
}

/// Two lists without repeats that hold the same elements hold them equally
/// often.
pub proof fn lemma_same_elements_same_multiset<T>(a: Seq<T>, b: Seq<T>)
    requires
        a.no_duplicates(),
        b.no_duplicates(),
        forall|x: T| #[trigger] a.contains(x) <==> b.contains(x),
    ensures
        a.to_multiset() == b.to_multiset(),
{
    a.lemma_multiset_has_no_duplicates();
    b.lemma_multiset_has_no_duplicates();
    assert forall|x: T| #[trigger] a.to_multiset().count(x) == b.to_multiset().count(x) by {
        a.to_multiset_ensures();
        b.to_multiset_ensures();
        if a.contains(x) {
            assert(a.to_multiset().contains(x));
            assert(b.to_multiset().contains(x));
        } else {
            assert(!a.to_multiset().contains(x));
            assert(!b.to_multiset().contains(x));
        }
    }
    assert(a.to_multiset() =~= b.to_multiset());
}

/// One call to the registry, for reasoning about sequences of calls.
pub enum Call {
    Create { origin: Origin, ctx: BlockContext, payment: PaymentType, url: Seq<u8> },
    Transfer { origin: Origin, to: AccountId, newsfeed_id: UniqueId },
    SetFees {
        origin: Origin,
        newsfeed_id: UniqueId,
        subscribe_fee: Option<Balance>,
        unsubscribe_fee: Option<Balance>,
    },
    Subscribe { origin: Origin, ctx: BlockContext, newsfeed_id: UniqueId, paid: bool },
    Unsubscribe { origin: Origin, subscription_id: UniqueId, paid: bool },
    Finalize,
}

/// The storage after the call `c` on `s`: what its step gives where it
/// succeeds, `s` itself where it fails. Finalizing a block empties its queue.
pub open spec fn after(s: PalletView, c: Call) -> PalletView {
    let step = match c {
        Call::Create { origin, ctx, payment, url } => s.create_newsfeed_step(origin, ctx, payment, url),
        Call::Transfer { origin, to, newsfeed_id } => s.transfer_newsfeed_step(origin, to, newsfeed_id),
        Call::SetFees { origin, newsfeed_id, subscribe_fee, unsubscribe_fee } => s.set_fees_newsfeed_step(
            origin,
            newsfeed_id,
            subscribe_fee,
            unsubscribe_fee,
        ),
        Call::Subscribe { origin, ctx, newsfeed_id, paid } => s.subscribe_newsfeed_step(
            origin,
            ctx,
            newsfeed_id,
            paid,
        ),
        Call::Unsubscribe { origin, subscription_id, paid } => s.unsubscribe_newsfeed_step(
            origin,
            subscription_id,
            paid,
        ),
        Call::Finalize => Ok((PalletView { subscriptions_per_block: Seq::empty(), ..s }, Seq::empty())),
    };
    match step {
        Ok((t, _)) => t,
        Err(_) => s,
    }
}

/// The storage after the calls `calls`, made one after another from `s`.
pub open spec fn run(s: PalletView, calls: Seq<Call>) -> PalletView
    decreases calls.len(),
{
    if calls.len() == 0 {
        s
    } else {
        run(after(s, calls[0]), calls.drop_first())
    }
}

/// The call `c` on `s` succeeds in setting a subscribe fee for feed `id`.
pub open spec fn reopens(s: PalletView, c: Call, id: UniqueId) -> bool {
    match c {
        Call::SetFees { origin, newsfeed_id, subscribe_fee, unsubscribe_fee } => {
            &&& newsfeed_id == id
            &&& subscribe_fee is Some
            &&& s.set_fees_newsfeed_step(origin, newsfeed_id, subscribe_fee, unsubscribe_fee) is Ok
        },
        _ => false,
    }
}

/// None of the calls `calls`, made one after another from `s`, succeeds in
/// setting a subscribe fee for feed `id`.
pub open spec fn never_reopens(s: PalletView, calls: Seq<Call>, id: UniqueId) -> bool
    decreases calls.len(),
{
    calls.len() == 0 || (!reopens(s, calls[0], id) && never_reopens(
        after(s, calls[0]),
        calls.drop_first(),
        id,
    ))
}

/// A call that does not set a subscribe fee for a closed feed leaves it closed.
proof fn lemma_after_keeps_closed(s: PalletView, c: Call, id: UniqueId)
    requires
        s.news_feeds.contains_key(id),
        s.news_feeds[id].subscribe_fee is None,
        !reopens(s, c, id),
    ensures
        after(s, c).news_feeds.contains_key(id),
        after(s, c).news_feeds[id].subscribe_fee is None,
{
    match c {
        Call::Create { origin, ctx, payment, url } => {
            if let Ok(sender) = signer(origin) {
                if s.mint_error(sender, unique_id(ctx), url) is None {
                    assert(unique_id(ctx) != id);
                }
            }
        },
        _ => {},
    }
}

/// A feed whose subscribe fee is `None` stays closed through any calls that do
/// not succeed in setting a fee for it: afterwards it still exists with no
/// subscribe fee, every subscription to it is refused before any payment is
/// asked for, and a refused call changes nothing.
pub proof fn law_closed_feed_stays_closed(s: PalletView, calls: Seq<Call>, id: UniqueId)
    requires
        s.news_feeds.contains_key(id),
        s.news_feeds[id].subscribe_fee is None,
        never_reopens(s, calls, id),
    ensures
        run(s, calls).news_feeds.contains_key(id),
        run(s, calls).news_feeds[id].subscribe_fee is None,
        forall|subscription_id: UniqueId, b: AccountId, paid: bool|
            #[trigger] run(s, calls).subscribe_step(subscription_id, id, b, paid) is Err,
        forall|origin: Origin|
            #[trigger] run(s, calls).subscribe_newsfeed_payment(origin, id) is Err,
        forall|origin: Origin, ctx: BlockContext, paid: bool|
            #[trigger] run(s, calls).subscribe_newsfeed_step(origin, ctx, id, paid) is Err,
    decreases calls.len(),
{
    if calls.len() > 0 {
        lemma_after_keeps_closed(s, calls[0], id);
        law_closed_feed_stays_closed(after(s, calls[0]), calls.drop_first(), id);
    }
}

/// After a feed is handed over, nobody can subscribe to it through any later
/// calls until a call succeeds in setting a subscribe fee for it.
pub proof fn law_no_subscription_after_transfer(
    s: PalletView,
    id: UniqueId,
    to: AccountId,
    calls: Seq<Call>,
)
    requires
        s.wf(),
        s.transfer_step(id, to) is Ok,
        never_reopens(s.with_transferred(id, to), calls, id),
    ensures
        forall|subscription_id: UniqueId, b: AccountId, paid: bool|
            #[trigger] run(s.with_transferred(id, to), calls).subscribe_step(
                subscription_id,
                id,
                b,
                paid,
            ) is Err,
        forall|origin: Origin, ctx: BlockContext, paid: bool|
            #[trigger] run(s.with_transferred(id, to), calls).subscribe_newsfeed_step(
                origin,
                ctx,
                id,
                paid,
            ) is Err,
{
    law_transfer_moves_ownership(s, id, to);
    law_closed_feed_stays_closed(s.with_transferred(id, to), calls, id);
}

/// After the owner sets a feed's subscribe fee to `None`, nobody can subscribe
/// to it through any later calls until a call succeeds in setting a subscribe
/// fee for it.
pub proof fn law_no_subscription_after_closing(
    s: PalletView,
    origin: Origin,
    id: UniqueId,
    unsubscribe_fee: Option<Balance>,
    calls: Seq<Call>,
)
    requires
        s.set_fees_newsfeed_step(origin, id, None, unsubscribe_fee) is Ok,
        never_reopens(s.with_fees(id, None, unsubscribe_fee), calls, id),
    ensures
        forall|subscription_id: UniqueId, b: AccountId, paid: bool|
            #[trigger] run(s.with_fees(id, None, unsubscribe_fee), calls).subscribe_step(
                subscription_id,
                id,
                b,
                paid,
            ) is Err,
        forall|o: Origin, ctx: BlockContext, paid: bool|
            #[trigger] run(s.with_fees(id, None, unsubscribe_fee), calls).subscribe_newsfeed_step(
                o,
                ctx,
                id,
                paid,
            ) is Err,
{
    law_closed_feed_stays_closed(s.with_fees(id, None, unsubscribe_fee), calls, id);
}

/// Every feed other than `id` is the same in `t` as in `s`.
pub open spec fn other_feeds_unchanged(s: PalletView, t: PalletView, id: UniqueId) -> bool {
    forall|k: UniqueId|
        k != id ==> (#[trigger] t.news_feeds.contains_key(k) == s.news_feeds.contains_key(k)
            && (s.news_feeds.contains_key(k) ==> t.news_feeds[k] == s.news_feeds[k]))
}

/// Creating a feed stores exactly what the call was given: the feed holds its
/// identifier, its owner, the given payment type and exactly the given url
/// bytes, and no fees; one more feed exists, the owner lists it last, and no
/// other feed changes. Through `create_newsfeed`, the feed is the signer's and
/// its identifier is the one drawn from the block context.
pub proof fn law_mint_stores_what_it_is_given(
    s: PalletView,
    owner: AccountId,
    id: UniqueId,
    payment: PaymentType,
    url: Seq<u8>,
    origin: Origin,
    ctx: BlockContext,
)
    ensures
        s.mint_step(owner, id, payment, url) matches Ok((t, _)) ==> {
            &&& t.news_feeds.contains_key(id)
            &&& t.news_feeds[id].id == id
            &&& t.news_feeds[id].owner == owner
            &&& t.news_feeds[id].subscribe_fee is None
            &&& t.news_feeds[id].unsubscribe_fee is None
            &&& t.news_feeds[id].payment_type == payment
            &&& t.news_feeds[id].registration_url == url
            &&& t.news_feed_count == s.news_feed_count + 1
            &&& t.owned(owner) == s.owned(owner).push(id)
            &&& other_feeds_unchanged(s, t, id)
        },
        s.create_newsfeed_step(origin, ctx, payment, url) matches Ok((t, _)) ==> {
            &&& origin == Origin::Signed(t.news_feeds[unique_id(ctx)].owner)
            &&& t.news_feeds.contains_key(unique_id(ctx))
            &&& t.news_feeds[unique_id(ctx)].registration_url == url
            &&& t.news_feeds[unique_id(ctx)].payment_type == payment
        },
{
}

/// Handing a feed over changes only its owner and its two fees: afterwards it
/// still has its identifier, payment type and registration url, the receiver
/// owns it, both fees are `None`, and no other feed and not the number of
/// feeds changes. The same holds of a successful `transfer_newsfeed` call.
pub proof fn law_transfer_changes_only_owner_and_fees(
    s: PalletView,
    id: UniqueId,
    to: AccountId,
    origin: Origin,
)
    ensures
        s.transfer_step(id, to) matches Ok((t, _)) ==> {
            &&& t.news_feeds.contains_key(id)
            &&& t.news_feeds[id].id == s.news_feeds[id].id
            &&& t.news_feeds[id].payment_type == s.news_feeds[id].payment_type
            &&& t.news_feeds[id].registration_url == s.news_feeds[id].registration_url
            &&& t.news_feeds[id].owner == to
            &&& t.news_feeds[id].subscribe_fee is None
            &&& t.news_feeds[id].unsubscribe_fee is None
            &&& t.news_feed_count == s.news_feed_count
            &&& other_feeds_unchanged(s, t, id)
        },
        s.transfer_newsfeed_step(origin, to, id) matches Ok((t, _)) ==> {
            &&& origin == Origin::Signed(s.news_feeds[id].owner)
            &&& t.news_feeds[id].registration_url == s.news_feeds[id].registration_url
            &&& t.news_feeds[id].payment_type == s.news_feeds[id].payment_type
            &&& t.news_feeds[id].owner == to
            &&& other_feeds_unchanged(s, t, id)
        },
{
}

/// Setting fees replaces both fees with the given ones, whatever they were
/// before, and changes nothing else of the feed nor any other feed; only the
/// owner's call succeeds. A later cancellation of a subscription to the feed
/// asks for exactly the new unsubscribe fee, or for nothing where it is `None`.
pub proof fn law_set_fees_sets_both_fees(
    s: PalletView,
    origin: Origin,
    id: UniqueId,
    subscribe_fee: Option<Balance>,
    unsubscribe_fee: Option<Balance>,
    subscription_id: UniqueId,
    a: AccountId,
)
    ensures
        s.set_fees_newsfeed_step(origin, id, subscribe_fee, unsubscribe_fee) matches Ok((t, _)) ==> {
            &&& origin == Origin::Signed(s.news_feeds[id].owner)
            &&& t.news_feeds.contains_key(id)
            &&& t.news_feeds[id].subscribe_fee == subscribe_fee
            &&& t.news_feeds[id].unsubscribe_fee == unsubscribe_fee
            &&& t.news_feeds[id].id == s.news_feeds[id].id
            &&& t.news_feeds[id].owner == s.news_feeds[id].owner
            &&& t.news_feeds[id].payment_type == s.news_feeds[id].payment_type
            &&& t.news_feeds[id].registration_url == s.news_feeds[id].registration_url
            &&& other_feeds_unchanged(s, t, id)
            &&& (t.unsubscribe_check(subscription_id, a) matches Ok(payment) ==> (t.subscriptions_of(
                a,
            )[first_subscription_index(t.subscriptions_of(a), subscription_id)].newsfeed_id == id
                ==> payment == match unsubscribe_fee {
                Some(fee) => Some(
                    crate::types::Payment { from: a, to: s.news_feeds[id].owner, amount: fee },
                ),
                None => None,
            }))
        },
{
}

/// Any subscribe fee other than `None`, zero included, can be paid: for a feed
/// that exists, is not the caller's own, that the caller has not subscribed to,
/// and while the caller is under its subscription limit, a fee of `Some(p)`
/// asks the caller to pay `p` to the owner, and once paid the caller holds the
/// new subscription, appended to its list; through `subscribe_newsfeed`, while
/// the block's queue has room, the subscription is also queued.
pub proof fn law_any_subscribe_fee_is_payable(
    s: PalletView,
    subscription_id: UniqueId,
    newsfeed_id: UniqueId,
    to: AccountId,
    p: Balance,
    ctx: BlockContext,
)
    requires
        s.news_feeds.contains_key(newsfeed_id),
        s.news_feeds[newsfeed_id].owner != to,
        !s.has_subscribed(to, newsfeed_id),
        s.subscriptions_of(to).len() < s.config.max_owned_subscriptions,
        s.news_feeds[newsfeed_id].subscribe_fee == Some(p),
    ensures
        ({
            let payment = crate::types::Payment {
                from: to,
                to: s.news_feeds[newsfeed_id].owner,
                amount: p,
            };
            &&& s.subscribe_check(newsfeed_id, to) == Ok::<crate::types::Payment, Error>(payment)
            &&& s.subscribe_newsfeed_payment(Origin::Signed(to), newsfeed_id) == Ok::<
                crate::types::Payment,
                DispatchError,
            >(payment)
            &&& s.subscribe_step(subscription_id, newsfeed_id, to, true) matches Ok((t, _))
            &&& t.subscriptions_of(to) == s.subscriptions_of(to).push(
                crate::types::Subscription { id: subscription_id, newsfeed_id, owner: to },
            )
        }),
        s.subscriptions_per_block.len() < s.config.max_subscriptions_per_block ==> {
            &&& s.subscribe_newsfeed_step(Origin::Signed(to), ctx, newsfeed_id, true) matches Ok((t, _))
            &&& t.subscriptions_of(to) == s.subscriptions_of(to).push(
                crate::types::Subscription { id: unique_id(ctx), newsfeed_id, owner: to },
            )
            &&& t.subscriptions_per_block == s.subscriptions_per_block.push(unique_id(ctx))
        },
{
}

/// Removing one place of a list removes one copy of the element held there.
pub proof fn lemma_swap_removed_multiset<T>(l: Seq<T>, i: int)
    requires
        0 <= i < l.len(),
    ensures
        swap_removed(l, i).to_multiset() == l.to_multiset().remove(l[i]),
{
    broadcast use vstd::seq_lib::to_multiset_build, vstd::seq_lib::to_multiset_update;
    broadcast use vstd::multiset::group_multiset_axioms;

    let u = l.update(i, l.last());
    assert(u.drop_last().push(u.last()) =~= u);
    assert(u.last() == l.last());
    assert(u.to_multiset() == u.drop_last().to_multiset().insert(l.last()));
    assert(u.to_multiset() == l.to_multiset().insert(l.last()).remove(l[i]));
    l.to_multiset_ensures();
    assert(l.to_multiset().contains(l[i]));
    let d = u.drop_last();
    assert(swap_removed(l, i) == d);
    assert forall|x: T| #[trigger] d.to_multiset().count(x) == l.to_multiset().remove(l[i]).count(x) by {
        assert(d.to_multiset().insert(l.last()).count(x) == l.to_multiset().insert(l.last()).remove(
            l[i],
        ).count(x));
    }
    assert(d.to_multiset() =~= l.to_multiset().remove(l[i]));
}

/// Cancelling subscription `x` of account `a` removes exactly one entry from
/// the subscriptions of `a`: the first one with identifier `x`. Every entry with
/// another identifier is still held, nothing else is added, and where `a` held
/// only one subscription with identifier `x`, it holds none afterwards. No
/// other account's subscriptions change.
pub proof fn law_unsubscribe_removes_that_subscription(
    s: PalletView,
    x: UniqueId,
    a: AccountId,
    paid: bool,
)
    ensures
        s.unsubscribe_step(x, a, paid) matches Ok((t, _)) ==> {
            let before = s.subscriptions_of(a);
            let after = t.subscriptions_of(a);
            &&& exists|p: int|
                is_first_subscription_index(before, x, p) && after.to_multiset()
                    == before.to_multiset().remove(#[trigger] before[p])
            &&& after.len() == before.len() - 1
            &&& forall|k: int|
                0 <= k < before.len() && before[k].id != x ==> after.contains(#[trigger] before[k])
            &&& (forall|i: int, j: int|
                0 <= i < before.len() && 0 <= j < before.len() && before[i].id == x
                    && before[j].id == x ==> i == j) ==> !holds_subscription(after, x)
            &&& forall|b: AccountId| b != a ==> #[trigger] t.subscriptions_of(b) == s.subscriptions_of(b)
        },
{
    if let Ok((t, _)) = s.unsubscribe_step(x, a, paid) {
        let before = s.subscriptions_of(a);
        let after = t.subscriptions_of(a);
        let w = choose|w: int| 0 <= w < before.len() && before[w].id == x;
        crate::pallet::Pallet::lemma_least_subscription_index(before, x, w);
        let m = choose|m: int|
            0 <= m <= w && before[m].id == x && forall|j: int| 0 <= j < m ==> before[j].id != x;
        assert(is_first_subscription_index(before, x, m));
        lemma_first_subscription_index(before, x, m);
        assert(after == swap_removed(before, m));
        lemma_swap_removed(before, m);
        lemma_swap_removed_multiset(before, m);
        before.to_multiset_ensures();
        after.to_multiset_ensures();
        assert forall|k: int| 0 <= k < before.len() && before[k].id != x implies after.contains(
            #[trigger] before[k],
        ) by {
            if k == before.len() - 1 {
                assert(after[m] == before[k]);
            } else {
                assert(after[k] == before[k]);
            }
        }
        if forall|i: int, j: int|
            0 <= i < before.len() && 0 <= j < before.len() && before[i].id == x && before[j].id
                == x ==> i == j {
            if holds_subscription(after, x) {
                let k = choose|k: int| 0 <= k < after.len() && after[k].id == x;
                if k == m {
                    assert(after[k] == before[before.len() - 1]);
                } else {
                    assert(after[k] == before[k]);
                }
            }
        }
    }
}

} // verus!
