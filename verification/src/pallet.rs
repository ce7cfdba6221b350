//! The registry's storage and the calls that change it.

use std::collections::HashMap;
use vstd::prelude::*;
use crate::types::{
    AccountId, Balance, BlockContext, Config, DispatchError, Error, Event, NewsFeed,
    NewsFeedView, Origin, Payment, PaymentType, Subscription, UniqueId, ensure_signed, signer,
};
use crate::ids::{new_unique_id, unique_id};

verus! {

broadcast use vstd::std_specs::hash::group_hash_axioms;

/// The outcome of a call as the contracts describe it: the storage and the
/// events after a success, or the error.
pub type Step = Result<(PalletView, Seq<Event>), DispatchError>;

/// The registry's storage.
pub struct Pallet {
    config: Config,
    /// Number of news feeds created so far.
    news_feed_count: u32,
    /// The news feeds, by identifier.
    news_feeds: HashMap<UniqueId, NewsFeed>,
    /// The feeds that each account owns.
    owner_of_news_feeds: HashMap<AccountId, Vec<UniqueId>>,
    /// The subscriptions that each account holds.
    subscriptions: HashMap<AccountId, Vec<Subscription>>,
    /// Subscriptions made in the current block, waiting to be registered.
    subscriptions_per_block: Vec<UniqueId>,
}

/// The registry's storage as the contracts see it.
#[verifier::ext_equal]
pub struct PalletView {
    pub config: Config,
    pub news_feed_count: u32,
    pub news_feeds: Map<UniqueId, NewsFeedView>,
    pub owner_of_news_feeds: Map<AccountId, Seq<UniqueId>>,
    pub subscriptions: Map<AccountId, Seq<Subscription>>,
    pub subscriptions_per_block: Seq<UniqueId>,
}

impl View for Pallet {
    type V = PalletView;

    closed spec fn view(&self) -> PalletView {
        PalletView {
            config: self.config,
            news_feed_count: self.news_feed_count,
            news_feeds: self.news_feeds@.map_values(|f: NewsFeed| f@),
            owner_of_news_feeds: self.owner_of_news_feeds@.map_values(|v: Vec<UniqueId>| v@),
            subscriptions: self.subscriptions@.map_values(|v: Vec<Subscription>| v@),
            subscriptions_per_block: self.subscriptions_per_block@,
        }
    }
}

/// `i` is the first index of `s` that holds `x`.
pub open spec fn is_first_index<T>(s: Seq<T>, x: T, i: int) -> bool {
    &&& 0 <= i < s.len()
    &&& s[i] == x
    &&& forall|j: int| 0 <= j < i ==> s[j] != x
}

/// The first index of `s` that holds `x`.
pub open spec fn first_index<T>(s: Seq<T>, x: T) -> int {
    choose|i: int| is_first_index(s, x, i)
}

/// `i` is the first index of `s` that holds a subscription with identifier `id`.
pub open spec fn is_first_subscription_index(s: Seq<Subscription>, id: UniqueId, i: int) -> bool {
    &&& 0 <= i < s.len()
    &&& s[i].id == id
    &&& forall|j: int| 0 <= j < i ==> s[j].id != id
}

/// `s` holds a subscription with identifier `id`.
pub open spec fn holds_subscription(s: Seq<Subscription>, id: UniqueId) -> bool {
    exists|i: int| 0 <= i < s.len() && s[i].id == id
}

/// The first index of `s` that holds a subscription with identifier `id`.
pub open spec fn first_subscription_index(s: Seq<Subscription>, id: UniqueId) -> int {
    choose|i: int| is_first_subscription_index(s, id, i)
}

/// What `Vec::swap_remove(i)` leaves: the last element moved into place `i`.
pub open spec fn swap_removed<T>(s: Seq<T>, i: int) -> Seq<T> {
    s.update(i, s.last()).drop_last()
}

/// The outcome of a call that failed with one of the registry's own errors.
pub open spec fn refused(e: Error) -> Step {
    Err(DispatchError::Module(e))
}

/// What a call returned, and the storage it left, agree with `step`; a call
/// that fails leaves the storage as it was.
pub open spec fn follows(
    pre: PalletView,
    post: PalletView,
    r: Result<Vec<Event>, DispatchError>,
    step: Step,
) -> bool {
    match step {
        Ok((s, events)) => post == s && (r matches Ok(ev) && ev@ == events),
        Err(e) => post == pre && r == Err::<Vec<Event>, DispatchError>(e),
    }
}

impl PalletView {
    /// The feeds that account `a` owns; nothing where storage holds no entry.
    pub open spec fn owned(self, a: AccountId) -> Seq<UniqueId> {
        if self.owner_of_news_feeds.contains_key(a) {
            self.owner_of_news_feeds[a]
        } else {
            Seq::empty()
        }
    }

    /// The subscriptions that account `a` holds; nothing where storage holds no entry.
    pub open spec fn subscriptions_of(self, a: AccountId) -> Seq<Subscription> {
        if self.subscriptions.contains_key(a) {
            self.subscriptions[a]
        } else {
            Seq::empty()
        }
    }

    /// `a` holds a subscription to feed `newsfeed_id`.
    pub open spec fn has_subscribed(self, a: AccountId, newsfeed_id: UniqueId) -> bool {
        exists|i: int|
            0 <= i < self.subscriptions_of(a).len() && (#[trigger] self.subscriptions_of(
                a,
            )[i]).newsfeed_id == newsfeed_id
    }

    /// The feed stored under `k` is consistent with the rest of the storage.
    pub open spec fn feed_ok(self, k: UniqueId) -> bool {
        let f = self.news_feeds[k];
        &&& f.id == k
        &&& f.registration_url.len() <= self.config.max_registration_url_length
        &&& self.owned(f.owner).contains(k)
    }

    /// The list `l` of feeds said to be owned by `a` is consistent.
    pub open spec fn owned_ok(self, a: AccountId, l: Seq<UniqueId>) -> bool {
        &&& l.no_duplicates()
        &&& l.len() <= self.config.max_owned_news_feeds
        &&& forall|i: int|
            0 <= i < l.len() ==> self.news_feeds.contains_key(#[trigger] l[i])
                && self.news_feeds[l[i]].owner == a
    }

    /// The list `l` of subscriptions said to be held by `a` is consistent.
    pub open spec fn subscriptions_ok(self, a: AccountId, l: Seq<Subscription>) -> bool {
        &&& l.len() <= self.config.max_owned_subscriptions
        &&& forall|i: int|
            0 <= i < l.len() ==> (#[trigger] l[i]).owner == a && self.news_feeds.contains_key(
                l[i].newsfeed_id,
            )
        &&& forall|i: int, j: int|
            0 <= i < l.len() && 0 <= j < l.len() && i != j ==> (#[trigger] l[i]).newsfeed_id
                != (#[trigger] l[j]).newsfeed_id
    }

    /// What the registry keeps true of its storage: the count is the number of
    /// feeds and within its limit; each feed is stored under its own identifier,
    /// has a url within its limit and is listed among its owner's feeds; each
    /// account's feed list has no repeats, is within its limit and lists only
    /// feeds that the account owns; each account's subscriptions are its own,
    /// within their limit, to existing feeds and to each feed at most once; the
    /// queue of the block is within its limit.
    pub open spec fn wf(self) -> bool {
        &&& self.news_feeds.dom().finite()
        &&& self.news_feeds.dom().len() == self.news_feed_count
        &&& self.news_feed_count <= self.config.max_news_feeds
        &&& forall|k: UniqueId| #[trigger] self.news_feeds.contains_key(k) ==> self.feed_ok(k)
        &&& forall|a: AccountId| #[trigger]
            self.owner_of_news_feeds.contains_key(a) ==> self.owned_ok(
                a,
                self.owner_of_news_feeds[a],
            )
        &&& forall|a: AccountId| #[trigger]
            self.subscriptions.contains_key(a) ==> self.subscriptions_ok(
                a,
                self.subscriptions[a],
            )
        &&& self.subscriptions_per_block.len() <= self.config.max_subscriptions_per_block
    }

    /// The storage of a registry that holds nothing yet.
    pub open spec fn empty(config: Config) -> PalletView {
        PalletView {
            config,
            news_feed_count: 0,
            news_feeds: Map::empty(),
            owner_of_news_feeds: Map::empty(),
            subscriptions: Map::empty(),
            subscriptions_per_block: Seq::empty(),
        }
    }

    // ----- creating a feed -----

    /// Why creating feed `id` for `owner` with `url` is refused, if it is.
    pub open spec fn mint_error(self, owner: AccountId, id: UniqueId, url: Seq<u8>) -> Option<Error> {
        if url.len() > self.config.max_registration_url_length {
            Some(Error::RegistrationUrlTooLong)
        } else if self.news_feeds.contains_key(id) {
            Some(Error::DuplicatedNewsFeed)
        } else if self.news_feed_count + 1 > self.config.max_news_feeds {
            Some(Error::NewsFeedsOverflow)
        } else if self.owned(owner).len() >= self.config.max_owned_news_feeds {
            Some(Error::MaxNewsFeedsOwned)
        } else {
            None
        }
    }

    /// The storage after feed `id` was created for `owner`.
    pub open spec fn with_minted(
        self,
        owner: AccountId,
        id: UniqueId,
        payment: PaymentType,
        url: Seq<u8>,
    ) -> PalletView {
        PalletView {
            news_feed_count: (self.news_feed_count + 1) as u32,
            news_feeds: self.news_feeds.insert(
                id,
                NewsFeedView {
                    id,
                    owner,
                    subscribe_fee: None,
                    unsubscribe_fee: None,
                    payment_type: payment,
                    registration_url: url,
                },
            ),
            owner_of_news_feeds: self.owner_of_news_feeds.insert(owner, self.owned(owner).push(id)),
            ..self
        }
    }

    /// Creating feed `id` for `owner`.
    pub open spec fn mint_step(
        self,
        owner: AccountId,
        id: UniqueId,
        payment: PaymentType,
        url: Seq<u8>,
    ) -> Step {
        match self.mint_error(owner, id, url) {
            Some(e) => refused(e),
            None => Ok(
                (
                    self.with_minted(owner, id, payment, url),
                    seq![Event::NewsFeedCreated { newsfeed: id, owner }],
                ),
            ),
        }
    }

    /// The `create_newsfeed` call.
    pub open spec fn create_newsfeed_step(
        self,
        origin: Origin,
        ctx: BlockContext,
        payment: PaymentType,
        url: Seq<u8>,
    ) -> Step {
        match signer(origin) {
            Err(e) => Err(e),
            Ok(sender) => self.mint_step(sender, unique_id(ctx), payment, url),
        }
    }

    // ----- handing a feed over -----

    /// Why handing feed `id` over to `to` is refused, if it is.
    pub open spec fn transfer_error(self, id: UniqueId, to: AccountId) -> Option<Error> {
        if !self.news_feeds.contains_key(id) {
            Some(Error::NewsFeedNotFound)
        } else if self.news_feeds[id].owner == to {
            Some(Error::TransferToSelf)
        } else if !self.owned(self.news_feeds[id].owner).contains(id) {
            Some(Error::NewsFeedNotFound)
        } else if self.owned(to).len() >= self.config.max_owned_news_feeds {
            Some(Error::MaxNewsFeedsOwned)
        } else {
            None
        }
    }

    /// The storage after feed `id` was handed over to `to`: `to` owns it, its
    /// fees are cleared, it is appended to the feeds of `to` and swap-removed
    /// from those of its former owner.
    pub open spec fn with_transferred(self, id: UniqueId, to: AccountId) -> PalletView {
        let f = self.news_feeds[id];
        let from = f.owner;
        PalletView {
            news_feeds: self.news_feeds.insert(
                id,
                NewsFeedView { owner: to, subscribe_fee: None, unsubscribe_fee: None, ..f },
            ),
            owner_of_news_feeds: self.owner_of_news_feeds.insert(to, self.owned(to).push(id)).insert(
                from,
                swap_removed(self.owned(from), first_index(self.owned(from), id)),
            ),
            ..self
        }
    }

    /// Handing feed `id` over to `to`, whoever asks.
    pub open spec fn transfer_step(self, id: UniqueId, to: AccountId) -> Step {
        match self.transfer_error(id, to) {
            Some(e) => refused(e),
            None => Ok(
                (
                    self.with_transferred(id, to),
                    seq![
                        Event::NewsFeedTransferred {
                            newsfeed: id,
                            from: self.news_feeds[id].owner,
                            to,
                        },
                    ],
                ),
            ),
        }
    }

    /// The `transfer_newsfeed` call: only the owner may hand a feed over.
    pub open spec fn transfer_newsfeed_step(self, origin: Origin, to: AccountId, id: UniqueId) -> Step {
        match signer(origin) {
            Err(e) => Err(e),
            Ok(sender) => if !self.news_feeds.contains_key(id) {
                refused(Error::NewsFeedNotFound)
            } else if sender != self.news_feeds[id].owner {
                refused(Error::NotNewsFeedOwner)
            } else {
                self.transfer_step(id, to)
            },
        }
    }

    // ----- subscribing -----

    /// What subscribing `to` to feed `newsfeed_id` asks of the checks: the
    /// payment of the subscribe fee, or the error that refuses it.
    pub open spec fn subscribe_check(self, newsfeed_id: UniqueId, to: AccountId) -> Result<Payment, Error> {
        if !self.news_feeds.contains_key(newsfeed_id) {
            Err(Error::NewsFeedNotFound)
        } else if self.news_feeds[newsfeed_id].owner == to {
            Err(Error::SubscriptionNotAllowed)
        } else if self.has_subscribed(to, newsfeed_id) {
            Err(Error::DuplicatedSubscription)
        } else if self.subscriptions_of(to).len() >= self.config.max_owned_subscriptions {
            Err(Error::MaxSubscriptionsExceeded)
        } else {
            match self.news_feeds[newsfeed_id].subscribe_fee {
                None => Err(Error::SubscriptionNotAllowed),
                Some(price) => Ok(
                    Payment { from: to, to: self.news_feeds[newsfeed_id].owner, amount: price },
                ),
            }
        }
    }

    /// The storage after `to` subscribed to feed `newsfeed_id` under `subscription_id`.
    pub open spec fn with_subscription(
        self,
        subscription_id: UniqueId,
        newsfeed_id: UniqueId,
        to: AccountId,
    ) -> PalletView {
        PalletView {
            subscriptions: self.subscriptions.insert(
                to,
                self.subscriptions_of(to).push(
                    Subscription { id: subscription_id, newsfeed_id, owner: to },
                ),
            ),
            ..self
        }
    }

    /// Subscribing `to` to feed `newsfeed_id`, where `paid` tells whether the
    /// currency made the payment that `subscribe_check` asks for.
    pub open spec fn subscribe_step(
        self,
        subscription_id: UniqueId,
        newsfeed_id: UniqueId,
        to: AccountId,
        paid: bool,
    ) -> Step {
        match self.subscribe_check(newsfeed_id, to) {
            Err(e) => refused(e),
            Ok(payment) => if !paid {
                Err(DispatchError::PaymentFailed)
            } else {
                Ok(
                    (
                        self.with_subscription(subscription_id, newsfeed_id, to),
                        seq![
                            Event::NewsFeedSubscribeFeePaid {
                                subscriber: to,
                                owner: payment.to,
                                newsfeed: self.news_feeds[newsfeed_id].id,
                                price: payment.amount,
                            },
                            Event::NewsFeedSubscribed { newsfeed: newsfeed_id, subscriber: to },
                        ],
                    ),
                )
            },
        }
    }

    /// The payment that the `subscribe_newsfeed` call asks for, or the error
    /// that refuses the call before any payment.
    pub open spec fn subscribe_newsfeed_payment(self, origin: Origin, newsfeed_id: UniqueId) -> Result<
        Payment,
        DispatchError,
    > {
        match signer(origin) {
            Err(e) => Err(e),
            Ok(a) => match self.subscribe_check(newsfeed_id, a) {
                Err(e) => Err(DispatchError::Module(e)),
                Ok(p) => Ok(p),
            },
        }
    }

    /// The `subscribe_newsfeed` call: subscribes the signer under an identifier
    /// drawn from `ctx` and queues the subscription for registration.
    pub open spec fn subscribe_newsfeed_step(
        self,
        origin: Origin,
        ctx: BlockContext,
        newsfeed_id: UniqueId,
        paid: bool,
    ) -> Step {
        match signer(origin) {
            Err(e) => Err(e),
            Ok(a) => match self.subscribe_step(unique_id(ctx), newsfeed_id, a, paid) {
                Err(e) => Err(e),
                Ok((s, events)) => if self.subscriptions_per_block.len()
                    >= self.config.max_subscriptions_per_block {
                    refused(Error::MaxSubscriptionsPerBlock)
                } else {
                    Ok(
                        (
                            PalletView {
                                subscriptions_per_block: s.subscriptions_per_block.push(
                                    unique_id(ctx),
                                ),
                                ..s
                            },
                            events,
                        ),
                    )
                },
            },
        }
    }

    // ----- unsubscribing -----

    /// What cancelling subscription `subscription_id` of `from` asks of the
    /// checks: the payment of the unsubscribe fee, if the feed has one, or the
    /// error that refuses it.
    pub open spec fn unsubscribe_check(self, subscription_id: UniqueId, from: AccountId) -> Result<
        Option<Payment>,
        Error,
    > {
        let l = self.subscriptions_of(from);
        if !holds_subscription(l, subscription_id) {
            Err(Error::SubscriptionNotFound)
        } else {
            let sub = l[first_subscription_index(l, subscription_id)];
            if !self.news_feeds.contains_key(sub.newsfeed_id) {
                Err(Error::NewsFeedNotFound)
            } else {
                let f = self.news_feeds[sub.newsfeed_id];
                Ok(
                    match f.unsubscribe_fee {
                        Some(fee) => Some(Payment { from, to: f.owner, amount: fee }),
                        None => None,
                    },
                )
            }
        }
    }

    /// The storage after subscription `subscription_id` of `from` was
    /// swap-removed from the subscriptions of `from`.
    pub open spec fn with_unsubscribed(self, subscription_id: UniqueId, from: AccountId) -> PalletView {
        let l = self.subscriptions_of(from);
        PalletView {
            subscriptions: self.subscriptions.insert(
                from,
                swap_removed(l, first_subscription_index(l, subscription_id)),
            ),
            ..self
        }
    }

    /// Cancelling subscription `subscription_id` of `from`, where `paid` tells
    /// whether the currency made the payment that `unsubscribe_check` asks for
    /// (and is not looked at where it asks for none).
    pub open spec fn unsubscribe_step(self, subscription_id: UniqueId, from: AccountId, paid: bool) -> Step {
        match self.unsubscribe_check(subscription_id, from) {
            Err(e) => refused(e),
            Ok(payment) => {
                let l = self.subscriptions_of(from);
                let f = self.news_feeds[l[first_subscription_index(l, subscription_id)].newsfeed_id];
                let unsubscribed = Event::NewsFeedUnsubscribed { newsfeed: f.id, subscriber: from };
                match payment {
                    Some(p) => if !paid {
                        Err(DispatchError::PaymentFailed)
                    } else {
                        Ok(
                            (
                                self.with_unsubscribed(subscription_id, from),
                                seq![
                                    Event::NewsFeedUnsubscribeFeePaid {
                                        subscriber: from,
                                        owner: p.to,
                                        subscription: subscription_id,
                                        price: p.amount,
                                    },
                                    unsubscribed,
                                ],
                            ),
                        )
                    },
                    None => Ok(
                        (
                            self.with_unsubscribed(subscription_id, from),
                            seq![
                                Event::NewsFeedNoUnsubscribeFee {
                                    subscriber: from,
                                    subscription: subscription_id,
                                    newsfeed: f.id,
                                },
                                unsubscribed,
                            ],
                        ),
                    ),
                }
            },
        }
    }

    /// The payment that the `unsubscribe_newsfeed` call asks for, if any, or the
    /// error that refuses the call before any payment.
    pub open spec fn unsubscribe_newsfeed_payment(self, origin: Origin, subscription_id: UniqueId) -> Result<
        Option<Payment>,
        DispatchError,
    > {
        match signer(origin) {
            Err(e) => Err(e),
            Ok(a) => match self.unsubscribe_check(subscription_id, a) {
                Err(e) => Err(DispatchError::Module(e)),
                Ok(p) => Ok(p),
            },
        }
    }

    /// The `unsubscribe_newsfeed` call.
    pub open spec fn unsubscribe_newsfeed_step(
        self,
        origin: Origin,
        subscription_id: UniqueId,
        paid: bool,
    ) -> Step {
        match signer(origin) {
            Err(e) => Err(e),
            Ok(a) => self.unsubscribe_step(subscription_id, a, paid),
        }
    }

    // ----- setting fees -----

    /// The storage after the fees of feed `id` were set.
    pub open spec fn with_fees(
        self,
        id: UniqueId,
        subscribe_fee: Option<Balance>,
        unsubscribe_fee: Option<Balance>,
    ) -> PalletView {
        PalletView {
            news_feeds: self.news_feeds.insert(
                id,
                NewsFeedView { subscribe_fee, unsubscribe_fee, ..self.news_feeds[id] },
            ),
            ..self
        }
    }

    /// The `set_fees_newsfeed` call: only the owner may set the fees.
    pub open spec fn set_fees_newsfeed_step(
        self,
        origin: Origin,
        id: UniqueId,
        subscribe_fee: Option<Balance>,
        unsubscribe_fee: Option<Balance>,
    ) -> Step {
        match signer(origin) {
            Err(e) => Err(e),
            Ok(caller) => if !self.news_feeds.contains_key(id) {
                refused(Error::NewsFeedNotFound)
            } else if self.news_feeds[id].owner != caller {
                refused(Error::NotNewsFeedOwner)
            } else {
                Ok(
                    (
                        self.with_fees(id, subscribe_fee, unsubscribe_fee),
                        seq![Event::NewsFeedPriceSet { newsfeed: id, subscribe_fee, unsubscribe_fee }],
                    ),
                )
            },
        }
    }
}

/// A copy of `v`.
fn copy_vec<T: Copy>(v: &Vec<T>) -> (r: Vec<T>)
    ensures
        r@ == v@,
{
    let n = v.len();
    let mut r: Vec<T> = Vec::with_capacity(n);
    let mut i: usize = 0;
    while i < n
        invariant
            n == v@.len(),
            i <= n,
            r@ == v@.take(i as int),
        decreases n - i,
    {
        r.push(v[i]);
        assert(r@ =~= v@.take(i + 1));
        i = i + 1;
    }
    assert(r@ =~= v@);
    r
}

/// The first index of `x` in `s` is the one `is_first_index` describes.
pub proof fn lemma_first_index<T>(s: Seq<T>, x: T, i: int)
    requires
        is_first_index(s, x, i),
    ensures
        first_index(s, x) == i,
{
    let c = first_index(s, x);
    assert(is_first_index(s, x, c));
    if c < i {
        assert(s[c] != x);
    } else if c > i {
        assert(s[i] != x);
    }
}

/// In a list without repeats that holds `x`, `first_index` finds `x`.
pub proof fn lemma_first_index_no_duplicates<T>(s: Seq<T>, x: T)
    requires
        s.no_duplicates(),
        s.contains(x),
    ensures
        is_first_index(s, x, first_index(s, x)),
{
    let w = choose|w: int| 0 <= w < s.len() && s[w] == x;
    assert(is_first_index(s, x, w)) by {
        assert forall|j: int| 0 <= j < w implies s[j] != x by {
            assert(s.no_duplicates());
        }
    }
    lemma_first_index(s, x, w);
}

/// The first index of subscription `id` in `s` is the one
/// `is_first_subscription_index` describes.
pub proof fn lemma_first_subscription_index(s: Seq<Subscription>, id: UniqueId, i: int)
    requires
        is_first_subscription_index(s, id, i),
    ensures
        first_subscription_index(s, id) == i,
{
    let c = first_subscription_index(s, id);
    assert(is_first_subscription_index(s, id, c));
    if c < i {
        assert(s[c].id != id);
    } else if c > i {
        assert(s[i].id != id);
    }
}

/// Removing place `i` of a list without repeats leaves a list without repeats
/// that holds every element but the removed one.
pub proof fn lemma_swap_removed<T>(s: Seq<T>, i: int)
    requires
        0 <= i < s.len(),
    ensures
        swap_removed(s, i).len() == s.len() - 1,
        forall|k: int|
            0 <= k < s.len() - 1 ==> #[trigger] swap_removed(s, i)[k] == (if k == i {
                s[s.len() - 1]
            } else {
                s[k]
            }),
        s.no_duplicates() ==> swap_removed(s, i).no_duplicates(),
        s.no_duplicates() ==> forall|x: T|
            #[trigger] swap_removed(s, i).contains(x) <==> (s.contains(x) && x != s[i]),
{
    let r = swap_removed(s, i);
    if s.no_duplicates() {
        assert forall|x: T| #[trigger] r.contains(x) <==> (s.contains(x) && x != s[i]) by {
            if r.contains(x) {
                let k = choose|k: int| 0 <= k < r.len() && r[k] == x;
                if k == i {
                    assert(s[s.len() - 1] == x);
                } else {
                    assert(s[k] == x);
                }
            }
            if s.contains(x) && x != s[i] {
                let k = choose|k: int| 0 <= k < s.len() && s[k] == x;
                if k == s.len() - 1 {
                    assert(r[i] == x);
                } else {
                    assert(r[k] == x);
                }
            }
        }
    }
}

impl Pallet {
    /// A registry that holds nothing yet, with the given limits.
    pub fn new(config: Config) -> (p: Pallet)
        ensures
            p@ == PalletView::empty(config),
            p@.wf(),
    {
        let p = Pallet {
            config,
            news_feed_count: 0,
            news_feeds: HashMap::new(),
            owner_of_news_feeds: HashMap::new(),
            subscriptions: HashMap::new(),
            subscriptions_per_block: Vec::new(),
        };
        assert(p@ =~= PalletView::empty(config));
        p
    }

    /// The number of feeds that `a` owns.
    fn owned_count(&self, a: AccountId) -> (n: usize)
        ensures
            n == self@.owned(a).len(),
    {
        match self.owner_of_news_feeds.get(&a) {
            Some(v) => v.len(),
            None => 0,
        }
    }

    /// Takes the feed list of `a` out of storage.
    fn take_owned(&mut self, a: AccountId) -> (v: Vec<UniqueId>)
        ensures
            v@ == old(self)@.owned(a),
            final(self)@ == (PalletView {
                owner_of_news_feeds: old(self)@.owner_of_news_feeds.remove(a),
                ..old(self)@
            }),
    {
        let v = match self.owner_of_news_feeds.remove(&a) {
            Some(v) => v,
            None => Vec::new(),
        };
        assert(self@.owner_of_news_feeds =~= old(self)@.owner_of_news_feeds.remove(a));
        assert(self@ =~= PalletView {
            owner_of_news_feeds: old(self)@.owner_of_news_feeds.remove(a),
            ..old(self)@
        });
        v
    }

    /// Stores `v` as the feed list of `a`.
    fn put_owned(&mut self, a: AccountId, v: Vec<UniqueId>)
        ensures
            final(self)@ == (PalletView {
                owner_of_news_feeds: old(self)@.owner_of_news_feeds.insert(a, v@),
                ..old(self)@
            }),
    {
        self.owner_of_news_feeds.insert(a, v);
        assert(self@.owner_of_news_feeds =~= old(self)@.owner_of_news_feeds.insert(a, v@));
        assert(self@ =~= PalletView {
            owner_of_news_feeds: old(self)@.owner_of_news_feeds.insert(a, v@),
            ..old(self)@
        });
    }

    /// Mints a new feed: creates feed `id` for `owner`, with no fees yet.
    pub fn mint_newsfeed(
        &mut self,
        owner: AccountId,
        newsfeed_id: UniqueId,
        payment: PaymentType,
        url: Vec<u8>,
    ) -> (r: Result<Vec<Event>, DispatchError>)
        requires
            old(self)@.wf(),
        ensures
            final(self)@.wf(),
            follows(old(self)@, final(self)@, r, old(self)@.mint_step(owner, newsfeed_id, payment, url@)),
    {
        if url.len() > self.config.max_registration_url_length as usize {
            return Err(DispatchError::Module(Error::RegistrationUrlTooLong));
        }
        if self.news_feeds.contains_key(&newsfeed_id) {
            return Err(DispatchError::Module(Error::DuplicatedNewsFeed));
        }
        let new_count = match self.news_feed_count.checked_add(1) {
            Some(c) => c,
            None => {
                return Err(DispatchError::Module(Error::NewsFeedsOverflow));
            },
        };
        if new_count > self.config.max_news_feeds {
            return Err(DispatchError::Module(Error::NewsFeedsOverflow));
        }
        if self.owned_count(owner) >= self.config.max_owned_news_feeds as usize {
            return Err(DispatchError::Module(Error::MaxNewsFeedsOwned));
        }
        let ghost pre = self@;
        let mut owned = self.take_owned(owner);
        owned.push(newsfeed_id);
        self.put_owned(owner, owned);
        let feed = NewsFeed {
            id: newsfeed_id,
            owner,
            subscribe_fee: None,
            unsubscribe_fee: None,
            payment_type: payment,
            registration_url: url,
        };
        self.news_feeds.insert(newsfeed_id, feed);
        self.news_feed_count = new_count;
        let ghost post = pre.with_minted(owner, newsfeed_id, payment, url@);
        assert(self@.news_feeds =~= post.news_feeds);
        assert(self@.owner_of_news_feeds =~= post.owner_of_news_feeds);
        assert(self@ =~= post);
        proof {
            Self::lemma_mint_keeps_wf(pre, owner, newsfeed_id, payment, url@);
        }
        let events = vec![Event::NewsFeedCreated { newsfeed: newsfeed_id, owner }];
        assert(events@ =~= seq![Event::NewsFeedCreated { newsfeed: newsfeed_id, owner }]);
        Ok(events)
    }

    proof fn lemma_mint_keeps_wf(
        s: PalletView,
        owner: AccountId,
        id: UniqueId,
        payment: PaymentType,
        url: Seq<u8>,
    )
        requires
            s.wf(),
            s.mint_error(owner, id, url) is None,
        ensures
            s.with_minted(owner, id, payment, url).wf(),
    {
        let t = s.with_minted(owner, id, payment, url);
        assert(t.news_feeds.dom() =~= s.news_feeds.dom().insert(id));
        assert(!s.owned(owner).contains(id)) by {
            if s.owned(owner).contains(id) {
                let i = choose|i: int| 0 <= i < s.owned(owner).len() && s.owned(owner)[i] == id;
                assert(s.owner_of_news_feeds.contains_key(owner));
                assert(s.owned_ok(owner, s.owner_of_news_feeds[owner]));
            }
        }
        assert forall|k: UniqueId| #[trigger] t.news_feeds.contains_key(k) implies t.feed_ok(k) by {
            if k != id {
                assert(s.feed_ok(k));
                let o = s.news_feeds[k].owner;
                if o == owner {
                    let j = choose|j: int| 0 <= j < s.owned(o).len() && s.owned(o)[j] == k;
                    assert(t.owned(o)[j] == k);
                }
            } else {
                assert(t.owned(owner)[s.owned(owner).len() as int] == id);
            }
        }
        assert forall|a: AccountId| #[trigger] t.owner_of_news_feeds.contains_key(a) implies t.owned_ok(
            a,
            t.owner_of_news_feeds[a],
        ) by {
            let l = t.owner_of_news_feeds[a];
            if a == owner {
                let old_l = s.owned(owner);
                if s.owner_of_news_feeds.contains_key(owner) {
                    assert(s.owned_ok(owner, old_l));
                }
                assert forall|i: int| 0 <= i < l.len() implies t.news_feeds.contains_key(
                    #[trigger] l[i],
                ) && t.news_feeds[l[i]].owner == a by {
                    if i < old_l.len() {
                        assert(l[i] == old_l[i]);
                        assert(old_l[i] != id);
                    }
                }
                assert(l.no_duplicates()) by {
                    assert forall|i: int, j: int|
                        0 <= i < l.len() && 0 <= j < l.len() && i != j implies l[i] != l[j] by {
                        if i < old_l.len() && j < old_l.len() {
                        } else if i < old_l.len() {
                            assert(old_l.contains(l[i]));
                        } else {
                            assert(old_l.contains(l[j]));
                        }
                    }
                }
            } else {
                assert(s.owner_of_news_feeds.contains_key(a));
                assert(s.owned_ok(a, l));
                assert forall|i: int| 0 <= i < l.len() implies t.news_feeds.contains_key(
                    #[trigger] l[i],
                ) && t.news_feeds[l[i]].owner == a by {
                    assert(s.news_feeds.contains_key(l[i]));
                }
            }
        }
        assert forall|a: AccountId| #[trigger] t.subscriptions.contains_key(a) implies t.subscriptions_ok(
            a,
            t.subscriptions[a],
        ) by {
            assert(s.subscriptions_ok(a, s.subscriptions[a]));
        }
    }

    /// The first place of `id` in the feed list of `a`.
    fn position_in_owned(&self, a: AccountId, id: UniqueId) -> (r: Option<usize>)
        ensures
            match r {
                Some(i) => is_first_index(self@.owned(a), id, i as int),
                None => !self@.owned(a).contains(id),
            },
    {
        match self.owner_of_news_feeds.get(&a) {
            None => None,
            Some(v) => {
                let n = v.len();
                let mut i: usize = 0;
                while i < n
                    invariant
                        n == v@.len(),
                        v@ == self@.owned(a),
                        i <= n,
                        forall|j: int| 0 <= j < i ==> v@[j] != id,
                    decreases n - i,
                {
                    if v[i] == id {
                        return Some(i);
                    }
                    i = i + 1;
                }
                None
            },
        }
    }

    /// Creates a new feed owned by the signer of the call, with an identifier
    /// drawn from `ctx`.
    pub fn create_newsfeed(
        &mut self,
        origin: Origin,
        ctx: &BlockContext,
        payment: PaymentType,
        url: Vec<u8>,
    ) -> (r: Result<Vec<Event>, DispatchError>)
        requires
            old(self)@.wf(),
        ensures
            final(self)@.wf(),
            follows(
                old(self)@,
                final(self)@,
                r,
                old(self)@.create_newsfeed_step(origin, *ctx, payment, url@),
            ),
    {
        let sender = match ensure_signed(origin) {
            Ok(a) => a,
            Err(e) => {
                return Err(e);
            },
        };
        let newsfeed_id = new_unique_id(ctx);
        self.mint_newsfeed(sender, newsfeed_id, payment, url)
    }

    /// Hands feed `newsfeed_id` over to `to`, whoever asks: `to` becomes its
    /// owner and its fees are cleared, so that nobody can subscribe until the
    /// new owner sets them.
    pub fn do_newsfeed_transfer(&mut self, newsfeed_id: UniqueId, to: AccountId) -> (r: Result<
        Vec<Event>,
        DispatchError,
    >)
        requires
            old(self)@.wf(),
        ensures
            final(self)@.wf(),
            follows(old(self)@, final(self)@, r, old(self)@.transfer_step(newsfeed_id, to)),
    {
        let from = match self.news_feeds.get(&newsfeed_id) {
            Some(f) => f.owner,
            None => {
                return Err(DispatchError::Module(Error::NewsFeedNotFound));
            },
        };
        if from == to {
            return Err(DispatchError::Module(Error::TransferToSelf));
        }
        let ind = match self.position_in_owned(from, newsfeed_id) {
            Some(i) => i,
            None => {
                return Err(DispatchError::Module(Error::NewsFeedNotFound));
            },
        };
        if self.owned_count(to) >= self.config.max_owned_news_feeds as usize {
            return Err(DispatchError::Module(Error::MaxNewsFeedsOwned));
        }
        let ghost pre = self@;
        proof {
            lemma_first_index(pre.owned(from), newsfeed_id, ind as int);
        }
        let mut from_owned = self.take_owned(from);
        from_owned.swap_remove(ind);
        let mut to_owned = self.take_owned(to);
        to_owned.push(newsfeed_id);
        self.put_owned(to, to_owned);
        self.put_owned(from, from_owned);
        let mut feed = self.news_feeds.remove(&newsfeed_id).unwrap();
        feed.owner = to;
        feed.subscribe_fee = None;
        feed.unsubscribe_fee = None;
        self.news_feeds.insert(newsfeed_id, feed);
        let ghost post = pre.with_transferred(newsfeed_id, to);
        assert(self@.news_feeds =~= post.news_feeds);
        assert(self@.owner_of_news_feeds =~= post.owner_of_news_feeds);
        assert(self@ =~= post);
        proof {
            Self::lemma_transfer_keeps_wf(pre, newsfeed_id, to);
        }
        let events = vec![Event::NewsFeedTransferred { newsfeed: newsfeed_id, from, to }];
        assert(events@ =~= seq![Event::NewsFeedTransferred { newsfeed: newsfeed_id, from, to }]);
        Ok(events)
    }

    /// Hands feed `newsfeed_id` over to `to`; only its owner may.
    pub fn transfer_newsfeed(&mut self, origin: Origin, to: AccountId, newsfeed_id: UniqueId) -> (r:
        Result<Vec<Event>, DispatchError>)
        requires
            old(self)@.wf(),
        ensures
            final(self)@.wf(),
            follows(
                old(self)@,
                final(self)@,
                r,
                old(self)@.transfer_newsfeed_step(origin, to, newsfeed_id),
            ),
    {
        let from = match ensure_signed(origin) {
            Ok(a) => a,
            Err(e) => {
                return Err(e);
            },
        };
        let owner = match self.news_feeds.get(&newsfeed_id) {
            Some(f) => f.owner,
            None => {
                return Err(DispatchError::Module(Error::NewsFeedNotFound));
            },
        };
        if from != owner {
            return Err(DispatchError::Module(Error::NotNewsFeedOwner));
        }
        self.do_newsfeed_transfer(newsfeed_id, to)
    }

    /// Sets the fees of feed `newsfeed_id`; only its owner may. A subscribe fee
    /// of `None` closes the feed to new subscriptions.
    pub fn set_fees_newsfeed(
        &mut self,
        origin: Origin,
        newsfeed_id: UniqueId,
        subscribe_fee: Option<Balance>,
        unsubscribe_fee: Option<Balance>,
    ) -> (r: Result<Vec<Event>, DispatchError>)
        requires
            old(self)@.wf(),
        ensures
            final(self)@.wf(),
            follows(
                old(self)@,
                final(self)@,
                r,
                old(self)@.set_fees_newsfeed_step(origin, newsfeed_id, subscribe_fee, unsubscribe_fee),
            ),
    {
        let caller = match ensure_signed(origin) {
            Ok(a) => a,
            Err(e) => {
                return Err(e);
            },
        };
        let owner = match self.news_feeds.get(&newsfeed_id) {
            Some(f) => f.owner,
            None => {
                return Err(DispatchError::Module(Error::NewsFeedNotFound));
            },
        };
        if owner != caller {
            return Err(DispatchError::Module(Error::NotNewsFeedOwner));
        }
        let ghost pre = self@;
        let mut feed = self.news_feeds.remove(&newsfeed_id).unwrap();
        feed.subscribe_fee = subscribe_fee;
        feed.unsubscribe_fee = unsubscribe_fee;
        self.news_feeds.insert(newsfeed_id, feed);
        let ghost post = pre.with_fees(newsfeed_id, subscribe_fee, unsubscribe_fee);
        assert(self@.news_feeds =~= post.news_feeds);
        assert(self@ =~= post);
        proof {
            Self::lemma_fees_keep_wf(pre, newsfeed_id, subscribe_fee, unsubscribe_fee);
        }
        let events = vec![
            Event::NewsFeedPriceSet { newsfeed: newsfeed_id, subscribe_fee, unsubscribe_fee },
        ];
        assert(events@ =~= seq![
            Event::NewsFeedPriceSet { newsfeed: newsfeed_id, subscribe_fee, unsubscribe_fee },
        ]);
        Ok(events)
    }

    proof fn lemma_fees_keep_wf(
        s: PalletView,
        id: UniqueId,
        subscribe_fee: Option<Balance>,
        unsubscribe_fee: Option<Balance>,
    )
        requires
            s.wf(),
            s.news_feeds.contains_key(id),
        ensures
            s.with_fees(id, subscribe_fee, unsubscribe_fee).wf(),
    {
        let t = s.with_fees(id, subscribe_fee, unsubscribe_fee);
        assert(t.news_feeds.dom() =~= s.news_feeds.dom());
        assert forall|k: UniqueId| #[trigger] t.news_feeds.contains_key(k) implies t.feed_ok(k) by {
            assert(s.feed_ok(k));
        }
        assert forall|a: AccountId| #[trigger] t.owner_of_news_feeds.contains_key(a) implies t.owned_ok(
            a,
            t.owner_of_news_feeds[a],
        ) by {
            let l = t.owner_of_news_feeds[a];
            assert(s.owned_ok(a, l));
            assert forall|i: int| 0 <= i < l.len() implies t.news_feeds.contains_key(
                #[trigger] l[i],
            ) && t.news_feeds[l[i]].owner == a by {
                assert(s.news_feeds.contains_key(l[i]));
            }
        }
        assert forall|a: AccountId| #[trigger] t.subscriptions.contains_key(a) implies t.subscriptions_ok(
            a,
            t.subscriptions[a],
        ) by {
            assert(s.subscriptions_ok(a, s.subscriptions[a]));
        }
    }

    pub(crate) proof fn lemma_transfer_keeps_wf(s: PalletView, id: UniqueId, to: AccountId)
        requires
            s.wf(),
            s.transfer_error(id, to) is None,
        ensures
            s.with_transferred(id, to).wf(),
    {
        let t = s.with_transferred(id, to);
        let from = s.news_feeds[id].owner;
        let fl = s.owned(from);
        let p = first_index(fl, id);
        let tl = s.owned(to);
        assert(s.owner_of_news_feeds.contains_key(from));
        assert(s.owned_ok(from, fl));
        lemma_first_index_no_duplicates(fl, id);
        lemma_swap_removed(fl, p);
        let nfl = swap_removed(fl, p);
        let ntl = tl.push(id);
        assert(t.owned(from) == nfl);
        assert(t.owned(to) == ntl);
        assert(t.news_feeds.dom() =~= s.news_feeds.dom());
        assert(!tl.contains(id)) by {
            if tl.contains(id) {
                let i = choose|i: int| 0 <= i < tl.len() && tl[i] == id;
                assert(s.owner_of_news_feeds.contains_key(to));
                assert(s.owned_ok(to, s.owner_of_news_feeds[to]));
            }
        }
        assert forall|k: UniqueId| #[trigger] t.news_feeds.contains_key(k) implies t.feed_ok(k) by {
            if k != id {
                assert(s.feed_ok(k));
                let o = s.news_feeds[k].owner;
                if o == to {
                    let j = choose|j: int| 0 <= j < tl.len() && tl[j] == k;
                    assert(ntl[j] == k);
                } else if o == from {
                    assert(nfl.contains(k));
                }
            } else {
                assert(ntl[tl.len() as int] == id);
            }
        }
        assert forall|a: AccountId| #[trigger] t.owner_of_news_feeds.contains_key(a) implies t.owned_ok(
            a,
            t.owner_of_news_feeds[a],
        ) by {
            let l = t.owner_of_news_feeds[a];
            if a == from {
                assert(l == nfl);
                assert forall|i: int| 0 <= i < l.len() implies t.news_feeds.contains_key(
                    #[trigger] l[i],
                ) && t.news_feeds[l[i]].owner == a by {
                    assert(nfl.contains(l[i]));
                    let j = choose|j: int| 0 <= j < fl.len() && fl[j] == l[i];
                }
            } else if a == to {
                assert(l == ntl);
                if s.owner_of_news_feeds.contains_key(to) {
                    assert(s.owned_ok(to, tl));
                }
                assert forall|i: int| 0 <= i < l.len() implies t.news_feeds.contains_key(
                    #[trigger] l[i],
                ) && t.news_feeds[l[i]].owner == a by {
                    if i < tl.len() {
                        assert(l[i] == tl[i]);
                    }
                }
                assert(l.no_duplicates()) by {
                    assert forall|i: int, j: int|
                        0 <= i < l.len() && 0 <= j < l.len() && i != j implies l[i] != l[j] by {
                        if i < tl.len() && j < tl.len() {
                        } else if i < tl.len() {
                            assert(tl.contains(l[i]));
                        } else {
                            assert(tl.contains(l[j]));
                        }
                    }
                }
            } else {
                assert(s.owner_of_news_feeds.contains_key(a));
                assert(s.owned_ok(a, l));
                assert forall|i: int| 0 <= i < l.len() implies t.news_feeds.contains_key(
                    #[trigger] l[i],
                ) && t.news_feeds[l[i]].owner == a by {
                    assert(s.news_feeds.contains_key(l[i]));
                }
            }
        }
        assert forall|a: AccountId| #[trigger] t.subscriptions.contains_key(a) implies t.subscriptions_ok(
            a,
            t.subscriptions[a],
        ) by {
            assert(s.subscriptions_ok(a, s.subscriptions[a]));
        }
    }

    /// Takes the subscription list of `a` out of storage.
    fn take_subscriptions(&mut self, a: AccountId) -> (v: Vec<Subscription>)
        ensures
            v@ == old(self)@.subscriptions_of(a),
            final(self)@ == (PalletView {
                subscriptions: old(self)@.subscriptions.remove(a),
                ..old(self)@
            }),
    {
        let v = match self.subscriptions.remove(&a) {
            Some(v) => v,
            None => Vec::new(),
        };
        assert(self@.subscriptions =~= old(self)@.subscriptions.remove(a));
        assert(self@ =~= PalletView { subscriptions: old(self)@.subscriptions.remove(a), ..old(self)@ });
        v
    }

    /// Stores `v` as the subscription list of `a`.
    fn put_subscriptions(&mut self, a: AccountId, v: Vec<Subscription>)
        ensures
            final(self)@ == (PalletView {
                subscriptions: old(self)@.subscriptions.insert(a, v@),
                ..old(self)@
            }),
    {
        self.subscriptions.insert(a, v);
        assert(self@.subscriptions =~= old(self)@.subscriptions.insert(a, v@));
        assert(self@ =~= PalletView { subscriptions: old(self)@.subscriptions.insert(a, v@), ..old(self)@ });
    }

    /// The subscriptions that `a` holds.
    fn subscriptions_view(&self, a: AccountId) -> (r: Option<&Vec<Subscription>>)
        ensures
            match r {
                Some(v) => v@ == self@.subscriptions_of(a),
                None => self@.subscriptions_of(a) == Seq::<Subscription>::empty(),
            },
    {
        self.subscriptions.get(&a)
    }

    /// Whether `a` holds a subscription to feed `newsfeed_id`.
    fn has_subscribed(&self, a: AccountId, newsfeed_id: UniqueId) -> (b: bool)
        ensures
            b == self@.has_subscribed(a, newsfeed_id),
    {
        match self.subscriptions_view(a) {
            None => false,
            Some(v) => {
                let n = v.len();
                let mut i: usize = 0;
                while i < n
                    invariant
                        n == v@.len(),
                        v@ == self@.subscriptions_of(a),
                        i <= n,
                        forall|j: int| 0 <= j < i ==> v@[j].newsfeed_id != newsfeed_id,
                    decreases n - i,
                {
                    if v[i].newsfeed_id == newsfeed_id {
                        assert(self@.subscriptions_of(a)[i as int].newsfeed_id == newsfeed_id);
                        return true;
                    }
                    i = i + 1;
                }
                false
            },
        }
    }

    /// The first place of subscription `id` among the subscriptions of `a`.
    fn find_subscription(&self, a: AccountId, id: UniqueId) -> (r: Option<usize>)
        ensures
            match r {
                Some(i) => is_first_subscription_index(self@.subscriptions_of(a), id, i as int),
                None => !holds_subscription(self@.subscriptions_of(a), id),
            },
    {
        match self.subscriptions_view(a) {
            None => None,
            Some(v) => {
                let n = v.len();
                let mut i: usize = 0;
                while i < n
                    invariant
                        n == v@.len(),
                        v@ == self@.subscriptions_of(a),
                        i <= n,
                        forall|j: int| 0 <= j < i ==> v@[j].id != id,
                    decreases n - i,
                {
                    if v[i].id == id {
                        return Some(i);
                    }
                    i = i + 1;
                }
                None
            },
        }
    }

    /// The payment that subscribing `to` to feed `newsfeed_id` asks for, or the
    /// error that refuses the subscription.
    pub fn subscription_payment(&self, newsfeed_id: UniqueId, to: AccountId) -> (r: Result<
        Payment,
        Error,
    >)
        ensures
            r == self@.subscribe_check(newsfeed_id, to),
    {
        let (owner, fee) = match self.news_feeds.get(&newsfeed_id) {
            Some(f) => (f.owner, f.subscribe_fee),
            None => {
                return Err(Error::NewsFeedNotFound);
            },
        };
        if owner == to {
            return Err(Error::SubscriptionNotAllowed);
        }
        if self.has_subscribed(to, newsfeed_id) {
            return Err(Error::DuplicatedSubscription);
        }
        let count = match self.subscriptions_view(to) {
            Some(v) => v.len(),
            None => 0,
        };
        if count >= self.config.max_owned_subscriptions as usize {
            return Err(Error::MaxSubscriptionsExceeded);
        }
        match fee {
            None => Err(Error::SubscriptionNotAllowed),
            Some(price) => Ok(Payment { from: to, to: owner, amount: price }),
        }
    }

    /// Subscribes `to` to feed `newsfeed_id` under `subscription_id`. `paid`
    /// tells whether the currency made the payment that `subscription_payment`
    /// asks for; it is looked at only once every check has passed.
    pub fn do_subscribe(
        &mut self,
        subscription_id: UniqueId,
        newsfeed_id: UniqueId,
        to: AccountId,
        paid: bool,
    ) -> (r: Result<Vec<Event>, DispatchError>)
        requires
            old(self)@.wf(),
        ensures
            final(self)@.wf(),
            follows(
                old(self)@,
                final(self)@,
                r,
                old(self)@.subscribe_step(subscription_id, newsfeed_id, to, paid),
            ),
    {
        let payment = match self.subscription_payment(newsfeed_id, to) {
            Ok(p) => p,
            Err(e) => {
                return Err(DispatchError::Module(e));
            },
        };
        if !paid {
            return Err(DispatchError::PaymentFailed);
        }
        let feed_id = match self.news_feeds.get(&newsfeed_id) {
            Some(f) => f.id,
            None => {
                return Err(DispatchError::Module(Error::NewsFeedNotFound));
            },
        };
        let ghost pre = self@;
        let mut to_owned = self.take_subscriptions(to);
        to_owned.push(Subscription { id: subscription_id, newsfeed_id, owner: to });
        self.put_subscriptions(to, to_owned);
        let ghost post = pre.with_subscription(subscription_id, newsfeed_id, to);
        assert(self@.subscriptions =~= post.subscriptions);
        assert(self@ =~= post);
        proof {
            Self::lemma_subscribe_keeps_wf(pre, subscription_id, newsfeed_id, to);
        }
        let events = vec![
            Event::NewsFeedSubscribeFeePaid {
                subscriber: to,
                owner: payment.to,
                newsfeed: feed_id,
                price: payment.amount,
            },
            Event::NewsFeedSubscribed { newsfeed: newsfeed_id, subscriber: to },
        ];
        assert(events@ =~= seq![
            Event::NewsFeedSubscribeFeePaid {
                subscriber: to,
                owner: payment.to,
                newsfeed: feed_id,
                price: payment.amount,
            },
            Event::NewsFeedSubscribed { newsfeed: newsfeed_id, subscriber: to },
        ]);
        Ok(events)
    }

    /// The payment that a `subscribe_newsfeed` call asks for, or the error that
    /// refuses the call before any payment.
    pub fn subscribe_newsfeed_payment(&self, origin: Origin, newsfeed_id: UniqueId) -> (r: Result<
        Payment,
        DispatchError,
    >)
        ensures
            r == self@.subscribe_newsfeed_payment(origin, newsfeed_id),
    {
        let who = match ensure_signed(origin) {
            Ok(a) => a,
            Err(e) => {
                return Err(e);
            },
        };
        match self.subscription_payment(newsfeed_id, who) {
            Ok(p) => Ok(p),
            Err(e) => Err(DispatchError::Module(e)),
        }
    }

    /// Subscribes the signer to feed `newsfeed_id` under an identifier drawn
    /// from `ctx`, and queues the subscription for registration at the end of
    /// the block. `paid` tells whether the currency made the payment that
    /// `subscribe_newsfeed_payment` asks for. Where the queue is full the call
    /// fails as a whole, and the payment is to be undone with it.
    pub fn subscribe_newsfeed(
        &mut self,
        origin: Origin,
        ctx: &BlockContext,
        newsfeed_id: UniqueId,
        paid: bool,
    ) -> (r: Result<Vec<Event>, DispatchError>)
        requires
            old(self)@.wf(),
        ensures
            final(self)@.wf(),
            follows(
                old(self)@,
                final(self)@,
                r,
                old(self)@.subscribe_newsfeed_step(origin, *ctx, newsfeed_id, paid),
            ),
    {
        let subscriber = match ensure_signed(origin) {
            Ok(a) => a,
            Err(e) => {
                return Err(e);
            },
        };
        let subscription_id = new_unique_id(ctx);
        match self.subscription_payment(newsfeed_id, subscriber) {
            Ok(_) => {},
            Err(e) => {
                return Err(DispatchError::Module(e));
            },
        }
        if !paid {
            return Err(DispatchError::PaymentFailed);
        }
        if self.subscriptions_per_block.len() >= self.config.max_subscriptions_per_block as usize {
            return Err(DispatchError::Module(Error::MaxSubscriptionsPerBlock));
        }
        let events = match self.do_subscribe(subscription_id, newsfeed_id, subscriber, paid) {
            Ok(ev) => ev,
            Err(e) => {
                return Err(e);
            },
        };
        let ghost mid = self@;
        self.subscriptions_per_block.push(subscription_id);
        assert(self@ =~= PalletView {
            subscriptions_per_block: mid.subscriptions_per_block.push(subscription_id),
            ..mid
        });
        Ok(events)
    }

    /// The subscription at place `i` of the subscriptions of `a`.
    fn subscription_at(&self, a: AccountId, i: usize) -> (s: Subscription)
        requires
            i < self@.subscriptions_of(a).len(),
        ensures
            s == self@.subscriptions_of(a)[i as int],
    {
        let v = self.subscriptions_view(a).unwrap();
        v[i]
    }

    /// The payment that cancelling subscription `subscription_id` of `from`
    /// asks for, if any, or the error that refuses it.
    pub fn unsubscription_payment(&self, subscription_id: UniqueId, from: AccountId) -> (r: Result<
        Option<Payment>,
        Error,
    >)
        ensures
            r == self@.unsubscribe_check(subscription_id, from),
    {
        let ind = match self.find_subscription(from, subscription_id) {
            Some(i) => i,
            None => {
                return Err(Error::SubscriptionNotFound);
            },
        };
        proof {
            lemma_first_subscription_index(self@.subscriptions_of(from), subscription_id, ind as int);
        }
        let subscription = self.subscription_at(from, ind);
        match self.news_feeds.get(&subscription.newsfeed_id) {
            None => Err(Error::NewsFeedNotFound),
            Some(f) => match f.unsubscribe_fee {
                Some(fee) => Ok(Some(Payment { from, to: f.owner, amount: fee })),
                None => Ok(None),
            },
        }
    }

    /// Cancels subscription `subscription_id` of `from`. Where the feed has an
    /// unsubscribe fee, `paid` tells whether the currency made that payment.
    pub fn do_unsubscribe(&mut self, subscription_id: UniqueId, from: AccountId, paid: bool) -> (r:
        Result<Vec<Event>, DispatchError>)
        requires
            old(self)@.wf(),
        ensures
            final(self)@.wf(),
            follows(
                old(self)@,
                final(self)@,
                r,
                old(self)@.unsubscribe_step(subscription_id, from, paid),
            ),
    {
        let ind = match self.find_subscription(from, subscription_id) {
            Some(i) => i,
            None => {
                return Err(DispatchError::Module(Error::SubscriptionNotFound));
            },
        };
        proof {
            lemma_first_subscription_index(self@.subscriptions_of(from), subscription_id, ind as int);
        }
        let subscription = self.subscription_at(from, ind);
        let (feed_id, feed_owner, fee) = match self.news_feeds.get(&subscription.newsfeed_id) {
            Some(f) => (f.id, f.owner, f.unsubscribe_fee),
            None => {
                return Err(DispatchError::Module(Error::NewsFeedNotFound));
            },
        };
        let first = match fee {
            Some(price) => {
                if !paid {
                    return Err(DispatchError::PaymentFailed);
                }
                Event::NewsFeedUnsubscribeFeePaid {
                    subscriber: from,
                    owner: feed_owner,
                    subscription: subscription_id,
                    price,
                }
            },
            None => Event::NewsFeedNoUnsubscribeFee {
                subscriber: from,
                subscription: subscription_id,
                newsfeed: feed_id,
            },
        };
        let ghost pre = self@;
        let mut from_owned = self.take_subscriptions(from);
        from_owned.swap_remove(ind);
        self.put_subscriptions(from, from_owned);
        let ghost post = pre.with_unsubscribed(subscription_id, from);
        assert(self@.subscriptions =~= post.subscriptions);
        assert(self@ =~= post);
        proof {
            Self::lemma_unsubscribe_keeps_wf(pre, subscription_id, from);
        }
        let events = vec![first, Event::NewsFeedUnsubscribed { newsfeed: feed_id, subscriber: from }];
        assert(events@ =~= seq![
            first,
            Event::NewsFeedUnsubscribed { newsfeed: feed_id, subscriber: from },
        ]);
        Ok(events)
    }

    /// The payment that an `unsubscribe_newsfeed` call asks for, if any, or the
    /// error that refuses the call before any payment.
    pub fn unsubscribe_newsfeed_payment(&self, origin: Origin, subscription_id: UniqueId) -> (r:
        Result<Option<Payment>, DispatchError>)
        ensures
            r == self@.unsubscribe_newsfeed_payment(origin, subscription_id),
    {
        let who = match ensure_signed(origin) {
            Ok(a) => a,
            Err(e) => {
                return Err(e);
            },
        };
        match self.unsubscription_payment(subscription_id, who) {
            Ok(p) => Ok(p),
            Err(e) => Err(DispatchError::Module(e)),
        }
    }

    /// Cancels subscription `subscription_id` of the signer. Where the feed has
    /// an unsubscribe fee, `paid` tells whether the currency made that payment.
    pub fn unsubscribe_newsfeed(&mut self, origin: Origin, subscription_id: UniqueId, paid: bool) -> (r:
        Result<Vec<Event>, DispatchError>)
        requires
            old(self)@.wf(),
        ensures
            final(self)@.wf(),
            follows(
                old(self)@,
                final(self)@,
                r,
                old(self)@.unsubscribe_newsfeed_step(origin, subscription_id, paid),
            ),
    {
        let subscriber = match ensure_signed(origin) {
            Ok(a) => a,
            Err(e) => {
                return Err(e);
            },
        };
        self.do_unsubscribe(subscription_id, subscriber, paid)
    }

    proof fn lemma_subscribe_keeps_wf(
        s: PalletView,
        subscription_id: UniqueId,
        newsfeed_id: UniqueId,
        to: AccountId,
    )
        requires
            s.wf(),
            s.subscribe_check(newsfeed_id, to) is Ok,
        ensures
            s.with_subscription(subscription_id, newsfeed_id, to).wf(),
    {
        let t = s.with_subscription(subscription_id, newsfeed_id, to);
        let l = s.subscriptions_of(to);
        let nl = l.push(Subscription { id: subscription_id, newsfeed_id, owner: to });
        assert forall|k: UniqueId| #[trigger] t.news_feeds.contains_key(k) implies t.feed_ok(k) by {
            assert(s.feed_ok(k));
        }
        assert forall|a: AccountId| #[trigger] t.owner_of_news_feeds.contains_key(a) implies t.owned_ok(
            a,
            t.owner_of_news_feeds[a],
        ) by {
            assert(s.owned_ok(a, s.owner_of_news_feeds[a]));
        }
        assert forall|a: AccountId| #[trigger] t.subscriptions.contains_key(a) implies t.subscriptions_ok(
            a,
            t.subscriptions[a],
        ) by {
            if a == to {
                assert(t.subscriptions[a] == nl);
                if s.subscriptions.contains_key(to) {
                    assert(s.subscriptions_ok(to, l));
                }
                assert forall|i: int| 0 <= i < nl.len() implies (#[trigger] nl[i]).owner == a
                    && t.news_feeds.contains_key(nl[i].newsfeed_id) by {
                    if i < l.len() {
                        assert(nl[i] == l[i]);
                    }
                }
                assert forall|i: int, j: int|
                    0 <= i < nl.len() && 0 <= j < nl.len() && i != j implies (
                    #[trigger] nl[i]).newsfeed_id != (#[trigger] nl[j]).newsfeed_id by {
                    if i < l.len() && j < l.len() {
                        assert(nl[i] == l[i] && nl[j] == l[j]);
                    } else if i < l.len() {
                        assert(nl[i] == l[i]);
                        assert(s.subscriptions_of(to)[i].newsfeed_id != newsfeed_id);
                    } else {
                        assert(nl[j] == l[j]);
                        assert(s.subscriptions_of(to)[j].newsfeed_id != newsfeed_id);
                    }
                }
            } else {
                assert(s.subscriptions_ok(a, s.subscriptions[a]));
            }
        }
    }

    proof fn lemma_unsubscribe_keeps_wf(s: PalletView, subscription_id: UniqueId, from: AccountId)
        requires
            s.wf(),
            s.unsubscribe_check(subscription_id, from) is Ok,
        ensures
            s.with_unsubscribed(subscription_id, from).wf(),
    {
        let t = s.with_unsubscribed(subscription_id, from);
        let l = s.subscriptions_of(from);
        let p = first_subscription_index(l, subscription_id);
        let w = choose|w: int| 0 <= w < l.len() && l[w].id == subscription_id;
        let m = choose|m: int| 0 <= m <= w && l[m].id == subscription_id && forall|j: int| 0 <= j < m ==> l[j].id != subscription_id;
        assert(exists|m: int| 0 <= m <= w && l[m].id == subscription_id && forall|j: int| 0 <= j < m ==> l[j].id != subscription_id) by {
            Self::lemma_least_subscription_index(l, subscription_id, w);
        }
        assert(is_first_subscription_index(l, subscription_id, m));
        lemma_first_subscription_index(l, subscription_id, m);
        assert(s.subscriptions.contains_key(from));
        assert(s.subscriptions_ok(from, l));
        lemma_swap_removed(l, p);
        let nl = swap_removed(l, p);
        assert forall|k: UniqueId| #[trigger] t.news_feeds.contains_key(k) implies t.feed_ok(k) by {
            assert(s.feed_ok(k));
        }
        assert forall|a: AccountId| #[trigger] t.owner_of_news_feeds.contains_key(a) implies t.owned_ok(
            a,
            t.owner_of_news_feeds[a],
        ) by {
            assert(s.owned_ok(a, s.owner_of_news_feeds[a]));
        }
        assert forall|a: AccountId| #[trigger] t.subscriptions.contains_key(a) implies t.subscriptions_ok(
            a,
            t.subscriptions[a],
        ) by {
            if a == from {
                assert(t.subscriptions[a] == nl);
                let last = l.len() - 1;
                assert forall|i: int| 0 <= i < nl.len() implies (#[trigger] nl[i]).owner == a
                    && t.news_feeds.contains_key(nl[i].newsfeed_id) by {
                    if i == p {
                        assert(nl[i] == l[last]);
                    } else {
                        assert(nl[i] == l[i]);
                    }
                }
                assert forall|i: int, j: int|
                    0 <= i < nl.len() && 0 <= j < nl.len() && i != j implies (
                    #[trigger] nl[i]).newsfeed_id != (#[trigger] nl[j]).newsfeed_id by {
                    let oi = if i == p { last } else { i };
                    let oj = if j == p { last } else { j };
                    assert(nl[i] == l[oi]);
                    assert(nl[j] == l[oj]);
                }
            } else {
                assert(s.subscriptions_ok(a, s.subscriptions[a]));
            }
        }
    }

    /// Where some place of `l` holds subscription `id`, a least such place exists.
    pub(crate) proof fn lemma_least_subscription_index(l: Seq<Subscription>, id: UniqueId, w: int)
        requires
            0 <= w < l.len(),
            l[w].id == id,
        ensures
            exists|m: int|
                0 <= m <= w && l[m].id == id && forall|j: int| 0 <= j < m ==> l[j].id != id,
        decreases w,
    {
        if exists|j: int| 0 <= j < w && l[j].id == id {
            let j = choose|j: int| 0 <= j < w && l[j].id == id;
            Self::lemma_least_subscription_index(l, id, j);
        } else {
            assert(forall|j: int| 0 <= j < w ==> l[j].id != id);
        }
    }

    /// Empties the queue of the block's subscriptions and returns what it held.
    pub(crate) fn take_subscriptions_per_block(&mut self) -> (q: Vec<UniqueId>)
        requires
            old(self)@.wf(),
        ensures
            q@ == old(self)@.subscriptions_per_block,
            final(self)@ == (PalletView { subscriptions_per_block: Seq::empty(), ..old(self)@ }),
            final(self)@.wf(),
    {
        let mut q: Vec<UniqueId> = Vec::new();
        std::mem::swap(&mut q, &mut self.subscriptions_per_block);
        assert(self@ =~= PalletView { subscriptions_per_block: Seq::empty(), ..old(self)@ });
        q
    }

    /// Whether the queue of the block's subscriptions is empty.
    pub(crate) fn no_subscriptions_per_block(&self) -> (b: bool)
        ensures
            b == (self@.subscriptions_per_block.len() == 0),
    {
        self.subscriptions_per_block.len() == 0
    }

    /// The limits the registry was configured with.
    pub fn config(&self) -> (c: Config)
        ensures
            c == self@.config,
    {
        self.config
    }

    /// The number of feeds created so far.
    pub fn news_feed_count(&self) -> (n: u32)
        ensures
            n == self@.news_feed_count,
    {
        self.news_feed_count
    }

    /// Feed `id`, where it exists.
    pub fn news_feed(&self, id: UniqueId) -> (r: Option<NewsFeed>)
        ensures
            match r {
                Some(f) => self@.news_feeds.contains_key(id) && f@ == self@.news_feeds[id],
                None => !self@.news_feeds.contains_key(id),
            },
    {
        match self.news_feeds.get(&id) {
            None => None,
            Some(f) => Some(
                NewsFeed {
                    id: f.id,
                    owner: f.owner,
                    subscribe_fee: f.subscribe_fee,
                    unsubscribe_fee: f.unsubscribe_fee,
                    payment_type: f.payment_type,
                    registration_url: copy_vec(&f.registration_url),
                },
            ),
        }
    }

    /// The feeds that `a` owns.
    pub fn owned_news_feeds(&self, a: AccountId) -> (r: Vec<UniqueId>)
        ensures
            r@ == self@.owned(a),
    {
        match self.owner_of_news_feeds.get(&a) {
            None => Vec::new(),
            Some(v) => copy_vec(v),
        }
    }

    /// The subscriptions that `a` holds.
    pub fn subscriptions_of(&self, a: AccountId) -> (r: Vec<Subscription>)
        ensures
            r@ == self@.subscriptions_of(a),
    {
        match self.subscriptions.get(&a) {
            None => Vec::new(),
            Some(v) => copy_vec(v),
        }
    }

    /// The subscriptions of the current block that wait for registration.
    pub fn subscriptions_per_block(&self) -> (r: Vec<UniqueId>)
        ensures
            r@ == self@.subscriptions_per_block,
    {
        copy_vec(&self.subscriptions_per_block)
    }
}

} // verus!
