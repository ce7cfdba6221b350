//! The values that the registry stores, the errors it reports and the events
//! it deposits.

use vstd::prelude::*;

verus! {

/// The account that signs calls and owns feeds and subscriptions.
pub type AccountId = u64;

/// An amount of the chain's currency.
pub type Balance = u128;

/// The number of a block.
pub type BlockNumber = u32;

/// The identifier of a news feed or of a subscription: sixteen bytes, held as
/// the `u128` whose little-endian bytes they are.
pub type UniqueId = u128;

/// The limits that the runtime configures the registry with.
#[derive(Clone, Copy, Debug, PartialEq, Eq)]
pub struct Config {
    /// Most news feeds that may ever be created.
    pub max_news_feeds: u32,
    /// Most news feeds that one account may own.
    pub max_owned_news_feeds: u32,
    /// Most subscriptions that one account may hold.
    pub max_owned_subscriptions: u32,
    /// Longest registration url, in bytes.
    pub max_registration_url_length: u32,
    /// Most subscriptions that may wait for registration in one block.
    pub max_subscriptions_per_block: u32,
}

/// How a subscription is paid for.
#[derive(Clone, Copy, Debug, PartialEq, Eq, Structural)]
pub enum PaymentType {
    OneTime,
}

/// A news feed.
#[derive(Clone, Debug, PartialEq, Eq)]
pub struct NewsFeed {
    /// Unique identifier of the feed.
    pub id: UniqueId,
    /// Owner of the feed.
    pub owner: AccountId,
    /// Fee taken when an account subscribes; `None` means nobody may subscribe.
    pub subscribe_fee: Option<Balance>,
    /// Fee taken when an account unsubscribes.
    pub unsubscribe_fee: Option<Balance>,
    /// How subscriptions are paid for.
    pub payment_type: PaymentType,
    /// Where subscriptions are registered and revoked.
    pub registration_url: Vec<u8>,
}

/// A news feed as the contracts see it.
pub struct NewsFeedView {
    pub id: UniqueId,
    pub owner: AccountId,
    pub subscribe_fee: Option<Balance>,
    pub unsubscribe_fee: Option<Balance>,
    pub payment_type: PaymentType,
    pub registration_url: Seq<u8>,
}

impl View for NewsFeed {
    type V = NewsFeedView;

    open spec fn view(&self) -> NewsFeedView {
        NewsFeedView {
            id: self.id,
            owner: self.owner,
            subscribe_fee: self.subscribe_fee,
            unsubscribe_fee: self.unsubscribe_fee,
            payment_type: self.payment_type,
            registration_url: self.registration_url@,
        }
    }
}

/// A subscription of an account to a news feed.
#[derive(Clone, Copy, Debug, PartialEq, Eq)]
pub struct Subscription {
    /// Unique identifier of the subscription.
    pub id: UniqueId,
    /// The feed subscribed to.
    pub newsfeed_id: UniqueId,
    /// The subscribing account.
    pub owner: AccountId,
}

/// Errors of the registry's own rules.
#[derive(Clone, Copy, Debug, PartialEq, Eq)]
pub enum Error {
    /// Each feed must have a unique identifier.
    DuplicatedNewsFeed,
    /// The account does not own the feed.
    NotNewsFeedOwner,
    /// The number of feeds would exceed `Config::max_news_feeds`.
    NewsFeedsOverflow,
    /// The account already owns the most feeds it may.
    MaxNewsFeedsOwned,
    /// No such feed.
    NewsFeedNotFound,
    /// Owner and target are the same account.
    TransferToSelf,
    /// The url is longer than `Config::max_registration_url_length`.
    RegistrationUrlTooLong,
    /// The account has already subscribed to the feed.
    DuplicatedSubscription,
    /// The account already holds the most subscriptions it may.
    MaxSubscriptionsExceeded,
    /// The account may not subscribe to the feed.
    SubscriptionNotAllowed,
    /// The account holds no such subscription.
    SubscriptionNotFound,
    /// The queue of subscriptions of this block is full.
    MaxSubscriptionsPerBlock,
}

/// Why a call failed.
#[derive(Clone, Copy, Debug, PartialEq, Eq)]
pub enum DispatchError {
    /// The call was not signed by an account.
    BadOrigin,
    /// One of the registry's own rules refused the call.
    Module(Error),
    /// The currency refused the payment that the call asked for.
    PaymentFailed,
}

/// Who made a call.
#[derive(Clone, Copy, Debug, PartialEq, Eq)]
pub enum Origin {
    Root,
    Signed(AccountId),
    Unsigned,
}

/// A payment that a call asks the chain's currency to make, keeping the
/// payer's account alive.
#[derive(Clone, Copy, Debug, PartialEq, Eq)]
pub struct Payment {
    pub from: AccountId,
    pub to: AccountId,
    pub amount: Balance,
}

/// What the chain tells a call about the block it runs in.
#[derive(Clone, Copy, Debug, PartialEq, Eq)]
pub struct BlockContext {
    /// The random value the chain's randomness source gives for the subject
    /// `b"unique_id"`.
    pub random_seed: [u8; 32],
    /// Index of the extrinsic in the block, where the chain knows it.
    pub extrinsic_index: Option<u32>,
    /// The current block number.
    pub block_number: BlockNumber,
}

/// What the registry reports of a call that succeeded.
#[derive(Clone, Copy, Debug, PartialEq, Eq)]
pub enum Event {
    NewsFeedCreated { newsfeed: UniqueId, owner: AccountId },
    NewsFeedTransferred { newsfeed: UniqueId, from: AccountId, to: AccountId },
    NewsFeedPriceSet {
        newsfeed: UniqueId,
        subscribe_fee: Option<Balance>,
        unsubscribe_fee: Option<Balance>,
    },
    NewsFeedSubscribeFeePaid {
        subscriber: AccountId,
        owner: AccountId,
        newsfeed: UniqueId,
        price: Balance,
    },
    NewsFeedUnsubscribeFeePaid {
        subscriber: AccountId,
        owner: AccountId,
        subscription: UniqueId,
        price: Balance,
    },
    NewsFeedNoUnsubscribeFee { subscriber: AccountId, subscription: UniqueId, newsfeed: UniqueId },
    NewsFeedSubscribed { newsfeed: UniqueId, subscriber: AccountId },
    NewsFeedUnsubscribed { newsfeed: UniqueId, subscriber: AccountId },
}

/// The account that signed the call, or `BadOrigin`, as `frame_system::ensure_signed`
/// decides it.
pub open spec fn signer(origin: Origin) -> Result<AccountId, DispatchError> {
    match origin {
        Origin::Signed(a) => Ok(a),
        _ => Err(DispatchError::BadOrigin),
    }
}

/// Ensures that the call was signed, and returns the signing account.
pub fn ensure_signed(origin: Origin) -> (r: Result<AccountId, DispatchError>)
    ensures
        r == signer(origin),
{
    match origin {
        Origin::Signed(a) => Ok(a),
        _ => Err(DispatchError::BadOrigin),
    }
}

} // verus!
