use newsfeed::ids::{id_bytes, new_unique_id};
use newsfeed::pallet::Pallet;
use newsfeed::types::{
    ensure_signed, BlockContext, Config, DispatchError, Error, Event, Origin, Payment,
    PaymentType, Subscription,
};
use parity_scale_codec::Encode;

const ALICE: u64 = 1;
const BOB: u64 = 2;
const CHARLIE: u64 = 3;

fn config() -> Config {
    Config {
        max_news_feeds: 10,
        max_owned_news_feeds: 3,
        max_owned_subscriptions: 2,
        max_registration_url_length: 16,
        max_subscriptions_per_block: 3,
    }
}

fn ctx(index: u32) -> BlockContext {
    BlockContext { random_seed: [7u8; 32], extrinsic_index: Some(index), block_number: 5 }
}

fn url() -> Vec<u8> {
    b"https://feed".to_vec()
}

/// Creates a feed of `owner` under the context of extrinsic `index` and returns its id.
fn create(p: &mut Pallet, owner: u64, index: u32) -> u128 {
    let c = ctx(index);
    p.create_newsfeed(Origin::Signed(owner), &c, PaymentType::OneTime, url()).unwrap();
    new_unique_id(&c)
}

#[test]
fn ensure_signed_accepts_only_signed_origins() {
    assert_eq!(ensure_signed(Origin::Signed(9)), Ok(9));
    assert_eq!(ensure_signed(Origin::Root), Err(DispatchError::BadOrigin));
    assert_eq!(ensure_signed(Origin::Unsigned), Err(DispatchError::BadOrigin));
}

#[test]
fn unique_id_is_blake2_of_encoded_payload() {
    let c = BlockContext { random_seed: [3u8; 32], extrinsic_index: Some(2), block_number: 0x0102_0304 };
    let mut payload = vec![3u8; 32];
    payload.extend_from_slice(&[2, 0, 0, 0]);
    payload.extend_from_slice(&[4, 3, 2, 1]);
    // `Hashable::blake2_128` hashes the SCALE encoding of the vector: length prefix 40 << 2.
    let mut encoded = vec![160u8];
    encoded.extend_from_slice(&payload);
    let expected = sp_io::hashing::blake2_128(&encoded);
    let id = new_unique_id(&c);
    assert_eq!(id_bytes(id), expected.to_vec());
    assert_eq!(id, u128::from_le_bytes(expected));
}

#[test]
fn unique_id_without_extrinsic_index_uses_zero() {
    let a = BlockContext { random_seed: [1u8; 32], extrinsic_index: None, block_number: 4 };
    let b = BlockContext { random_seed: [1u8; 32], extrinsic_index: Some(0), block_number: 4 };
    assert_eq!(new_unique_id(&a), new_unique_id(&b));
}

#[test]
fn unique_ids_differ_between_extrinsics_of_a_block() {
    assert_ne!(new_unique_id(&ctx(0)), new_unique_id(&ctx(1)));
    assert_eq!(new_unique_id(&ctx(1)), new_unique_id(&ctx(1)));
}

#[test]
fn id_bytes_are_little_endian() {
    let id: u128 = 0x0f0e0d0c0b0a09080706050403020100;
    assert_eq!(id_bytes(id), (0u8..16).collect::<Vec<u8>>());
}

#[test]
fn derived_key_is_prefix_slash_and_block_number() {
    let key = Pallet::dervied_key(0x0102_0304);
    let mut expected = b"newsfeed::indexing/".to_vec();
    expected.extend_from_slice(&[4, 3, 2, 1]);
    assert_eq!(key, expected);
    assert_ne!(Pallet::dervied_key(1), Pallet::dervied_key(256));
}

#[test]
fn new_registry_is_empty() {
    let p = Pallet::new(config());
    assert_eq!(p.config(), config());
    assert_eq!(p.news_feed_count(), 0);
    assert_eq!(p.owned_news_feeds(ALICE), Vec::<u128>::new());
    assert_eq!(p.subscriptions_per_block(), Vec::<u128>::new());
}

#[test]
fn create_newsfeed_mints_a_feed_without_fees() {
    let mut p = Pallet::new(config());
    let c = ctx(0);
    let r = p.create_newsfeed(Origin::Signed(ALICE), &c, PaymentType::OneTime, url());
    let id = new_unique_id(&c);
    assert_eq!(r, Ok(vec![Event::NewsFeedCreated { newsfeed: id, owner: ALICE }]));
    let feed = p.news_feed(id).unwrap();
    assert_eq!(feed.id, id);
    assert_eq!(feed.owner, ALICE);
    assert_eq!(feed.subscribe_fee, None);
    assert_eq!(feed.unsubscribe_fee, None);
    assert_eq!(feed.registration_url, url());
    assert_eq!(p.news_feed_count(), 1);
    assert_eq!(p.owned_news_feeds(ALICE), vec![id]);
}

#[test]
fn create_newsfeed_needs_a_signed_origin() {
    let mut p = Pallet::new(config());
    let r = p.create_newsfeed(Origin::Root, &ctx(0), PaymentType::OneTime, url());
    assert_eq!(r, Err(DispatchError::BadOrigin));
    assert_eq!(p.news_feed_count(), 0);
}

#[test]
fn create_newsfeed_refuses_a_long_url() {
    let mut p = Pallet::new(config());
    let long = vec![b'x'; 17];
    let r = p.create_newsfeed(Origin::Signed(ALICE), &ctx(0), PaymentType::OneTime, long);
    assert_eq!(r, Err(DispatchError::Module(Error::RegistrationUrlTooLong)));
    let exact = vec![b'x'; 16];
    assert!(p.create_newsfeed(Origin::Signed(ALICE), &ctx(0), PaymentType::OneTime, exact).is_ok());
}

#[test]
fn create_newsfeed_refuses_a_duplicate_id() {
    let mut p = Pallet::new(config());
    create(&mut p, ALICE, 0);
    let r = p.create_newsfeed(Origin::Signed(BOB), &ctx(0), PaymentType::OneTime, url());
    assert_eq!(r, Err(DispatchError::Module(Error::DuplicatedNewsFeed)));
    assert_eq!(p.news_feed_count(), 1);
}

#[test]
fn create_newsfeed_refuses_more_feeds_than_allowed() {
    let mut p = Pallet::new(Config { max_news_feeds: 2, ..config() });
    create(&mut p, ALICE, 0);
    create(&mut p, BOB, 1);
    let r = p.create_newsfeed(Origin::Signed(CHARLIE), &ctx(2), PaymentType::OneTime, url());
    assert_eq!(r, Err(DispatchError::Module(Error::NewsFeedsOverflow)));
    assert_eq!(p.news_feed_count(), 2);
}

#[test]
fn create_newsfeed_refuses_more_owned_feeds_than_allowed() {
    let mut p = Pallet::new(config());
    for i in 0..3 {
        create(&mut p, ALICE, i);
    }
    let r = p.create_newsfeed(Origin::Signed(ALICE), &ctx(3), PaymentType::OneTime, url());
    assert_eq!(r, Err(DispatchError::Module(Error::MaxNewsFeedsOwned)));
    assert_eq!(p.owned_news_feeds(ALICE).len(), 3);
}

#[test]
fn mint_newsfeed_checks_url_before_duplicates() {
    let mut p = Pallet::new(config());
    let id = create(&mut p, ALICE, 0);
    let r = p.mint_newsfeed(BOB, id, PaymentType::OneTime, vec![0u8; 20]);
    assert_eq!(r, Err(DispatchError::Module(Error::RegistrationUrlTooLong)));
}

#[test]
fn transfer_newsfeed_moves_ownership_and_clears_fees() {
    let mut p = Pallet::new(config());
    let a = create(&mut p, ALICE, 0);
    let b = create(&mut p, ALICE, 1);
    p.set_fees_newsfeed(Origin::Signed(ALICE), a, Some(10), Some(3)).unwrap();
    let r = p.transfer_newsfeed(Origin::Signed(ALICE), BOB, a);
    assert_eq!(r, Ok(vec![Event::NewsFeedTransferred { newsfeed: a, from: ALICE, to: BOB }]));
    let feed = p.news_feed(a).unwrap();
    assert_eq!(feed.owner, BOB);
    assert_eq!(feed.subscribe_fee, None);
    assert_eq!(feed.unsubscribe_fee, None);
    assert_eq!(p.owned_news_feeds(ALICE), vec![b]);
    assert_eq!(p.owned_news_feeds(BOB), vec![a]);
}

#[test]
fn transfer_swap_removes_from_the_former_owner() {
    let mut p = Pallet::new(config());
    let a = create(&mut p, ALICE, 0);
    let b = create(&mut p, ALICE, 1);
    let c = create(&mut p, ALICE, 2);
    p.transfer_newsfeed(Origin::Signed(ALICE), BOB, a).unwrap();
    assert_eq!(p.owned_news_feeds(ALICE), vec![c, b]);
}

#[test]
fn transfer_newsfeed_errors() {
    let mut p = Pallet::new(config());
    let a = create(&mut p, ALICE, 0);
    assert_eq!(p.transfer_newsfeed(Origin::Root, BOB, a), Err(DispatchError::BadOrigin));
    assert_eq!(
        p.transfer_newsfeed(Origin::Signed(ALICE), BOB, 12345),
        Err(DispatchError::Module(Error::NewsFeedNotFound))
    );
    assert_eq!(
        p.transfer_newsfeed(Origin::Signed(BOB), CHARLIE, a),
        Err(DispatchError::Module(Error::NotNewsFeedOwner))
    );
    assert_eq!(
        p.transfer_newsfeed(Origin::Signed(ALICE), ALICE, a),
        Err(DispatchError::Module(Error::TransferToSelf))
    );
    for i in 1..4 {
        create(&mut p, BOB, i);
    }
    assert_eq!(
        p.transfer_newsfeed(Origin::Signed(ALICE), BOB, a),
        Err(DispatchError::Module(Error::MaxNewsFeedsOwned))
    );
    assert_eq!(p.news_feed(a).unwrap().owner, ALICE);
    assert_eq!(p.owned_news_feeds(ALICE), vec![a]);
}

#[test]
fn do_newsfeed_transfer_does_not_check_the_caller() {
    let mut p = Pallet::new(config());
    let a = create(&mut p, ALICE, 0);
    assert!(p.do_newsfeed_transfer(a, CHARLIE).is_ok());
    assert_eq!(p.news_feed(a).unwrap().owner, CHARLIE);
}

#[test]
fn transfer_and_back_restores_ownership() {
    let mut p = Pallet::new(config());
    let a = create(&mut p, ALICE, 0);
    let b = create(&mut p, ALICE, 1);
    let c = create(&mut p, BOB, 2);
    p.transfer_newsfeed(Origin::Signed(ALICE), BOB, a).unwrap();
    p.transfer_newsfeed(Origin::Signed(BOB), ALICE, a).unwrap();
    let mut alice = p.owned_news_feeds(ALICE);
    alice.sort();
    let mut expected = vec![a, b];
    expected.sort();
    assert_eq!(alice, expected);
    assert_eq!(p.owned_news_feeds(BOB), vec![c]);
    assert_eq!(p.news_feed(a).unwrap().owner, ALICE);
}

#[test]
fn set_fees_newsfeed_sets_both_fees() {
    let mut p = Pallet::new(config());
    let a = create(&mut p, ALICE, 0);
    let r = p.set_fees_newsfeed(Origin::Signed(ALICE), a, Some(5), None);
    assert_eq!(
        r,
        Ok(vec![Event::NewsFeedPriceSet { newsfeed: a, subscribe_fee: Some(5), unsubscribe_fee: None }])
    );
    let feed = p.news_feed(a).unwrap();
    assert_eq!(feed.subscribe_fee, Some(5));
    assert_eq!(feed.unsubscribe_fee, None);
}

#[test]
fn set_fees_newsfeed_errors() {
    let mut p = Pallet::new(config());
    let a = create(&mut p, ALICE, 0);
    assert_eq!(p.set_fees_newsfeed(Origin::Unsigned, a, Some(1), None), Err(DispatchError::BadOrigin));
    assert_eq!(
        p.set_fees_newsfeed(Origin::Signed(ALICE), 77, Some(1), None),
        Err(DispatchError::Module(Error::NewsFeedNotFound))
    );
    assert_eq!(
        p.set_fees_newsfeed(Origin::Signed(BOB), a, Some(1), None),
        Err(DispatchError::Module(Error::NotNewsFeedOwner))
    );
    assert_eq!(p.news_feed(a).unwrap().subscribe_fee, None);
}

#[test]
fn subscribe_newsfeed_pays_and_queues() {
    let mut p = Pallet::new(config());
    let a = create(&mut p, ALICE, 0);
    p.set_fees_newsfeed(Origin::Signed(ALICE), a, Some(10), Some(2)).unwrap();
    assert_eq!(
        p.subscribe_newsfeed_payment(Origin::Signed(BOB), a),
        Ok(Payment { from: BOB, to: ALICE, amount: 10 })
    );
    let c = ctx(1);
    let sid = new_unique_id(&c);
    let r = p.subscribe_newsfeed(Origin::Signed(BOB), &c, a, true);
    assert_eq!(
        r,
        Ok(vec![
            Event::NewsFeedSubscribeFeePaid { subscriber: BOB, owner: ALICE, newsfeed: a, price: 10 },
            Event::NewsFeedSubscribed { newsfeed: a, subscriber: BOB },
        ])
    );
    assert_eq!(p.subscriptions_of(BOB), vec![Subscription { id: sid, newsfeed_id: a, owner: BOB }]);
    assert_eq!(p.subscriptions_per_block(), vec![sid]);
}

#[test]
fn subscribe_newsfeed_errors() {
    let mut p = Pallet::new(config());
    let a = create(&mut p, ALICE, 0);
    assert_eq!(
        p.subscribe_newsfeed(Origin::Root, &ctx(1), a, true),
        Err(DispatchError::BadOrigin)
    );
    assert_eq!(
        p.subscribe_newsfeed(Origin::Signed(BOB), &ctx(1), 999, true),
        Err(DispatchError::Module(Error::NewsFeedNotFound))
    );
    // no subscribe fee yet: the feed is closed
    assert_eq!(
        p.subscribe_newsfeed(Origin::Signed(BOB), &ctx(1), a, true),
        Err(DispatchError::Module(Error::SubscriptionNotAllowed))
    );
    p.set_fees_newsfeed(Origin::Signed(ALICE), a, Some(1), None).unwrap();
    // the owner cannot subscribe to its own feed
    assert_eq!(
        p.subscribe_newsfeed(Origin::Signed(ALICE), &ctx(1), a, true),
        Err(DispatchError::Module(Error::SubscriptionNotAllowed))
    );
    // the currency refused the payment
    assert_eq!(
        p.subscribe_newsfeed(Origin::Signed(BOB), &ctx(1), a, false),
        Err(DispatchError::PaymentFailed)
    );
    assert_eq!(p.subscriptions_of(BOB), Vec::<Subscription>::new());
    p.subscribe_newsfeed(Origin::Signed(BOB), &ctx(1), a, true).unwrap();
    assert_eq!(
        p.subscribe_newsfeed(Origin::Signed(BOB), &ctx(2), a, true),
        Err(DispatchError::Module(Error::DuplicatedSubscription))
    );
    assert_eq!(
        p.subscribe_newsfeed_payment(Origin::Signed(BOB), a),
        Err(DispatchError::Module(Error::DuplicatedSubscription))
    );
}

#[test]
fn subscribe_newsfeed_refuses_too_many_subscriptions() {
    let mut p = Pallet::new(config());
    let feeds: Vec<u128> = (0..3).map(|i| create(&mut p, ALICE + i as u64 * 10, i)).collect();
    for f in &feeds {
        let owner = p.news_feed(*f).unwrap().owner;
        p.set_fees_newsfeed(Origin::Signed(owner), *f, Some(1), None).unwrap();
    }
    p.subscribe_newsfeed(Origin::Signed(BOB), &ctx(10), feeds[0], true).unwrap();
    p.subscribe_newsfeed(Origin::Signed(BOB), &ctx(11), feeds[1], true).unwrap();
    assert_eq!(
        p.subscribe_newsfeed(Origin::Signed(BOB), &ctx(12), feeds[2], true),
        Err(DispatchError::Module(Error::MaxSubscriptionsExceeded))
    );
}

#[test]
fn subscribe_newsfeed_refuses_when_the_queue_is_full() {
    let mut p = Pallet::new(Config { max_subscriptions_per_block: 1, ..config() });
    let a = create(&mut p, ALICE, 0);
    p.set_fees_newsfeed(Origin::Signed(ALICE), a, Some(1), None).unwrap();
    p.subscribe_newsfeed(Origin::Signed(BOB), &ctx(1), a, true).unwrap();
    assert_eq!(
        p.subscribe_newsfeed(Origin::Signed(CHARLIE), &ctx(2), a, true),
        Err(DispatchError::Module(Error::MaxSubscriptionsPerBlock))
    );
    assert_eq!(p.subscriptions_of(CHARLIE), Vec::<Subscription>::new());
    // a refused payment is reported before the full queue
    assert_eq!(
        p.subscribe_newsfeed(Origin::Signed(CHARLIE), &ctx(2), a, false),
        Err(DispatchError::PaymentFailed)
    );
}

#[test]
fn unsubscribe_with_fee() {
    let mut p = Pallet::new(config());
    let a = create(&mut p, ALICE, 0);
    p.set_fees_newsfeed(Origin::Signed(ALICE), a, Some(10), Some(4)).unwrap();
    let c = ctx(1);
    let sid = new_unique_id(&c);
    p.subscribe_newsfeed(Origin::Signed(BOB), &c, a, true).unwrap();
    assert_eq!(
        p.unsubscribe_newsfeed_payment(Origin::Signed(BOB), sid),
        Ok(Some(Payment { from: BOB, to: ALICE, amount: 4 }))
    );
    assert_eq!(p.unsubscribe_newsfeed(Origin::Signed(BOB), sid, false), Err(DispatchError::PaymentFailed));
    assert_eq!(p.subscriptions_of(BOB).len(), 1);
    let r = p.unsubscribe_newsfeed(Origin::Signed(BOB), sid, true);
    assert_eq!(
        r,
        Ok(vec![
            Event::NewsFeedUnsubscribeFeePaid { subscriber: BOB, owner: ALICE, subscription: sid, price: 4 },
            Event::NewsFeedUnsubscribed { newsfeed: a, subscriber: BOB },
        ])
    );
    assert_eq!(p.subscriptions_of(BOB), Vec::<Subscription>::new());
}

#[test]
fn unsubscribe_without_fee() {
    let mut p = Pallet::new(config());
    let a = create(&mut p, ALICE, 0);
    p.set_fees_newsfeed(Origin::Signed(ALICE), a, Some(10), None).unwrap();
    let c = ctx(1);
    let sid = new_unique_id(&c);
    p.subscribe_newsfeed(Origin::Signed(BOB), &c, a, true).unwrap();
    assert_eq!(p.unsubscribe_newsfeed_payment(Origin::Signed(BOB), sid), Ok(None));
    let r = p.unsubscribe_newsfeed(Origin::Signed(BOB), sid, false);
    assert_eq!(
        r,
        Ok(vec![
            Event::NewsFeedNoUnsubscribeFee { subscriber: BOB, subscription: sid, newsfeed: a },
            Event::NewsFeedUnsubscribed { newsfeed: a, subscriber: BOB },
        ])
    );
}

#[test]
fn unsubscribe_errors() {
    let mut p = Pallet::new(config());
    assert_eq!(p.unsubscribe_newsfeed(Origin::Root, 1, true), Err(DispatchError::BadOrigin));
    assert_eq!(
        p.unsubscribe_newsfeed(Origin::Signed(BOB), 1, true),
        Err(DispatchError::Module(Error::SubscriptionNotFound))
    );
    assert_eq!(
        p.unsubscribe_newsfeed_payment(Origin::Signed(BOB), 1),
        Err(DispatchError::Module(Error::SubscriptionNotFound))
    );
}

#[test]
fn unsubscribe_undoes_subscribe() {
    let mut p = Pallet::new(config());
    let a = create(&mut p, ALICE, 0);
    let b = create(&mut p, CHARLIE, 1);
    p.set_fees_newsfeed(Origin::Signed(ALICE), a, Some(1), None).unwrap();
    p.set_fees_newsfeed(Origin::Signed(CHARLIE), b, Some(1), Some(1)).unwrap();
    p.subscribe_newsfeed(Origin::Signed(BOB), &ctx(2), a, true).unwrap();
    let before = p.subscriptions_of(BOB);
    let c = ctx(3);
    p.subscribe_newsfeed(Origin::Signed(BOB), &c, b, true).unwrap();
    p.unsubscribe_newsfeed(Origin::Signed(BOB), new_unique_id(&c), true).unwrap();
    assert_eq!(p.subscriptions_of(BOB), before);
}

#[test]
fn on_finalize_with_empty_queue_does_nothing() {
    let mut p = Pallet::new(config());
    assert_eq!(p.on_finalize(3), None);
}

#[test]
fn on_finalize_hands_queue_to_offchain_worker() {
    let mut p = Pallet::new(config());
    let a = create(&mut p, ALICE, 0);
    p.set_fees_newsfeed(Origin::Signed(ALICE), a, Some(1), None).unwrap();
    let c1 = ctx(1);
    let c2 = ctx(2);
    p.subscribe_newsfeed(Origin::Signed(BOB), &c1, a, true).unwrap();
    p.subscribe_newsfeed(Origin::Signed(CHARLIE), &c2, a, true).unwrap();
    let ids = vec![id_bytes(new_unique_id(&c1)), id_bytes(new_unique_id(&c2))];
    let (key, value) = p.on_finalize(5).unwrap();
    assert_eq!(key, Pallet::dervied_key(5));
    assert_eq!(value, ids.encode());
    assert_eq!(value[0], 8); // two items
    assert_eq!(value[1], 64); // sixteen bytes
    assert_eq!(p.subscriptions_per_block(), Vec::<u128>::new());
    assert_eq!(Pallet::offchain_worker(&Some(value)), ids);
}

#[test]
fn offchain_worker_registers_nothing_without_data() {
    assert_eq!(Pallet::offchain_worker(&None), Vec::<Vec<u8>>::new());
    assert_eq!(Pallet::offchain_worker(&Some(vec![8u8, 64])), Vec::<Vec<u8>>::new());
    let listed = vec![vec![1u8, 2], vec![3u8]];
    assert_eq!(Pallet::offchain_worker(&Some(listed.encode())), listed);
}

#[test]
fn on_finalize_writes_exact_bytes() {
    let mut p = Pallet::new(config());
    let a = create(&mut p, ALICE, 0);
    p.set_fees_newsfeed(Origin::Signed(ALICE), a, Some(1), None).unwrap();
    let c = ctx(1);
    p.subscribe_newsfeed(Origin::Signed(BOB), &c, a, true).unwrap();
    let (_, value) = p.on_finalize(5).unwrap();
    let mut expected = vec![0x04u8, 0x40];
    expected.extend_from_slice(&id_bytes(new_unique_id(&c)));
    assert_eq!(value, expected);
}

#[test]
fn transferred_feed_stays_closed_until_fees_are_set() {
    let mut p = Pallet::new(config());
    let a = create(&mut p, ALICE, 0);
    let b = create(&mut p, CHARLIE, 1);
    p.set_fees_newsfeed(Origin::Signed(ALICE), a, Some(10), None).unwrap();
    p.transfer_newsfeed(Origin::Signed(ALICE), BOB, a).unwrap();
    // later calls that do not set a fee for `a`
    p.set_fees_newsfeed(Origin::Signed(CHARLIE), b, Some(1), None).unwrap();
    assert_eq!(
        p.set_fees_newsfeed(Origin::Signed(ALICE), a, Some(1), None),
        Err(DispatchError::Module(Error::NotNewsFeedOwner))
    );
    assert_eq!(p.on_finalize(5), None);
    assert_eq!(
        p.subscribe_newsfeed_payment(Origin::Signed(CHARLIE), a),
        Err(DispatchError::Module(Error::SubscriptionNotAllowed))
    );
    assert_eq!(
        p.subscribe_newsfeed(Origin::Signed(CHARLIE), &ctx(2), a, true),
        Err(DispatchError::Module(Error::SubscriptionNotAllowed))
    );
    assert_eq!(p.subscriptions_of(CHARLIE), Vec::<Subscription>::new());
    p.set_fees_newsfeed(Origin::Signed(BOB), a, Some(2), None).unwrap();
    assert!(p.subscribe_newsfeed(Origin::Signed(CHARLIE), &ctx(2), a, true).is_ok());
}
