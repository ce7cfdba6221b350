//! A news-feed registry: accounts create news feeds, hand them over to
//! other accounts, set subscription fees, and subscribe to or unsubscribe
//! from the feeds of others. Subscriptions made within one block are queued
//! and handed to an offchain worker when the block is finalized.

pub mod encoding;
pub mod types;
pub mod ids;
pub mod pallet;
pub mod offchain;
pub mod laws;
