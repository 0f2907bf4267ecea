//! Ownership and marketplace ledger for collectible kitties.
//!
//! The ledger keeps three stores that must agree with one another: the kitty
//! records by identifier, the bounded list of identifiers that each account
//! owns, and the count of kitties ever minted. Minting, breeding, transferring
//! and selling update them together and move a fixed deposit in and out of
//! escrow. Balances, randomness and the block height come from the runtime,
//! which callers hand in as an implementation of [`Config`].

pub mod calls;
pub mod codec;
pub mod config;
pub mod escrow;
pub mod genesis;
pub mod genetics;
pub mod hashing;
pub mod invariants;
pub mod owned;
pub mod pallet;
pub mod store;
pub mod types;

pub use config::{Config, InsufficientFunds};
pub use genesis::GenesisConfig;
pub use pallet::Pallet;
pub use types::{AccountId, Balance, Error, Event, Gender, Kitty, H256};
