//! A verified digital-asset registry and marketplace.
//!
//! Assets ("kitties") carry a unique, monotonically assigned id and an
//! immutable 16-byte genetic payload.  The library provides the five
//! state-transition operations `create`, `transfer`, `breed`, `sell` and
//! `buy` over an explicit store, together with a currency ledger holding
//! free and reserved balances.  Every operation either fully applies or
//! leaves the whole state untouched.

pub mod dna;
pub mod kv;
pub mod ledger;
pub mod pallet;

pub use pallet::AccountId;
pub use pallet::Balance;
pub use pallet::Error;
pub use pallet::Event;
pub use pallet::Kitty;
pub use pallet::KittyIndex;
pub use pallet::Pallet;
pub use pallet::RESERVE_OF_NEW_CREATE;
