//! A token-issuance engine for a collectible-item economy.
//!
//! The crate models a ledger of uniquely identified, ownable tokens, a
//! catalog of source entities (chip packs, keys, fixed collectibles and
//! seasons) from which tokens are minted, and a weighted pseudo-random
//! selection protocol that decides which collectible an opening produces.
//! Every operation is specified by a contract and verified; the hosting
//! environment is expected to call one operation at a time and persist the
//! state between calls.

pub mod catalog;
pub mod digest;
pub mod errors;
pub mod ids;
pub mod ledger;
pub mod mint;
pub mod msg;
pub mod select;
pub mod state;
pub mod strmap;
