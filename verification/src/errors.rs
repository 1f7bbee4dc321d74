//! The typed failures that every operation of the engine can return.
//!
//! Each failure is user-visible and tied by the operations' contracts to the
//! exact inputs and state on which it occurs; no operation retries
//! internally, and a failing operation leaves the state unchanged.

use vstd::prelude::*;

verus! {

/// Typed failure of an engine operation.
#[derive(Clone, Debug, PartialEq, Eq)]
pub enum ContractError {
    /// A token with the requested id already exists in the ledger.
    Claimed {},
    /// The caller may not act on this token or on behalf of its owner.
    Unauthorized {},
    /// The caller is not the designated administrator.
    NotOwner {},
    /// The token record is absent from the ledger.
    NotFound {},
    /// A catalog entity with this id already exists.
    AlreadyExists {},
    /// The supplied expiry is already in the past.
    Expired {},
    /// The attached payment is short of the required price.
    InsufficientFunds {},
    /// No price is configured for the requested entity or rarity tier.
    PriceNotSet {},
    /// The weights of a chip pack's item list do not sum to exactly 100.
    InvalidProbability {},
    /// The supplied key does not match the chip pack's season-assigned key.
    InvalidKey {},
    /// A fixed collectible carried a selection weight, or is absent.
    InvalidSpecialGloNFT {},
    /// A special chip-pack request did not name the chip pack.
    MissingGloChipID {},
    /// A composite token id could not be parsed back into base and counter.
    InvalidTokenId { token_id: String },
    /// The chip pack is not flagged as special.
    GloChipNotSpecial {},
    /// The chip pack is absent from the catalog.
    GloChipNotFound { glochip_id: String },
    /// The chip pack is already bound to a season.
    GloChipAlreadyAssigned {},
    /// The weighted walk exhausted the item list without a winner.
    SelectionFailed {},
    /// The season has no chip pack bound for the drawn rarity tier.
    InvalidRarityForSeason {},
    /// A season with this id already exists.
    SeasonAlreadyExists {},
    /// The season's chip-pack slot for this rarity is already filled.
    RarityAlreadyExists {},
    /// The key is already bound to a season.
    KeyAlreadyAssigned {},
    /// The entity's rarity tier does not equal the slot's rarity.
    MismatchedRarities {},
    /// The season's key slot for this rarity is already filled.
    KeyAlreadyExists {},
    /// A reward draw was requested without a performance tier.
    PerformanceCategoryNotProvided {},
    /// The key is absent from the catalog.
    KeyNotFound { key_id: String },
    /// The season is absent from the catalog.
    SeasonNotFound {},
    /// The selected item is absent from the chip pack's item list.
    GloNFTNotFound {},
}

} // verus!
