//! The data model: rarities, catalog entities, seasons, pricing, token
//! records and expirations.
//!
//! Catalog entities are identified by plain string ids; composite token ids
//! (`{base}_{counter}`) are produced and parsed by the id codec.

use vstd::prelude::*;

verus! {

/// One of the three rarity tiers classifying chip packs, keys and items.
#[derive(Clone, Copy, Debug, PartialEq, Eq, Structural)]
pub enum Rarity {
    Generic,
    Esoteric,
    Spectral,
}

/// The kind of key slot a season offers, one per rarity tier.
#[derive(Clone, Copy, Debug, PartialEq, Eq, Structural)]
pub enum KeyType {
    GenericKey,
    EsotericKey,
    SpectralKey,
}

impl KeyType {
    /// The rarity tier this key slot corresponds to.
    pub open spec fn spec_rarity(&self) -> Rarity {
        match self {
            KeyType::GenericKey => Rarity::Generic,
            KeyType::EsotericKey => Rarity::Esoteric,
            KeyType::SpectralKey => Rarity::Spectral,
        }
    }

    /// Maps the key slot kind to its rarity tier.
    #[verifier::when_used_as_spec(spec_rarity)]
    pub fn rarity(&self) -> (r: Rarity)
        ensures
            r == self.spec_rarity(),
    {
        match self {
            KeyType::GenericKey => Rarity::Generic,
            KeyType::EsotericKey => Rarity::Esoteric,
            KeyType::SpectralKey => Rarity::Spectral,
        }
    }
}

/// A performance tier driving the reward chip-pack draw.
#[derive(Clone, Copy, Debug, PartialEq, Eq, Structural)]
pub enum PerformanceCategoryType {
    Tier1,
    Tier2,
    Tier3,
    Tier4,
    Tier5,
    Tier6,
    Unrated,
}

/// Per-rarity probability weights for the reward draw, in percent.
#[derive(Clone, Copy, Debug, PartialEq, Eq, Structural)]
pub struct RewardProbabilities {
    pub generic: u8,
    pub esoteric: u8,
    pub spectral: u8,
}

/// The fixed probability table, one row per performance tier.
pub open spec fn spec_reward_probabilities(
    performance_category: PerformanceCategoryType,
) -> RewardProbabilities {
    match performance_category {
        PerformanceCategoryType::Tier1 => (RewardProbabilities {
            generic: 60,
            esoteric: 30,
            spectral: 10,
        }),
        PerformanceCategoryType::Tier2 => (RewardProbabilities {
            generic: 55,
            esoteric: 40,
            spectral: 15,
        }),
        PerformanceCategoryType::Tier3 => (RewardProbabilities {
            generic: 50,
            esoteric: 30,
            spectral: 20,
        }),
        PerformanceCategoryType::Tier4 => (RewardProbabilities {
            generic: 30,
            esoteric: 50,
            spectral: 20,
        }),
        PerformanceCategoryType::Tier5 => (RewardProbabilities {
            generic: 30,
            esoteric: 40,
            spectral: 30,
        }),
        PerformanceCategoryType::Tier6 => (RewardProbabilities {
            generic: 25,
            esoteric: 35,
            spectral: 40,
        }),
        PerformanceCategoryType::Unrated => (RewardProbabilities {
            generic: 0,
            esoteric: 0,
            spectral: 0,
        }),
    }
}

impl RewardProbabilities {
    /// The reward probability row for a performance tier, as a static,
    /// enumerated table.
    pub fn for_performance_category(
        performance_category: &PerformanceCategoryType,
    ) -> (r: Self)
        ensures
            r == spec_reward_probabilities(*performance_category),
    {
        match performance_category {
            PerformanceCategoryType::Tier1 => Self {
                generic: 60,
                esoteric: 30,
                spectral: 10,
            },
            PerformanceCategoryType::Tier2 => Self {
                generic: 55,
                esoteric: 40,
                spectral: 15,
            },
            PerformanceCategoryType::Tier3 => Self {
                generic: 50,
                esoteric: 30,
                spectral: 20,
            },
            PerformanceCategoryType::Tier4 => Self {
                generic: 30,
                esoteric: 50,
                spectral: 20,
            },
            PerformanceCategoryType::Tier5 => Self {
                generic: 30,
                esoteric: 40,
                spectral: 30,
            },
            PerformanceCategoryType::Tier6 => Self {
                generic: 25,
                esoteric: 35,
                spectral: 40,
            },
            PerformanceCategoryType::Unrated => Self {
                generic: 0,
                esoteric: 0,
                spectral: 0,
            },
        }
    }
}

/// A point of logical time supplied by the caller context.
#[derive(Clone, Copy, Debug, PartialEq, Eq, Structural)]
pub struct BlockInfo {
    /// Monotonic block height.
    pub height: u64,
    /// Timestamp in nanoseconds.
    pub time: u64,
}

/// When a delegated authority stops being valid.
#[derive(Clone, Copy, Debug, PartialEq, Eq, Structural)]
pub enum Expiration {
    /// Expired once the block height is reached.
    AtHeight(u64),
    /// Expired once the timestamp (in nanoseconds) is reached.
    AtTime(u64),
    /// Never expires.
    Never,
}

impl Expiration {
    /// Whether this expiry has passed at the given point of logical time.
    pub open spec fn spec_is_expired(&self, block: BlockInfo) -> bool {
        match *self {
            Expiration::AtHeight(height) => block.height >= height,
            Expiration::AtTime(time) => block.time >= time,
            Expiration::Never => false,
        }
    }

    /// Compares the expiry against the caller-supplied logical time.
    pub fn is_expired(&self, block: &BlockInfo) -> (r: bool)
        ensures
            r == self.spec_is_expired(*block),
    {
        match self {
            Expiration::AtHeight(height) => block.height >= *height,
            Expiration::AtTime(time) => block.time >= *time,
            Expiration::Never => false,
        }
    }
}

/// A (spender, expiry) pair attached to one token; at most one active
/// approval per spender per token.
#[derive(Clone, Debug, PartialEq, Eq)]
pub struct Approval {
    /// Account that can transfer or send the token.
    pub spender: String,
    /// When the approval expires.
    pub expires: Expiration,
}

impl Approval {
    /// Whether this approval is inert at the given point of logical time.
    pub fn is_expired(&self, block: &BlockInfo) -> (r: bool)
        ensures
            r == self.expires.spec_is_expired(*block),
    {
        self.expires.is_expired(block)
    }
}

/// A token record of the ledger.
#[derive(Clone, Debug, PartialEq, Eq)]
pub struct TokenInfo {
    /// The current owner.
    pub owner: String,
    /// Active approvals; cleared on every ownership change.
    pub approvals: Vec<Approval>,
    /// Universal resource identifier of the token's metadata.
    pub token_uri: Option<String>,
    /// Opaque extension payload supplied at mint.
    pub extension: Option<String>,
}

/// An amount of one denomination attached to a request as payment.
#[derive(Clone, Debug, PartialEq, Eq)]
pub struct Coin {
    pub denom: String,
    pub amount: u128,
}

/// A weighted item carried inside a chip pack, or a fixed collectible.
#[derive(Clone, Debug, PartialEq, Eq)]
pub struct GloNFT {
    pub id: String,
    pub rarity: Rarity,
    pub uri: String,
    /// How many tokens of this item were minted.
    pub count: Option<u64>,
    pub price: Option<u128>,
    /// Selection weight in percent; `None` for fixed collectibles.
    pub probability: Option<u8>,
}

/// A chip pack: a catalog entity bundling a weighted list of outcomes.
#[derive(Clone, Debug, PartialEq, Eq)]
pub struct GloChip {
    pub rarity: Rarity,
    pub id: String,
    pub uri: String,
    /// Special chip packs are purchased directly and opened alone.
    pub special: bool,
    /// Ordered weighted items; their weights sum to exactly 100.
    pub items: Vec<GloNFT>,
    /// How many chip-pack tokens were minted from this entity.
    pub count: u64,
    pub price: Option<u128>,
    /// The season this chip pack is bound to, if any.
    pub season_id: Option<String>,
}

/// A key: the catalog entity consumed beside a rarity-matched chip pack.
#[derive(Clone, Debug, PartialEq, Eq)]
pub struct HoloKey {
    pub rarity: Rarity,
    pub id: String,
    pub uri: String,
    /// How many key tokens were minted from this entity.
    pub count: u64,
    /// The season this key is bound to, if any.
    pub season_id: Option<String>,
}

/// A season: up to one chip pack and one key per rarity tier.
#[derive(Clone, Debug, PartialEq, Eq)]
pub struct Season {
    /// Display id; slot bindings are keyed by the season's original id.
    pub id: String,
    pub generic_glochip: Option<String>,
    pub esoteric_glochip: Option<String>,
    pub spectral_glochip: Option<String>,
    pub generic_key: Option<String>,
    pub esoteric_key: Option<String>,
    pub spectral_key: Option<String>,
}

/// Per-rarity key prices; an absent field means the price is not set and a
/// purchase attempt fails rather than defaulting to zero.
#[derive(Clone, Copy, Debug, PartialEq, Eq)]
pub struct HoloKeyPricing {
    pub generic_price: Option<u128>,
    pub esoteric_price: Option<u128>,
    pub spectral_price: Option<u128>,
}

/// Details of a chip-pack mint request.
#[derive(Clone, Debug, PartialEq, Eq)]
pub struct GloChipDetails {
    /// Whether a special (directly purchased) chip pack is requested.
    pub special: bool,
    /// The chip pack to mint from, required for special requests.
    pub glochip_id: Option<String>,
    /// The performance tier, required for reward draws.
    pub performance_category: Option<PerformanceCategoryType>,
    /// The season whose bound chip pack a reward draw resolves.
    pub season_id: Option<String>,
}

/// Details of a key purchase request.
#[derive(Clone, Debug, PartialEq, Eq)]
pub struct KeyDetails {
    pub key_id: String,
    pub season_id: String,
}

/// The collectible-producing mint shapes.
#[derive(Clone, Debug, PartialEq, Eq)]
pub enum GloNFTType {
    /// Burn a chip-pack token and a key token, mint the drawn item.
    Opening { glochip_id: String, key_id: String },
    /// Mint a fixed collectible directly for its price.
    Special { item_id: String },
    /// Burn a special chip-pack token alone, mint the drawn item.
    SpecialOpening { special_glochip_id: String },
}

/// The request shape of a mint operation.
#[derive(Clone, Debug, PartialEq, Eq)]
pub enum TokenType {
    GloChip(GloChipDetails),
    Key(KeyDetails),
    GloNFT(GloNFTType),
}

/// One edit applied to a season.
#[derive(Clone, Debug, PartialEq, Eq)]
pub enum SeasonEditType {
    /// Change the display id; data stays keyed by the original id.
    Rename(String),
    /// Bind (`Some`) or clear (`None` or empty) the chip-pack slot.
    GloChip { rarity: Rarity, glochip_id: Option<String> },
    /// Bind (`Some`) or clear (`None` or empty) the key slot.
    Key { rarity: Rarity, key_id: Option<String> },
}

/// The character-level reading of an optional string.
pub open spec fn spec_opt_view(o: Option<String>) -> Option<Seq<char>> {
    match o {
        Some(s) => Some(s@),
        None => None,
    }
}

/// One price update applied to the catalog.
#[derive(Clone, Debug, PartialEq, Eq)]
pub enum PriceUpdateType {
    SpecialGloChipPrice { id: String, new_price: Option<u128> },
    SpecialGloNFTPrice { id: String, new_price: Option<u128> },
    HoloKeyPrices {
        generic_price: Option<u128>,
        esoteric_price: Option<u128>,
        spectral_price: Option<u128>,
    },
}

} // verus!
