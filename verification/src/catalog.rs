//! The catalog store and the season/rarity graph.
//!
//! The catalog owns every chip pack, key, fixed collectible, season and
//! the pricing record. Its well-formedness carries the engine's two
//! structural laws: every stored chip pack's item weights sum to exactly
//! 100, and season slot bindings are bidirectional — a slot holds an
//! entity's id exactly when that entity's season reference points back at
//! the season's storage key. A bind writes both sides or neither; catalog
//! identity is the storage key, which a season rename never moves.

use vstd::prelude::*;
use crate::errors::ContractError;
use crate::ledger::Cw721Contract;
use crate::select::spec_weight_sum;
use crate::state::{
    GloChip, GloNFT, HoloKey, HoloKeyPricing, KeyType, Rarity, Season, SeasonEditType,
    TokenType, GloNFTType, PriceUpdateType, spec_opt_view,
};
use crate::strmap::StrMap;

verus! {

/// The chip-pack id a season's slot of one rarity holds.
pub open spec fn spec_chip_slot(s: Season, r: Rarity) -> Option<Seq<char>> {
    match r {
        Rarity::Generic => spec_opt_view(s.generic_glochip),
        Rarity::Esoteric => spec_opt_view(s.esoteric_glochip),
        Rarity::Spectral => spec_opt_view(s.spectral_glochip),
    }
}

/// The key id a season's slot of one rarity holds.
pub open spec fn spec_key_slot(s: Season, r: Rarity) -> Option<Seq<char>> {
    match r {
        Rarity::Generic => spec_opt_view(s.generic_key),
        Rarity::Esoteric => spec_opt_view(s.esoteric_key),
        Rarity::Spectral => spec_opt_view(s.spectral_key),
    }
}

/// One item as it enters a fresh chip pack: its mint counter zeroed,
/// everything else as supplied.
pub open spec fn spec_zero_count(g: GloNFT) -> GloNFT {
    GloNFT {
        id: g.id,
        rarity: g.rarity,
        uri: g.uri,
        count: Some(0u64),
        price: g.price,
        probability: g.probability,
    }
}

/// A season with one chip slot set or cleared, all else untouched.
pub open spec fn spec_with_chip_slot(s: Season, r: Rarity, v: Option<String>) -> Season {
    match r {
        Rarity::Generic => Season { generic_glochip: v, ..s },
        Rarity::Esoteric => Season { esoteric_glochip: v, ..s },
        Rarity::Spectral => Season { spectral_glochip: v, ..s },
    }
}

/// A season with one key slot set or cleared, all else untouched.
pub open spec fn spec_with_key_slot(s: Season, r: Rarity, v: Option<String>) -> Season {
    match r {
        Rarity::Generic => Season { generic_key: v, ..s },
        Rarity::Esoteric => Season { esoteric_key: v, ..s },
        Rarity::Spectral => Season { spectral_key: v, ..s },
    }
}

/// A chip pack with its season reference set or cleared.
pub open spec fn spec_chip_with_season(c: GloChip, v: Option<String>) -> GloChip {
    GloChip { season_id: v, ..c }
}

/// A key with its season reference set or cleared.
pub open spec fn spec_key_with_season(k: HoloKey, v: Option<String>) -> HoloKey {
    HoloKey { season_id: v, ..k }
}

/// The pricing record after a merge: fields supplied in the update
/// overwrite, absent fields keep what the existing record held (or stay
/// unset if no record existed).
pub open spec fn spec_merged_pricing(
    prior: Option<HoloKeyPricing>,
    generic_price: Option<u128>,
    esoteric_price: Option<u128>,
    spectral_price: Option<u128>,
) -> HoloKeyPricing {
    let base = match prior {
        Some(p) => p,
        None => HoloKeyPricing { generic_price: None, esoteric_price: None, spectral_price: None },
    };
    HoloKeyPricing {
        generic_price: if generic_price is Some {
            generic_price
        } else {
            base.generic_price
        },
        esoteric_price: if esoteric_price is Some {
            esoteric_price
        } else {
            base.esoteric_price
        },
        spectral_price: if spectral_price is Some {
            spectral_price
        } else {
            base.spectral_price
        },
    }
}

/// What storing a batch of fixed collectibles yields, walking the batch
/// left to right: the first weighted or duplicate item decides the error,
/// otherwise the table with every item added under its id.
pub open spec fn spec_insert_specials(
    m: Map<Seq<char>, GloNFT>,
    items: Seq<GloNFT>,
) -> Result<Map<Seq<char>, GloNFT>, ContractError>
    decreases items.len(),
{
    if items.len() == 0 {
        Ok(m)
    } else {
        let it = items.first();
        if it.probability is Some {
            Err(ContractError::InvalidSpecialGloNFT {})
        } else if m.contains_key(it.id@) {
            Err(ContractError::AlreadyExists {})
        } else {
            spec_insert_specials(m.insert(it.id@, it), items.drop_first())
        }
    }
}

proof fn lemma_insert_specials_push(m: Map<Seq<char>, GloNFT>, items: Seq<GloNFT>, x: GloNFT)
    ensures
        spec_insert_specials(m, items.push(x)) == (match spec_insert_specials(m, items) {
            Ok(m2) => {
                if x.probability is Some {
                    Err::<Map<Seq<char>, GloNFT>, ContractError>(
                        ContractError::InvalidSpecialGloNFT {},
                    )
                } else if m2.contains_key(x.id@) {
                    Err::<Map<Seq<char>, GloNFT>, ContractError>(ContractError::AlreadyExists {})
                } else {
                    Ok(m2.insert(x.id@, x))
                }
            },
            Err(e) => Err(e),
        }),
    decreases items.len(),
{
    if items.len() == 0 {
        assert(items.push(x).first() == x);
        assert(items.push(x).drop_first() =~= Seq::<GloNFT>::empty());
        assert(spec_insert_specials(m.insert(x.id@, x), Seq::<GloNFT>::empty()) == Ok::<
            Map<Seq<char>, GloNFT>,
            ContractError,
        >(m.insert(x.id@, x)));
        assert(spec_insert_specials(m, Seq::<GloNFT>::empty()) == Ok::<
            Map<Seq<char>, GloNFT>,
            ContractError,
        >(m));
    } else {
        assert(items.push(x).first() == items.first());
        assert(items.push(x).drop_first() =~= items.drop_first().push(x));
        let it = items.first();
        if it.probability is None && !m.contains_key(it.id@) {
            lemma_insert_specials_push(m.insert(it.id@, it), items.drop_first(), x);
        }
    }
}

proof fn lemma_insert_specials_ok(m: Map<Seq<char>, GloNFT>, items: Seq<GloNFT>)
    requires
        spec_insert_specials(m, items) is Ok,
    ensures
        forall|k: Seq<char>|
            #![trigger spec_insert_specials(m, items)->Ok_0.contains_key(k)]
            spec_insert_specials(m, items)->Ok_0.contains_key(k) <==> (m.contains_key(k) || (
            exists|i: int| 0 <= i < items.len() && (#[trigger] items[i]).id@ == k)),
    decreases items.len(),
{
    if items.len() > 0 {
        let it = items.first();
        let m2 = m.insert(it.id@, it);
        let rest = items.drop_first();
        lemma_insert_specials_ok(m2, rest);
        assert(!m.contains_key(it.id@));
        assert(spec_insert_specials(m, items) == spec_insert_specials(m2, rest));
        let res = spec_insert_specials(m, items)->Ok_0;
        assert forall|k: Seq<char>|
            #![auto]
            res.contains_key(k) implies (m.contains_key(k) || (exists|i: int|
            0 <= i < items.len() && (#[trigger] items[i]).id@ == k)) by {
            if !m.contains_key(k) {
                if k == it.id@ {
                    assert(items[0].id@ == k);
                } else {
                    assert(spec_insert_specials(m2, rest)->Ok_0.contains_key(k));
                    assert(!m2.contains_key(k));
                    let i = choose|i: int|
                        0 <= i < rest.len() && (#[trigger] rest[i]).id@ == k;
                    assert(rest[i] == items[i + 1]);
                    assert(items[i + 1].id@ == k);
                }
            }
        }
        assert forall|k: Seq<char>|
            #![auto]
            (m.contains_key(k) || (exists|i: int|
                0 <= i < items.len() && (#[trigger] items[i]).id@ == k)) implies res.contains_key(
            k,
        ) by {
            if m.contains_key(k) {
                assert(m2.contains_key(k));
                assert(spec_insert_specials(m2, rest)->Ok_0.contains_key(k));
            } else {
                let i = choose|i: int| 0 <= i < items.len() && (#[trigger] items[i]).id@ == k;
                if i == 0 {
                    assert(m2.contains_key(k));
                } else {
                    assert(rest[i - 1] == items[i]);
                    assert(exists|x: int| 0 <= x < rest.len() && (#[trigger] rest[x]).id@ == k);
                }
                assert(spec_insert_specials(m2, rest)->Ok_0.contains_key(k));
            }
        }
    }
}

proof fn lemma_insert_specials_err(m: Map<Seq<char>, GloNFT>, items: Seq<GloNFT>, j: int)
    requires
        0 <= j <= items.len(),
        spec_insert_specials(m, items.take(j)) is Err,
    ensures
        spec_insert_specials(m, items) == spec_insert_specials(m, items.take(j)),
    decreases items.len() - j,
{
    if j == items.len() {
        assert(items.take(j) =~= items);
    } else {
        assert(items.take(j + 1) =~= items.take(j).push(items[j]));
        lemma_insert_specials_push(m, items.take(j), items[j]);
        lemma_insert_specials_err(m, items, j + 1);
    }
}

/// The per-rarity key price a pricing record holds, if set.
pub open spec fn spec_tier_price(p: HoloKeyPricing, r: Rarity) -> Option<u128> {
    match r {
        Rarity::Generic => p.generic_price,
        Rarity::Esoteric => p.esoteric_price,
        Rarity::Spectral => p.spectral_price,
    }
}

/// The price a mint request must pay, resolved against the catalog.
pub open spec fn spec_price_of(cat: Catalog, t: TokenType) -> Result<u128, ContractError> {
    match t {
        TokenType::GloChip(d) => {
            if d.special {
                match d.glochip_id {
                    Option::None => Err(ContractError::MissingGloChipID {}),
                    Option::Some(g) => {
                        if !cat.chips().contains_key(g@) {
                            Err(ContractError::GloChipNotFound { glochip_id: g })
                        } else {
                            match cat.chips()[g@].price {
                                Option::Some(p) => Ok(p),
                                Option::None => Err(ContractError::PriceNotSet {}),
                            }
                        }
                    },
                }
            } else {
                Ok(0)
            }
        },
        TokenType::Key(kd) => {
            if !cat.hkeys().contains_key(kd.key_id@) {
                Err(ContractError::KeyNotFound { key_id: kd.key_id })
            } else {
                match cat.spec_pricing() {
                    Option::None => Err(ContractError::PriceNotSet {}),
                    Option::Some(pr) => {
                        match spec_tier_price(pr, cat.hkeys()[kd.key_id@].rarity) {
                            Option::Some(p) => Ok(p),
                            Option::None => Err(ContractError::PriceNotSet {}),
                        }
                    },
                }
            }
        },
        TokenType::GloNFT(g) => {
            match g {
                crate::state::GloNFTType::Special { item_id } => {
                    if !cat.specials().contains_key(item_id@) {
                        Err(ContractError::InvalidSpecialGloNFT {})
                    } else {
                        match cat.specials()[item_id@].price {
                            Option::Some(p) => Ok(p),
                            Option::None => Err(ContractError::PriceNotSet {}),
                        }
                    }
                },
                _ => Ok(0),
            }
        },
    }
}

/// A mint counter that was never written counts as zero.
pub open spec fn spec_opt0(o: Option<u64>) -> u64 {
    match o {
        Some(v) => v,
        None => 0,
    }
}

/// One chip pack's mint counter moved up by one, all else untouched.
pub open spec fn spec_chip_bumped(pre: Catalog, post: Catalog, g: Seq<char>) -> bool {
    &&& pre.chips().contains_key(g)
    &&& post.chips() == pre.chips().insert(
        g,
        (GloChip { count: (pre.chips()[g].count + 1) as u64, ..pre.chips()[g] }),
    )
    &&& post.hkeys() == pre.hkeys()
    &&& post.specials() == pre.specials()
    &&& post.seasons_map() == pre.seasons_map()
    &&& post.spec_pricing() == pre.spec_pricing()
}

/// One key's mint counter moved up by one, all else untouched.
pub open spec fn spec_key_bumped(pre: Catalog, post: Catalog, g: Seq<char>) -> bool {
    &&& pre.hkeys().contains_key(g)
    &&& post.hkeys() == pre.hkeys().insert(
        g,
        (HoloKey { count: (pre.hkeys()[g].count + 1) as u64, ..pre.hkeys()[g] }),
    )
    &&& post.chips() == pre.chips()
    &&& post.specials() == pre.specials()
    &&& post.seasons_map() == pre.seasons_map()
    &&& post.spec_pricing() == pre.spec_pricing()
}

/// One fixed collectible's mint counter moved up by one.
pub open spec fn spec_special_bumped(pre: Catalog, post: Catalog, g: Seq<char>) -> bool {
    &&& pre.specials().contains_key(g)
    &&& post.specials() == pre.specials().insert(
        g,
        (GloNFT {
            count: Some((spec_opt0(pre.specials()[g].count) + 1) as u64),
            ..pre.specials()[g]
        }),
    )
    &&& post.chips() == pre.chips()
    &&& post.hkeys() == pre.hkeys()
    &&& post.seasons_map() == pre.seasons_map()
    &&& post.spec_pricing() == pre.spec_pricing()
}

/// One weighted item's mint counter, inside one chip pack, moved up by
/// one; weights, order and everything else untouched.
pub open spec fn spec_item_bumped(pre: Catalog, post: Catalog, g: Seq<char>, j: int) -> bool {
    &&& pre.chips().contains_key(g)
    &&& 0 <= j < pre.chips()[g].items@.len()
    &&& post.chips() == pre.chips().insert(g, post.chips()[g])
    &&& post.chips()[g].items@ == pre.chips()[g].items@.update(
        j,
        (GloNFT {
            count: Some((spec_opt0(pre.chips()[g].items@[j].count) + 1) as u64),
            ..pre.chips()[g].items@[j]
        }),
    )
    &&& post.chips()[g].rarity == pre.chips()[g].rarity
    &&& post.chips()[g].id == pre.chips()[g].id
    &&& post.chips()[g].uri == pre.chips()[g].uri
    &&& post.chips()[g].special == pre.chips()[g].special
    &&& post.chips()[g].count == pre.chips()[g].count
    &&& post.chips()[g].price == pre.chips()[g].price
    &&& post.chips()[g].season_id == pre.chips()[g].season_id
    &&& post.hkeys() == pre.hkeys()
    &&& post.specials() == pre.specials()
    &&& post.seasons_map() == pre.seasons_map()
    &&& post.spec_pricing() == pre.spec_pricing()
}

/// The catalog store.
pub struct Catalog {
    glochips: StrMap<GloChip>,
    holokeys: StrMap<HoloKey>,
    special_glonfts: StrMap<GloNFT>,
    seasons: StrMap<Season>,
    pricing: Option<HoloKeyPricing>,
}

impl Catalog {
    /// The chip-pack table keyed by chip-pack id.
    pub closed spec fn chips(&self) -> Map<Seq<char>, GloChip> {
        self.glochips@
    }

    /// The key table keyed by key id.
    pub closed spec fn hkeys(&self) -> Map<Seq<char>, HoloKey> {
        self.holokeys@
    }

    /// The fixed-collectible table keyed by item id.
    pub closed spec fn specials(&self) -> Map<Seq<char>, GloNFT> {
        self.special_glonfts@
    }

    /// The season table keyed by the season's original (storage) id.
    pub closed spec fn seasons_map(&self) -> Map<Seq<char>, Season> {
        self.seasons@
    }

    /// The singleton per-rarity key pricing record, if ever written.
    pub closed spec fn spec_pricing(&self) -> Option<HoloKeyPricing> {
        self.pricing
    }

    /// A stored chip pack's side of the binding invariant: if it points at
    /// a season, that season exists and its matching slot points back.
    pub open spec fn chip_link_ok(&self, k: Seq<char>) -> bool {
        match spec_opt_view(self.chips()[k].season_id) {
            Some(sk) => self.seasons_map().contains_key(sk)
                && spec_chip_slot(self.seasons_map()[sk], self.chips()[k].rarity) == Some(k),
            None => true,
        }
    }

    /// A stored key's side of the binding invariant.
    pub open spec fn key_link_ok(&self, k: Seq<char>) -> bool {
        match spec_opt_view(self.hkeys()[k].season_id) {
            Some(sk) => self.seasons_map().contains_key(sk)
                && spec_key_slot(self.seasons_map()[sk], self.hkeys()[k].rarity) == Some(k),
            None => true,
        }
    }

    /// A season slot's side of the binding invariant: an occupied chip
    /// slot names a stored chip pack of the slot's rarity whose season
    /// reference points back at this season's storage key.
    pub open spec fn chip_slot_ok(&self, sk: Seq<char>, r: Rarity) -> bool {
        match spec_chip_slot(self.seasons_map()[sk], r) {
            Some(eid) => self.chips().contains_key(eid) && self.chips()[eid].rarity == r
                && spec_opt_view(self.chips()[eid].season_id) == Some(sk),
            None => true,
        }
    }

    /// A season slot's side of the binding invariant, for key slots.
    pub open spec fn key_slot_ok(&self, sk: Seq<char>, r: Rarity) -> bool {
        match spec_key_slot(self.seasons_map()[sk], r) {
            Some(eid) => self.hkeys().contains_key(eid) && self.hkeys()[eid].rarity == r
                && spec_opt_view(self.hkeys()[eid].season_id) == Some(sk),
            None => true,
        }
    }

    /// The weights of a chip pack's items sum to exactly 100.
    pub open spec fn chip_weights_ok(&self, k: Seq<char>) -> bool {
        spec_weight_sum(self.chips()[k].items@, self.chips()[k].items@.len() as int) == 100
    }

    /// Well-formed: unique ids throughout, every record stored under its
    /// own id, every chip pack's weights summing to 100, and bidirectional
    /// season bindings.
    pub closed spec fn wf(&self) -> bool {
        &&& self.glochips.wf()
        &&& self.holokeys.wf()
        &&& self.special_glonfts.wf()
        &&& self.seasons.wf()
        &&& forall|k: Seq<char>| #[trigger] self.chips().contains_key(k) ==> {
            &&& self.chips()[k].id@ == k
            &&& self.chip_weights_ok(k)
            &&& self.chip_link_ok(k)
        }
        &&& forall|k: Seq<char>| #[trigger] self.hkeys().contains_key(k) ==> {
            &&& self.hkeys()[k].id@ == k
            &&& self.key_link_ok(k)
        }
        &&& forall|k: Seq<char>| #[trigger] self.specials().contains_key(k)
            ==> self.specials()[k].id@ == k
        &&& forall|sk: Seq<char>, r: Rarity| #![trigger self.chip_slot_ok(sk, r)]
            self.seasons_map().contains_key(sk) ==> self.chip_slot_ok(sk, r)
        &&& forall|sk: Seq<char>, r: Rarity| #![trigger self.key_slot_ok(sk, r)]
            self.seasons_map().contains_key(sk) ==> self.key_slot_ok(sk, r)
    }

    /// Every stored chip pack keeps its weight sum at exactly 100 and its
    /// season binding consistent; this holds at creation and after every
    /// successful edit, because `wf` is an invariant of every operation.
    pub proof fn lemma_chip_invariant(&self, k: Seq<char>)
        requires
            self.wf(),
            self.chips().contains_key(k),
        ensures
            self.chips()[k].id@ == k,
            spec_weight_sum(self.chips()[k].items@, self.chips()[k].items@.len() as int) == 100,
            self.chip_link_ok(k),
    {
    }

    /// Every stored key is keyed by its own id with a consistent binding.
    pub proof fn lemma_key_invariant(&self, k: Seq<char>)
        requires
            self.wf(),
            self.hkeys().contains_key(k),
        ensures
            self.hkeys()[k].id@ == k,
            self.key_link_ok(k),
    {
    }

    /// Both sides of a season's slots are consistent: an occupied slot
    /// names a stored entity of the slot's rarity pointing back here.
    pub proof fn lemma_season_bidirectional(&self, sk: Seq<char>, r: Rarity)
        requires
            self.wf(),
            self.seasons_map().contains_key(sk),
        ensures
            self.chip_slot_ok(sk, r),
            self.key_slot_ok(sk, r),
    {
    }

    /// A chip pack's id stands in at most one slot over all seasons: two
    /// occupied chip slots holding the same id are the same slot.
    pub proof fn lemma_chip_slot_unique(
        &self,
        sk1: Seq<char>,
        r1: Rarity,
        sk2: Seq<char>,
        r2: Rarity,
        eid: Seq<char>,
    )
        requires
            self.wf(),
            self.seasons_map().contains_key(sk1),
            self.seasons_map().contains_key(sk2),
            spec_chip_slot(self.seasons_map()[sk1], r1) == Some(eid),
            spec_chip_slot(self.seasons_map()[sk2], r2) == Some(eid),
        ensures
            sk1 == sk2,
            r1 == r2,
    {
        assert(self.chip_slot_ok(sk1, r1));
        assert(self.chip_slot_ok(sk2, r2));
    }

    /// A key's id stands in at most one key slot over all seasons.
    pub proof fn lemma_key_slot_unique(
        &self,
        sk1: Seq<char>,
        r1: Rarity,
        sk2: Seq<char>,
        r2: Rarity,
        eid: Seq<char>,
    )
        requires
            self.wf(),
            self.seasons_map().contains_key(sk1),
            self.seasons_map().contains_key(sk2),
            spec_key_slot(self.seasons_map()[sk1], r1) == Some(eid),
            spec_key_slot(self.seasons_map()[sk2], r2) == Some(eid),
        ensures
            sk1 == sk2,
            r1 == r2,
    {
        assert(self.key_slot_ok(sk1, r1));
        assert(self.key_slot_ok(sk2, r2));
    }

    /// An empty catalog.
    pub fn new() -> (r: Self)
        ensures
            r.wf(),
            r.chips() == Map::<Seq<char>, GloChip>::empty(),
            r.hkeys() == Map::<Seq<char>, HoloKey>::empty(),
            r.specials() == Map::<Seq<char>, GloNFT>::empty(),
            r.seasons_map() == Map::<Seq<char>, Season>::empty(),
            r.spec_pricing() is None,
    {
        Catalog {
            glochips: StrMap::new(),
            holokeys: StrMap::new(),
            special_glonfts: StrMap::new(),
            seasons: StrMap::new(),
            pricing: None,
        }
    }

    /// Looks up a season by its storage key.
    pub fn get_season(&self, season_id: &String) -> (r: Option<&Season>)
        requires
            self.wf(),
        ensures
            match r {
                Some(s) => self.seasons_map().contains_key(season_id@)
                    && *s == self.seasons_map()[season_id@],
                None => !self.seasons_map().contains_key(season_id@),
            },
    {
        self.seasons.get(season_id)
    }

    /// Looks up a chip pack by id.
    pub fn get_glochip(&self, glochip_id: &String) -> (r: Option<&GloChip>)
        requires
            self.wf(),
        ensures
            match r {
                Some(c) => self.chips().contains_key(glochip_id@)
                    && *c == self.chips()[glochip_id@],
                None => !self.chips().contains_key(glochip_id@),
            },
    {
        self.glochips.get(glochip_id)
    }

    /// Looks up a key by id.
    pub fn get_holokey(&self, key_id: &String) -> (r: Option<&HoloKey>)
        requires
            self.wf(),
        ensures
            match r {
                Some(k) => self.hkeys().contains_key(key_id@) && *k == self.hkeys()[key_id@],
                None => !self.hkeys().contains_key(key_id@),
            },
    {
        self.holokeys.get(key_id)
    }

    /// Looks up a fixed collectible by id.
    pub fn get_special_glonft(&self, item_id: &String) -> (r: Option<&GloNFT>)
        requires
            self.wf(),
        ensures
            match r {
                Some(g) => self.specials().contains_key(item_id@)
                    && *g == self.specials()[item_id@],
                None => !self.specials().contains_key(item_id@),
            },
    {
        self.special_glonfts.get(item_id)
    }

    /// The pricing record, if one was ever written.
    pub fn get_pricing(&self) -> (r: &Option<HoloKeyPricing>)
        ensures
            *r == self.spec_pricing(),
    {
        &self.pricing
    }

    /// Checks that every mint counter in the catalog is still below its
    /// ceiling, so that one more mint cannot overflow any of them; hosts
    /// test this before invoking a mint.
    pub fn counters_within_limits(&self) -> (r: bool)
        requires
            self.wf(),
        ensures
            r == crate::mint::spec_counters_ok(*self),
    {
        let chip_ids = self.glochips.keys();
        let n = chip_ids.len();
        proof {
            self.glochips.lemma_key_seq();
        }
        for i in 0..n
            invariant
                self.wf(),
                n == self.glochips.key_seq().len(),
                chip_ids@.len() == n,
                forall|x: int| 0 <= x < n
                    ==> (#[trigger] chip_ids@[x])@ == self.glochips.key_seq()[x],
                forall|x: int| 0 <= x < i ==> {
                    &&& self.chips()[#[trigger] self.glochips.key_seq()[x]].count < u64::MAX
                    &&& forall|y: int|
                        0 <= y
                            < self.chips()[self.glochips.key_seq()[x]].items@.len()
                            ==> spec_opt0(
                            (
                            #[trigger] self.chips()[self.glochips.key_seq()[x]].items@[y]).count,
                        ) < u64::MAX
                },
        {
            proof {
                self.glochips.lemma_key_seq();
            }
            let chip = match self.glochips.get(&chip_ids[i]) {
                Some(c) => c,
                None => {
                    proof {
                        assert(false);
                    }
                    return false;
                },
            };
            if chip.count == u64::MAX {
                proof {
                    assert(self.chips().contains_key(chip_ids@[i as int]@));
                }
                return false;
            }
            let m = chip.items.len();
            for y in 0..m
                invariant
                    m == chip.items@.len(),
                    i < n,
                    n == self.glochips.key_seq().len(),
                    self.wf(),
                    self.chips().contains_key(self.glochips.key_seq()[i as int]),
                    chip == self.chips()[self.glochips.key_seq()[i as int]],
                    forall|z: int| 0 <= z < y
                        ==> spec_opt0((#[trigger] chip.items@[z]).count) < u64::MAX,
            {
                let c: u64 = match chip.items[y].count {
                    Some(c) => c,
                    None => 0,
                };
                if c == u64::MAX {
                    proof {
                        assert(spec_opt0((chip.items@[y as int]).count) == c);
                    }
                    return false;
                }
            }
        }
        let key_ids = self.holokeys.keys();
        let kn = key_ids.len();
        proof {
            self.holokeys.lemma_key_seq();
        }
        for i in 0..kn
            invariant
                self.wf(),
                kn == self.holokeys.key_seq().len(),
                key_ids@.len() == kn,
                forall|x: int| 0 <= x < kn
                    ==> (#[trigger] key_ids@[x])@ == self.holokeys.key_seq()[x],
                forall|x: int| 0 <= x < i
                    ==> self.hkeys()[#[trigger] self.holokeys.key_seq()[x]].count < u64::MAX,
        {
            proof {
                self.holokeys.lemma_key_seq();
            }
            let key = match self.holokeys.get(&key_ids[i]) {
                Some(c) => c,
                None => {
                    proof {
                        assert(false);
                    }
                    return false;
                },
            };
            if key.count == u64::MAX {
                proof {
                    assert(self.hkeys().contains_key(key_ids@[i as int]@));
                }
                return false;
            }
        }
        let special_ids = self.special_glonfts.keys();
        let sn = special_ids.len();
        proof {
            self.special_glonfts.lemma_key_seq();
        }
        for i in 0..sn
            invariant
                self.wf(),
                sn == self.special_glonfts.key_seq().len(),
                special_ids@.len() == sn,
                forall|x: int| 0 <= x < sn
                    ==> (#[trigger] special_ids@[x])@ == self.special_glonfts.key_seq()[x],
                forall|x: int| 0 <= x < i ==> spec_opt0(
                    self.specials()[#[trigger] self.special_glonfts.key_seq()[x]].count,
                ) < u64::MAX,
        {
            proof {
                self.special_glonfts.lemma_key_seq();
            }
            let item = match self.special_glonfts.get(&special_ids[i]) {
                Some(c) => c,
                None => {
                    proof {
                        assert(false);
                    }
                    return false;
                },
            };
            let c: u64 = match item.count {
                Some(c) => c,
                None => 0,
            };
            if c == u64::MAX {
                proof {
                    assert(self.specials().contains_key(special_ids@[i as int]@));
                    assert(spec_opt0(item.count) == c);
                }
                return false;
            }
        }
        proof {
            self.glochips.lemma_key_seq();
            self.holokeys.lemma_key_seq();
            self.special_glonfts.lemma_key_seq();
            assert forall|k: Seq<char>| #[trigger] self.chips().contains_key(k) implies {
                &&& self.chips()[k].count < u64::MAX
                &&& forall|y: int| 0 <= y < self.chips()[k].items@.len()
                    ==> spec_opt0((#[trigger] self.chips()[k].items@[y]).count) < u64::MAX
            } by {
                assert(self.glochips.key_seq().contains(k));
                let x = choose|x: int|
                    0 <= x < self.glochips.key_seq().len() && self.glochips.key_seq()[x] == k;
                assert(self.chips()[self.glochips.key_seq()[x]].count < u64::MAX);
            }
            assert forall|k: Seq<char>| #[trigger] self.hkeys().contains_key(k)
                implies self.hkeys()[k].count < u64::MAX by {
                assert(self.holokeys.key_seq().contains(k));
                let x = choose|x: int|
                    0 <= x < self.holokeys.key_seq().len() && self.holokeys.key_seq()[x] == k;
                assert(self.hkeys()[self.holokeys.key_seq()[x]].count < u64::MAX);
            }
            assert forall|k: Seq<char>| #[trigger] self.specials().contains_key(k)
                implies spec_opt0(self.specials()[k].count) < u64::MAX by {
                assert(self.special_glonfts.key_seq().contains(k));
                let x = choose|x: int|
                    0 <= x < self.special_glonfts.key_seq().len()
                        && self.special_glonfts.key_seq()[x] == k;
                assert(spec_opt0(self.specials()[self.special_glonfts.key_seq()[x]].count)
                    < u64::MAX);
            }
        }
        true
    }

    /// Moves a chip pack's mint counter up by one; yields its metadata
    /// URI and the new counter value.
    pub(crate) fn bump_chip(&mut self, id: &String) -> (r: (String, u64))
        requires
            old(self).wf(),
            old(self).chips().contains_key(id@),
            old(self).chips()[id@].count < u64::MAX,
        ensures
            final(self).wf(),
            spec_chip_bumped(*old(self), *final(self), id@),
            r.0 == old(self).chips()[id@].uri,
            r.1 == old(self).chips()[id@].count + 1,
    {
        let mut chip = match self.glochips.take(id) {
            Some(c) => c,
            None => {
                proof {
                    assert(false);
                }
                return (String::new(), 0);
            },
        };
        chip.count = chip.count + 1;
        let uri = chip.uri.clone();
        let new_count = chip.count;
        let stored_id = chip.id.clone();
        proof {
            assert(old(self).chip_weights_ok(id@));
        }
        self.glochips.insert(stored_id, chip);
        proof {
            assert(self.chips() =~= old(self).chips().insert(id@, self.chips()[id@]));
            chips_edit_wf(old(self), self, id@, id@);
        }
        (uri, new_count)
    }

    /// Moves a key's mint counter up by one; yields its metadata URI and
    /// the new counter value.
    pub(crate) fn bump_key(&mut self, id: &String) -> (r: (String, u64))
        requires
            old(self).wf(),
            old(self).hkeys().contains_key(id@),
            old(self).hkeys()[id@].count < u64::MAX,
        ensures
            final(self).wf(),
            spec_key_bumped(*old(self), *final(self), id@),
            r.0 == old(self).hkeys()[id@].uri,
            r.1 == old(self).hkeys()[id@].count + 1,
    {
        let mut key = match self.holokeys.take(id) {
            Some(c) => c,
            None => {
                proof {
                    assert(false);
                }
                return (String::new(), 0);
            },
        };
        key.count = key.count + 1;
        let uri = key.uri.clone();
        let new_count = key.count;
        let stored_id = key.id.clone();
        self.holokeys.insert(stored_id, key);
        proof {
            assert(self.hkeys() =~= old(self).hkeys().insert(id@, self.hkeys()[id@]));
            hkeys_edit_wf(old(self), self, id@, id@);
        }
        (uri, new_count)
    }

    /// Moves a fixed collectible's mint counter up by one; yields its
    /// metadata URI and the new counter value.
    pub(crate) fn bump_special(&mut self, id: &String) -> (r: (String, u64))
        requires
            old(self).wf(),
            old(self).specials().contains_key(id@),
            spec_opt0(old(self).specials()[id@].count) < u64::MAX,
        ensures
            final(self).wf(),
            spec_special_bumped(*old(self), *final(self), id@),
            r.0 == old(self).specials()[id@].uri,
            r.1 == spec_opt0(old(self).specials()[id@].count) + 1,
    {
        let mut item = match self.special_glonfts.take(id) {
            Some(c) => c,
            None => {
                proof {
                    assert(false);
                }
                return (String::new(), 0);
            },
        };
        let new_count: u64 = match item.count {
            Some(c) => c + 1,
            None => 1,
        };
        item.count = Some(new_count);
        let uri = item.uri.clone();
        let stored_id = item.id.clone();
        self.special_glonfts.insert(stored_id, item);
        proof {
            assert(self.specials() =~= old(self).specials().insert(id@, self.specials()[id@]));
            specials_edit_wf(old(self), self);
        }
        (uri, new_count)
    }

    /// Moves one weighted item's mint counter up by one inside a chip
    /// pack; yields the item's id, its metadata URI and the new counter.
    pub(crate) fn bump_item(&mut self, id: &String, j: usize) -> (r: (String, String, u64))
        requires
            old(self).wf(),
            old(self).chips().contains_key(id@),
            j < old(self).chips()[id@].items@.len(),
            spec_opt0(old(self).chips()[id@].items@[j as int].count) < u64::MAX,
        ensures
            final(self).wf(),
            spec_item_bumped(*old(self), *final(self), id@, j as int),
            r.0 == old(self).chips()[id@].items@[j as int].id,
            r.1 == old(self).chips()[id@].items@[j as int].uri,
            r.2 == spec_opt0(old(self).chips()[id@].items@[j as int].count) + 1,
    {
        let mut chip = match self.glochips.take(id) {
            Some(c) => c,
            None => {
                proof {
                    assert(false);
                }
                return (String::new(), String::new(), 0);
            },
        };
        let ghost pre_items = chip.items@;
        let item_id = chip.items[j].id.clone();
        let item_uri = chip.items[j].uri.clone();
        let new_count: u64 = match chip.items[j].count {
            Some(c) => c + 1,
            None => 1,
        };
        let slot = &mut chip.items[j];
        *slot = GloNFT {
            id: item_id.clone(),
            rarity: slot.rarity,
            uri: item_uri.clone(),
            count: Some(new_count),
            price: slot.price,
            probability: slot.probability,
        };
        let stored_id = chip.id.clone();
        proof {
            assert(old(self).chip_weights_ok(id@));
            crate::select::lemma_weight_sum_congruence(
                chip.items@,
                pre_items,
                pre_items.len() as int,
            );
        }
        self.glochips.insert(stored_id, chip);
        proof {
            assert(self.chips() =~= old(self).chips().insert(id@, self.chips()[id@]));
            chips_edit_wf(old(self), self, id@, id@);
        }
        (item_id, item_uri, new_count)
    }
}

/// Editing one chip slot of one season — binding `newv`, displacing
/// `prevv` — keeps the catalog well-formed, provided both sides of the
/// binding were written together.
proof fn edit_chip_slot_wf(
    pre: &Catalog,
    post: &Catalog,
    sk: Seq<char>,
    rarity: Rarity,
    newv: Option<Seq<char>>,
    prevv: Option<Seq<char>>,
)
    requires
        pre.wf(),
        post.glochips.wf(),
        post.holokeys.wf(),
        post.special_glonfts.wf(),
        post.seasons.wf(),
        post.hkeys() == pre.hkeys(),
        post.specials() == pre.specials(),
        pre.seasons_map().contains_key(sk),
        post.seasons_map() == pre.seasons_map().insert(sk, post.seasons_map()[sk]),
        spec_chip_slot(post.seasons_map()[sk], rarity) == newv,
        forall|r: Rarity| r != rarity ==> #[trigger] spec_chip_slot(post.seasons_map()[sk], r)
            == spec_chip_slot(pre.seasons_map()[sk], r),
        forall|r: Rarity| #[trigger] spec_key_slot(post.seasons_map()[sk], r) == spec_key_slot(
            pre.seasons_map()[sk],
            r,
        ),
        prevv == spec_chip_slot(pre.seasons_map()[sk], rarity),
        forall|k: Seq<char>| #[trigger] post.chips().contains_key(k) <==> pre.chips().contains_key(
            k,
        ),
        match newv {
            Some(cid) => {
                &&& pre.chips().contains_key(cid)
                &&& pre.chips()[cid].rarity == rarity
                &&& (pre.chips()[cid].season_id is None || spec_opt_view(
                    pre.chips()[cid].season_id,
                ) == Some(sk))
                &&& post.chips()[cid].rarity == pre.chips()[cid].rarity
                &&& post.chips()[cid].id == pre.chips()[cid].id
                &&& post.chips()[cid].items == pre.chips()[cid].items
                &&& spec_opt_view(post.chips()[cid].season_id) == Some(sk)
            },
            None => true,
        },
        match prevv {
            Some(p) => newv != Some(p) ==> {
                &&& post.chips()[p].rarity == pre.chips()[p].rarity
                &&& post.chips()[p].id == pre.chips()[p].id
                &&& post.chips()[p].items == pre.chips()[p].items
                &&& post.chips()[p].season_id is None
            },
            None => true,
        },
        forall|k: Seq<char>|
            #![auto]
            pre.chips().contains_key(k) && newv != Some(k) && prevv != Some(k)
                ==> post.chips()[k] == pre.chips()[k],
    ensures
        post.wf(),
{
    assert forall|k: Seq<char>| #[trigger] post.chips().contains_key(k)
        implies post.chips()[k].id@ == k && post.chip_weights_ok(k) && post.chip_link_ok(k) by {
        assert(pre.chips().contains_key(k));
        assert(pre.chips()[k].id@ == k);
        assert(pre.chip_weights_ok(k));
        assert(pre.chip_link_ok(k));
        if newv == Some(k) {
        } else if prevv == Some(k) {
        } else {
            if spec_opt_view(post.chips()[k].season_id) == Some(sk) {
                assert(pre.chip_slot_ok(sk, post.chips()[k].rarity));
            }
        }
    }
    assert forall|k: Seq<char>| #[trigger] post.hkeys().contains_key(k)
        implies post.hkeys()[k].id@ == k && post.key_link_ok(k) by {
        assert(pre.key_link_ok(k));
    }
    assert forall|sk0: Seq<char>, r: Rarity| post.seasons_map().contains_key(sk0)
        implies #[trigger] post.chip_slot_ok(sk0, r) by {
        assert(pre.seasons_map().contains_key(sk0));
        assert(pre.chip_slot_ok(sk0, r));
        if !(sk0 == sk && r == rarity) {
            match spec_chip_slot(post.seasons_map()[sk0], r) {
                Some(eid) => {
                    assert(spec_chip_slot(pre.seasons_map()[sk0], r) == Some(eid));
                    if prevv == Some(eid) && newv != Some(eid) {
                        assert(pre.chip_slot_ok(sk, rarity));
                    }
                },
                None => {},
            }
        }
    }
    assert forall|sk0: Seq<char>, r: Rarity| post.seasons_map().contains_key(sk0)
        implies #[trigger] post.key_slot_ok(sk0, r) by {
        assert(pre.key_slot_ok(sk0, r));
    }
}

/// The key-slot counterpart of `edit_chip_slot_wf`.
proof fn edit_key_slot_wf(
    pre: &Catalog,
    post: &Catalog,
    sk: Seq<char>,
    rarity: Rarity,
    newv: Option<Seq<char>>,
    prevv: Option<Seq<char>>,
)
    requires
        pre.wf(),
        post.glochips.wf(),
        post.holokeys.wf(),
        post.special_glonfts.wf(),
        post.seasons.wf(),
        post.chips() == pre.chips(),
        post.specials() == pre.specials(),
        pre.seasons_map().contains_key(sk),
        post.seasons_map() == pre.seasons_map().insert(sk, post.seasons_map()[sk]),
        spec_key_slot(post.seasons_map()[sk], rarity) == newv,
        forall|r: Rarity| r != rarity ==> #[trigger] spec_key_slot(post.seasons_map()[sk], r)
            == spec_key_slot(pre.seasons_map()[sk], r),
        forall|r: Rarity| #[trigger] spec_chip_slot(post.seasons_map()[sk], r) == spec_chip_slot(
            pre.seasons_map()[sk],
            r,
        ),
        prevv == spec_key_slot(pre.seasons_map()[sk], rarity),
        forall|k: Seq<char>| #[trigger] post.hkeys().contains_key(k) <==> pre.hkeys().contains_key(
            k,
        ),
        match newv {
            Some(cid) => {
                &&& pre.hkeys().contains_key(cid)
                &&& pre.hkeys()[cid].rarity == rarity
                &&& (pre.hkeys()[cid].season_id is None || spec_opt_view(
                    pre.hkeys()[cid].season_id,
                ) == Some(sk))
                &&& post.hkeys()[cid].rarity == pre.hkeys()[cid].rarity
                &&& post.hkeys()[cid].id == pre.hkeys()[cid].id
                &&& spec_opt_view(post.hkeys()[cid].season_id) == Some(sk)
            },
            None => true,
        },
        match prevv {
            Some(p) => newv != Some(p) ==> {
                &&& post.hkeys()[p].rarity == pre.hkeys()[p].rarity
                &&& post.hkeys()[p].id == pre.hkeys()[p].id
                &&& post.hkeys()[p].season_id is None
            },
            None => true,
        },
        forall|k: Seq<char>|
            #![auto]
            pre.hkeys().contains_key(k) && newv != Some(k) && prevv != Some(k)
                ==> post.hkeys()[k] == pre.hkeys()[k],
    ensures
        post.wf(),
{
    assert forall|k: Seq<char>| #[trigger] post.hkeys().contains_key(k)
        implies post.hkeys()[k].id@ == k && post.key_link_ok(k) by {
        assert(pre.hkeys().contains_key(k));
        assert(pre.hkeys()[k].id@ == k);
        assert(pre.key_link_ok(k));
        if newv == Some(k) {
        } else if prevv == Some(k) {
        } else {
            if spec_opt_view(post.hkeys()[k].season_id) == Some(sk) {
                assert(pre.key_slot_ok(sk, post.hkeys()[k].rarity));
            }
        }
    }
    assert forall|k: Seq<char>| #[trigger] post.chips().contains_key(k)
        implies post.chips()[k].id@ == k && post.chip_weights_ok(k) && post.chip_link_ok(k) by {
        assert(pre.chip_weights_ok(k));
        assert(pre.chip_link_ok(k));
    }
    assert forall|sk0: Seq<char>, r: Rarity| post.seasons_map().contains_key(sk0)
        implies #[trigger] post.key_slot_ok(sk0, r) by {
        assert(pre.seasons_map().contains_key(sk0));
        assert(pre.key_slot_ok(sk0, r));
        if !(sk0 == sk && r == rarity) {
            match spec_key_slot(post.seasons_map()[sk0], r) {
                Some(eid) => {
                    assert(spec_key_slot(pre.seasons_map()[sk0], r) == Some(eid));
                    if prevv == Some(eid) && newv != Some(eid) {
                        assert(pre.key_slot_ok(sk, rarity));
                    }
                },
                None => {},
            }
        }
    }
    assert forall|sk0: Seq<char>, r: Rarity| post.seasons_map().contains_key(sk0)
        implies #[trigger] post.chip_slot_ok(sk0, r) by {
        assert(pre.chip_slot_ok(sk0, r));
    }
}

/// Replacing one chip pack's record — possibly under a new id, which is
/// only allowed while unbound — keeps the catalog well-formed.
proof fn chips_edit_wf(pre: &Catalog, post: &Catalog, oldk: Seq<char>, newk: Seq<char>)
    requires
        pre.wf(),
        post.glochips.wf(),
        post.holokeys.wf(),
        post.special_glonfts.wf(),
        post.seasons.wf(),
        post.hkeys() == pre.hkeys(),
        post.specials() == pre.specials(),
        post.seasons_map() == pre.seasons_map(),
        pre.chips().contains_key(oldk),
        newk != oldk ==> !pre.chips().contains_key(newk) && pre.chips()[oldk].season_id is None
            && post.chips()[newk].season_id is None,
        newk == oldk ==> post.chips()[newk].season_id == pre.chips()[oldk].season_id,
        post.chips() == pre.chips().remove(oldk).insert(newk, post.chips()[newk]),
        post.chips()[newk].id@ == newk,
        post.chips()[newk].rarity == pre.chips()[oldk].rarity,
        spec_weight_sum(post.chips()[newk].items@, post.chips()[newk].items@.len() as int)
            == 100,
    ensures
        post.wf(),
{
    assert forall|k: Seq<char>| #[trigger] post.chips().contains_key(k)
        implies post.chips()[k].id@ == k && post.chip_weights_ok(k) && post.chip_link_ok(k) by {
        if k != newk {
            assert(pre.chips().contains_key(k));
            assert(pre.chip_weights_ok(k));
            assert(pre.chip_link_ok(k));
        } else {
            assert(pre.chip_link_ok(oldk));
        }
    }
    assert forall|k: Seq<char>| #[trigger] post.hkeys().contains_key(k)
        implies post.hkeys()[k].id@ == k && post.key_link_ok(k) by {
        assert(pre.key_link_ok(k));
    }
    assert forall|sk0: Seq<char>, r: Rarity| post.seasons_map().contains_key(sk0)
        implies #[trigger] post.chip_slot_ok(sk0, r) by {
        assert(pre.chip_slot_ok(sk0, r));
        match spec_chip_slot(post.seasons_map()[sk0], r) {
            Some(eid) => {
                if eid == oldk || eid == newk {
                    assert(pre.chips().contains_key(eid));
                    assert(spec_opt_view(pre.chips()[eid].season_id) == Some(sk0));
                }
            },
            None => {},
        }
    }
    assert forall|sk0: Seq<char>, r: Rarity| post.seasons_map().contains_key(sk0)
        implies #[trigger] post.key_slot_ok(sk0, r) by {
        assert(pre.key_slot_ok(sk0, r));
    }
}

/// Replacing one key's record — possibly under a new id, which is only
/// allowed while unbound — keeps the catalog well-formed.
proof fn hkeys_edit_wf(pre: &Catalog, post: &Catalog, oldk: Seq<char>, newk: Seq<char>)
    requires
        pre.wf(),
        post.glochips.wf(),
        post.holokeys.wf(),
        post.special_glonfts.wf(),
        post.seasons.wf(),
        post.chips() == pre.chips(),
        post.specials() == pre.specials(),
        post.seasons_map() == pre.seasons_map(),
        pre.hkeys().contains_key(oldk),
        newk != oldk ==> !pre.hkeys().contains_key(newk) && pre.hkeys()[oldk].season_id is None
            && post.hkeys()[newk].season_id is None,
        newk == oldk ==> post.hkeys()[newk].season_id == pre.hkeys()[oldk].season_id,
        post.hkeys() == pre.hkeys().remove(oldk).insert(newk, post.hkeys()[newk]),
        post.hkeys()[newk].id@ == newk,
        post.hkeys()[newk].rarity == pre.hkeys()[oldk].rarity,
    ensures
        post.wf(),
{
    assert forall|k: Seq<char>| #[trigger] post.hkeys().contains_key(k)
        implies post.hkeys()[k].id@ == k && post.key_link_ok(k) by {
        if k != newk {
            assert(pre.hkeys().contains_key(k));
            assert(pre.key_link_ok(k));
        } else {
            assert(pre.key_link_ok(oldk));
        }
    }
    assert forall|k: Seq<char>| #[trigger] post.chips().contains_key(k)
        implies post.chips()[k].id@ == k && post.chip_weights_ok(k) && post.chip_link_ok(k) by {
        assert(pre.chip_weights_ok(k));
        assert(pre.chip_link_ok(k));
    }
    assert forall|sk0: Seq<char>, r: Rarity| post.seasons_map().contains_key(sk0)
        implies #[trigger] post.key_slot_ok(sk0, r) by {
        assert(pre.key_slot_ok(sk0, r));
        match spec_key_slot(post.seasons_map()[sk0], r) {
            Some(eid) => {
                if eid == oldk || eid == newk {
                    assert(pre.hkeys().contains_key(eid));
                    assert(spec_opt_view(pre.hkeys()[eid].season_id) == Some(sk0));
                }
            },
            None => {},
        }
    }
    assert forall|sk0: Seq<char>, r: Rarity| post.seasons_map().contains_key(sk0)
        implies #[trigger] post.chip_slot_ok(sk0, r) by {
        assert(pre.chip_slot_ok(sk0, r));
    }
}

/// Changing only the fixed-collectible table — with every record still
/// stored under its own id — keeps the catalog well-formed.
proof fn specials_edit_wf(pre: &Catalog, post: &Catalog)
    requires
        pre.wf(),
        post.glochips.wf(),
        post.holokeys.wf(),
        post.special_glonfts.wf(),
        post.seasons.wf(),
        post.chips() == pre.chips(),
        post.hkeys() == pre.hkeys(),
        post.seasons_map() == pre.seasons_map(),
        forall|k: Seq<char>| #[trigger] post.specials().contains_key(k)
            ==> post.specials()[k].id@ == k,
    ensures
        post.wf(),
{
    assert forall|k: Seq<char>| #[trigger] post.chips().contains_key(k)
        implies post.chips()[k].id@ == k && post.chip_weights_ok(k) && post.chip_link_ok(k) by {
        assert(pre.chip_weights_ok(k));
        assert(pre.chip_link_ok(k));
    }
    assert forall|k: Seq<char>| #[trigger] post.hkeys().contains_key(k)
        implies post.hkeys()[k].id@ == k && post.key_link_ok(k) by {
        assert(pre.key_link_ok(k));
    }
    assert forall|sk0: Seq<char>, r: Rarity| post.seasons_map().contains_key(sk0)
        implies #[trigger] post.chip_slot_ok(sk0, r) by {
        assert(pre.chip_slot_ok(sk0, r));
    }
    assert forall|sk0: Seq<char>, r: Rarity| post.seasons_map().contains_key(sk0)
        implies #[trigger] post.key_slot_ok(sk0, r) by {
        assert(pre.key_slot_ok(sk0, r));
    }
}

impl Cw721Contract {
    /// Creates an empty season under a fresh id; owner-gated.
    pub fn create_season(&self, catalog: &mut Catalog, sender: &String, season_id: String) -> (r:
        Result<(), ContractError>)
        requires
            old(catalog).wf(),
        ensures
            final(catalog).wf(),
            match r {
                Ok(_) => {
                    &&& self.is_minter(sender@)
                    &&& !old(catalog).seasons_map().contains_key(season_id@)
                    &&& final(catalog).seasons_map() == old(catalog).seasons_map().insert(
                        season_id@,
                        final(catalog).seasons_map()[season_id@],
                    )
                    &&& final(catalog).seasons_map()[season_id@] == (Season {
                        id: season_id,
                        generic_glochip: None,
                        esoteric_glochip: None,
                        spectral_glochip: None,
                        generic_key: None,
                        esoteric_key: None,
                        spectral_key: None,
                    })
                    &&& final(catalog).chips() == old(catalog).chips()
                    &&& final(catalog).hkeys() == old(catalog).hkeys()
                    &&& final(catalog).specials() == old(catalog).specials()
                    &&& final(catalog).spec_pricing() == old(catalog).spec_pricing()
                },
                Err(e) => {
                    &&& *final(catalog) == *old(catalog)
                    &&& (e == (ContractError::NotOwner {}) <==> !self.is_minter(sender@))
                    &&& (e == (ContractError::SeasonAlreadyExists {}) <==> (
                        self.is_minter(sender@) && old(catalog).seasons_map().contains_key(
                            season_id@,
                        )))
                    &&& (e == (ContractError::NotOwner {})
                        || e == (ContractError::SeasonAlreadyExists {}))
                },
            },
    {
        match self.assert_owner(sender) {
            Ok(_) => {},
            Err(e) => {
                return Err(e);
            },
        }
        if catalog.seasons.contains_key(&season_id) {
            return Err(ContractError::SeasonAlreadyExists {});
        }
        let ghost sid = season_id@;
        let season = Season {
            id: season_id.clone(),
            generic_glochip: None,
            esoteric_glochip: None,
            spectral_glochip: None,
            generic_key: None,
            esoteric_key: None,
            spectral_key: None,
        };
        catalog.seasons.insert(season_id, season);
        proof {
            assert forall|k: Seq<char>| #[trigger] catalog.chips().contains_key(k)
                implies catalog.chip_link_ok(k) by {
                assert(old(catalog).chip_link_ok(k));
            }
            assert forall|k: Seq<char>| #[trigger] catalog.hkeys().contains_key(k)
                implies catalog.key_link_ok(k) by {
                assert(old(catalog).key_link_ok(k));
            }
            assert forall|sk: Seq<char>, r: Rarity| catalog.seasons_map().contains_key(sk)
                implies #[trigger] catalog.chip_slot_ok(sk, r) by {
                if sk != sid {
                    assert(old(catalog).chip_slot_ok(sk, r));
                }
            }
            assert forall|sk: Seq<char>, r: Rarity| catalog.seasons_map().contains_key(sk)
                implies #[trigger] catalog.key_slot_ok(sk, r) by {
                if sk != sid {
                    assert(old(catalog).key_slot_ok(sk, r));
                }
            }
        }
        Ok(())
    }

    /// Resolves the price a mint request must pay: a special chip pack's
    /// or fixed collectible's own price, a key's per-rarity price from the
    /// pricing table, and zero for the free request shapes.
    pub fn get_price(&self, catalog: &Catalog, token_type: &TokenType) -> (r: Result<
        u128,
        ContractError,
    >)
        requires
            catalog.wf(),
        ensures
            r == spec_price_of(*catalog, *token_type),
    {
        match token_type {
            TokenType::GloChip(details) => {
                if details.special {
                    match &details.glochip_id {
                        Option::None => Err(ContractError::MissingGloChipID {}),
                        Option::Some(g) => {
                            match catalog.glochips.get(g) {
                                Option::None => Err(
                                    ContractError::GloChipNotFound { glochip_id: g.clone() },
                                ),
                                Option::Some(chip) => {
                                    match chip.price {
                                        Option::Some(p) => Ok(p),
                                        Option::None => Err(ContractError::PriceNotSet {}),
                                    }
                                },
                            }
                        },
                    }
                } else {
                    Ok(0)
                }
            },
            TokenType::Key(key_details) => {
                match catalog.holokeys.get(&key_details.key_id) {
                    Option::None => Err(
                        ContractError::KeyNotFound { key_id: key_details.key_id.clone() },
                    ),
                    Option::Some(key) => {
                        match &catalog.pricing {
                            Option::None => Err(ContractError::PriceNotSet {}),
                            Option::Some(pr) => {
                                let tier: Option<u128> = match key.rarity {
                                    Rarity::Generic => pr.generic_price,
                                    Rarity::Esoteric => pr.esoteric_price,
                                    Rarity::Spectral => pr.spectral_price,
                                };
                                match tier {
                                    Option::Some(p) => Ok(p),
                                    Option::None => Err(ContractError::PriceNotSet {}),
                                }
                            },
                        }
                    },
                }
            },
            TokenType::GloNFT(glonft_type) => {
                match glonft_type {
                    GloNFTType::Special { item_id } => {
                        match catalog.special_glonfts.get(item_id) {
                            Option::None => Err(ContractError::InvalidSpecialGloNFT {}),
                            Option::Some(g) => {
                                match g.price {
                                    Option::Some(p) => Ok(p),
                                    Option::None => Err(ContractError::PriceNotSet {}),
                                }
                            },
                        }
                    },
                    _ => Ok(0),
                }
            },
        }
    }

    /// Creates a chip pack under a fresh id: its items' counters zeroed,
    /// its weights validated to sum to exactly 100, unbound; owner-gated.
    pub fn create_glochip(
        &self,
        catalog: &mut Catalog,
        sender: &String,
        rarity: Rarity,
        id: String,
        uri: String,
        special: bool,
        price: Option<u128>,
        items: Vec<GloNFT>,
    ) -> (r: Result<(), ContractError>)
        requires
            old(catalog).wf(),
        ensures
            final(catalog).wf(),
            match r {
                Ok(_) => {
                    &&& self.is_minter(sender@)
                    &&& spec_weight_sum(items@, items@.len() as int) == 100
                    &&& !old(catalog).chips().contains_key(id@)
                    &&& final(catalog).chips() == old(catalog).chips().insert(
                        id@,
                        final(catalog).chips()[id@],
                    )
                    &&& final(catalog).chips()[id@] == (GloChip {
                        rarity,
                        id: id,
                        uri: uri,
                        special,
                        items: final(catalog).chips()[id@].items,
                        count: 0,
                        price,
                        season_id: None,
                    })
                    &&& final(catalog).chips()[id@].items@ == items@.map_values(
                        |g: GloNFT| spec_zero_count(g),
                    )
                    &&& final(catalog).hkeys() == old(catalog).hkeys()
                    &&& final(catalog).specials() == old(catalog).specials()
                    &&& final(catalog).seasons_map() == old(catalog).seasons_map()
                    &&& final(catalog).spec_pricing() == old(catalog).spec_pricing()
                },
                Err(e) => {
                    &&& *final(catalog) == *old(catalog)
                    &&& (e == (ContractError::NotOwner {}) <==> !self.is_minter(sender@))
                    &&& (e == (ContractError::InvalidProbability {}) <==> (
                        self.is_minter(sender@) && spec_weight_sum(items@, items@.len() as int)
                            != 100))
                    &&& (e == (ContractError::AlreadyExists {}) <==> (self.is_minter(sender@)
                        && spec_weight_sum(items@, items@.len() as int) == 100
                        && old(catalog).chips().contains_key(id@)))
                    &&& (e == (ContractError::NotOwner {})
                        || e == (ContractError::InvalidProbability {})
                        || e == (ContractError::AlreadyExists {}))
                },
            },
    {
        match self.assert_owner(sender) {
            Ok(_) => {},
            Err(e) => {
                return Err(e);
            },
        }
        let total = crate::select::weights_total(&items);
        if total != 100 {
            return Err(ContractError::InvalidProbability {});
        }
        if catalog.glochips.contains_key(&id) {
            return Err(ContractError::AlreadyExists {});
        }
        let ghost orig_items = items@;
        let mut items = items;
        let mut initialized: Vec<GloNFT> = Vec::new();
        proof {
            assert(items@ =~= orig_items.skip(0));
        }
        while items.len() > 0
            invariant
                initialized@.len() + items@.len() == orig_items.len(),
                items@ == orig_items.skip(initialized@.len() as int),
                forall|i: int| 0 <= i < initialized@.len()
                    ==> initialized@[i] == spec_zero_count(orig_items[i]),
            decreases items.len(),
        {
            let ghost pre_items = items@;
            let ghost pre_init = initialized@;
            let mut item = items.remove(0);
            proof {
                assert(item == pre_items[0]);
                assert(pre_items[0] == orig_items[pre_init.len() as int]);
            }
            item.count = Some(0);
            initialized.push(item);
            proof {
                assert(items@ =~= orig_items.skip(initialized@.len() as int));
            }
        }
        proof {
            assert(initialized@ =~= orig_items.map_values(|g: GloNFT| spec_zero_count(g)));
        }
        let ghost cid = id@;
        let chip = GloChip {
            rarity,
            id,
            uri,
            special,
            items: initialized,
            count: 0,
            price,
            season_id: None,
        };
        proof {
            crate::select::lemma_weight_sum_congruence(
                chip.items@,
                orig_items,
                orig_items.len() as int,
            );
        }
        catalog.glochips.insert(chip.id.clone(), chip);
        proof {
            assert forall|k: Seq<char>| #[trigger] catalog.chips().contains_key(k)
                implies catalog.chips()[k].id@ == k && catalog.chip_weights_ok(k)
                && catalog.chip_link_ok(k) by {
                if k != cid {
                    assert(old(catalog).chip_link_ok(k));
                    assert(old(catalog).chip_weights_ok(k));
                }
            }
            assert forall|k: Seq<char>| #[trigger] catalog.hkeys().contains_key(k)
                implies catalog.key_link_ok(k) by {
                assert(old(catalog).key_link_ok(k));
            }
            assert forall|sk: Seq<char>, r: Rarity| catalog.seasons_map().contains_key(sk)
                implies #[trigger] catalog.chip_slot_ok(sk, r) by {
                assert(old(catalog).chip_slot_ok(sk, r));
                if spec_chip_slot(catalog.seasons_map()[sk], r) == Some(cid) {
                    assert(old(catalog).chips().contains_key(cid));
                }
            }
            assert forall|sk: Seq<char>, r: Rarity| catalog.seasons_map().contains_key(sk)
                implies #[trigger] catalog.key_slot_ok(sk, r) by {
                assert(old(catalog).key_slot_ok(sk, r));
            }
        }
        Ok(())
    }

    /// Binds an unbound chip pack of matching rarity into a season's empty
    /// chip slot, writing the slot and the chip pack's season reference as
    /// one step; owner-gated. First bind wins: an occupied slot must be
    /// cleared before rebinding.
    pub fn add_glochip_to_season(
        &self,
        catalog: &mut Catalog,
        sender: &String,
        season_id: String,
        glochip_id: String,
        rarity: Rarity,
    ) -> (r: Result<(), ContractError>)
        requires
            old(catalog).wf(),
        ensures
            final(catalog).wf(),
            match r {
                Ok(_) => {
                    &&& self.is_minter(sender@)
                    &&& old(catalog).seasons_map().contains_key(season_id@)
                    &&& old(catalog).chips().contains_key(glochip_id@)
                    &&& old(catalog).chips()[glochip_id@].season_id is None
                    &&& old(catalog).chips()[glochip_id@].rarity == rarity
                    &&& spec_chip_slot(old(catalog).seasons_map()[season_id@], rarity) is None
                    &&& final(catalog).seasons_map() == old(catalog).seasons_map().insert(
                        season_id@,
                        final(catalog).seasons_map()[season_id@],
                    )
                    &&& spec_chip_slot(final(catalog).seasons_map()[season_id@], rarity)
                        == Some(glochip_id@)
                    &&& forall|r2: Rarity| r2 != rarity
                        ==> #[trigger] spec_chip_slot(
                            final(catalog).seasons_map()[season_id@],
                            r2,
                        ) == spec_chip_slot(old(catalog).seasons_map()[season_id@], r2)
                    &&& forall|r2: Rarity| #[trigger] spec_key_slot(
                        final(catalog).seasons_map()[season_id@],
                        r2,
                    ) == spec_key_slot(old(catalog).seasons_map()[season_id@], r2)
                    &&& final(catalog).seasons_map()[season_id@].id
                        == old(catalog).seasons_map()[season_id@].id
                    &&& final(catalog).chips() == old(catalog).chips().insert(
                        glochip_id@,
                        final(catalog).chips()[glochip_id@],
                    )
                    &&& spec_opt_view(final(catalog).chips()[glochip_id@].season_id)
                        == Some(season_id@)
                    &&& final(catalog).chips()[glochip_id@].rarity
                        == old(catalog).chips()[glochip_id@].rarity
                    &&& final(catalog).chips()[glochip_id@].id
                        == old(catalog).chips()[glochip_id@].id
                    &&& final(catalog).chips()[glochip_id@].uri
                        == old(catalog).chips()[glochip_id@].uri
                    &&& final(catalog).chips()[glochip_id@].special
                        == old(catalog).chips()[glochip_id@].special
                    &&& final(catalog).chips()[glochip_id@].items
                        == old(catalog).chips()[glochip_id@].items
                    &&& final(catalog).chips()[glochip_id@].count
                        == old(catalog).chips()[glochip_id@].count
                    &&& final(catalog).chips()[glochip_id@].price
                        == old(catalog).chips()[glochip_id@].price
                    &&& final(catalog).hkeys() == old(catalog).hkeys()
                    &&& final(catalog).specials() == old(catalog).specials()
                    &&& final(catalog).spec_pricing() == old(catalog).spec_pricing()
                },
                Err(e) => {
                    &&& *final(catalog) == *old(catalog)
                    &&& (e == (ContractError::NotOwner {}) <==> !self.is_minter(sender@))
                    &&& (e == (ContractError::SeasonNotFound {}) <==> (self.is_minter(sender@)
                        && !old(catalog).seasons_map().contains_key(season_id@)))
                    &&& (e is GloChipNotFound <==> (self.is_minter(sender@)
                        && old(catalog).seasons_map().contains_key(season_id@)
                        && !old(catalog).chips().contains_key(glochip_id@)))
                    &&& (e matches ContractError::GloChipNotFound { glochip_id: g }
                        ==> g@ == glochip_id@)
                    &&& (e == (ContractError::GloChipAlreadyAssigned {}) <==> (
                        self.is_minter(sender@) && old(catalog).seasons_map().contains_key(
                            season_id@,
                        ) && old(catalog).chips().contains_key(glochip_id@)
                            && old(catalog).chips()[glochip_id@].season_id is Some))
                    &&& (e == (ContractError::MismatchedRarities {}) <==> (self.is_minter(
                        sender@,
                    ) && old(catalog).seasons_map().contains_key(season_id@)
                        && old(catalog).chips().contains_key(glochip_id@)
                        && old(catalog).chips()[glochip_id@].season_id is None
                        && old(catalog).chips()[glochip_id@].rarity != rarity))
                    &&& (e == (ContractError::RarityAlreadyExists {}) <==> (self.is_minter(
                        sender@,
                    ) && old(catalog).seasons_map().contains_key(season_id@)
                        && old(catalog).chips().contains_key(glochip_id@)
                        && old(catalog).chips()[glochip_id@].season_id is None
                        && old(catalog).chips()[glochip_id@].rarity == rarity
                        && spec_chip_slot(old(catalog).seasons_map()[season_id@], rarity)
                        is Some))
                    &&& (e == (ContractError::NotOwner {})
                        || e == (ContractError::SeasonNotFound {}) || e is GloChipNotFound
                        || e == (ContractError::GloChipAlreadyAssigned {})
                        || e == (ContractError::MismatchedRarities {})
                        || e == (ContractError::RarityAlreadyExists {}))
                },
            },
    {
        match self.assert_owner(sender) {
            Ok(_) => {},
            Err(e) => {
                return Err(e);
            },
        }
        if !catalog.seasons.contains_key(&season_id) {
            return Err(ContractError::SeasonNotFound {});
        }
        let chip_ref = match catalog.glochips.get(&glochip_id) {
            Some(c) => c,
            None => {
                return Err(ContractError::GloChipNotFound { glochip_id });
            },
        };
        if chip_ref.season_id.is_some() {
            return Err(ContractError::GloChipAlreadyAssigned {});
        }
        if !(chip_ref.rarity == rarity) {
            return Err(ContractError::MismatchedRarities {});
        }
        let ghost sk = season_id@;
        let ghost cid = glochip_id@;
        let occupied: bool = match catalog.seasons.get(&season_id) {
            Some(season_ref) => {
                match rarity {
                    Rarity::Generic => season_ref.generic_glochip.is_some(),
                    Rarity::Esoteric => season_ref.esoteric_glochip.is_some(),
                    Rarity::Spectral => season_ref.spectral_glochip.is_some(),
                }
            },
            None => {
                return Err(ContractError::SeasonNotFound {});
            },
        };
        if occupied {
            return Err(ContractError::RarityAlreadyExists {});
        }
        let mut season = match catalog.seasons.take(&season_id) {
            Some(s) => s,
            None => {
                return Err(ContractError::SeasonNotFound {});
            },
        };
        match rarity {
            Rarity::Generic => {
                season.generic_glochip = Some(glochip_id.clone());
            },
            Rarity::Esoteric => {
                season.esoteric_glochip = Some(glochip_id.clone());
            },
            Rarity::Spectral => {
                season.spectral_glochip = Some(glochip_id.clone());
            },
        }
        catalog.seasons.insert(season_id.clone(), season);
        let mut chip = match catalog.glochips.take(&glochip_id) {
            Some(c) => c,
            None => {
                return Err(ContractError::SeasonNotFound {});
            },
        };
        chip.season_id = Some(season_id);
        catalog.glochips.insert(glochip_id, chip);
        proof {
            assert forall|k: Seq<char>| #[trigger] catalog.chips().contains_key(k)
                implies catalog.chips()[k].id@ == k && catalog.chip_weights_ok(k)
                && catalog.chip_link_ok(k) by {
                assert(old(catalog).chips().contains_key(k));
                assert(old(catalog).chip_weights_ok(k));
                assert(old(catalog).chip_link_ok(k));
                if k != cid {
                    if spec_opt_view(catalog.chips()[k].season_id) == Some(sk) {
                        assert(old(catalog).chip_slot_ok(sk, catalog.chips()[k].rarity));
                    }
                }
            }
            assert forall|k: Seq<char>| #[trigger] catalog.hkeys().contains_key(k)
                implies catalog.hkeys()[k].id@ == k && catalog.key_link_ok(k) by {
                assert(old(catalog).key_link_ok(k));
            }
            assert forall|sk0: Seq<char>, r: Rarity| catalog.seasons_map().contains_key(sk0)
                implies #[trigger] catalog.chip_slot_ok(sk0, r) by {
                assert(old(catalog).seasons_map().contains_key(sk0));
                assert(old(catalog).chip_slot_ok(sk0, r));
                if !(sk0 == sk && r == rarity) {
                    match spec_chip_slot(catalog.seasons_map()[sk0], r) {
                        Some(eid) => {
                            assert(spec_chip_slot(old(catalog).seasons_map()[sk0], r)
                                == Some(eid));
                            assert(eid != cid);
                        },
                        None => {},
                    }
                }
            }
            assert forall|sk0: Seq<char>, r: Rarity| catalog.seasons_map().contains_key(sk0)
                implies #[trigger] catalog.key_slot_ok(sk0, r) by {
                assert(old(catalog).key_slot_ok(sk0, r));
            }
        }
        Ok(())
    }

    /// Binds an unbound key of matching rarity into a season's empty key
    /// slot, writing the slot and the key's season reference as one step;
    /// owner-gated. First bind wins: an occupied slot must be cleared
    /// before rebinding.
    pub fn add_key_to_season(
        &self,
        catalog: &mut Catalog,
        sender: &String,
        season_id: String,
        key_id: String,
        key_type: KeyType,
    ) -> (r: Result<(), ContractError>)
        requires
            old(catalog).wf(),
        ensures
            final(catalog).wf(),
            match r {
                Ok(_) => {
                    &&& self.is_minter(sender@)
                    &&& old(catalog).seasons_map().contains_key(season_id@)
                    &&& old(catalog).hkeys().contains_key(key_id@)
                    &&& old(catalog).hkeys()[key_id@].season_id is None
                    &&& old(catalog).hkeys()[key_id@].rarity == key_type.spec_rarity()
                    &&& spec_key_slot(
                        old(catalog).seasons_map()[season_id@],
                        key_type.spec_rarity(),
                    ) is None
                    &&& final(catalog).seasons_map() == old(catalog).seasons_map().insert(
                        season_id@,
                        final(catalog).seasons_map()[season_id@],
                    )
                    &&& spec_key_slot(
                        final(catalog).seasons_map()[season_id@],
                        key_type.spec_rarity(),
                    ) == Some(key_id@)
                    &&& forall|r2: Rarity| r2 != key_type.spec_rarity()
                        ==> #[trigger] spec_key_slot(final(catalog).seasons_map()[season_id@], r2)
                            == spec_key_slot(old(catalog).seasons_map()[season_id@], r2)
                    &&& forall|r2: Rarity| #[trigger] spec_chip_slot(
                        final(catalog).seasons_map()[season_id@],
                        r2,
                    ) == spec_chip_slot(old(catalog).seasons_map()[season_id@], r2)
                    &&& final(catalog).seasons_map()[season_id@].id
                        == old(catalog).seasons_map()[season_id@].id
                    &&& final(catalog).hkeys() == old(catalog).hkeys().insert(
                        key_id@,
                        final(catalog).hkeys()[key_id@],
                    )
                    &&& spec_opt_view(final(catalog).hkeys()[key_id@].season_id)
                        == Some(season_id@)
                    &&& final(catalog).hkeys()[key_id@].rarity
                        == old(catalog).hkeys()[key_id@].rarity
                    &&& final(catalog).hkeys()[key_id@].id == old(catalog).hkeys()[key_id@].id
                    &&& final(catalog).hkeys()[key_id@].uri == old(catalog).hkeys()[key_id@].uri
                    &&& final(catalog).hkeys()[key_id@].count
                        == old(catalog).hkeys()[key_id@].count
                    &&& final(catalog).chips() == old(catalog).chips()
                    &&& final(catalog).specials() == old(catalog).specials()
                    &&& final(catalog).spec_pricing() == old(catalog).spec_pricing()
                },
                Err(e) => {
                    &&& *final(catalog) == *old(catalog)
                    &&& (e == (ContractError::NotOwner {}) <==> !self.is_minter(sender@))
                    &&& (e == (ContractError::SeasonNotFound {}) <==> (self.is_minter(sender@)
                        && !old(catalog).seasons_map().contains_key(season_id@)))
                    &&& (e is KeyNotFound <==> (self.is_minter(sender@)
                        && old(catalog).seasons_map().contains_key(season_id@)
                        && !old(catalog).hkeys().contains_key(key_id@)))
                    &&& (e matches ContractError::KeyNotFound { key_id: g } ==> g@ == key_id@)
                    &&& (e == (ContractError::KeyAlreadyAssigned {}) <==> (self.is_minter(
                        sender@,
                    ) && old(catalog).seasons_map().contains_key(season_id@)
                        && old(catalog).hkeys().contains_key(key_id@)
                        && old(catalog).hkeys()[key_id@].season_id is Some))
                    &&& (e == (ContractError::MismatchedRarities {}) <==> (self.is_minter(
                        sender@,
                    ) && old(catalog).seasons_map().contains_key(season_id@)
                        && old(catalog).hkeys().contains_key(key_id@)
                        && old(catalog).hkeys()[key_id@].season_id is None
                        && old(catalog).hkeys()[key_id@].rarity != key_type.spec_rarity()))
                    &&& (e == (ContractError::KeyAlreadyExists {}) <==> (self.is_minter(sender@)
                        && old(catalog).seasons_map().contains_key(season_id@)
                        && old(catalog).hkeys().contains_key(key_id@)
                        && old(catalog).hkeys()[key_id@].season_id is None
                        && old(catalog).hkeys()[key_id@].rarity == key_type.spec_rarity()
                        && spec_key_slot(
                        old(catalog).seasons_map()[season_id@],
                        key_type.spec_rarity(),
                    ) is Some))
                    &&& (e == (ContractError::NotOwner {})
                        || e == (ContractError::SeasonNotFound {}) || e is KeyNotFound
                        || e == (ContractError::KeyAlreadyAssigned {})
                        || e == (ContractError::MismatchedRarities {})
                        || e == (ContractError::KeyAlreadyExists {}))
                },
            },
    {
        match self.assert_owner(sender) {
            Ok(_) => {},
            Err(e) => {
                return Err(e);
            },
        }
        if !catalog.seasons.contains_key(&season_id) {
            return Err(ContractError::SeasonNotFound {});
        }
        let rarity = key_type.rarity();
        let key_ref = match catalog.holokeys.get(&key_id) {
            Some(c) => c,
            None => {
                return Err(ContractError::KeyNotFound { key_id });
            },
        };
        if key_ref.season_id.is_some() {
            return Err(ContractError::KeyAlreadyAssigned {});
        }
        if !(key_ref.rarity == rarity) {
            return Err(ContractError::MismatchedRarities {});
        }
        let ghost sk = season_id@;
        let ghost kid = key_id@;
        let occupied: bool = match catalog.seasons.get(&season_id) {
            Some(season_ref) => {
                match rarity {
                    Rarity::Generic => season_ref.generic_key.is_some(),
                    Rarity::Esoteric => season_ref.esoteric_key.is_some(),
                    Rarity::Spectral => season_ref.spectral_key.is_some(),
                }
            },
            None => {
                return Err(ContractError::SeasonNotFound {});
            },
        };
        if occupied {
            return Err(ContractError::KeyAlreadyExists {});
        }
        let mut season = match catalog.seasons.take(&season_id) {
            Some(s) => s,
            None => {
                return Err(ContractError::SeasonNotFound {});
            },
        };
        match rarity {
            Rarity::Generic => {
                season.generic_key = Some(key_id.clone());
            },
            Rarity::Esoteric => {
                season.esoteric_key = Some(key_id.clone());
            },
            Rarity::Spectral => {
                season.spectral_key = Some(key_id.clone());
            },
        }
        catalog.seasons.insert(season_id.clone(), season);
        let mut key = match catalog.holokeys.take(&key_id) {
            Some(c) => c,
            None => {
                return Err(ContractError::SeasonNotFound {});
            },
        };
        key.season_id = Some(season_id);
        catalog.holokeys.insert(key_id, key);
        proof {
            assert forall|k: Seq<char>| #[trigger] catalog.hkeys().contains_key(k)
                implies catalog.hkeys()[k].id@ == k && catalog.key_link_ok(k) by {
                assert(old(catalog).hkeys().contains_key(k));
                assert(old(catalog).key_link_ok(k));
                if k != kid {
                    if spec_opt_view(catalog.hkeys()[k].season_id) == Some(sk) {
                        assert(old(catalog).key_slot_ok(sk, catalog.hkeys()[k].rarity));
                    }
                }
            }
            assert forall|k: Seq<char>| #[trigger] catalog.chips().contains_key(k)
                implies catalog.chips()[k].id@ == k && catalog.chip_weights_ok(k)
                && catalog.chip_link_ok(k) by {
                assert(old(catalog).chip_weights_ok(k));
                assert(old(catalog).chip_link_ok(k));
            }
            assert forall|sk0: Seq<char>, r: Rarity| catalog.seasons_map().contains_key(sk0)
                implies #[trigger] catalog.key_slot_ok(sk0, r) by {
                assert(old(catalog).seasons_map().contains_key(sk0));
                assert(old(catalog).key_slot_ok(sk0, r));
                if !(sk0 == sk && r == key_type.spec_rarity()) {
                    match spec_key_slot(catalog.seasons_map()[sk0], r) {
                        Some(eid) => {
                            assert(spec_key_slot(old(catalog).seasons_map()[sk0], r)
                                == Some(eid));
                            assert(eid != kid);
                        },
                        None => {},
                    }
                }
            }
            assert forall|sk0: Seq<char>, r: Rarity| catalog.seasons_map().contains_key(sk0)
                implies #[trigger] catalog.chip_slot_ok(sk0, r) by {
                assert(old(catalog).chip_slot_ok(sk0, r));
            }
        }
        Ok(())
    }

    /// Edits a season: renames its display id, or binds or clears one
    /// slot; owner-gated. Binding replaces the slot's occupant and keeps
    /// both sides of every binding consistent — a replaced or cleared
    /// occupant has its own season reference cleared in the same step.
    #[verifier::rlimit(60)]
    pub fn edit_season(
        &self,
        catalog: &mut Catalog,
        sender: &String,
        season_id: String,
        edit_type: SeasonEditType,
    ) -> (r: Result<(), ContractError>)
        requires
            old(catalog).wf(),
        ensures
            final(catalog).wf(),
            r is Err ==> *final(catalog) == *old(catalog),
            match r {
                Ok(_) => {
                    &&& self.is_minter(sender@)
                    &&& old(catalog).seasons_map().contains_key(season_id@)
                    &&& final(catalog).specials() == old(catalog).specials()
                    &&& final(catalog).spec_pricing() == old(catalog).spec_pricing()
                    &&& match edit_type {
                        SeasonEditType::Rename(new_name) => {
                            &&& final(catalog).seasons_map() == old(
                                catalog,
                            ).seasons_map().insert(
                                season_id@,
                                (Season { id: new_name, ..old(catalog).seasons_map()[season_id@] }),
                            )
                            &&& final(catalog).chips() == old(catalog).chips()
                            &&& final(catalog).hkeys() == old(catalog).hkeys()
                        },
                        SeasonEditType::GloChip { rarity, glochip_id } => {
                            &&& final(catalog).hkeys() == old(catalog).hkeys()
                            &&& match glochip_id {
                                Some(g) if g@.len() > 0 => {
                                    &&& final(catalog).seasons_map() == old(
                                        catalog,
                                    ).seasons_map().insert(
                                        season_id@,
                                        spec_with_chip_slot(
                                            old(catalog).seasons_map()[season_id@],
                                            rarity,
                                            Some(g),
                                        ),
                                    )
                                    &&& old(catalog).chips().contains_key(g@)
                                    &&& old(catalog).chips()[g@].rarity == rarity
                                    &&& (old(catalog).chips()[g@].season_id is None
                                        || spec_opt_view(old(catalog).chips()[g@].season_id)
                                        == Some(season_id@))
                                    &&& match spec_chip_slot(
                                        old(catalog).seasons_map()[season_id@],
                                        rarity,
                                    ) {
                                        Some(p) => {
                                            if p == g@ {
                                                final(catalog).chips() == old(
                                                    catalog,
                                                ).chips().insert(
                                                    g@,
                                                    spec_chip_with_season(
                                                        old(catalog).chips()[g@],
                                                        Some(season_id),
                                                    ),
                                                )
                                            } else {
                                                final(catalog).chips() == old(
                                                    catalog,
                                                ).chips().insert(
                                                    p,
                                                    spec_chip_with_season(
                                                        old(catalog).chips()[p],
                                                        None,
                                                    ),
                                                ).insert(
                                                    g@,
                                                    spec_chip_with_season(
                                                        old(catalog).chips()[g@],
                                                        Some(season_id),
                                                    ),
                                                )
                                            }
                                        },
                                        None => final(catalog).chips() == old(
                                            catalog,
                                        ).chips().insert(
                                            g@,
                                            spec_chip_with_season(
                                                old(catalog).chips()[g@],
                                                Some(season_id),
                                            ),
                                        ),
                                    }
                                },
                                _ => {
                                    &&& final(catalog).seasons_map() == old(
                                        catalog,
                                    ).seasons_map().insert(
                                        season_id@,
                                        spec_with_chip_slot(
                                            old(catalog).seasons_map()[season_id@],
                                            rarity,
                                            None,
                                        ),
                                    )
                                    &&& match spec_chip_slot(
                                        old(catalog).seasons_map()[season_id@],
                                        rarity,
                                    ) {
                                        Some(p) => final(catalog).chips() == old(
                                            catalog,
                                        ).chips().insert(
                                            p,
                                            spec_chip_with_season(old(catalog).chips()[p], None),
                                        ),
                                        None => final(catalog).chips() == old(catalog).chips(),
                                    }
                                },
                            }
                        },
                        SeasonEditType::Key { rarity, key_id } => {
                            &&& final(catalog).chips() == old(catalog).chips()
                            &&& match key_id {
                                Some(g) if g@.len() > 0 => {
                                    &&& final(catalog).seasons_map() == old(
                                        catalog,
                                    ).seasons_map().insert(
                                        season_id@,
                                        spec_with_key_slot(
                                            old(catalog).seasons_map()[season_id@],
                                            rarity,
                                            Some(g),
                                        ),
                                    )
                                    &&& old(catalog).hkeys().contains_key(g@)
                                    &&& old(catalog).hkeys()[g@].rarity == rarity
                                    &&& (old(catalog).hkeys()[g@].season_id is None
                                        || spec_opt_view(old(catalog).hkeys()[g@].season_id)
                                        == Some(season_id@))
                                    &&& match spec_key_slot(
                                        old(catalog).seasons_map()[season_id@],
                                        rarity,
                                    ) {
                                        Some(p) => {
                                            if p == g@ {
                                                final(catalog).hkeys() == old(
                                                    catalog,
                                                ).hkeys().insert(
                                                    g@,
                                                    spec_key_with_season(
                                                        old(catalog).hkeys()[g@],
                                                        Some(season_id),
                                                    ),
                                                )
                                            } else {
                                                final(catalog).hkeys() == old(
                                                    catalog,
                                                ).hkeys().insert(
                                                    p,
                                                    spec_key_with_season(
                                                        old(catalog).hkeys()[p],
                                                        None,
                                                    ),
                                                ).insert(
                                                    g@,
                                                    spec_key_with_season(
                                                        old(catalog).hkeys()[g@],
                                                        Some(season_id),
                                                    ),
                                                )
                                            }
                                        },
                                        None => final(catalog).hkeys() == old(
                                            catalog,
                                        ).hkeys().insert(
                                            g@,
                                            spec_key_with_season(
                                                old(catalog).hkeys()[g@],
                                                Some(season_id),
                                            ),
                                        ),
                                    }
                                },
                                _ => {
                                    &&& final(catalog).seasons_map() == old(
                                        catalog,
                                    ).seasons_map().insert(
                                        season_id@,
                                        spec_with_key_slot(
                                            old(catalog).seasons_map()[season_id@],
                                            rarity,
                                            None,
                                        ),
                                    )
                                    &&& match spec_key_slot(
                                        old(catalog).seasons_map()[season_id@],
                                        rarity,
                                    ) {
                                        Some(p) => final(catalog).hkeys() == old(
                                            catalog,
                                        ).hkeys().insert(
                                            p,
                                            spec_key_with_season(old(catalog).hkeys()[p], None),
                                        ),
                                        None => final(catalog).hkeys() == old(catalog).hkeys(),
                                    }
                                },
                            }
                        },
                    }
                },
                Err(e) => {
                    &&& (e == (ContractError::NotOwner {}) <==> !self.is_minter(sender@))
                    &&& (e == (ContractError::SeasonNotFound {}) <==> (self.is_minter(sender@)
                        && !old(catalog).seasons_map().contains_key(season_id@)))
                    &&& match edit_type {
                        SeasonEditType::Rename(_) => (e == (ContractError::NotOwner {})
                            || e == (ContractError::SeasonNotFound {})),
                        SeasonEditType::GloChip { rarity, glochip_id } => {
                            match glochip_id {
                                Some(g) if g@.len() > 0 => {
                                    &&& (e is GloChipNotFound <==> (self.is_minter(sender@)
                                        && old(catalog).seasons_map().contains_key(season_id@)
                                        && !old(catalog).chips().contains_key(g@)))
                                    &&& (e == (ContractError::GloChipAlreadyAssigned {}) <==> (
                                        self.is_minter(sender@)
                                            && old(catalog).seasons_map().contains_key(
                                            season_id@,
                                        ) && old(catalog).chips().contains_key(g@) && !(old(
                                        catalog,
                                    ).chips()[g@].season_id is None) && spec_opt_view(
                                        old(catalog).chips()[g@].season_id,
                                    ) != Some(season_id@)))
                                    &&& (e == (ContractError::MismatchedRarities {}) <==> (
                                        self.is_minter(sender@)
                                            && old(catalog).seasons_map().contains_key(
                                            season_id@,
                                        ) && old(catalog).chips().contains_key(g@)
                                            && (old(catalog).chips()[g@].season_id is None
                                            || spec_opt_view(old(catalog).chips()[g@].season_id)
                                            == Some(season_id@))
                                            && old(catalog).chips()[g@].rarity != rarity))
                                    &&& (e == (ContractError::NotOwner {})
                                        || e == (ContractError::SeasonNotFound {})
                                        || e is GloChipNotFound
                                        || e == (ContractError::GloChipAlreadyAssigned {})
                                        || e == (ContractError::MismatchedRarities {}))
                                },
                                _ => (e == (ContractError::NotOwner {})
                                    || e == (ContractError::SeasonNotFound {})),
                            }
                        },
                        SeasonEditType::Key { rarity, key_id } => {
                            match key_id {
                                Some(g) if g@.len() > 0 => {
                                    &&& (e is KeyNotFound <==> (self.is_minter(sender@)
                                        && old(catalog).seasons_map().contains_key(season_id@)
                                        && !old(catalog).hkeys().contains_key(g@)))
                                    &&& (e == (ContractError::KeyAlreadyAssigned {}) <==> (
                                        self.is_minter(sender@)
                                            && old(catalog).seasons_map().contains_key(
                                            season_id@,
                                        ) && old(catalog).hkeys().contains_key(g@) && !(old(
                                        catalog,
                                    ).hkeys()[g@].season_id is None) && spec_opt_view(
                                        old(catalog).hkeys()[g@].season_id,
                                    ) != Some(season_id@)))
                                    &&& (e == (ContractError::MismatchedRarities {}) <==> (
                                        self.is_minter(sender@)
                                            && old(catalog).seasons_map().contains_key(
                                            season_id@,
                                        ) && old(catalog).hkeys().contains_key(g@)
                                            && (old(catalog).hkeys()[g@].season_id is None
                                            || spec_opt_view(old(catalog).hkeys()[g@].season_id)
                                            == Some(season_id@))
                                            && old(catalog).hkeys()[g@].rarity != rarity))
                                    &&& (e == (ContractError::NotOwner {})
                                        || e == (ContractError::SeasonNotFound {})
                                        || e is KeyNotFound
                                        || e == (ContractError::KeyAlreadyAssigned {})
                                        || e == (ContractError::MismatchedRarities {}))
                                },
                                _ => (e == (ContractError::NotOwner {})
                                    || e == (ContractError::SeasonNotFound {})),
                            }
                        },
                    }
                },
            },
    {
        match self.assert_owner(sender) {
            Ok(_) => {},
            Err(e) => {
                return Err(e);
            },
        }
        if !catalog.seasons.contains_key(&season_id) {
            return Err(ContractError::SeasonNotFound {});
        }
        let ghost sk = season_id@;
        match edit_type {
            SeasonEditType::Rename(new_name) => {
                let mut season = match catalog.seasons.take(&season_id) {
                    Some(s) => s,
                    None => {
                        return Err(ContractError::SeasonNotFound {});
                    },
                };
                season.id = new_name;
                catalog.seasons.insert(season_id, season);
                proof {
                    assert(catalog.seasons_map() =~= old(catalog).seasons_map().insert(
                        sk,
                        catalog.seasons_map()[sk],
                    ));
                    assert forall|k: Seq<char>| #[trigger] catalog.chips().contains_key(k)
                        implies catalog.chips()[k].id@ == k && catalog.chip_weights_ok(k)
                        && catalog.chip_link_ok(k) by {
                        assert(old(catalog).chip_weights_ok(k));
                        assert(old(catalog).chip_link_ok(k));
                    }
                    assert forall|k: Seq<char>| #[trigger] catalog.hkeys().contains_key(k)
                        implies catalog.hkeys()[k].id@ == k && catalog.key_link_ok(k) by {
                        assert(old(catalog).key_link_ok(k));
                    }
                    assert forall|sk0: Seq<char>, r: Rarity| catalog.seasons_map().contains_key(
                        sk0,
                    ) implies #[trigger] catalog.chip_slot_ok(sk0, r) by {
                        assert(old(catalog).chip_slot_ok(sk0, r));
                    }
                    assert forall|sk0: Seq<char>, r: Rarity| catalog.seasons_map().contains_key(
                        sk0,
                    ) implies #[trigger] catalog.key_slot_ok(sk0, r) by {
                        assert(old(catalog).key_slot_ok(sk0, r));
                    }
                }
                Ok(())
            },
            SeasonEditType::GloChip { rarity, glochip_id } => {
                let bind: Option<String> = match glochip_id {
                    Some(g) => {
                        if g.as_str().is_empty() {
                            None
                        } else {
                            Some(g)
                        }
                    },
                    None => None,
                };
                match bind {
                    Some(g) => {
                        let ghost gid = g@;
                        let ghost prevv = spec_chip_slot(old(catalog).seasons_map()[sk], rarity);
                        let chip_ref = match catalog.glochips.get(&g) {
                            Some(c) => c,
                            None => {
                                return Err(ContractError::GloChipNotFound { glochip_id: g });
                            },
                        };
                        let bound_elsewhere: bool = match &chip_ref.season_id {
                            Some(s0) => !(*s0 == season_id),
                            None => false,
                        };
                        if bound_elsewhere {
                            return Err(ContractError::GloChipAlreadyAssigned {});
                        }
                        if !(chip_ref.rarity == rarity) {
                            return Err(ContractError::MismatchedRarities {});
                        }
                        let prev: Option<String> = match catalog.seasons.get(&season_id) {
                            Some(season_ref) => {
                                let slot: &Option<String> = match rarity {
                                    Rarity::Generic => &season_ref.generic_glochip,
                                    Rarity::Esoteric => &season_ref.esoteric_glochip,
                                    Rarity::Spectral => &season_ref.spectral_glochip,
                                };
                                match slot {
                                    Some(p) => Some(p.clone()),
                                    None => None,
                                }
                            },
                            None => {
                                return Err(ContractError::SeasonNotFound {});
                            },
                        };
                        let mut season = match catalog.seasons.take(&season_id) {
                            Some(s) => s,
                            None => {
                                return Err(ContractError::SeasonNotFound {});
                            },
                        };
                        match rarity {
                            Rarity::Generic => {
                                season.generic_glochip = Some(g.clone());
                            },
                            Rarity::Esoteric => {
                                season.esoteric_glochip = Some(g.clone());
                            },
                            Rarity::Spectral => {
                                season.spectral_glochip = Some(g.clone());
                            },
                        }
                        catalog.seasons.insert(season_id.clone(), season);
                        match prev {
                            Some(p) => {
                                if !(p == g) {
                                    proof {
                                        assert(old(catalog).chip_slot_ok(sk, rarity));
                                    }
                                    let mut prev_chip = match catalog.glochips.take(&p) {
                                        Some(c) => c,
                                        None => {
                                            return Err(ContractError::SeasonNotFound {});
                                        },
                                    };
                                    prev_chip.season_id = None;
                                    catalog.glochips.insert(p, prev_chip);
                                }
                            },
                            None => {},
                        }
                        let mut chip = match catalog.glochips.take(&g) {
                            Some(c) => c,
                            None => {
                                return Err(ContractError::SeasonNotFound {});
                            },
                        };
                        chip.season_id = Some(season_id);
                        catalog.glochips.insert(g, chip);
                        proof {
                            assert(catalog.seasons_map() =~= old(catalog).seasons_map().insert(
                                sk,
                                catalog.seasons_map()[sk],
                            ));
                            match prevv {
                                Some(p) => {
                                    if p == gid {
                                        assert(catalog.chips() =~= old(catalog).chips().insert(
                                            gid,
                                            catalog.chips()[gid],
                                        ));
                                    } else {
                                        assert(catalog.chips() =~= old(catalog).chips().insert(
                                            p,
                                            catalog.chips()[p],
                                        ).insert(gid, catalog.chips()[gid]));
                                    }
                                },
                                None => {
                                    assert(catalog.chips() =~= old(catalog).chips().insert(
                                        gid,
                                        catalog.chips()[gid],
                                    ));
                                },
                            }
                            edit_chip_slot_wf(old(catalog), catalog, sk, rarity, Some(gid), prevv);
                        }
                        Ok(())
                    },
                    None => {
                        let ghost prevv = spec_chip_slot(old(catalog).seasons_map()[sk], rarity);
                        let prev: Option<String> = match catalog.seasons.get(&season_id) {
                            Some(season_ref) => {
                                let slot: &Option<String> = match rarity {
                                    Rarity::Generic => &season_ref.generic_glochip,
                                    Rarity::Esoteric => &season_ref.esoteric_glochip,
                                    Rarity::Spectral => &season_ref.spectral_glochip,
                                };
                                match slot {
                                    Some(p) => Some(p.clone()),
                                    None => None,
                                }
                            },
                            None => {
                                return Err(ContractError::SeasonNotFound {});
                            },
                        };
                        let mut season = match catalog.seasons.take(&season_id) {
                            Some(s) => s,
                            None => {
                                return Err(ContractError::SeasonNotFound {});
                            },
                        };
                        match rarity {
                            Rarity::Generic => {
                                season.generic_glochip = None;
                            },
                            Rarity::Esoteric => {
                                season.esoteric_glochip = None;
                            },
                            Rarity::Spectral => {
                                season.spectral_glochip = None;
                            },
                        }
                        catalog.seasons.insert(season_id, season);
                        match prev {
                            Some(p) => {
                                proof {
                                    assert(old(catalog).chip_slot_ok(sk, rarity));
                                }
                                let mut prev_chip = match catalog.glochips.take(&p) {
                                    Some(c) => c,
                                    None => {
                                        return Err(ContractError::SeasonNotFound {});
                                    },
                                };
                                prev_chip.season_id = None;
                                catalog.glochips.insert(p, prev_chip);
                            },
                            None => {},
                        }
                        proof {
                            assert(catalog.seasons_map() =~= old(catalog).seasons_map().insert(
                                sk,
                                catalog.seasons_map()[sk],
                            ));
                            match prevv {
                                Some(p) => {
                                    assert(catalog.chips() =~= old(catalog).chips().insert(
                                        p,
                                        catalog.chips()[p],
                                    ));
                                },
                                None => {},
                            }
                            edit_chip_slot_wf(old(catalog), catalog, sk, rarity, None, prevv);
                        }
                        Ok(())
                    },
                }
            },
            SeasonEditType::Key { rarity, key_id } => {
                let bind: Option<String> = match key_id {
                    Some(g) => {
                        if g.as_str().is_empty() {
                            None
                        } else {
                            Some(g)
                        }
                    },
                    None => None,
                };
                match bind {
                    Some(g) => {
                        let ghost gid = g@;
                        let ghost prevv = spec_key_slot(old(catalog).seasons_map()[sk], rarity);
                        let key_ref = match catalog.holokeys.get(&g) {
                            Some(c) => c,
                            None => {
                                return Err(ContractError::KeyNotFound { key_id: g });
                            },
                        };
                        let bound_elsewhere: bool = match &key_ref.season_id {
                            Some(s0) => !(*s0 == season_id),
                            None => false,
                        };
                        if bound_elsewhere {
                            return Err(ContractError::KeyAlreadyAssigned {});
                        }
                        if !(key_ref.rarity == rarity) {
                            return Err(ContractError::MismatchedRarities {});
                        }
                        let prev: Option<String> = match catalog.seasons.get(&season_id) {
                            Some(season_ref) => {
                                let slot: &Option<String> = match rarity {
                                    Rarity::Generic => &season_ref.generic_key,
                                    Rarity::Esoteric => &season_ref.esoteric_key,
                                    Rarity::Spectral => &season_ref.spectral_key,
                                };
                                match slot {
                                    Some(p) => Some(p.clone()),
                                    None => None,
                                }
                            },
                            None => {
                                return Err(ContractError::SeasonNotFound {});
                            },
                        };
                        let mut season = match catalog.seasons.take(&season_id) {
                            Some(s) => s,
                            None => {
                                return Err(ContractError::SeasonNotFound {});
                            },
                        };
                        match rarity {
                            Rarity::Generic => {
                                season.generic_key = Some(g.clone());
                            },
                            Rarity::Esoteric => {
                                season.esoteric_key = Some(g.clone());
                            },
                            Rarity::Spectral => {
                                season.spectral_key = Some(g.clone());
                            },
                        }
                        catalog.seasons.insert(season_id.clone(), season);
                        match prev {
                            Some(p) => {
                                if !(p == g) {
                                    proof {
                                        assert(old(catalog).key_slot_ok(sk, rarity));
                                    }
                                    let mut prev_key = match catalog.holokeys.take(&p) {
                                        Some(c) => c,
                                        None => {
                                            return Err(ContractError::SeasonNotFound {});
                                        },
                                    };
                                    prev_key.season_id = None;
                                    catalog.holokeys.insert(p, prev_key);
                                }
                            },
                            None => {},
                        }
                        let mut key = match catalog.holokeys.take(&g) {
                            Some(c) => c,
                            None => {
                                return Err(ContractError::SeasonNotFound {});
                            },
                        };
                        key.season_id = Some(season_id);
                        catalog.holokeys.insert(g, key);
                        proof {
                            assert(catalog.seasons_map() =~= old(catalog).seasons_map().insert(
                                sk,
                                catalog.seasons_map()[sk],
                            ));
                            match prevv {
                                Some(p) => {
                                    if p == gid {
                                        assert(catalog.hkeys() =~= old(catalog).hkeys().insert(
                                            gid,
                                            catalog.hkeys()[gid],
                                        ));
                                    } else {
                                        assert(catalog.hkeys() =~= old(catalog).hkeys().insert(
                                            p,
                                            catalog.hkeys()[p],
                                        ).insert(gid, catalog.hkeys()[gid]));
                                    }
                                },
                                None => {
                                    assert(catalog.hkeys() =~= old(catalog).hkeys().insert(
                                        gid,
                                        catalog.hkeys()[gid],
                                    ));
                                },
                            }
                            edit_key_slot_wf(old(catalog), catalog, sk, rarity, Some(gid), prevv);
                        }
                        Ok(())
                    },
                    None => {
                        let ghost prevv = spec_key_slot(old(catalog).seasons_map()[sk], rarity);
                        let prev: Option<String> = match catalog.seasons.get(&season_id) {
                            Some(season_ref) => {
                                let slot: &Option<String> = match rarity {
                                    Rarity::Generic => &season_ref.generic_key,
                                    Rarity::Esoteric => &season_ref.esoteric_key,
                                    Rarity::Spectral => &season_ref.spectral_key,
                                };
                                match slot {
                                    Some(p) => Some(p.clone()),
                                    None => None,
                                }
                            },
                            None => {
                                return Err(ContractError::SeasonNotFound {});
                            },
                        };
                        let mut season = match catalog.seasons.take(&season_id) {
                            Some(s) => s,
                            None => {
                                return Err(ContractError::SeasonNotFound {});
                            },
                        };
                        match rarity {
                            Rarity::Generic => {
                                season.generic_key = None;
                            },
                            Rarity::Esoteric => {
                                season.esoteric_key = None;
                            },
                            Rarity::Spectral => {
                                season.spectral_key = None;
                            },
                        }
                        catalog.seasons.insert(season_id, season);
                        match prev {
                            Some(p) => {
                                proof {
                                    assert(old(catalog).key_slot_ok(sk, rarity));
                                }
                                let mut prev_key = match catalog.holokeys.take(&p) {
                                    Some(c) => c,
                                    None => {
                                        return Err(ContractError::SeasonNotFound {});
                                    },
                                };
                                prev_key.season_id = None;
                                catalog.holokeys.insert(p, prev_key);
                            },
                            None => {},
                        }
                        proof {
                            assert(catalog.seasons_map() =~= old(catalog).seasons_map().insert(
                                sk,
                                catalog.seasons_map()[sk],
                            ));
                            match prevv {
                                Some(p) => {
                                    assert(catalog.hkeys() =~= old(catalog).hkeys().insert(
                                        p,
                                        catalog.hkeys()[p],
                                    ));
                                },
                                None => {},
                            }
                            edit_key_slot_wf(old(catalog), catalog, sk, rarity, None, prevv);
                        }
                        Ok(())
                    },
                }
            },
        }
    }

    /// Creates a key entity under a fresh id, unbound and with a zero mint
    /// counter; owner-gated.
    pub fn create_key(
        &self,
        catalog: &mut Catalog,
        sender: &String,
        rarity: Rarity,
        id: String,
        uri: String,
    ) -> (r: Result<(), ContractError>)
        requires
            old(catalog).wf(),
        ensures
            final(catalog).wf(),
            match r {
                Ok(_) => {
                    &&& self.is_minter(sender@)
                    &&& !old(catalog).hkeys().contains_key(id@)
                    &&& final(catalog).hkeys() == old(catalog).hkeys().insert(
                        id@,
                        (HoloKey { rarity, id, uri, count: 0, season_id: None }),
                    )
                    &&& final(catalog).chips() == old(catalog).chips()
                    &&& final(catalog).specials() == old(catalog).specials()
                    &&& final(catalog).seasons_map() == old(catalog).seasons_map()
                    &&& final(catalog).spec_pricing() == old(catalog).spec_pricing()
                },
                Err(e) => {
                    &&& *final(catalog) == *old(catalog)
                    &&& (e == (ContractError::NotOwner {}) <==> !self.is_minter(sender@))
                    &&& (e == (ContractError::AlreadyExists {}) <==> (self.is_minter(sender@)
                        && old(catalog).hkeys().contains_key(id@)))
                    &&& (e == (ContractError::NotOwner {})
                        || e == (ContractError::AlreadyExists {}))
                },
            },
    {
        match self.assert_owner(sender) {
            Ok(_) => {},
            Err(e) => {
                return Err(e);
            },
        }
        if catalog.holokeys.contains_key(&id) {
            return Err(ContractError::AlreadyExists {});
        }
        let ghost kid = id@;
        let key = HoloKey { rarity, id, uri, count: 0, season_id: None };
        catalog.holokeys.insert(key.id.clone(), key);
        proof {
            assert forall|k: Seq<char>| #[trigger] catalog.hkeys().contains_key(k)
                implies catalog.hkeys()[k].id@ == k && catalog.key_link_ok(k) by {
                if k != kid {
                    assert(old(catalog).key_link_ok(k));
                }
            }
            assert forall|k: Seq<char>| #[trigger] catalog.chips().contains_key(k)
                implies catalog.chip_link_ok(k) by {
                assert(old(catalog).chip_link_ok(k));
            }
            assert forall|sk: Seq<char>, r: Rarity| catalog.seasons_map().contains_key(sk)
                implies #[trigger] catalog.chip_slot_ok(sk, r) by {
                assert(old(catalog).chip_slot_ok(sk, r));
            }
            assert forall|sk: Seq<char>, r: Rarity| catalog.seasons_map().contains_key(sk)
                implies #[trigger] catalog.key_slot_ok(sk, r) by {
                assert(old(catalog).key_slot_ok(sk, r));
                if spec_key_slot(catalog.seasons_map()[sk], r) == Some(kid) {
                    assert(old(catalog).hkeys().contains_key(kid));
                }
            }
        }
        Ok(())
    }

    /// Updates one price: a special chip pack's, a fixed collectible's,
    /// or the per-rarity key pricing table (merging with what is set);
    /// owner-gated.
    pub fn update_prices(
        &self,
        catalog: &mut Catalog,
        sender: &String,
        price_update_type: PriceUpdateType,
    ) -> (r: Result<(), ContractError>)
        requires
            old(catalog).wf(),
        ensures
            final(catalog).wf(),
            r is Err ==> *final(catalog) == *old(catalog),
            match r {
                Ok(_) => {
                    &&& self.is_minter(sender@)
                    &&& match price_update_type {
                        PriceUpdateType::SpecialGloChipPrice { id, new_price } => {
                            &&& old(catalog).chips().contains_key(id@)
                            &&& final(catalog).chips() == old(catalog).chips().insert(
                                id@,
                                (GloChip { price: new_price, ..old(catalog).chips()[id@] }),
                            )
                            &&& final(catalog).hkeys() == old(catalog).hkeys()
                            &&& final(catalog).specials() == old(catalog).specials()
                            &&& final(catalog).seasons_map() == old(catalog).seasons_map()
                            &&& final(catalog).spec_pricing() == old(catalog).spec_pricing()
                        },
                        PriceUpdateType::SpecialGloNFTPrice { id, new_price } => {
                            &&& old(catalog).specials().contains_key(id@)
                            &&& final(catalog).specials() == old(catalog).specials().insert(
                                id@,
                                (GloNFT { price: new_price, ..old(catalog).specials()[id@] }),
                            )
                            &&& final(catalog).chips() == old(catalog).chips()
                            &&& final(catalog).hkeys() == old(catalog).hkeys()
                            &&& final(catalog).seasons_map() == old(catalog).seasons_map()
                            &&& final(catalog).spec_pricing() == old(catalog).spec_pricing()
                        },
                        PriceUpdateType::HoloKeyPrices {
                            generic_price,
                            esoteric_price,
                            spectral_price,
                        } => {
                            &&& final(catalog).spec_pricing() == Some(
                                spec_merged_pricing(
                                    old(catalog).spec_pricing(),
                                    generic_price,
                                    esoteric_price,
                                    spectral_price,
                                ),
                            )
                            &&& final(catalog).chips() == old(catalog).chips()
                            &&& final(catalog).hkeys() == old(catalog).hkeys()
                            &&& final(catalog).specials() == old(catalog).specials()
                            &&& final(catalog).seasons_map() == old(catalog).seasons_map()
                        },
                    }
                },
                Err(e) => {
                    &&& (e == (ContractError::NotOwner {}) <==> !self.is_minter(sender@))
                    &&& match price_update_type {
                        PriceUpdateType::SpecialGloChipPrice { id, new_price } => {
                            &&& (e is GloChipNotFound <==> (self.is_minter(sender@) && !old(
                                catalog,
                            ).chips().contains_key(id@)))
                            &&& (e == (ContractError::NotOwner {}) || e is GloChipNotFound)
                        },
                        PriceUpdateType::SpecialGloNFTPrice { id, new_price } => {
                            &&& (e == (ContractError::GloNFTNotFound {}) <==> (self.is_minter(
                                sender@,
                            ) && !old(catalog).specials().contains_key(id@)))
                            &&& (e == (ContractError::NotOwner {})
                                || e == (ContractError::GloNFTNotFound {}))
                        },
                        PriceUpdateType::HoloKeyPrices { .. } => e == (ContractError::NotOwner {
                        }),
                    }
                },
            },
    {
        match self.assert_owner(sender) {
            Ok(_) => {},
            Err(e) => {
                return Err(e);
            },
        }
        match price_update_type {
            PriceUpdateType::SpecialGloChipPrice { id, new_price } => {
                let ghost cid = id@;
                let mut chip = match catalog.glochips.take(&id) {
                    Some(c) => c,
                    None => {
                        return Err(ContractError::GloChipNotFound { glochip_id: id });
                    },
                };
                chip.price = new_price;
                catalog.glochips.insert(id, chip);
                proof {
                    assert(catalog.chips() =~= old(catalog).chips().insert(
                        cid,
                        catalog.chips()[cid],
                    ));
                    assert(old(catalog).chip_weights_ok(cid));
                    chips_edit_wf(old(catalog), catalog, cid, cid);
                }
                Ok(())
            },
            PriceUpdateType::SpecialGloNFTPrice { id, new_price } => {
                let ghost nid = id@;
                let mut item = match catalog.special_glonfts.take(&id) {
                    Some(c) => c,
                    None => {
                        return Err(ContractError::GloNFTNotFound {});
                    },
                };
                item.price = new_price;
                catalog.special_glonfts.insert(id, item);
                proof {
                    assert(catalog.specials() =~= old(catalog).specials().insert(
                        nid,
                        catalog.specials()[nid],
                    ));
                    specials_edit_wf(old(catalog), catalog);
                }
                Ok(())
            },
            PriceUpdateType::HoloKeyPrices { generic_price, esoteric_price, spectral_price } => {
                let base = match &catalog.pricing {
                    Some(p) => *p,
                    None => HoloKeyPricing {
                        generic_price: None,
                        esoteric_price: None,
                        spectral_price: None,
                    },
                };
                let merged = HoloKeyPricing {
                    generic_price: match generic_price {
                        Some(p) => Some(p),
                        None => base.generic_price,
                    },
                    esoteric_price: match esoteric_price {
                        Some(p) => Some(p),
                        None => base.esoteric_price,
                    },
                    spectral_price: match spectral_price {
                        Some(p) => Some(p),
                        None => base.spectral_price,
                    },
                };
                catalog.pricing = Some(merged);
                proof {
                    assert forall|k: Seq<char>| #[trigger] catalog.chips().contains_key(k)
                        implies catalog.chips()[k].id@ == k && catalog.chip_weights_ok(k)
                        && catalog.chip_link_ok(k) by {
                        assert(old(catalog).chip_weights_ok(k));
                        assert(old(catalog).chip_link_ok(k));
                    }
                    assert forall|k: Seq<char>| #[trigger] catalog.hkeys().contains_key(k)
                        implies catalog.hkeys()[k].id@ == k && catalog.key_link_ok(k) by {
                        assert(old(catalog).key_link_ok(k));
                    }
                    assert forall|sk0: Seq<char>, r: Rarity| catalog.seasons_map().contains_key(
                        sk0,
                    ) implies #[trigger] catalog.chip_slot_ok(sk0, r) by {
                        assert(old(catalog).chip_slot_ok(sk0, r));
                    }
                    assert forall|sk0: Seq<char>, r: Rarity| catalog.seasons_map().contains_key(
                        sk0,
                    ) implies #[trigger] catalog.key_slot_ok(sk0, r) by {
                        assert(old(catalog).key_slot_ok(sk0, r));
                    }
                }
                Ok(())
            },
        }
    }

    /// Rewrites a key's display id or metadata URI; a change of id is
    /// only allowed while the key is unbound and the new id is free, and
    /// moves the record to the new id; owner-gated.
    pub fn edit_key(
        &self,
        catalog: &mut Catalog,
        sender: &String,
        key_id: String,
        new_id: Option<String>,
        new_uri: Option<String>,
    ) -> (r: Result<(), ContractError>)
        requires
            old(catalog).wf(),
        ensures
            final(catalog).wf(),
            r is Err ==> *final(catalog) == *old(catalog),
            final(catalog).chips() == old(catalog).chips(),
            final(catalog).specials() == old(catalog).specials(),
            final(catalog).seasons_map() == old(catalog).seasons_map(),
            final(catalog).spec_pricing() == old(catalog).spec_pricing(),
            match r {
                Ok(_) => {
                    &&& self.is_minter(sender@)
                    &&& old(catalog).hkeys().contains_key(key_id@)
                    &&& {
                        let nk = match new_id {
                            Some(n) => n@,
                            None => key_id@,
                        };
                        &&& final(catalog).hkeys() == old(catalog).hkeys().remove(
                            key_id@,
                        ).insert(nk, final(catalog).hkeys()[nk])
                        &&& final(catalog).hkeys()[nk].id@ == nk
                        &&& final(catalog).hkeys()[nk].uri == (match new_uri {
                            Some(u) => u,
                            None => old(catalog).hkeys()[key_id@].uri,
                        })
                        &&& final(catalog).hkeys()[nk].rarity == old(
                            catalog,
                        ).hkeys()[key_id@].rarity
                        &&& final(catalog).hkeys()[nk].count == old(
                            catalog,
                        ).hkeys()[key_id@].count
                        &&& final(catalog).hkeys()[nk].season_id == old(
                            catalog,
                        ).hkeys()[key_id@].season_id
                        &&& (nk != key_id@ ==> !old(catalog).hkeys().contains_key(nk) && old(
                            catalog,
                        ).hkeys()[key_id@].season_id is None)
                    }
                },
                Err(e) => {
                    &&& (e == (ContractError::NotOwner {}) <==> !self.is_minter(sender@))
                    &&& (e is KeyNotFound <==> (self.is_minter(sender@) && !old(
                        catalog,
                    ).hkeys().contains_key(key_id@)))
                    &&& {
                        let renaming = match new_id {
                            Some(n) => n@ != key_id@,
                            None => false,
                        };
                        &&& (e == (ContractError::KeyAlreadyAssigned {}) <==> (self.is_minter(
                            sender@,
                        ) && old(catalog).hkeys().contains_key(key_id@) && renaming && old(
                            catalog,
                        ).hkeys()[key_id@].season_id is Some))
                        &&& (e == (ContractError::AlreadyExists {}) <==> (self.is_minter(sender@)
                            && old(catalog).hkeys().contains_key(key_id@) && renaming && old(
                            catalog,
                        ).hkeys()[key_id@].season_id is None && old(
                            catalog,
                        ).hkeys().contains_key(
                            match new_id {
                                Some(n) => n@,
                                None => key_id@,
                            },
                        )))
                        &&& (e == (ContractError::NotOwner {}) || e is KeyNotFound
                            || e == (ContractError::KeyAlreadyAssigned {})
                            || e == (ContractError::AlreadyExists {}))
                    }
                },
            },
    {
        match self.assert_owner(sender) {
            Ok(_) => {},
            Err(e) => {
                return Err(e);
            },
        }
        let key_ref = match catalog.holokeys.get(&key_id) {
            Some(k) => k,
            None => {
                return Err(ContractError::KeyNotFound { key_id });
            },
        };
        let renaming: bool = match &new_id {
            Some(n) => !(*n == key_id),
            None => false,
        };
        if renaming {
            if key_ref.season_id.is_some() {
                return Err(ContractError::KeyAlreadyAssigned {});
            }
            match &new_id {
                Some(n) => {
                    if catalog.holokeys.contains_key(n) {
                        return Err(ContractError::AlreadyExists {});
                    }
                },
                None => {},
            }
        }
        let ghost oldk = key_id@;
        let mut key = match catalog.holokeys.take(&key_id) {
            Some(k) => k,
            None => {
                return Err(ContractError::KeyNotFound { key_id });
            },
        };
        match new_id {
            Some(n) => {
                key.id = n;
            },
            None => {
                key.id = key_id;
            },
        }
        match new_uri {
            Some(u) => {
                key.uri = u;
            },
            None => {},
        }
        let ghost newk = key.id@;
        let stored_id = key.id.clone();
        catalog.holokeys.insert(stored_id, key);
        proof {
            assert(catalog.hkeys() =~= old(catalog).hkeys().remove(oldk).insert(
                newk,
                catalog.hkeys()[newk],
            ));
            hkeys_edit_wf(old(catalog), catalog, oldk, newk);
        }
        Ok(())
    }

    /// Rewrites a chip pack's display id, metadata URI or item list; new
    /// items are validated to sum to exactly 100 before anything persists,
    /// and a change of id is only allowed while the chip pack is unbound
    /// and the new id is free; owner-gated.
    pub fn edit_glochip(
        &self,
        catalog: &mut Catalog,
        sender: &String,
        glochip_id: String,
        new_id: Option<String>,
        new_uri: Option<String>,
        new_items: Option<Vec<GloNFT>>,
    ) -> (r: Result<(), ContractError>)
        requires
            old(catalog).wf(),
        ensures
            final(catalog).wf(),
            r is Err ==> *final(catalog) == *old(catalog),
            final(catalog).hkeys() == old(catalog).hkeys(),
            final(catalog).specials() == old(catalog).specials(),
            final(catalog).seasons_map() == old(catalog).seasons_map(),
            final(catalog).spec_pricing() == old(catalog).spec_pricing(),
            match r {
                Ok(_) => {
                    &&& self.is_minter(sender@)
                    &&& old(catalog).chips().contains_key(glochip_id@)
                    &&& (match new_items {
                        Some(ref its) => spec_weight_sum(its@, its@.len() as int) == 100,
                        None => true,
                    })
                    &&& {
                        let nk = match new_id {
                            Some(n) => n@,
                            None => glochip_id@,
                        };
                        &&& final(catalog).chips() == old(catalog).chips().remove(
                            glochip_id@,
                        ).insert(nk, final(catalog).chips()[nk])
                        &&& final(catalog).chips()[nk].id@ == nk
                        &&& final(catalog).chips()[nk].uri == (match new_uri {
                            Some(u) => u,
                            None => old(catalog).chips()[glochip_id@].uri,
                        })
                        &&& final(catalog).chips()[nk].items == (match new_items {
                            Some(its) => its,
                            None => old(catalog).chips()[glochip_id@].items,
                        })
                        &&& final(catalog).chips()[nk].rarity == old(
                            catalog,
                        ).chips()[glochip_id@].rarity
                        &&& final(catalog).chips()[nk].special == old(
                            catalog,
                        ).chips()[glochip_id@].special
                        &&& final(catalog).chips()[nk].count == old(
                            catalog,
                        ).chips()[glochip_id@].count
                        &&& final(catalog).chips()[nk].price == old(
                            catalog,
                        ).chips()[glochip_id@].price
                        &&& final(catalog).chips()[nk].season_id == old(
                            catalog,
                        ).chips()[glochip_id@].season_id
                        &&& (nk != glochip_id@ ==> !old(catalog).chips().contains_key(nk) && old(
                            catalog,
                        ).chips()[glochip_id@].season_id is None)
                    }
                },
                Err(e) => {
                    &&& (e == (ContractError::NotOwner {}) <==> !self.is_minter(sender@))
                    &&& (e is GloChipNotFound <==> (self.is_minter(sender@) && !old(
                        catalog,
                    ).chips().contains_key(glochip_id@)))
                    &&& {
                        let renaming = match new_id {
                            Some(n) => n@ != glochip_id@,
                            None => false,
                        };
                        let bad_items = match new_items {
                            Some(ref its) => spec_weight_sum(its@, its@.len() as int) != 100,
                            None => false,
                        };
                        &&& (e == (ContractError::InvalidProbability {}) <==> (self.is_minter(
                            sender@,
                        ) && old(catalog).chips().contains_key(glochip_id@) && bad_items))
                        &&& (e == (ContractError::GloChipAlreadyAssigned {}) <==> (
                            self.is_minter(sender@) && old(catalog).chips().contains_key(
                                glochip_id@,
                            ) && !bad_items && renaming && old(
                            catalog,
                        ).chips()[glochip_id@].season_id is Some))
                        &&& (e == (ContractError::AlreadyExists {}) <==> (self.is_minter(sender@)
                            && old(catalog).chips().contains_key(glochip_id@) && !bad_items
                            && renaming && old(catalog).chips()[glochip_id@].season_id is None
                            && old(catalog).chips().contains_key(
                            match new_id {
                                Some(n) => n@,
                                None => glochip_id@,
                            },
                        )))
                        &&& (e == (ContractError::NotOwner {}) || e is GloChipNotFound
                            || e == (ContractError::InvalidProbability {})
                            || e == (ContractError::GloChipAlreadyAssigned {})
                            || e == (ContractError::AlreadyExists {}))
                    }
                },
            },
    {
        match self.assert_owner(sender) {
            Ok(_) => {},
            Err(e) => {
                return Err(e);
            },
        }
        let chip_ref = match catalog.glochips.get(&glochip_id) {
            Some(k) => k,
            None => {
                return Err(ContractError::GloChipNotFound { glochip_id });
            },
        };
        match &new_items {
            Some(its) => {
                let total = crate::select::weights_total(its);
                if total != 100 {
                    return Err(ContractError::InvalidProbability {});
                }
            },
            None => {},
        }
        let renaming: bool = match &new_id {
            Some(n) => !(*n == glochip_id),
            None => false,
        };
        if renaming {
            if chip_ref.season_id.is_some() {
                return Err(ContractError::GloChipAlreadyAssigned {});
            }
            match &new_id {
                Some(n) => {
                    if catalog.glochips.contains_key(n) {
                        return Err(ContractError::AlreadyExists {});
                    }
                },
                None => {},
            }
        }
        let ghost oldk = glochip_id@;
        let mut chip = match catalog.glochips.take(&glochip_id) {
            Some(k) => k,
            None => {
                return Err(ContractError::GloChipNotFound { glochip_id });
            },
        };
        match new_id {
            Some(n) => {
                chip.id = n;
            },
            None => {
                chip.id = glochip_id;
            },
        }
        match new_uri {
            Some(u) => {
                chip.uri = u;
            },
            None => {},
        }
        match new_items {
            Some(its) => {
                chip.items = its;
            },
            None => {},
        }
        let ghost newk = chip.id@;
        let stored_id = chip.id.clone();
        proof {
            assert(old(catalog).chip_weights_ok(oldk));
        }
        catalog.glochips.insert(stored_id, chip);
        proof {
            assert(catalog.chips() =~= old(catalog).chips().remove(oldk).insert(
                newk,
                catalog.chips()[newk],
            ));
            chips_edit_wf(old(catalog), catalog, oldk, newk);
        }
        Ok(())
    }

    /// Rewrites a fixed collectible's display id or metadata URI; a change
    /// of id requires the new id to be free and moves the record;
    /// owner-gated.
    pub fn edit_special_glonft(
        &self,
        catalog: &mut Catalog,
        sender: &String,
        glonft_id: String,
        new_id: Option<String>,
        new_uri: Option<String>,
    ) -> (r: Result<(), ContractError>)
        requires
            old(catalog).wf(),
        ensures
            final(catalog).wf(),
            r is Err ==> *final(catalog) == *old(catalog),
            final(catalog).chips() == old(catalog).chips(),
            final(catalog).hkeys() == old(catalog).hkeys(),
            final(catalog).seasons_map() == old(catalog).seasons_map(),
            final(catalog).spec_pricing() == old(catalog).spec_pricing(),
            match r {
                Ok(_) => {
                    &&& self.is_minter(sender@)
                    &&& old(catalog).specials().contains_key(glonft_id@)
                    &&& {
                        let nk = match new_id {
                            Some(n) => n@,
                            None => glonft_id@,
                        };
                        &&& final(catalog).specials() == old(catalog).specials().remove(
                            glonft_id@,
                        ).insert(nk, final(catalog).specials()[nk])
                        &&& final(catalog).specials()[nk].id@ == nk
                        &&& final(catalog).specials()[nk].uri == (match new_uri {
                            Some(u) => u,
                            None => old(catalog).specials()[glonft_id@].uri,
                        })
                        &&& final(catalog).specials()[nk].rarity == old(
                            catalog,
                        ).specials()[glonft_id@].rarity
                        &&& final(catalog).specials()[nk].count == old(
                            catalog,
                        ).specials()[glonft_id@].count
                        &&& final(catalog).specials()[nk].price == old(
                            catalog,
                        ).specials()[glonft_id@].price
                        &&& final(catalog).specials()[nk].probability == old(
                            catalog,
                        ).specials()[glonft_id@].probability
                        &&& (nk != glonft_id@ ==> !old(catalog).specials().contains_key(nk))
                    }
                },
                Err(e) => {
                    &&& (e == (ContractError::NotOwner {}) <==> !self.is_minter(sender@))
                    &&& (e == (ContractError::GloNFTNotFound {}) <==> (self.is_minter(sender@)
                        && !old(catalog).specials().contains_key(glonft_id@)))
                    &&& (e == (ContractError::AlreadyExists {}) <==> (self.is_minter(sender@)
                        && old(catalog).specials().contains_key(glonft_id@) && (match new_id {
                        Some(ref n) => n@ != glonft_id@ && old(catalog).specials().contains_key(
                            n@,
                        ),
                        None => false,
                    })))
                    &&& (e == (ContractError::NotOwner {})
                        || e == (ContractError::GloNFTNotFound {})
                        || e == (ContractError::AlreadyExists {}))
                },
            },
    {
        match self.assert_owner(sender) {
            Ok(_) => {},
            Err(e) => {
                return Err(e);
            },
        }
        if !catalog.special_glonfts.contains_key(&glonft_id) {
            return Err(ContractError::GloNFTNotFound {});
        }
        match &new_id {
            Some(n) => {
                if !(*n == glonft_id) && catalog.special_glonfts.contains_key(n) {
                    return Err(ContractError::AlreadyExists {});
                }
            },
            None => {},
        }
        let ghost oldk = glonft_id@;
        let mut item = match catalog.special_glonfts.take(&glonft_id) {
            Some(k) => k,
            None => {
                return Err(ContractError::GloNFTNotFound {});
            },
        };
        match new_id {
            Some(n) => {
                item.id = n;
            },
            None => {
                item.id = glonft_id;
            },
        }
        match new_uri {
            Some(u) => {
                item.uri = u;
            },
            None => {},
        }
        let ghost newk = item.id@;
        let stored_id = item.id.clone();
        catalog.special_glonfts.insert(stored_id, item);
        proof {
            assert(catalog.specials() =~= old(catalog).specials().remove(oldk).insert(
                newk,
                catalog.specials()[newk],
            ));
            specials_edit_wf(old(catalog), catalog);
        }
        Ok(())
    }

    /// Removes fixed collectibles by id; absent ids are ignored;
    /// owner-gated.
    pub fn delete_special_glonfts(
        &self,
        catalog: &mut Catalog,
        sender: &String,
        glonft_ids: &Vec<String>,
    ) -> (r: Result<(), ContractError>)
        requires
            old(catalog).wf(),
        ensures
            final(catalog).wf(),
            r is Err ==> *final(catalog) == *old(catalog),
            final(catalog).chips() == old(catalog).chips(),
            final(catalog).hkeys() == old(catalog).hkeys(),
            final(catalog).seasons_map() == old(catalog).seasons_map(),
            final(catalog).spec_pricing() == old(catalog).spec_pricing(),
            match r {
                Ok(_) => {
                    &&& self.is_minter(sender@)
                    &&& forall|k: Seq<char>| #[trigger] final(catalog).specials().contains_key(k)
                        <==> (old(catalog).specials().contains_key(k)
                        && !crate::ledger::spec_id_in(glonft_ids@, k))
                    &&& forall|k: Seq<char>| final(catalog).specials().contains_key(k)
                        ==> final(catalog).specials()[k] == old(catalog).specials()[k]
                },
                Err(e) => e == (ContractError::NotOwner {}) && !self.is_minter(sender@),
            },
    {
        match self.assert_owner(sender) {
            Ok(_) => {},
            Err(e) => {
                return Err(e);
            },
        }
        let n = glonft_ids.len();
        for i in 0..n
            invariant
                n == glonft_ids@.len(),
                catalog.wf(),
                catalog.chips() == old(catalog).chips(),
                catalog.hkeys() == old(catalog).hkeys(),
                catalog.seasons_map() == old(catalog).seasons_map(),
                catalog.spec_pricing() == old(catalog).spec_pricing(),
                forall|k: Seq<char>| #[trigger] catalog.specials().contains_key(k)
                    <==> (old(catalog).specials().contains_key(k)
                    && !crate::ledger::spec_id_in(glonft_ids@.take(i as int), k)),
                forall|k: Seq<char>| catalog.specials().contains_key(k)
                    ==> catalog.specials()[k] == old(catalog).specials()[k],
        {
            let ghost pre_cat = *catalog;
            catalog.special_glonfts.remove(&glonft_ids[i]);
            proof {
                let idk = glonft_ids@[i as int]@;
                assert forall|k: Seq<char>| #[trigger] catalog.specials().contains_key(k)
                    <==> (old(catalog).specials().contains_key(k)
                    && !crate::ledger::spec_id_in(glonft_ids@.take(i + 1), k)) by {
                    assert(glonft_ids@.take(i + 1)[i as int]@ == idk);
                    if crate::ledger::spec_id_in(glonft_ids@.take(i + 1), k) {
                        let w = choose|w: int|
                            0 <= w < glonft_ids@.take(i + 1).len()
                                && (#[trigger] glonft_ids@.take(i + 1)[w])@ == k;
                        if w < i {
                            assert(glonft_ids@.take(i as int)[w]@ == k);
                        } else {
                            assert(glonft_ids@[w]@ == k && w == i);
                        }
                    }
                    if crate::ledger::spec_id_in(glonft_ids@.take(i as int), k) {
                        let w = choose|w: int|
                            0 <= w < glonft_ids@.take(i as int).len()
                                && (#[trigger] glonft_ids@.take(i as int)[w])@ == k;
                        assert(glonft_ids@.take(i + 1)[w]@ == k);
                    }
                    if k == idk {
                        assert(crate::ledger::spec_id_in(glonft_ids@.take(i + 1), k)) by {
                            assert(glonft_ids@.take(i + 1)[i as int]@ == k);
                        }
                    }
                }
                specials_edit_wf(&pre_cat, catalog);
            }
        }
        proof {
            assert(glonft_ids@.take(n as int) =~= glonft_ids@);
        }
        Ok(())
    }

    /// Stores a batch of fixed collectibles: each must carry no selection
    /// weight and a fresh id (within the batch too); the whole batch is
    /// stored, or — on the first offending item — nothing; owner-gated.
    pub fn create_special_glonfts(
        &self,
        catalog: &mut Catalog,
        sender: &String,
        glonfts: Vec<GloNFT>,
    ) -> (r: Result<(), ContractError>)
        requires
            old(catalog).wf(),
        ensures
            final(catalog).wf(),
            r is Err ==> *final(catalog) == *old(catalog),
            final(catalog).chips() == old(catalog).chips(),
            final(catalog).hkeys() == old(catalog).hkeys(),
            final(catalog).seasons_map() == old(catalog).seasons_map(),
            final(catalog).spec_pricing() == old(catalog).spec_pricing(),
            match r {
                Ok(_) => {
                    &&& self.is_minter(sender@)
                    &&& spec_insert_specials(old(catalog).specials(), glonfts@) == Ok::<
                        _,
                        ContractError,
                    >(final(catalog).specials())
                },
                Err(e) => {
                    &&& (e == (ContractError::NotOwner {}) <==> !self.is_minter(sender@))
                    &&& (self.is_minter(sender@) ==> spec_insert_specials(
                        old(catalog).specials(),
                        glonfts@,
                    ) == Err::<Map<Seq<char>, GloNFT>, ContractError>(e))
                },
            },
    {
        match self.assert_owner(sender) {
            Ok(_) => {},
            Err(e) => {
                return Err(e);
            },
        }
        let ghost m0 = catalog.specials();
        let n = glonfts.len();
        for i in 0..n
            invariant
                n == glonfts@.len(),
                catalog.wf(),
                *catalog == *old(catalog),
                m0 == old(catalog).specials(),
                self.is_minter(sender@),
                spec_insert_specials(m0, glonfts@.take(i as int)) is Ok,
        {
            proof {
                lemma_insert_specials_push(m0, glonfts@.take(i as int), glonfts@[i as int]);
                lemma_insert_specials_ok(m0, glonfts@.take(i as int));
                assert(glonfts@.take(i + 1) =~= glonfts@.take(i as int).push(
                    glonfts@[i as int],
                ));
            }
            if glonfts[i].probability.is_some() {
                proof {
                    lemma_insert_specials_err(m0, glonfts@, i + 1);
                }
                return Err(ContractError::InvalidSpecialGloNFT {});
            }
            let mut taken: bool = catalog.special_glonfts.contains_key(&glonfts[i].id);
            if !taken {
                for j in 0..i
                    invariant
                        i < n,
                        n == glonfts@.len(),
                        catalog.wf(),
                        *catalog == *old(catalog),
                        m0 == old(catalog).specials(),
                        taken ==> (m0.contains_key(glonfts@[i as int].id@) || exists|x: int|
                            0 <= x < j && (#[trigger] glonfts@[x]).id@
                                == glonfts@[i as int].id@),
                        !taken ==> !m0.contains_key(glonfts@[i as int].id@),
                        !taken ==> forall|x: int| 0 <= x < j
                            ==> (#[trigger] glonfts@[x]).id@ != glonfts@[i as int].id@,
                {
                    if glonfts[j].id == glonfts[i].id {
                        proof {
                            assert(glonfts@[j as int].id@ == glonfts@[i as int].id@);
                        }
                        taken = true;
                    }
                }
            }
            let ghost mi = spec_insert_specials(m0, glonfts@.take(i as int))->Ok_0;
            if taken {
                proof {
                    assert(mi.contains_key(glonfts@[i as int].id@)) by {
                        if !m0.contains_key(glonfts@[i as int].id@) {
                            let x = choose|x: int|
                                0 <= x < i && (#[trigger] glonfts@[x]).id@
                                    == glonfts@[i as int].id@;
                            assert(glonfts@.take(i as int)[x].id@ == glonfts@[i as int].id@);
                            assert(exists|w: int|
                                0 <= w < glonfts@.take(i as int).len()
                                    && (#[trigger] glonfts@.take(i as int)[w]).id@
                                    == glonfts@[i as int].id@);
                        }
                    }
                    lemma_insert_specials_err(m0, glonfts@, i + 1);
                }
                return Err(ContractError::AlreadyExists {});
            }
            proof {
                assert(!mi.contains_key(glonfts@[i as int].id@)) by {
                    if exists|w: int|
                        0 <= w < glonfts@.take(i as int).len()
                            && (#[trigger] glonfts@.take(i as int)[w]).id@
                            == glonfts@[i as int].id@ {
                        let w = choose|w: int|
                            0 <= w < glonfts@.take(i as int).len()
                                && (#[trigger] glonfts@.take(i as int)[w]).id@
                                == glonfts@[i as int].id@;
                        assert(glonfts@[w].id@ == glonfts@[i as int].id@);
                    }
                }
            }
        }
        proof {
            assert(glonfts@.take(n as int) =~= glonfts@);
        }
        let ghost batch = glonfts@;
        let mut glonfts = glonfts;
        let mut i: usize = 0;
        proof {
            assert(glonfts@ =~= batch.skip(0));
            assert(batch.take(0) =~= Seq::<GloNFT>::empty());
        }
        while glonfts.len() > 0
            invariant
                i <= n,
                n == batch.len(),
                i + glonfts@.len() == batch.len(),
                glonfts@ == batch.skip(i as int),
                self.is_minter(sender@),
                spec_insert_specials(m0, batch) is Ok,
                m0 == old(catalog).specials(),
                spec_insert_specials(m0, batch.take(i as int)) == Ok::<
                    Map<Seq<char>, GloNFT>,
                    ContractError,
                >(catalog.specials()),
                catalog.wf(),
                catalog.chips() == old(catalog).chips(),
                catalog.hkeys() == old(catalog).hkeys(),
                catalog.seasons_map() == old(catalog).seasons_map(),
                catalog.spec_pricing() == old(catalog).spec_pricing(),
            decreases glonfts.len(),
        {
            let ghost pre_map = catalog.specials();
            let ghost pre_cat = *catalog;
            let item = glonfts.remove(0);
            proof {
                assert(item == batch[i as int]);
                lemma_insert_specials_push(m0, batch.take(i as int), batch[i as int]);
                assert(batch.take(i + 1) =~= batch.take(i as int).push(batch[i as int]));
                if item.probability is Some || pre_map.contains_key(item.id@) {
                    lemma_insert_specials_err(m0, batch, i + 1);
                }
                assert(spec_insert_specials(m0, batch.take(i + 1)) == Ok::<
                    Map<Seq<char>, GloNFT>,
                    ContractError,
                >(pre_map.insert(item.id@, item)));
            }
            let stored_id = item.id.clone();
            catalog.special_glonfts.insert(stored_id, item);
            proof {
                assert(glonfts@ =~= batch.skip(i + 1));
                specials_edit_wf(&pre_cat, catalog);
            }
            i = i + 1;
        }
        proof {
            assert(batch.take(batch.len() as int) =~= batch);
        }
        Ok(())
    }
}

} // verus!
