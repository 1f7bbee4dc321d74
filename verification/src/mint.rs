//! The issuance coordinator: every token-producing path.
//!
//! `mint` resolves the request's price, checks the attached payment,
//! dispatches on the request shape — direct special chip pack, reward
//! chip-pack draw, key purchase, fixed collectible, and the two openings —
//! mutates the catalog counters and the ledger, and returns the new
//! composite token id. Any failure aborts before a single write persists:
//! on an error, ledger and catalog are exactly as they were.

use vstd::prelude::*;
use crate::catalog::{
    Catalog, spec_chip_bumped, spec_chip_slot, spec_item_bumped, spec_key_bumped, spec_key_slot,
    spec_opt0, spec_price_of, spec_special_bumped,
};
use crate::digest::{entropy_draw, spec_draw};
use crate::errors::ContractError;
use crate::ids::{base_of, format_token_id, spec_base_of, spec_token_id};
use crate::ledger::Cw721Contract;
use crate::select::{
    lemma_selected_first, lemma_selection_total, reward_rarity, select_item_index, spec_selected,
    spec_reward_rarity,
};
use crate::state::{
    Approval, BlockInfo, Coin, GloChip, GloChipDetails, GloNFT, GloNFTType, KeyDetails, Rarity,
    RewardProbabilities, TokenInfo, TokenType, spec_opt_view, spec_reward_probabilities,
};

verus! {

/// The amount of the payment denomination attached to a request: the
/// first matching coin's amount, or zero.
pub open spec fn spec_uluna(funds: Seq<Coin>) -> u128
    decreases funds.len(),
{
    if funds.len() == 0 {
        0
    } else if funds.first().denom@ == "uluna"@ {
        funds.first().amount
    } else {
        spec_uluna(funds.drop_first())
    }
}

/// The index of the first item carrying a given id; the list's length if
/// no item does.
pub open spec fn spec_first_with_id(items: Seq<GloNFT>, id: Seq<char>) -> int
    decreases items.len(),
{
    if items.len() == 0 {
        0
    } else if items.first().id@ == id {
        0
    } else {
        1 + spec_first_with_id(items.drop_first(), id)
    }
}

proof fn lemma_first_with_id(items: Seq<GloNFT>, id: Seq<char>, i: int)
    requires
        0 <= i < items.len(),
        items[i].id@ == id,
        forall|x: int| 0 <= x < i ==> (#[trigger] items[x]).id@ != id,
    ensures
        spec_first_with_id(items, id) == i,
    decreases i,
{
    if i == 0 {
    } else {
        assert(items[0].id@ != id);
        let rest = items.drop_first();
        assert(rest[i - 1] == items[i]);
        assert(forall|x: int| 0 <= x < i - 1 ==> (#[trigger] rest[x]) == items[x + 1]);
        lemma_first_with_id(rest, id, i - 1);
    }
}

/// Reads the attached payment in the engine's denomination.
fn uluna_amount(funds: &Vec<Coin>) -> (r: u128)
    ensures
        r == spec_uluna(funds@),
{
    proof {
        reveal_strlit("uluna");
    }
    let denom = String::from_str("uluna");
    let n = funds.len();
    proof {
        assert(funds@.skip(0) =~= funds@);
    }
    for i in 0..n
        invariant
            n == funds@.len(),
            denom@ == "uluna"@,
            spec_uluna(funds@) == spec_uluna(funds@.skip(i as int)),
        decreases n - i,
    {
        proof {
            assert(funds@.skip(i as int).first() == funds@[i as int]);
            assert(funds@.skip(i as int).drop_first() =~= funds@.skip(i + 1));
        }
        if funds[i].denom == denom {
            return funds[i].amount;
        }
    }
    proof {
        assert(funds@.skip(n as int).len() == 0);
    }
    0
}

/// The first item of the list carrying the same id as item `sel`.
fn first_with_id(items: &Vec<GloNFT>, sel: usize) -> (r: usize)
    requires
        sel < items@.len(),
    ensures
        r as int == spec_first_with_id(items@, items@[sel as int].id@),
        r <= sel,
        items@[r as int].id@ == items@[sel as int].id@,
{
    let n = items.len();
    let mut i: usize = 0;
    while i < sel
        invariant
            i <= sel < n,
            n == items@.len(),
            forall|x: int| 0 <= x < i ==> (#[trigger] items@[x]).id@ != items@[sel as int].id@,
        decreases sel - i,
    {
        if items[i].id == items[sel].id {
            proof {
                lemma_first_with_id(items@, items@[sel as int].id@, i as int);
            }
            return i;
        }
        i = i + 1;
    }
    proof {
        lemma_first_with_id(items@, items@[sel as int].id@, sel as int);
    }
    sel
}

/// Every mint counter in the catalog is below its type's ceiling, so one
/// more mint cannot overflow it.
pub open spec fn spec_counters_ok(cat: Catalog) -> bool {
    &&& forall|k: Seq<char>| #[trigger] cat.chips().contains_key(k) ==> {
        &&& cat.chips()[k].count < u64::MAX
        &&& forall|i: int| 0 <= i < cat.chips()[k].items@.len()
            ==> spec_opt0((#[trigger] cat.chips()[k].items@[i]).count) < u64::MAX
    }
    &&& forall|k: Seq<char>| #[trigger] cat.hkeys().contains_key(k)
        ==> cat.hkeys()[k].count < u64::MAX
    &&& forall|k: Seq<char>| #[trigger] cat.specials().contains_key(k)
        ==> spec_opt0(cat.specials()[k].count) < u64::MAX
}

/// What a successful mint leaves in the ledger: the burned inputs gone,
/// every other record untouched, and a fresh record under the returned id
/// with the requested owner, no approvals, the winning entry's URI and
/// the supplied extension. The supply counter moves by the records moved.
pub open spec fn spec_ledger_minted(
    pre: Cw721Contract,
    post: Cw721Contract,
    burned: Seq<Seq<char>>,
    tid: Seq<char>,
    owner: String,
    uri: String,
    extension: Option<String>,
) -> bool {
    &&& forall|k: Seq<char>| #![auto] post.tokens_map().contains_key(k)
        <==> ((pre.tokens_map().contains_key(k) && !burned.contains(k)) || k == tid)
    &&& forall|k: Seq<char>| #![auto] post.tokens_map().contains_key(k) && k != tid
        ==> post.tokens_map()[k] == pre.tokens_map()[k]
    &&& post.tokens_map().contains_key(tid)
    &&& post.tokens_map()[tid].owner == owner
    &&& post.tokens_map()[tid].approvals@ == Seq::<Approval>::empty()
    &&& post.tokens_map()[tid].token_uri == Some(uri)
    &&& post.tokens_map()[tid].extension == extension
    &&& !(pre.tokens_map().contains_key(tid) && !burned.contains(tid))
    &&& post.supply() as int == pre.supply() - burned.len() + 1
    &&& post.operator_grants() == pre.operator_grants()
    &&& post.same_config(&pre)
}


/// What a successful mint means, for each request shape, once price and
/// payment are settled.
pub open spec fn spec_path_ok(
    pre_l: Cw721Contract,
    pre_c: Catalog,
    post_l: Cw721Contract,
    post_c: Catalog,
    block: BlockInfo,
    sender: Seq<char>,
    owner: String,
    extension: Option<String>,
    t: TokenType,
    tid: String,
) -> bool {
    match t {
        TokenType::GloChip(d) => {
            if d.special {
                let g = spec_opt_view(d.glochip_id)->Some_0;
                let chip = pre_c.chips()[g];
                &&& chip.special
                &&& spec_chip_bumped(pre_c, post_c, g)
                &&& tid@ == spec_token_id(g, (chip.count + 1) as nat)
                &&& spec_ledger_minted(
                    pre_l,
                    post_l,
                    Seq::empty(),
                    tid@,
                    owner,
                    chip.uri,
                    extension,
                )
            } else {
                &&& pre_l.is_minter(sender)
                &&& d.performance_category is Some
                &&& d.season_id is Some
                &&& {
                    let probs = spec_reward_probabilities(d.performance_category->Some_0);
                    let draw = spec_draw(block.time, sender, Seq::<char>::empty());
                    let rar = spec_reward_rarity(probs, draw as int);
                    let sk = spec_opt_view(d.season_id)->Some_0;
                    &&& pre_c.seasons_map().contains_key(sk)
                    &&& spec_chip_slot(pre_c.seasons_map()[sk], rar) is Some
                    &&& {
                        let g = spec_chip_slot(pre_c.seasons_map()[sk], rar)->Some_0;
                        let chip = pre_c.chips()[g];
                        &&& spec_chip_bumped(pre_c, post_c, g)
                        &&& tid@ == spec_token_id(g, (chip.count + 1) as nat)
                        &&& spec_ledger_minted(
                            pre_l,
                            post_l,
                            Seq::empty(),
                            tid@,
                            owner,
                            chip.uri,
                            extension,
                        )
                    }
                }
            }
        },
        TokenType::Key(kd) => {
            let key = pre_c.hkeys()[kd.key_id@];
            &&& spec_key_bumped(pre_c, post_c, kd.key_id@)
            &&& tid@ == spec_token_id(kd.key_id@, (key.count + 1) as nat)
            &&& spec_ledger_minted(pre_l, post_l, Seq::empty(), tid@, owner, key.uri, extension)
        },
        TokenType::GloNFT(gt) => match gt {
            GloNFTType::Special { item_id } => {
                let s = pre_c.specials()[item_id@];
                &&& spec_special_bumped(pre_c, post_c, item_id@)
                &&& tid@ == spec_token_id(item_id@, (spec_opt0(s.count) + 1) as nat)
                &&& spec_ledger_minted(pre_l, post_l, Seq::empty(), tid@, owner, s.uri, extension)
            },
            GloNFTType::Opening { glochip_id, key_id } => {
                let cb = spec_base_of(glochip_id@);
                let kb = spec_base_of(key_id@);
                let chip = pre_c.chips()[cb];
                let sk = spec_opt_view(chip.season_id)->Some_0;
                let draw = spec_draw(block.time, sender, chip.id@);
                let sel = spec_selected(chip.items@, draw as int)->Some_0;
                let j = spec_first_with_id(chip.items@, chip.items@[sel].id@);
                let nc = (spec_opt0(chip.items@[j].count) + 1) as nat;
                &&& pre_l.tokens_map().contains_key(glochip_id@)
                &&& pre_l.tokens_map()[glochip_id@].owner@ == sender
                &&& pre_l.tokens_map().contains_key(key_id@)
                &&& pre_l.tokens_map()[key_id@].owner@ == sender
                &&& glochip_id@ != key_id@
                &&& pre_c.chips().contains_key(cb)
                &&& chip.season_id is Some
                &&& spec_key_slot(pre_c.seasons_map()[sk], chip.rarity) == Some(kb)
                &&& spec_selected(chip.items@, draw as int) is Some
                &&& spec_item_bumped(pre_c, post_c, cb, j)
                &&& tid@ == spec_token_id(chip.items@[j].id@, nc)
                &&& spec_ledger_minted(
                    pre_l,
                    post_l,
                    seq![glochip_id@, key_id@],
                    tid@,
                    owner,
                    chip.items@[j].uri,
                    extension,
                )
            },
            GloNFTType::SpecialOpening { special_glochip_id } => {
                let cb = spec_base_of(special_glochip_id@);
                let chip = pre_c.chips()[cb];
                let draw = spec_draw(block.time, sender, chip.id@);
                let sel = spec_selected(chip.items@, draw as int)->Some_0;
                let j = spec_first_with_id(chip.items@, chip.items@[sel].id@);
                let nc = (spec_opt0(chip.items@[j].count) + 1) as nat;
                &&& pre_l.tokens_map().contains_key(special_glochip_id@)
                &&& pre_l.tokens_map()[special_glochip_id@].owner@ == sender
                &&& pre_c.chips().contains_key(cb)
                &&& chip.special
                &&& spec_selected(chip.items@, draw as int) is Some
                &&& spec_item_bumped(pre_c, post_c, cb, j)
                &&& tid@ == spec_token_id(chip.items@[j].id@, nc)
                &&& spec_ledger_minted(
                    pre_l,
                    post_l,
                    seq![special_glochip_id@],
                    tid@,
                    owner,
                    chip.items@[j].uri,
                    extension,
                )
            },
        },
    }
}

/// What a successful mint means: the price resolved, the payment covered
/// it, and the path's effect took place.
pub open spec fn spec_mint_ok(
    pre_l: Cw721Contract,
    pre_c: Catalog,
    post_l: Cw721Contract,
    post_c: Catalog,
    block: BlockInfo,
    sender: Seq<char>,
    funds: Seq<Coin>,
    owner: String,
    extension: Option<String>,
    t: TokenType,
    tid: String,
) -> bool {
    &&& spec_price_of(pre_c, t) is Ok
    &&& !(spec_price_of(pre_c, t)->Ok_0 > 0 && spec_uluna(funds) < spec_price_of(pre_c, t)->Ok_0)
    &&& spec_path_ok(pre_l, pre_c, post_l, post_c, block, sender, owner, extension, t, tid)
}

/// Exactly when each failure comes, for each request shape, once price
/// and payment are settled: the path's checks in the order the operation
/// makes them.
pub open spec fn spec_path_err(
    pre_l: Cw721Contract,
    pre_c: Catalog,
    block: BlockInfo,
    sender: Seq<char>,
    t: TokenType,
    e: ContractError,
) -> bool {
    match t {
                    TokenType::GloChip(d) => {
                        if d.special {
                            let g = spec_opt_view(d.glochip_id)->Some_0;
                            let chip = pre_c.chips()[g];
                            &&& (e == (ContractError::GloChipNotSpecial {}) <==> !chip.special)
                            &&& (e == (ContractError::Claimed {}) <==> (chip.special
                                && pre_l.tokens_map().contains_key(
                                spec_token_id(g, (chip.count + 1) as nat),
                            )))
                            &&& (e == (ContractError::GloChipNotSpecial {}) || e == (
                            ContractError::Claimed {}))
                        } else {
                            let probs = spec_reward_probabilities(
                                d.performance_category->Some_0,
                            );
                            let draw = spec_draw(block.time, sender, Seq::<char>::empty());
                            let rar = spec_reward_rarity(probs, draw as int);
                            let sk = spec_opt_view(d.season_id)->Some_0;
                            &&& (e == (ContractError::NotOwner {}) <==> !pre_l.is_minter(sender))
                            &&& (e == (ContractError::PerformanceCategoryNotProvided {}) <==> (
                            pre_l.is_minter(sender) && d.performance_category is None))
                            &&& (e == (ContractError::SeasonNotFound {}) <==> (pre_l.is_minter(
                                sender,
                            ) && d.performance_category is Some && (d.season_id is None
                                || !pre_c.seasons_map().contains_key(sk))))
                            &&& (e == (ContractError::InvalidRarityForSeason {}) <==> (
                            pre_l.is_minter(sender) && d.performance_category is Some
                                && d.season_id is Some && pre_c.seasons_map().contains_key(sk)
                                && spec_chip_slot(pre_c.seasons_map()[sk], rar) is None))
                            &&& (e == (ContractError::Claimed {}) <==> (pre_l.is_minter(sender)
                                && d.performance_category is Some && d.season_id is Some
                                && pre_c.seasons_map().contains_key(sk) && spec_chip_slot(
                                pre_c.seasons_map()[sk],
                                rar,
                            ) is Some && pre_l.tokens_map().contains_key(
                                spec_token_id(
                                    spec_chip_slot(pre_c.seasons_map()[sk], rar)->Some_0,
                                    (pre_c.chips()[spec_chip_slot(
                                        pre_c.seasons_map()[sk],
                                        rar,
                                    )->Some_0].count + 1) as nat,
                                ),
                            )))
                            &&& (e == (ContractError::NotOwner {})
                                || e == (ContractError::PerformanceCategoryNotProvided {})
                                || e == (ContractError::SeasonNotFound {})
                                || e == (ContractError::InvalidRarityForSeason {})
                                || e == (ContractError::Claimed {}))
                        }
                    },
                    TokenType::Key(kd) => {
                        &&& e == (ContractError::Claimed {})
                        &&& pre_l.tokens_map().contains_key(
                            spec_token_id(kd.key_id@, (pre_c.hkeys()[kd.key_id@].count + 1) as nat),
                        )
                    },
                    TokenType::GloNFT(gt) => match gt {
                        GloNFTType::Special { item_id } => {
                            &&& e == (ContractError::Claimed {})
                            &&& pre_l.tokens_map().contains_key(
                                spec_token_id(
                                    item_id@,
                                    (spec_opt0(pre_c.specials()[item_id@].count) + 1) as nat,
                                ),
                            )
                        },
                        GloNFTType::Opening { glochip_id, key_id } => {
                            let owns_chip = pre_l.tokens_map().contains_key(glochip_id@)
                                && pre_l.tokens_map()[glochip_id@].owner@ == sender;
                            let owns_key = pre_l.tokens_map().contains_key(key_id@)
                                && pre_l.tokens_map()[key_id@].owner@ == sender;
                            let cb = spec_base_of(glochip_id@);
                            let kb = spec_base_of(key_id@);
                            let chip = pre_c.chips()[cb];
                            let sk = spec_opt_view(chip.season_id)->Some_0;
                            let key_ok = pre_c.chips().contains_key(cb) && chip.season_id is Some
                                && spec_key_slot(pre_c.seasons_map()[sk], chip.rarity) == Some(
                                kb,
                            );
                            let draw = spec_draw(block.time, sender, chip.id@);
                            let sel = spec_selected(chip.items@, draw as int)->Some_0;
                            let j = spec_first_with_id(chip.items@, chip.items@[sel].id@);
                            let tid = spec_token_id(
                                chip.items@[j].id@,
                                (spec_opt0(chip.items@[j].count) + 1) as nat,
                            );
                            &&& (e == (ContractError::Unauthorized {}) <==> !(owns_chip
                                && owns_key))
                            &&& (e is GloChipNotFound <==> (owns_chip && owns_key && (
                            !pre_c.chips().contains_key(cb) || chip.season_id is None)))
                            &&& (e matches ContractError::GloChipNotFound { glochip_id: p }
                                ==> p@ == (if !pre_c.chips().contains_key(cb) {
                                cb
                            } else {
                                glochip_id@
                            }))
                            &&& (e == (ContractError::InvalidKey {}) <==> (owns_chip && owns_key
                                && pre_c.chips().contains_key(cb) && chip.season_id is Some
                                && spec_key_slot(pre_c.seasons_map()[sk], chip.rarity) != Some(
                                kb,
                            )))
                            &&& (e == (ContractError::NotFound {}) <==> (owns_chip && owns_key
                                && key_ok && glochip_id@ == key_id@))
                            &&& (e == (ContractError::Claimed {}) <==> (owns_chip && owns_key
                                && key_ok && glochip_id@ != key_id@
                                && pre_l.tokens_map().contains_key(tid) && tid != glochip_id@
                                && tid != key_id@))
                            &&& (e == (ContractError::Unauthorized {}) || e is GloChipNotFound
                                || e == (ContractError::InvalidKey {})
                                || e == (ContractError::NotFound {})
                                || e == (ContractError::Claimed {}))
                        },
                        GloNFTType::SpecialOpening { special_glochip_id } => {
                            let owns = pre_l.tokens_map().contains_key(special_glochip_id@)
                                && pre_l.tokens_map()[special_glochip_id@].owner@ == sender;
                            let cb = spec_base_of(special_glochip_id@);
                            let chip = pre_c.chips()[cb];
                            let draw = spec_draw(block.time, sender, chip.id@);
                            let sel = spec_selected(chip.items@, draw as int)->Some_0;
                            let j = spec_first_with_id(chip.items@, chip.items@[sel].id@);
                            let tid = spec_token_id(
                                chip.items@[j].id@,
                                (spec_opt0(chip.items@[j].count) + 1) as nat,
                            );
                            &&& (e == (ContractError::Unauthorized {}) <==> !owns)
                            &&& (e is GloChipNotFound <==> (owns && !pre_c.chips().contains_key(
                                cb,
                            )))
                            &&& (e matches ContractError::GloChipNotFound { glochip_id: p }
                                ==> p@ == cb)
                            &&& (e == (ContractError::GloChipNotSpecial {}) <==> (owns
                                && pre_c.chips().contains_key(cb) && !chip.special))
                            &&& (e == (ContractError::Claimed {}) <==> (owns
                                && pre_c.chips().contains_key(cb) && chip.special
                                && pre_l.tokens_map().contains_key(tid) && tid
                                != special_glochip_id@))
                            &&& (e == (ContractError::Unauthorized {}) || e is GloChipNotFound
                                || e == (ContractError::GloChipNotSpecial {})
                                || e == (ContractError::Claimed {}))
                        },
                    },
    }
}

impl Cw721Contract {
    /// Draws the rarity tier for a reward chip pack from the context's
    /// timestamp and the acting account.
    pub fn select_reward_type(&self, nanos: u64, sender: &String, probs: RewardProbabilities) -> (r:
        Rarity)
        ensures
            r == spec_reward_rarity(
                probs,
                spec_draw(nanos, sender@, Seq::<char>::empty()) as int,
            ),
    {
        let tag = String::new();
        let draw = entropy_draw(nanos, sender, &tag);
        reward_rarity(&probs, draw)
    }

    /// Draws the winning item index from a chip pack's weighted list.
    pub fn select_item_from_glochip(&self, nanos: u64, sender: &String, glochip: &GloChip) -> (r:
        Result<usize, ContractError>)
        ensures
            match r {
                Ok(i) => spec_selected(
                    glochip.items@,
                    spec_draw(nanos, sender@, glochip.id@) as int,
                ) == Some(i as int),
                Err(e) => {
                    &&& e == (ContractError::SelectionFailed {})
                    &&& spec_selected(
                        glochip.items@,
                        spec_draw(nanos, sender@, glochip.id@) as int,
                    ) is None
                },
            },
    {
        let draw = entropy_draw(nanos, sender, &glochip.id);
        select_item_index(&glochip.items, draw)
    }

    /// Shared tail of the chip-pack mints: bumps the chip pack's counter
    /// and writes the new token record, or fails `Claimed` untouched.
    fn chip_mint_tail(
        &mut self,
        catalog: &mut Catalog,
        glochip_id: &String,
        owner: String,
        extension: Option<String>,
    ) -> (r: Result<String, ContractError>)
        requires
            old(self).wf(),
            old(catalog).wf(),
            old(self).supply() < u64::MAX,
            old(catalog).chips().contains_key(glochip_id@),
            old(catalog).chips()[glochip_id@].count < u64::MAX,
        ensures
            final(self).wf(),
            final(catalog).wf(),
            match r {
                Ok(tid) => {
                    &&& spec_chip_bumped(*old(catalog), *final(catalog), glochip_id@)
                    &&& tid@ == spec_token_id(
                        glochip_id@,
                        (old(catalog).chips()[glochip_id@].count + 1) as nat,
                    )
                    &&& spec_ledger_minted(
                        *old(self),
                        *final(self),
                        Seq::empty(),
                        tid@,
                        owner,
                        old(catalog).chips()[glochip_id@].uri,
                        extension,
                    )
                },
                Err(e) => {
                    &&& *final(self) == *old(self)
                    &&& *final(catalog) == *old(catalog)
                    &&& e == (ContractError::Claimed {})
                    &&& old(self).tokens_map().contains_key(
                        spec_token_id(
                            glochip_id@,
                            (old(catalog).chips()[glochip_id@].count + 1) as nat,
                        ),
                    )
                },
            },
    {
        let new_count = match catalog.get_glochip(glochip_id) {
            Some(chip) => chip.count + 1,
            None => {
                proof {
                    assert(false);
                }
                return Err(ContractError::Claimed {});
            },
        };
        let tid = format_token_id(glochip_id, new_count);
        if self.has_token(&tid) {
            return Err(ContractError::Claimed {});
        }
        let (uri, _count) = catalog.bump_chip(glochip_id);
        let token = TokenInfo { owner, approvals: Vec::new(), token_uri: Some(uri), extension };
        match self.create(tid.clone(), token) {
            Ok(_) => Ok(tid),
            Err(_) => {
                proof {
                    assert(false);
                }
                Err(ContractError::Claimed {})
            },
        }
    }

    /// Mints a token of a special chip pack bought directly.
    fn get_special_glochip(
        &mut self,
        catalog: &mut Catalog,
        details: &GloChipDetails,
        owner: String,
        extension: Option<String>,
    ) -> (r: Result<String, ContractError>)
        requires
            old(self).wf(),
            old(catalog).wf(),
            old(self).supply() < u64::MAX,
            spec_counters_ok(*old(catalog)),
            details.special,
            details.glochip_id is Some,
            old(catalog).chips().contains_key(spec_opt_view(details.glochip_id)->Some_0),
        ensures
            final(self).wf(),
            final(catalog).wf(),
            r is Err ==> *final(self) == *old(self) && *final(catalog) == *old(catalog),
            match r {
                Ok(tid) => spec_path_ok(
                    *old(self),
                    *old(catalog),
                    *final(self),
                    *final(catalog),
                    BlockInfo { height: 0, time: 0 },
                    Seq::<char>::empty(),
                    owner,
                    extension,
                    TokenType::GloChip(*details),
                    tid,
                ),
                Err(e) => spec_path_err(
                    *old(self),
                    *old(catalog),
                    BlockInfo { height: 0, time: 0 },
                    Seq::<char>::empty(),
                    TokenType::GloChip(*details),
                    e,
                ),
            },
    {
        let glochip_id: &String = match &details.glochip_id {
            Some(g) => g,
            None => {
                proof {
                    assert(false);
                }
                return Err(ContractError::MissingGloChipID {});
            },
        };
        let special = match catalog.get_glochip(glochip_id) {
            Some(chip) => chip.special,
            None => {
                proof {
                    assert(false);
                }
                return Err(ContractError::GloChipNotSpecial {});
            },
        };
        if !special {
            return Err(ContractError::GloChipNotSpecial {});
        }
        proof {
            assert(old(catalog).chips()[glochip_id@].count < u64::MAX);
        }
        self.chip_mint_tail(catalog, glochip_id, owner, extension)
    }

    /// Mints a reward chip-pack token: the administrator draws a rarity
    /// tier from the performance tier's probability row, and the season's
    /// chip pack bound for that tier is minted.
    fn get_reward_glochip(
        &mut self,
        catalog: &mut Catalog,
        block: &BlockInfo,
        sender: &String,
        details: &GloChipDetails,
        owner: String,
        extension: Option<String>,
    ) -> (r: Result<String, ContractError>)
        requires
            old(self).wf(),
            old(catalog).wf(),
            old(self).supply() < u64::MAX,
            spec_counters_ok(*old(catalog)),
            !details.special,
        ensures
            final(self).wf(),
            final(catalog).wf(),
            r is Err ==> *final(self) == *old(self) && *final(catalog) == *old(catalog),
            match r {
                Ok(tid) => spec_path_ok(
                    *old(self),
                    *old(catalog),
                    *final(self),
                    *final(catalog),
                    *block,
                    sender@,
                    owner,
                    extension,
                    TokenType::GloChip(*details),
                    tid,
                ),
                Err(e) => spec_path_err(
                    *old(self),
                    *old(catalog),
                    *block,
                    sender@,
                    TokenType::GloChip(*details),
                    e,
                ),
            },
    {
        match self.assert_owner(sender) {
            Ok(_) => {},
            Err(e) => {
                return Err(e);
            },
        }
        let pc = match &details.performance_category {
            Some(p) => *p,
            None => {
                return Err(ContractError::PerformanceCategoryNotProvided {});
            },
        };
        let probs = RewardProbabilities::for_performance_category(&pc);
        let rar = self.select_reward_type(block.time, sender, probs);
        let season_id: &String = match &details.season_id {
            Some(s) => s,
            None => {
                return Err(ContractError::SeasonNotFound {});
            },
        };
        let glochip_id: String = match catalog.get_season(season_id) {
            Some(season) => {
                let slot: &Option<String> = match rar {
                    Rarity::Generic => &season.generic_glochip,
                    Rarity::Esoteric => &season.esoteric_glochip,
                    Rarity::Spectral => &season.spectral_glochip,
                };
                match slot {
                    Some(g) => g.clone(),
                    None => {
                        return Err(ContractError::InvalidRarityForSeason {});
                    },
                }
            },
            None => {
                return Err(ContractError::SeasonNotFound {});
            },
        };
        proof {
            catalog.lemma_season_bidirectional(season_id@, rar);
            assert(old(catalog).chips().contains_key(glochip_id@));
            assert(old(catalog).chips()[glochip_id@].count < u64::MAX);
        }
        self.chip_mint_tail(catalog, &glochip_id, owner, extension)
    }

    /// Mints a key token bought for its rarity tier's price.
    fn get_key_data(
        &mut self,
        catalog: &mut Catalog,
        key_details: &KeyDetails,
        owner: String,
        extension: Option<String>,
    ) -> (r: Result<String, ContractError>)
        requires
            old(self).wf(),
            old(catalog).wf(),
            old(self).supply() < u64::MAX,
            spec_counters_ok(*old(catalog)),
            old(catalog).hkeys().contains_key(key_details.key_id@),
        ensures
            final(self).wf(),
            final(catalog).wf(),
            r is Err ==> *final(self) == *old(self) && *final(catalog) == *old(catalog),
            match r {
                Ok(tid) => spec_path_ok(
                    *old(self),
                    *old(catalog),
                    *final(self),
                    *final(catalog),
                    BlockInfo { height: 0, time: 0 },
                    Seq::<char>::empty(),
                    owner,
                    extension,
                    TokenType::Key(*key_details),
                    tid,
                ),
                Err(e) => spec_path_err(
                    *old(self),
                    *old(catalog),
                    BlockInfo { height: 0, time: 0 },
                    Seq::<char>::empty(),
                    TokenType::Key(*key_details),
                    e,
                ),
            },
    {
        proof {
            assert(old(catalog).hkeys()[key_details.key_id@].count < u64::MAX);
        }
        let new_count = match catalog.get_holokey(&key_details.key_id) {
            Some(key) => key.count + 1,
            None => {
                proof {
                    assert(false);
                }
                return Err(ContractError::Claimed {});
            },
        };
        let tid = format_token_id(&key_details.key_id, new_count);
        if self.has_token(&tid) {
            return Err(ContractError::Claimed {});
        }
        let (uri, _count) = catalog.bump_key(&key_details.key_id);
        let token = TokenInfo { owner, approvals: Vec::new(), token_uri: Some(uri), extension };
        match self.create(tid.clone(), token) {
            Ok(_) => Ok(tid),
            Err(_) => {
                proof {
                    assert(false);
                }
                Err(ContractError::Claimed {})
            },
        }
    }

    /// Mints a fixed collectible bought directly for its price.
    fn get_special(
        &mut self,
        catalog: &mut Catalog,
        item_id: &String,
        owner: String,
        extension: Option<String>,
    ) -> (r: Result<String, ContractError>)
        requires
            old(self).wf(),
            old(catalog).wf(),
            old(self).supply() < u64::MAX,
            spec_counters_ok(*old(catalog)),
            old(catalog).specials().contains_key(item_id@),
        ensures
            final(self).wf(),
            final(catalog).wf(),
            r is Err ==> *final(self) == *old(self) && *final(catalog) == *old(catalog),
            match r {
                Ok(tid) => spec_path_ok(
                    *old(self),
                    *old(catalog),
                    *final(self),
                    *final(catalog),
                    BlockInfo { height: 0, time: 0 },
                    Seq::<char>::empty(),
                    owner,
                    extension,
                    TokenType::GloNFT(GloNFTType::Special { item_id: *item_id }),
                    tid,
                ),
                Err(e) => spec_path_err(
                    *old(self),
                    *old(catalog),
                    BlockInfo { height: 0, time: 0 },
                    Seq::<char>::empty(),
                    TokenType::GloNFT(GloNFTType::Special { item_id: *item_id }),
                    e,
                ),
            },
    {
        proof {
            assert(spec_opt0(old(catalog).specials()[item_id@].count) < u64::MAX);
        }
        let new_count: u64 = match catalog.get_special_glonft(item_id) {
            Some(g) => {
                match g.count {
                    Some(c) => c + 1,
                    None => 1,
                }
            },
            None => {
                proof {
                    assert(false);
                }
                return Err(ContractError::Claimed {});
            },
        };
        let tid = format_token_id(item_id, new_count);
        if self.has_token(&tid) {
            return Err(ContractError::Claimed {});
        }
        let (uri, _count) = catalog.bump_special(item_id);
        let token = TokenInfo { owner, approvals: Vec::new(), token_uri: Some(uri), extension };
        match self.create(tid.clone(), token) {
            Ok(_) => Ok(tid),
            Err(_) => {
                proof {
                    assert(false);
                }
                Err(ContractError::Claimed {})
            },
        }
    }
}

impl Cw721Contract {
    /// Performs a combined opening: both input tokens must be the
    /// caller's, the chip pack's season-assigned key for its rarity must
    /// equal the key token's base id, a weighted draw picks the output
    /// item, both inputs burn and the drawn item mints — all or nothing.
    fn get_opening(
        &mut self,
        catalog: &mut Catalog,
        block: &BlockInfo,
        sender: &String,
        glochip_id: &String,
        key_id: &String,
        owner: String,
        extension: Option<String>,
    ) -> (r: Result<String, ContractError>)
        requires
            old(self).wf(),
            old(catalog).wf(),
            spec_counters_ok(*old(catalog)),
        ensures
            final(self).wf(),
            final(catalog).wf(),
            r is Err ==> *final(self) == *old(self) && *final(catalog) == *old(catalog),
            match r {
                Ok(tid) => spec_path_ok(
                    *old(self),
                    *old(catalog),
                    *final(self),
                    *final(catalog),
                    *block,
                    sender@,
                    owner,
                    extension,
                    TokenType::GloNFT(
                        GloNFTType::Opening { glochip_id: *glochip_id, key_id: *key_id },
                    ),
                    tid,
                ),
                Err(e) => spec_path_err(
                    *old(self),
                    *old(catalog),
                    *block,
                    sender@,
                    TokenType::GloNFT(
                        GloNFTType::Opening { glochip_id: *glochip_id, key_id: *key_id },
                    ),
                    e,
                ),
            },
    {
        match self.verify_token_ownership(sender, glochip_id) {
            Ok(_) => {},
            Err(e) => {
                return Err(e);
            },
        }
        match self.verify_token_ownership(sender, key_id) {
            Ok(_) => {},
            Err(e) => {
                return Err(e);
            },
        }
        let base_chip = base_of(glochip_id);
        let base_key = base_of(key_id);
        let ghost cb = base_chip@;
        let chip = match catalog.get_glochip(&base_chip) {
            Some(c) => c,
            None => {
                return Err(ContractError::GloChipNotFound { glochip_id: base_chip });
            },
        };
        let season_key: &String = match &chip.season_id {
            Some(s) => s,
            None => {
                return Err(ContractError::GloChipNotFound { glochip_id: glochip_id.clone() });
            },
        };
        proof {
            catalog.lemma_chip_invariant(cb);
        }
        let expected_match: bool = match catalog.get_season(season_key) {
            Some(season) => {
                let slot: &Option<String> = match chip.rarity {
                    Rarity::Generic => &season.generic_key,
                    Rarity::Esoteric => &season.esoteric_key,
                    Rarity::Spectral => &season.spectral_key,
                };
                match slot {
                    Some(k) => *k == base_key,
                    None => false,
                }
            },
            None => {
                proof {
                    assert(false);
                }
                false
            },
        };
        if !expected_match {
            return Err(ContractError::InvalidKey {});
        }
        let draw = entropy_draw(block.time, sender, &chip.id);
        let sel = match select_item_index(&chip.items, draw) {
            Ok(i) => i,
            Err(_) => {
                proof {
                    catalog.lemma_chip_invariant(cb);
                    lemma_selection_total(chip.items@, draw as int);
                }
                return Err(ContractError::SelectionFailed {});
            },
        };
        proof {
            lemma_selected_first(chip.items@, draw as int);
        }
        let j = first_with_id(&chip.items, sel);
        proof {
            assert(spec_opt0(old(catalog).chips()[cb].items@[j as int].count) < u64::MAX);
        }
        let new_count: u64 = match chip.items[j].count {
            Some(c) => c + 1,
            None => 1,
        };
        let item_id = chip.items[j].id.clone();
        let tid = format_token_id(&item_id, new_count);
        if *glochip_id == *key_id {
            return Err(ContractError::NotFound {});
        }
        if self.has_token(&tid) {
            if !(tid == *glochip_id) && !(tid == *key_id) {
                return Err(ContractError::Claimed {});
            }
        }
        let (_item_id2, uri, _count2) = catalog.bump_item(&base_chip, j);
        let mut burned: Vec<String> = Vec::new();
        burned.push(glochip_id.clone());
        burned.push(key_id.clone());
        proof {
            assert(burned@.len() == 2);
            assert(burned@[0]@ == glochip_id@);
            assert(burned@[1]@ == key_id@);
        }
        match self.opening_burn(&burned) {
            Ok(_) => {},
            Err(_) => {
                proof {
                    assert(false);
                }
                return Err(ContractError::NotFound {});
            },
        }
        let token = TokenInfo { owner, approvals: Vec::new(), token_uri: Some(uri), extension };
        proof {
            let bseq = seq![glochip_id@, key_id@];
            assert forall|k: Seq<char>| crate::ledger::spec_id_in(burned@, k)
                <==> bseq.contains(k) by {
                if crate::ledger::spec_id_in(burned@, k) {
                    let w = choose|w: int|
                        0 <= w < burned@.len() && (#[trigger] burned@[w])@ == k;
                    assert(bseq[w] == k);
                }
                if bseq.contains(k) {
                    let w = choose|w: int| 0 <= w < bseq.len() && bseq[w] == k;
                    assert(burned@[w]@ == k);
                }
            }
        }
        match self.create(tid.clone(), token) {
            Ok(_) => Ok(tid),
            Err(_) => {
                proof {
                    assert(false);
                }
                Err(ContractError::Claimed {})
            },
        }
    }

    /// Performs a special-chip opening: the caller's special chip-pack
    /// token alone is burned and the drawn item mints — all or nothing.
    fn get_special_opening(
        &mut self,
        catalog: &mut Catalog,
        block: &BlockInfo,
        sender: &String,
        special_glochip_id: &String,
        owner: String,
        extension: Option<String>,
    ) -> (r: Result<String, ContractError>)
        requires
            old(self).wf(),
            old(catalog).wf(),
            spec_counters_ok(*old(catalog)),
        ensures
            final(self).wf(),
            final(catalog).wf(),
            r is Err ==> *final(self) == *old(self) && *final(catalog) == *old(catalog),
            match r {
                Ok(tid) => spec_path_ok(
                    *old(self),
                    *old(catalog),
                    *final(self),
                    *final(catalog),
                    *block,
                    sender@,
                    owner,
                    extension,
                    TokenType::GloNFT(
                        GloNFTType::SpecialOpening { special_glochip_id: *special_glochip_id },
                    ),
                    tid,
                ),
                Err(e) => spec_path_err(
                    *old(self),
                    *old(catalog),
                    *block,
                    sender@,
                    TokenType::GloNFT(
                        GloNFTType::SpecialOpening { special_glochip_id: *special_glochip_id },
                    ),
                    e,
                ),
            },
    {
        match self.verify_token_ownership(sender, special_glochip_id) {
            Ok(_) => {},
            Err(e) => {
                return Err(e);
            },
        }
        let base_chip = base_of(special_glochip_id);
        let ghost cb = base_chip@;
        let chip = match catalog.get_glochip(&base_chip) {
            Some(c) => c,
            None => {
                return Err(ContractError::GloChipNotFound { glochip_id: base_chip });
            },
        };
        if !chip.special {
            return Err(ContractError::GloChipNotSpecial {});
        }
        let draw = entropy_draw(block.time, sender, &chip.id);
        let sel = match select_item_index(&chip.items, draw) {
            Ok(i) => i,
            Err(_) => {
                proof {
                    catalog.lemma_chip_invariant(cb);
                    lemma_selection_total(chip.items@, draw as int);
                }
                return Err(ContractError::SelectionFailed {});
            },
        };
        proof {
            lemma_selected_first(chip.items@, draw as int);
        }
        let j = first_with_id(&chip.items, sel);
        proof {
            assert(spec_opt0(old(catalog).chips()[cb].items@[j as int].count) < u64::MAX);
        }
        let new_count: u64 = match chip.items[j].count {
            Some(c) => c + 1,
            None => 1,
        };
        let item_id = chip.items[j].id.clone();
        let tid = format_token_id(&item_id, new_count);
        if self.has_token(&tid) {
            if !(tid == *special_glochip_id) {
                return Err(ContractError::Claimed {});
            }
        }
        let (_item_id2, uri, _count2) = catalog.bump_item(&base_chip, j);
        let mut burned: Vec<String> = Vec::new();
        burned.push(special_glochip_id.clone());
        proof {
            assert(burned@.len() == 1);
            assert(burned@[0]@ == special_glochip_id@);
        }
        match self.opening_burn(&burned) {
            Ok(_) => {},
            Err(_) => {
                proof {
                    assert(false);
                }
                return Err(ContractError::NotFound {});
            },
        }
        let token = TokenInfo { owner, approvals: Vec::new(), token_uri: Some(uri), extension };
        proof {
            let bseq = seq![special_glochip_id@];
            assert forall|k: Seq<char>| crate::ledger::spec_id_in(burned@, k)
                <==> bseq.contains(k) by {
                if crate::ledger::spec_id_in(burned@, k) {
                    let w = choose|w: int|
                        0 <= w < burned@.len() && (#[trigger] burned@[w])@ == k;
                    assert(bseq[w] == k);
                }
                if bseq.contains(k) {
                    let w = choose|w: int| 0 <= w < bseq.len() && bseq[w] == k;
                    assert(burned@[w]@ == k);
                }
            }
        }
        match self.create(tid.clone(), token) {
            Ok(_) => Ok(tid),
            Err(_) => {
                proof {
                    assert(false);
                }
                Err(ContractError::Claimed {})
            },
        }
    }

    /// Mints one token: resolves the request's price, checks the attached
    /// payment, runs the requested path and returns the new token id.
    /// Any failure leaves ledger and catalog exactly as they were.
    pub fn mint(
        &mut self,
        catalog: &mut Catalog,
        block: &BlockInfo,
        sender: &String,
        funds: &Vec<Coin>,
        owner: String,
        extension: Option<String>,
        token_type: TokenType,
    ) -> (r: Result<String, ContractError>)
        requires
            old(self).wf(),
            old(catalog).wf(),
            old(self).supply() < u64::MAX,
            spec_counters_ok(*old(catalog)),
        ensures
            final(self).wf(),
            final(catalog).wf(),
            r is Err ==> *final(self) == *old(self) && *final(catalog) == *old(catalog),
            match r {
                Ok(tid) => spec_mint_ok(
                    *old(self),
                    *old(catalog),
                    *final(self),
                    *final(catalog),
                    *block,
                    sender@,
                    funds@,
                    owner,
                    extension,
                    token_type,
                    tid,
                ),
                Err(e) => spec_mint_err(
                    *old(self),
                    *old(catalog),
                    *block,
                    sender@,
                    funds@,
                    token_type,
                    e,
                ),
            },
    {
        let required_price = match self.get_price(catalog, &token_type) {
            Ok(p) => p,
            Err(e) => {
                return Err(e);
            },
        };
        if required_price > 0 {
            let provided = uluna_amount(funds);
            if provided < required_price {
                return Err(ContractError::InsufficientFunds {});
            }
        }
        match &token_type {
            TokenType::GloChip(details) => {
                if details.special {
                    self.get_special_glochip(catalog, details, owner, extension)
                } else {
                    self.get_reward_glochip(catalog, block, sender, details, owner, extension)
                }
            },
            TokenType::Key(key_details) => {
                self.get_key_data(catalog, key_details, owner, extension)
            },
            TokenType::GloNFT(glonft_type) => {
                match glonft_type {
                    GloNFTType::Opening { glochip_id, key_id } => {
                        self.get_opening(catalog, block, sender, glochip_id, key_id, owner, extension)
                    },
                    GloNFTType::Special { item_id } => {
                        self.get_special(catalog, item_id, owner, extension)
                    },
                    GloNFTType::SpecialOpening { special_glochip_id } => {
                        self.get_special_opening(
                            catalog,
                            block,
                            sender,
                            special_glochip_id,
                            owner,
                            extension,
                        )
                    },
                }
            },
        }
    }
}

/// Exactly when each failure comes: the price resolution's own errors
/// first, then a short payment, then the path's checks.
pub open spec fn spec_mint_err(
    pre_l: Cw721Contract,
    pre_c: Catalog,
    block: BlockInfo,
    sender: Seq<char>,
    funds: Seq<Coin>,
    t: TokenType,
    e: ContractError,
) -> bool {
    match spec_price_of(pre_c, t) {
        Err(pe) => e == pe,
        Ok(price) => {
            if price > 0 && spec_uluna(funds) < price {
                e == (ContractError::InsufficientFunds {})
            } else {
                spec_path_err(pre_l, pre_c, block, sender, t, e)
            }
        },
    }
}

/// After any successful mint a token record with the returned id exists,
/// owned by the requested account with no approvals, and the supply
/// counter moves by exactly the records moved: up one for the purchasing
/// shapes, down one for a combined opening (two burns, one mint), and
/// unchanged for a special-chip opening (one burn, one mint).
pub proof fn lemma_mint_supply_and_record(
    pre_l: Cw721Contract,
    pre_c: Catalog,
    post_l: Cw721Contract,
    post_c: Catalog,
    block: BlockInfo,
    sender: Seq<char>,
    funds: Seq<Coin>,
    owner: String,
    extension: Option<String>,
    t: TokenType,
    tid: String,
)
    requires
        spec_mint_ok(pre_l, pre_c, post_l, post_c, block, sender, funds, owner, extension, t, tid),
    ensures
        post_l.tokens_map().contains_key(tid@),
        post_l.tokens_map()[tid@].owner == owner,
        post_l.tokens_map()[tid@].approvals@ == Seq::<Approval>::empty(),
        post_l.tokens_map()[tid@].extension == extension,
        match t {
            TokenType::GloNFT(GloNFTType::Opening { .. }) => post_l.supply() as int
                == pre_l.supply() - 1,
            TokenType::GloNFT(GloNFTType::SpecialOpening { .. }) => post_l.supply()
                == pre_l.supply(),
            _ => post_l.supply() as int == pre_l.supply() + 1,
        },
{
    match t {
        TokenType::GloNFT(gt) => {
            match gt {
                GloNFTType::Opening { glochip_id, key_id } => {
                    assert(seq![glochip_id@, key_id@].len() == 2);
                },
                GloNFTType::SpecialOpening { special_glochip_id } => {
                    assert(seq![special_glochip_id@].len() == 1);
                },
                GloNFTType::Special { .. } => {
                    assert(Seq::<Seq<char>>::empty().len() == 0);
                },
            }
        },
        _ => {
            assert(Seq::<Seq<char>>::empty().len() == 0);
        },
    }
}

/// A combined opening never succeeds unless the chip pack is bound to a
/// season whose key slot for the chip pack's rarity holds exactly the key
/// token's base id.
pub proof fn lemma_opening_requires_matching_key(
    pre_l: Cw721Contract,
    pre_c: Catalog,
    post_l: Cw721Contract,
    post_c: Catalog,
    block: BlockInfo,
    sender: Seq<char>,
    funds: Seq<Coin>,
    owner: String,
    extension: Option<String>,
    glochip_id: String,
    key_id: String,
    tid: String,
)
    requires
        spec_mint_ok(
            pre_l,
            pre_c,
            post_l,
            post_c,
            block,
            sender,
            funds,
            owner,
            extension,
            TokenType::GloNFT(GloNFTType::Opening { glochip_id, key_id }),
            tid,
        ),
    ensures
        pre_c.chips().contains_key(spec_base_of(glochip_id@)),
        pre_c.chips()[spec_base_of(glochip_id@)].season_id is Some,
        spec_key_slot(
            pre_c.seasons_map()[spec_opt_view(
                pre_c.chips()[spec_base_of(glochip_id@)].season_id,
            )->Some_0],
            pre_c.chips()[spec_base_of(glochip_id@)].rarity,
        ) == Some(spec_base_of(key_id@)),
{
}

/// After a successful combined opening both input records are gone from
/// the ledger — and, the owner index being derived from the primary map,
/// from every owner's token list — and exactly the drawn item's mint
/// counter is one higher than before. The one input an opening does not
/// leave absent is one whose id the freshly minted token reuses.
pub proof fn lemma_opening_consumes_inputs(
    pre_l: Cw721Contract,
    pre_c: Catalog,
    post_l: Cw721Contract,
    post_c: Catalog,
    block: BlockInfo,
    sender: Seq<char>,
    funds: Seq<Coin>,
    owner: String,
    extension: Option<String>,
    glochip_id: String,
    key_id: String,
    tid: String,
)
    requires
        spec_mint_ok(
            pre_l,
            pre_c,
            post_l,
            post_c,
            block,
            sender,
            funds,
            owner,
            extension,
            TokenType::GloNFT(GloNFTType::Opening { glochip_id, key_id }),
            tid,
        ),
    ensures
        tid@ != glochip_id@ ==> !post_l.tokens_map().contains_key(glochip_id@),
        tid@ != key_id@ ==> !post_l.tokens_map().contains_key(key_id@),
        post_l.supply() as int == pre_l.supply() - 1,
        ({
            let cb = spec_base_of(glochip_id@);
            let chip = pre_c.chips()[cb];
            let draw = spec_draw(block.time, sender, chip.id@);
            let sel = spec_selected(chip.items@, draw as int)->Some_0;
            let j = spec_first_with_id(chip.items@, chip.items@[sel].id@);
            &&& post_c.chips()[cb].items@[j].count == Some(
                (spec_opt0(chip.items@[j].count) + 1) as u64,
            )
            &&& forall|x: int| 0 <= x < chip.items@.len() && x != j
                ==> post_c.chips()[cb].items@[x] == chip.items@[x]
        }),
{
    let burned = seq![glochip_id@, key_id@];
    assert(burned[0] == glochip_id@);
    assert(burned[1] == key_id@);
    if tid@ != glochip_id@ {
        assert(burned.contains(glochip_id@));
        assert(!post_l.tokens_map().contains_key(glochip_id@));
    }
    if tid@ != key_id@ {
        assert(burned.contains(key_id@));
        assert(!post_l.tokens_map().contains_key(key_id@));
    }
}

} // verus!
