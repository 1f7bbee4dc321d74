//! The weighted selection engine.
//!
//! Selection is a pure function of an ordered item list and a draw value:
//! walking the list accumulates a running threshold, and the first item
//! whose cumulative threshold exceeds the draw wins. A list whose weights
//! sum to 100 therefore yields exactly one winner for every draw in
//! [0, 100); a shortfall (weights summing below the draw) is surfaced as
//! `SelectionFailed`, never patched over.

use vstd::prelude::*;
use crate::errors::ContractError;
use crate::state::{GloNFT, Rarity, RewardProbabilities};

verus! {

/// The selection weight of one item; an item without a weight counts zero.
pub open spec fn spec_weight(item: GloNFT) -> int {
    match item.probability {
        Some(p) => p as int,
        None => 0,
    }
}

/// The cumulative weight of the first `n` items.
pub open spec fn spec_weight_sum(items: Seq<GloNFT>, n: int) -> int
    decreases n,
{
    if n <= 0 {
        0
    } else {
        spec_weight_sum(items, n - 1) + spec_weight(items[n - 1])
    }
}

/// The first index at or after `n` whose cumulative weight exceeds `draw`.
pub open spec fn spec_selected_from(items: Seq<GloNFT>, draw: int, n: int) -> Option<int>
    decreases items.len() - n,
{
    if n < 0 || n >= items.len() {
        None
    } else if spec_weight_sum(items, n + 1) > draw {
        Some(n)
    } else {
        spec_selected_from(items, draw, n + 1)
    }
}

/// The winning index of a draw over an ordered weighted list.
pub open spec fn spec_selected(items: Seq<GloNFT>, draw: int) -> Option<int> {
    spec_selected_from(items, draw, 0)
}

proof fn lemma_selected_from_props(items: Seq<GloNFT>, draw: int, n: int)
    requires
        0 <= n <= items.len(),
    ensures
        match spec_selected_from(items, draw, n) {
            Some(i) => {
                &&& n <= i < items.len()
                &&& spec_weight_sum(items, i + 1) > draw
                &&& forall|m: int| n <= m < i ==> #[trigger] spec_weight_sum(items, m + 1) <= draw
            },
            None => forall|m: int| n <= m < items.len() ==> #[trigger] spec_weight_sum(items, m + 1) <= draw,
        },
    decreases items.len() - n,
{
    if n < items.len() && spec_weight_sum(items, n + 1) <= draw {
        lemma_selected_from_props(items, draw, n + 1);
    }
}

/// What the winner means: its threshold exceeds the draw and no earlier
/// one does, so at most one item ever wins; with no winner, no threshold
/// exceeds the draw at all.
pub proof fn lemma_selected_first(items: Seq<GloNFT>, draw: int)
    ensures
        match spec_selected(items, draw) {
            Some(i) => {
                &&& 0 <= i < items.len()
                &&& spec_weight_sum(items, i + 1) > draw
                &&& forall|m: int| 0 <= m < i ==> #[trigger] spec_weight_sum(items, m + 1) <= draw
            },
            None => forall|m: int| 0 <= m < items.len() ==> #[trigger] spec_weight_sum(items, m + 1) <= draw,
        },
{
    lemma_selected_from_props(items, draw, 0);
}

/// Weighted selection over a list whose weights sum past the draw always
/// returns exactly one winning index; in particular, weights summing to
/// exactly 100 yield a winner for every draw in [0, 100).
pub proof fn lemma_selection_total(items: Seq<GloNFT>, draw: int)
    requires
        0 <= draw < spec_weight_sum(items, items.len() as int),
    ensures
        spec_selected(items, draw) is Some,
{
    lemma_selected_from_props(items, draw, 0);
    if spec_selected(items, draw) is None {
        assert(spec_weight_sum(items, (items.len() - 1) + 1) <= draw);
    }
}

/// Two lists with pointwise equal weights accumulate equal thresholds.
pub proof fn lemma_weight_sum_congruence(a: Seq<GloNFT>, b: Seq<GloNFT>, n: int)
    requires
        n <= a.len(),
        n <= b.len(),
        forall|i: int| 0 <= i < n ==> a[i].probability == b[i].probability,
    ensures
        spec_weight_sum(a, n) == spec_weight_sum(b, n),
    decreases n,
{
    if n > 0 {
        lemma_weight_sum_congruence(a, b, n - 1);
    }
}

/// Adds up the selection weights of a whole item list.
pub fn weights_total(items: &Vec<GloNFT>) -> (r: u128)
    ensures
        r as int == spec_weight_sum(items@, items@.len() as int),
{
    let n = items.len();
    let mut total: u128 = 0;
    for i in 0..n
        invariant
            n == items@.len(),
            total as int == spec_weight_sum(items@, i as int),
            total <= 255 * i,
    {
        let w: u8 = match items[i].probability {
            Some(p) => p,
            None => 0,
        };
        total = total + (w as u128);
    }
    total
}

/// Walks the ordered item list and returns the first index whose running
/// threshold exceeds the draw; fails `SelectionFailed` if the thresholds
/// never exceed it.
pub fn select_item_index(items: &Vec<GloNFT>, draw: u8) -> (r: Result<usize, ContractError>)
    ensures
        match r {
            Ok(i) => spec_selected(items@, draw as int) == Some(i as int),
            Err(e) => {
                &&& e == (ContractError::SelectionFailed {})
                &&& spec_selected(items@, draw as int) is None
            },
        },
{
    let n = items.len();
    let mut threshold: u128 = 0;
    for i in 0..n
        invariant
            n == items@.len(),
            threshold as int == spec_weight_sum(items@, i as int),
            threshold <= 255 * i,
            spec_selected(items@, draw as int) == spec_selected_from(
                items@,
                draw as int,
                i as int,
            ),
    {
        let w: u8 = match items[i].probability {
            Some(p) => p,
            None => 0,
        };
        threshold = threshold + (w as u128);
        if (draw as u128) < threshold {
            return Ok(i);
        }
    }
    Err(ContractError::SelectionFailed {})
}

/// The rarity tier a reward draw resolves to under a probability row.
pub open spec fn spec_reward_rarity(probs: RewardProbabilities, draw: int) -> Rarity {
    if draw < probs.generic {
        Rarity::Generic
    } else if draw < probs.generic + probs.esoteric {
        Rarity::Esoteric
    } else {
        Rarity::Spectral
    }
}

/// Resolves a reward draw against a probability row.
pub fn reward_rarity(probs: &RewardProbabilities, draw: u8) -> (r: Rarity)
    ensures
        r == spec_reward_rarity(*probs, draw as int),
{
    if draw < probs.generic {
        Rarity::Generic
    } else if (draw as u16) < (probs.generic as u16) + (probs.esoteric as u16) {
        Rarity::Esoteric
    } else {
        Rarity::Spectral
    }
}

} // verus!
