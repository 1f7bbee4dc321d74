use minter::errors::ContractError;
use minter::select::{reward_rarity, select_item_index, weights_total};
use minter::state::{GloNFT, PerformanceCategoryType, Rarity, RewardProbabilities};

fn weighted_item(id: &str, weight: u8) -> GloNFT {
    GloNFT {
        id: id.to_string(),
        rarity: Rarity::Generic,
        uri: format!("ipfs://{id}"),
        count: Some(0),
        price: None,
        probability: Some(weight),
    }
}

#[test]
fn draw_59_selects_a_draw_60_and_99_select_b() {
    let items = vec![weighted_item("a", 60), weighted_item("b", 40)];
    assert_eq!(select_item_index(&items, 59), Ok(0));
    assert_eq!(select_item_index(&items, 60), Ok(1));
    assert_eq!(select_item_index(&items, 99), Ok(1));
}

#[test]
fn full_weight_list_always_selects_exactly_one_item() {
    let items = vec![weighted_item("a", 25), weighted_item("b", 35), weighted_item("c", 40)];
    assert_eq!(weights_total(&items), 100);
    for draw in 0..100u8 {
        let winner = select_item_index(&items, draw).unwrap();
        assert!(winner < items.len());
        let expected = if draw < 25 {
            0
        } else if draw < 60 {
            1
        } else {
            2
        };
        assert_eq!(winner, expected, "draw {draw}");
    }
}

#[test]
fn short_weights_surface_selection_failure() {
    let items = vec![weighted_item("a", 30), weighted_item("b", 20)];
    assert_eq!(select_item_index(&items, 49), Ok(1));
    assert_eq!(select_item_index(&items, 50), Err(ContractError::SelectionFailed {}));
    assert_eq!(select_item_index(&items, 99), Err(ContractError::SelectionFailed {}));
}

#[test]
fn unweighted_items_count_zero() {
    let mut items = vec![weighted_item("a", 100)];
    items.insert(
        0,
        GloNFT {
            id: "fixed".to_string(),
            rarity: Rarity::Spectral,
            uri: "ipfs://fixed".to_string(),
            count: None,
            price: Some(5),
            probability: None,
        },
    );
    assert_eq!(weights_total(&items), 100);
    assert_eq!(select_item_index(&items, 0), Ok(1));
}

#[test]
fn reward_probability_table_rows() {
    let t1 = RewardProbabilities::for_performance_category(&PerformanceCategoryType::Tier1);
    assert_eq!((t1.generic, t1.esoteric, t1.spectral), (60, 30, 10));
    let t3 = RewardProbabilities::for_performance_category(&PerformanceCategoryType::Tier3);
    assert_eq!((t3.generic, t3.esoteric, t3.spectral), (50, 30, 20));
    let t6 = RewardProbabilities::for_performance_category(&PerformanceCategoryType::Tier6);
    assert_eq!((t6.generic, t6.esoteric, t6.spectral), (25, 35, 40));
    let none = RewardProbabilities::for_performance_category(&PerformanceCategoryType::Unrated);
    assert_eq!((none.generic, none.esoteric, none.spectral), (0, 0, 0));
}

#[test]
fn reward_rarity_thresholds() {
    let t1 = RewardProbabilities::for_performance_category(&PerformanceCategoryType::Tier1);
    assert_eq!(reward_rarity(&t1, 0), Rarity::Generic);
    assert_eq!(reward_rarity(&t1, 59), Rarity::Generic);
    assert_eq!(reward_rarity(&t1, 60), Rarity::Esoteric);
    assert_eq!(reward_rarity(&t1, 89), Rarity::Esoteric);
    assert_eq!(reward_rarity(&t1, 90), Rarity::Spectral);
    assert_eq!(reward_rarity(&t1, 99), Rarity::Spectral);
}
