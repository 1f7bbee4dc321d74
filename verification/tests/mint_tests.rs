use minter::catalog::Catalog;
use minter::errors::ContractError;
use minter::ledger::Cw721Contract;
use minter::state::{
    BlockInfo, Coin, GloChipDetails, GloNFTType, KeyDetails, KeyType, PerformanceCategoryType,
    PriceUpdateType, Rarity, RewardProbabilities, TokenType, GloNFT,
};

const ADMIN: &str = "admin";

fn setup() -> (Cw721Contract, Catalog) {
    let ledger = Cw721Contract::instantiate("C".to_string(), "C".to_string(), ADMIN.to_string());
    (ledger, Catalog::new())
}

fn block(time: u64) -> BlockInfo {
    BlockInfo { height: 1, time }
}

fn uluna(amount: u128) -> Vec<Coin> {
    vec![Coin { denom: "uluna".to_string(), amount }]
}

fn chip_items() -> Vec<GloNFT> {
    vec![
        GloNFT {
            id: "item_a".to_string(),
            rarity: Rarity::Generic,
            uri: "ipfs://item_a".to_string(),
            count: None,
            price: None,
            probability: Some(60),
        },
        GloNFT {
            id: "item_b".to_string(),
            rarity: Rarity::Generic,
            uri: "ipfs://item_b".to_string(),
            count: None,
            price: None,
            probability: Some(40),
        },
    ]
}

fn fixed_collectible(id: &str, price: Option<u128>) -> GloNFT {
    GloNFT {
        id: id.to_string(),
        rarity: Rarity::Spectral,
        uri: format!("ipfs://{id}"),
        count: None,
        price,
        probability: None,
    }
}

fn special_request(t: &str) -> TokenType {
    TokenType::GloNFT(GloNFTType::Special { item_id: t.to_string() })
}

/// Creates a season with a generic chip pack and key bound, sets key
/// pricing, and hands a chip token and a key token to `user`.
fn open_ready(ledger: &mut Cw721Contract, cat: &mut Catalog, user: &str) -> (String, String) {
    let admin = ADMIN.to_string();
    ledger.create_season(cat, &admin, "s1".to_string()).unwrap();
    ledger
        .create_glochip(
            cat,
            &admin,
            Rarity::Generic,
            "chip".to_string(),
            "ipfs://chip".to_string(),
            false,
            None,
            chip_items(),
        )
        .unwrap();
    ledger
        .create_key(cat, &admin, Rarity::Generic, "key".to_string(), "ipfs://key".to_string())
        .unwrap();
    ledger
        .add_glochip_to_season(cat, &admin, "s1".to_string(), "chip".to_string(), Rarity::Generic)
        .unwrap();
    ledger
        .add_key_to_season(cat, &admin, "s1".to_string(), "key".to_string(), KeyType::GenericKey)
        .unwrap();
    ledger
        .update_prices(
            cat,
            &admin,
            PriceUpdateType::HoloKeyPrices {
                generic_price: Some(10),
                esoteric_price: None,
                spectral_price: None,
            },
        )
        .unwrap();
    // The admin draws a reward chip pack for the user; find a timestamp
    // whose draw resolves to the generic tier so the bound chip is hit.
    let probs = RewardProbabilities::for_performance_category(&PerformanceCategoryType::Tier1);
    let mut time: u64 = 1;
    while ledger.select_reward_type(time, &admin, probs) != Rarity::Generic {
        time += 1;
    }
    let chip_token = ledger
        .mint(
            cat,
            &block(time),
            &admin,
            &vec![],
            user.to_string(),
            None,
            TokenType::GloChip(GloChipDetails {
                special: false,
                glochip_id: None,
                performance_category: Some(PerformanceCategoryType::Tier1),
                season_id: Some("s1".to_string()),
            }),
        )
        .unwrap();
    let key_token = ledger
        .mint(
            cat,
            &block(5),
            &user.to_string(),
            &uluna(10),
            user.to_string(),
            None,
            TokenType::Key(KeyDetails { key_id: "key".to_string(), season_id: "s1".to_string() }),
        )
        .unwrap();
    (chip_token, key_token)
}

#[test]
fn fixed_collectible_requires_exact_funds_and_counts_mints() {
    let (mut ledger, mut cat) = setup();
    let admin = ADMIN.to_string();
    ledger
        .create_special_glonfts(&mut cat, &admin, vec![fixed_collectible("n1", Some(100))])
        .unwrap();
    let short = ledger.mint(
        &mut cat,
        &block(7),
        &"buyer".to_string(),
        &uluna(99),
        "buyer".to_string(),
        None,
        special_request("n1"),
    );
    assert_eq!(short, Err(ContractError::InsufficientFunds {}));
    assert_eq!(ledger.token_count(), 0);
    let minted = ledger
        .mint(
            &mut cat,
            &block(7),
            &"buyer".to_string(),
            &uluna(100),
            "buyer".to_string(),
            None,
            special_request("n1"),
        )
        .unwrap();
    assert_eq!(minted, "n1_1");
    assert_eq!(cat.get_special_glonft(&"n1".to_string()).unwrap().count, Some(1));
    assert_eq!(ledger.token_count(), 1);
    assert_eq!(ledger.owner_of(&minted).unwrap(), "buyer");
}

#[test]
fn fixed_collectible_without_price_cannot_be_bought() {
    let (mut ledger, mut cat) = setup();
    let admin = ADMIN.to_string();
    ledger
        .create_special_glonfts(&mut cat, &admin, vec![fixed_collectible("n1", None)])
        .unwrap();
    let r = ledger.mint(
        &mut cat,
        &block(7),
        &"buyer".to_string(),
        &uluna(100),
        "buyer".to_string(),
        None,
        special_request("n1"),
    );
    assert_eq!(r, Err(ContractError::PriceNotSet {}));
    let missing = ledger.mint(
        &mut cat,
        &block(7),
        &"buyer".to_string(),
        &uluna(100),
        "buyer".to_string(),
        None,
        special_request("ghost"),
    );
    assert_eq!(missing, Err(ContractError::InvalidSpecialGloNFT {}));
}

#[test]
fn special_chip_pack_purchase_mints_sequential_ids() {
    let (mut ledger, mut cat) = setup();
    let admin = ADMIN.to_string();
    ledger
        .create_glochip(
            &mut cat,
            &admin,
            Rarity::Generic,
            "sc".to_string(),
            "ipfs://sc".to_string(),
            true,
            Some(5),
            chip_items(),
        )
        .unwrap();
    let request = TokenType::GloChip(GloChipDetails {
        special: true,
        glochip_id: Some("sc".to_string()),
        performance_category: None,
        season_id: None,
    });
    let first = ledger
        .mint(&mut cat, &block(1), &"b".to_string(), &uluna(5), "b".to_string(), None, request.clone())
        .unwrap();
    let second = ledger
        .mint(&mut cat, &block(2), &"b".to_string(), &uluna(5), "b".to_string(), None, request)
        .unwrap();
    assert_eq!(first, "sc_1");
    assert_eq!(second, "sc_2");
    assert_eq!(cat.get_glochip(&"sc".to_string()).unwrap().count, 2);
    assert_eq!(ledger.token_count(), 2);
}

#[test]
fn special_chip_pack_requests_validate_their_shape() {
    let (mut ledger, mut cat) = setup();
    let admin = ADMIN.to_string();
    // A non-special chip pack with a price set is still not buyable directly.
    ledger
        .create_glochip(
            &mut cat,
            &admin,
            Rarity::Generic,
            "plain".to_string(),
            "u".to_string(),
            false,
            Some(5),
            chip_items(),
        )
        .unwrap();
    let not_special = ledger.mint(
        &mut cat,
        &block(1),
        &"b".to_string(),
        &uluna(5),
        "b".to_string(),
        None,
        TokenType::GloChip(GloChipDetails {
            special: true,
            glochip_id: Some("plain".to_string()),
            performance_category: None,
            season_id: None,
        }),
    );
    assert_eq!(not_special, Err(ContractError::GloChipNotSpecial {}));
    let no_id = ledger.mint(
        &mut cat,
        &block(1),
        &"b".to_string(),
        &uluna(5),
        "b".to_string(),
        None,
        TokenType::GloChip(GloChipDetails {
            special: true,
            glochip_id: None,
            performance_category: None,
            season_id: None,
        }),
    );
    assert_eq!(no_id, Err(ContractError::MissingGloChipID {}));
    let absent = ledger.mint(
        &mut cat,
        &block(1),
        &"b".to_string(),
        &uluna(5),
        "b".to_string(),
        None,
        TokenType::GloChip(GloChipDetails {
            special: true,
            glochip_id: Some("ghost".to_string()),
            performance_category: None,
            season_id: None,
        }),
    );
    assert!(matches!(absent, Err(ContractError::GloChipNotFound { .. })));
}

#[test]
fn key_purchase_resolves_tier_price() {
    let (mut ledger, mut cat) = setup();
    let admin = ADMIN.to_string();
    ledger
        .create_key(&mut cat, &admin, Rarity::Generic, "key".to_string(), "u".to_string())
        .unwrap();
    let request = TokenType::Key(KeyDetails {
        key_id: "key".to_string(),
        season_id: "s1".to_string(),
    });
    let unpriced = ledger.mint(
        &mut cat,
        &block(1),
        &"b".to_string(),
        &uluna(10),
        "b".to_string(),
        None,
        request.clone(),
    );
    assert_eq!(unpriced, Err(ContractError::PriceNotSet {}));
    ledger
        .update_prices(
            &mut cat,
            &admin,
            PriceUpdateType::HoloKeyPrices {
                generic_price: Some(10),
                esoteric_price: None,
                spectral_price: None,
            },
        )
        .unwrap();
    let minted = ledger
        .mint(&mut cat, &block(1), &"b".to_string(), &uluna(10), "b".to_string(), None, request)
        .unwrap();
    assert_eq!(minted, "key_1");
    assert_eq!(cat.get_holokey(&"key".to_string()).unwrap().count, 1);
    let missing = ledger.mint(
        &mut cat,
        &block(1),
        &"b".to_string(),
        &uluna(10),
        "b".to_string(),
        None,
        TokenType::Key(KeyDetails { key_id: "ghost".to_string(), season_id: "s".to_string() }),
    );
    assert_eq!(missing, Err(ContractError::KeyNotFound { key_id: "ghost".to_string() }));
}

#[test]
fn reward_draw_is_admin_gated_and_needs_a_bound_season() {
    let (mut ledger, mut cat) = setup();
    let admin = ADMIN.to_string();
    ledger.create_season(&mut cat, &admin, "s1".to_string()).unwrap();
    let request = |category: Option<PerformanceCategoryType>| {
        TokenType::GloChip(GloChipDetails {
            special: false,
            glochip_id: None,
            performance_category: category,
            season_id: Some("s1".to_string()),
        })
    };
    let not_admin = ledger.mint(
        &mut cat,
        &block(1),
        &"mallory".to_string(),
        &vec![],
        "m".to_string(),
        None,
        request(Some(PerformanceCategoryType::Tier1)),
    );
    assert_eq!(not_admin, Err(ContractError::NotOwner {}));
    let no_category = ledger.mint(
        &mut cat,
        &block(1),
        &admin,
        &vec![],
        "u".to_string(),
        None,
        request(None),
    );
    assert_eq!(no_category, Err(ContractError::PerformanceCategoryNotProvided {}));
    // No chip pack bound for the drawn tier.
    let unbound = ledger.mint(
        &mut cat,
        &block(1),
        &admin,
        &vec![],
        "u".to_string(),
        None,
        request(Some(PerformanceCategoryType::Tier1)),
    );
    assert_eq!(unbound, Err(ContractError::InvalidRarityForSeason {}));
    let no_season = ledger.mint(
        &mut cat,
        &block(1),
        &admin,
        &vec![],
        "u".to_string(),
        None,
        TokenType::GloChip(GloChipDetails {
            special: false,
            glochip_id: None,
            performance_category: Some(PerformanceCategoryType::Tier1),
            season_id: Some("ghost".to_string()),
        }),
    );
    assert_eq!(no_season, Err(ContractError::SeasonNotFound {}));
}

#[test]
fn combined_opening_burns_inputs_and_mints_the_drawn_item() {
    let (mut ledger, mut cat) = setup();
    let user = "user".to_string();
    let (chip_token, key_token) = open_ready(&mut ledger, &mut cat, "user");
    assert_eq!(ledger.token_count(), 2);
    let minted = ledger
        .mint(
            &mut cat,
            &block(99),
            &user,
            &vec![],
            user.clone(),
            None,
            TokenType::GloNFT(GloNFTType::Opening {
                glochip_id: chip_token.clone(),
                key_id: key_token.clone(),
            }),
        )
        .unwrap();
    // Both inputs are gone from the ledger; the output is owned by the user.
    assert!(!ledger.has_token(&chip_token));
    assert!(!ledger.has_token(&key_token));
    assert_eq!(ledger.token_count(), 1);
    assert_eq!(ledger.owner_of(&minted).unwrap(), user);
    // Exactly one item counter moved from zero to one.
    let chip = cat.get_glochip(&"chip".to_string()).unwrap();
    let counts: Vec<Option<u64>> = chip.items.iter().map(|i| i.count).collect();
    assert!(counts == vec![Some(1), Some(0)] || counts == vec![Some(0), Some(1)]);
    let winner = if counts[0] == Some(1) { "item_a" } else { "item_b" };
    assert_eq!(minted, format!("{winner}_1"));
}

#[test]
fn opening_with_the_wrong_key_changes_nothing() {
    let (mut ledger, mut cat) = setup();
    let admin = ADMIN.to_string();
    let user = "user".to_string();
    let (chip_token, _key_token) = open_ready(&mut ledger, &mut cat, "user");
    // A second generic key, unbound to the season, minted for the user.
    ledger
        .create_key(&mut cat, &admin, Rarity::Generic, "other".to_string(), "u".to_string())
        .unwrap();
    let wrong_key_token = ledger
        .mint(
            &mut cat,
            &block(6),
            &user,
            &uluna(10),
            user.clone(),
            None,
            TokenType::Key(KeyDetails {
                key_id: "other".to_string(),
                season_id: "s1".to_string(),
            }),
        )
        .unwrap();
    let supply_before = ledger.token_count();
    let r = ledger.mint(
        &mut cat,
        &block(99),
        &user,
        &vec![],
        user.clone(),
        None,
        TokenType::GloNFT(GloNFTType::Opening {
            glochip_id: chip_token.clone(),
            key_id: wrong_key_token.clone(),
        }),
    );
    assert_eq!(r, Err(ContractError::InvalidKey {}));
    // Ledger and catalog are untouched.
    assert!(ledger.has_token(&chip_token));
    assert!(ledger.has_token(&wrong_key_token));
    assert_eq!(ledger.token_count(), supply_before);
    let chip = cat.get_glochip(&"chip".to_string()).unwrap();
    assert_eq!(chip.items[0].count, Some(0));
    assert_eq!(chip.items[1].count, Some(0));
}

#[test]
fn opening_requires_owning_both_inputs() {
    let (mut ledger, mut cat) = setup();
    let (chip_token, key_token) = open_ready(&mut ledger, &mut cat, "user");
    let r = ledger.mint(
        &mut cat,
        &block(99),
        &"mallory".to_string(),
        &vec![],
        "mallory".to_string(),
        None,
        TokenType::GloNFT(GloNFTType::Opening { glochip_id: chip_token, key_id: key_token }),
    );
    assert_eq!(r, Err(ContractError::Unauthorized {}));
}

#[test]
fn special_opening_burns_the_chip_token_alone() {
    let (mut ledger, mut cat) = setup();
    let admin = ADMIN.to_string();
    let user = "user".to_string();
    ledger
        .create_glochip(
            &mut cat,
            &admin,
            Rarity::Generic,
            "sc".to_string(),
            "u".to_string(),
            true,
            Some(5),
            chip_items(),
        )
        .unwrap();
    let chip_token = ledger
        .mint(
            &mut cat,
            &block(1),
            &user,
            &uluna(5),
            user.clone(),
            None,
            TokenType::GloChip(GloChipDetails {
                special: true,
                glochip_id: Some("sc".to_string()),
                performance_category: None,
                season_id: None,
            }),
        )
        .unwrap();
    let minted = ledger
        .mint(
            &mut cat,
            &block(50),
            &user,
            &vec![],
            user.clone(),
            None,
            TokenType::GloNFT(GloNFTType::SpecialOpening {
                special_glochip_id: chip_token.clone(),
            }),
        )
        .unwrap();
    assert!(!ledger.has_token(&chip_token));
    assert_eq!(ledger.token_count(), 1);
    assert_eq!(ledger.owner_of(&minted).unwrap(), user);
}

#[test]
fn special_opening_rejects_plain_chip_packs() {
    let (mut ledger, mut cat) = setup();
    let user = "user".to_string();
    let (chip_token, _key) = open_ready(&mut ledger, &mut cat, "user");
    let r = ledger.mint(
        &mut cat,
        &block(50),
        &user,
        &vec![],
        user.clone(),
        None,
        TokenType::GloNFT(GloNFTType::SpecialOpening { special_glochip_id: chip_token }),
    );
    assert_eq!(r, Err(ContractError::GloChipNotSpecial {}));
}

#[test]
fn colliding_token_ids_are_claimed() {
    let (mut ledger, mut cat) = setup();
    let admin = ADMIN.to_string();
    // A special chip pack and a fixed collectible under the same base id:
    // both want to mint "c_1".
    ledger
        .create_glochip(
            &mut cat,
            &admin,
            Rarity::Generic,
            "c".to_string(),
            "u".to_string(),
            true,
            Some(1),
            chip_items(),
        )
        .unwrap();
    ledger
        .create_special_glonfts(&mut cat, &admin, vec![fixed_collectible("c", Some(1))])
        .unwrap();
    let first = ledger
        .mint(
            &mut cat,
            &block(1),
            &"b".to_string(),
            &uluna(1),
            "b".to_string(),
            None,
            TokenType::GloChip(GloChipDetails {
                special: true,
                glochip_id: Some("c".to_string()),
                performance_category: None,
                season_id: None,
            }),
        )
        .unwrap();
    assert_eq!(first, "c_1");
    let clash = ledger.mint(
        &mut cat,
        &block(2),
        &"b".to_string(),
        &uluna(1),
        "b".to_string(),
        None,
        special_request("c"),
    );
    assert_eq!(clash, Err(ContractError::Claimed {}));
    // The failed mint moved no counter.
    assert_eq!(cat.get_special_glonft(&"c".to_string()).unwrap().count, None);
}
