use minter::catalog::Catalog;
use minter::errors::ContractError;
use minter::ledger::Cw721Contract;
use minter::state::{GloNFT, KeyType, PriceUpdateType, Rarity, SeasonEditType, TokenType, KeyDetails};

fn admin_ledger() -> Cw721Contract {
    Cw721Contract::instantiate("C".to_string(), "C".to_string(), "admin".to_string())
}

fn item(id: &str, weight: u8) -> GloNFT {
    GloNFT {
        id: id.to_string(),
        rarity: Rarity::Generic,
        uri: format!("ipfs://{id}"),
        count: None,
        price: None,
        probability: Some(weight),
    }
}

fn make_chip(
    ledger: &Cw721Contract,
    cat: &mut Catalog,
    id: &str,
    rarity: Rarity,
    special: bool,
    price: Option<u128>,
) {
    ledger
        .create_glochip(
            cat,
            &"admin".to_string(),
            rarity,
            id.to_string(),
            format!("ipfs://{id}"),
            special,
            price,
            vec![item("a", 60), item("b", 40)],
        )
        .unwrap();
}

#[test]
fn season_creation_is_unique_and_owner_gated() {
    let ledger = admin_ledger();
    let mut cat = Catalog::new();
    let admin = "admin".to_string();
    assert_eq!(ledger.create_season(&mut cat, &admin, "s1".to_string()), Ok(()));
    assert_eq!(
        ledger.create_season(&mut cat, &admin, "s1".to_string()),
        Err(ContractError::SeasonAlreadyExists {})
    );
    assert_eq!(
        ledger.create_season(&mut cat, &"mallory".to_string(), "s2".to_string()),
        Err(ContractError::NotOwner {})
    );
    let season = cat.get_season(&"s1".to_string()).unwrap();
    assert_eq!(season.id, "s1");
    assert!(season.generic_glochip.is_none());
    assert!(season.generic_key.is_none());
}

#[test]
fn chip_pack_weights_must_sum_to_one_hundred() {
    let ledger = admin_ledger();
    let mut cat = Catalog::new();
    let admin = "admin".to_string();
    let bad = ledger.create_glochip(
        &mut cat,
        &admin,
        Rarity::Generic,
        "c1".to_string(),
        "u".to_string(),
        false,
        None,
        vec![item("a", 60), item("b", 30)],
    );
    assert_eq!(bad, Err(ContractError::InvalidProbability {}));
    assert!(cat.get_glochip(&"c1".to_string()).is_none());
    make_chip(&ledger, &mut cat, "c1", Rarity::Generic, false, None);
    let chip = cat.get_glochip(&"c1".to_string()).unwrap();
    assert_eq!(chip.count, 0);
    assert_eq!(chip.items[0].count, Some(0));
    assert_eq!(chip.items[1].count, Some(0));
    let dup = ledger.create_glochip(
        &mut cat,
        &admin,
        Rarity::Generic,
        "c1".to_string(),
        "u".to_string(),
        false,
        None,
        vec![item("a", 100)],
    );
    assert_eq!(dup, Err(ContractError::AlreadyExists {}));
}

#[test]
fn editing_items_revalidates_the_weight_sum() {
    let ledger = admin_ledger();
    let mut cat = Catalog::new();
    let admin = "admin".to_string();
    make_chip(&ledger, &mut cat, "c1", Rarity::Generic, false, None);
    let bad = ledger.edit_glochip(
        &mut cat,
        &admin,
        "c1".to_string(),
        None,
        None,
        Some(vec![item("a", 99)]),
    );
    assert_eq!(bad, Err(ContractError::InvalidProbability {}));
    // The failed edit left the prior record untouched.
    let chip = cat.get_glochip(&"c1".to_string()).unwrap();
    assert_eq!(chip.items.len(), 2);
    let ok = ledger.edit_glochip(
        &mut cat,
        &admin,
        "c1".to_string(),
        None,
        Some("ipfs://new".to_string()),
        Some(vec![item("a", 100)]),
    );
    assert_eq!(ok, Ok(()));
    let chip = cat.get_glochip(&"c1".to_string()).unwrap();
    assert_eq!(chip.uri, "ipfs://new");
    assert_eq!(chip.items.len(), 1);
}

#[test]
fn binding_a_mismatched_key_rarity_fails_before_any_write() {
    let ledger = admin_ledger();
    let mut cat = Catalog::new();
    let admin = "admin".to_string();
    ledger.create_season(&mut cat, &admin, "s1".to_string()).unwrap();
    ledger
        .create_key(&mut cat, &admin, Rarity::Esoteric, "k1".to_string(), "u".to_string())
        .unwrap();
    let r = ledger.add_key_to_season(
        &mut cat,
        &admin,
        "s1".to_string(),
        "k1".to_string(),
        KeyType::GenericKey,
    );
    assert_eq!(r, Err(ContractError::MismatchedRarities {}));
    // Season and key both remain unbound.
    assert!(cat.get_season(&"s1".to_string()).unwrap().generic_key.is_none());
    assert!(cat.get_holokey(&"k1".to_string()).unwrap().season_id.is_none());
}

#[test]
fn season_binding_is_bidirectional_and_first_bind_wins() {
    let ledger = admin_ledger();
    let mut cat = Catalog::new();
    let admin = "admin".to_string();
    ledger.create_season(&mut cat, &admin, "s1".to_string()).unwrap();
    ledger.create_season(&mut cat, &admin, "s2".to_string()).unwrap();
    make_chip(&ledger, &mut cat, "c1", Rarity::Generic, false, None);
    make_chip(&ledger, &mut cat, "c2", Rarity::Generic, false, None);
    assert_eq!(
        ledger.add_glochip_to_season(
            &mut cat,
            &admin,
            "s1".to_string(),
            "c1".to_string(),
            Rarity::Generic,
        ),
        Ok(())
    );
    let season = cat.get_season(&"s1".to_string()).unwrap();
    assert_eq!(season.generic_glochip, Some("c1".to_string()));
    let chip = cat.get_glochip(&"c1".to_string()).unwrap();
    assert_eq!(chip.season_id, Some("s1".to_string()));
    // The occupied slot must be cleared before rebinding.
    assert_eq!(
        ledger.add_glochip_to_season(
            &mut cat,
            &admin,
            "s1".to_string(),
            "c2".to_string(),
            Rarity::Generic,
        ),
        Err(ContractError::RarityAlreadyExists {})
    );
    // A bound chip pack cannot join another season.
    assert_eq!(
        ledger.add_glochip_to_season(
            &mut cat,
            &admin,
            "s2".to_string(),
            "c1".to_string(),
            Rarity::Generic,
        ),
        Err(ContractError::GloChipAlreadyAssigned {})
    );
}

#[test]
fn key_slot_checks_mirror_chip_slot_checks() {
    let ledger = admin_ledger();
    let mut cat = Catalog::new();
    let admin = "admin".to_string();
    ledger.create_season(&mut cat, &admin, "s1".to_string()).unwrap();
    ledger
        .create_key(&mut cat, &admin, Rarity::Generic, "k1".to_string(), "u".to_string())
        .unwrap();
    ledger
        .create_key(&mut cat, &admin, Rarity::Generic, "k2".to_string(), "u".to_string())
        .unwrap();
    assert_eq!(
        ledger.add_key_to_season(
            &mut cat,
            &admin,
            "s1".to_string(),
            "k1".to_string(),
            KeyType::GenericKey,
        ),
        Ok(())
    );
    assert_eq!(cat.get_holokey(&"k1".to_string()).unwrap().season_id, Some("s1".to_string()));
    assert_eq!(
        ledger.add_key_to_season(
            &mut cat,
            &admin,
            "s1".to_string(),
            "k2".to_string(),
            KeyType::GenericKey,
        ),
        Err(ContractError::KeyAlreadyExists {})
    );
    assert_eq!(
        ledger.add_key_to_season(
            &mut cat,
            &admin,
            "s1".to_string(),
            "ghost".to_string(),
            KeyType::GenericKey,
        ),
        Err(ContractError::KeyNotFound { key_id: "ghost".to_string() })
    );
}

#[test]
fn edit_season_rename_keeps_slot_data_under_the_original_key() {
    let ledger = admin_ledger();
    let mut cat = Catalog::new();
    let admin = "admin".to_string();
    ledger.create_season(&mut cat, &admin, "s1".to_string()).unwrap();
    make_chip(&ledger, &mut cat, "c1", Rarity::Generic, false, None);
    ledger
        .add_glochip_to_season(&mut cat, &admin, "s1".to_string(), "c1".to_string(), Rarity::Generic)
        .unwrap();
    ledger
        .edit_season(
            &mut cat,
            &admin,
            "s1".to_string(),
            SeasonEditType::Rename("pretty name".to_string()),
        )
        .unwrap();
    let season = cat.get_season(&"s1".to_string()).unwrap();
    assert_eq!(season.id, "pretty name");
    assert_eq!(season.generic_glochip, Some("c1".to_string()));
    assert_eq!(cat.get_glochip(&"c1".to_string()).unwrap().season_id, Some("s1".to_string()));
}

#[test]
fn clearing_a_slot_unbinds_both_sides() {
    let ledger = admin_ledger();
    let mut cat = Catalog::new();
    let admin = "admin".to_string();
    ledger.create_season(&mut cat, &admin, "s1".to_string()).unwrap();
    make_chip(&ledger, &mut cat, "c1", Rarity::Generic, false, None);
    ledger
        .add_glochip_to_season(&mut cat, &admin, "s1".to_string(), "c1".to_string(), Rarity::Generic)
        .unwrap();
    ledger
        .edit_season(
            &mut cat,
            &admin,
            "s1".to_string(),
            SeasonEditType::GloChip { rarity: Rarity::Generic, glochip_id: None },
        )
        .unwrap();
    assert!(cat.get_season(&"s1".to_string()).unwrap().generic_glochip.is_none());
    assert!(cat.get_glochip(&"c1".to_string()).unwrap().season_id.is_none());
    // Once cleared, the chip pack can bind again.
    assert_eq!(
        ledger.add_glochip_to_season(
            &mut cat,
            &admin,
            "s1".to_string(),
            "c1".to_string(),
            Rarity::Generic,
        ),
        Ok(())
    );
}

#[test]
fn renaming_a_bound_entity_is_refused() {
    let ledger = admin_ledger();
    let mut cat = Catalog::new();
    let admin = "admin".to_string();
    ledger.create_season(&mut cat, &admin, "s1".to_string()).unwrap();
    make_chip(&ledger, &mut cat, "c1", Rarity::Generic, false, None);
    ledger
        .add_glochip_to_season(&mut cat, &admin, "s1".to_string(), "c1".to_string(), Rarity::Generic)
        .unwrap();
    let r = ledger.edit_glochip(
        &mut cat,
        &admin,
        "c1".to_string(),
        Some("c9".to_string()),
        None,
        None,
    );
    assert_eq!(r, Err(ContractError::GloChipAlreadyAssigned {}));
    ledger
        .create_key(&mut cat, &admin, Rarity::Generic, "k1".to_string(), "u".to_string())
        .unwrap();
    ledger
        .add_key_to_season(&mut cat, &admin, "s1".to_string(), "k1".to_string(), KeyType::GenericKey)
        .unwrap();
    let r = ledger.edit_key(&mut cat, &admin, "k1".to_string(), Some("k9".to_string()), None);
    assert_eq!(r, Err(ContractError::KeyAlreadyAssigned {}));
}

#[test]
fn renaming_an_unbound_entity_moves_the_record() {
    let ledger = admin_ledger();
    let mut cat = Catalog::new();
    let admin = "admin".to_string();
    make_chip(&ledger, &mut cat, "c1", Rarity::Generic, false, None);
    ledger
        .edit_glochip(&mut cat, &admin, "c1".to_string(), Some("c9".to_string()), None, None)
        .unwrap();
    assert!(cat.get_glochip(&"c1".to_string()).is_none());
    assert_eq!(cat.get_glochip(&"c9".to_string()).unwrap().id, "c9");
    // The new id must be free.
    make_chip(&ledger, &mut cat, "c1", Rarity::Generic, false, None);
    let r = ledger.edit_glochip(&mut cat, &admin, "c1".to_string(), Some("c9".to_string()), None, None);
    assert_eq!(r, Err(ContractError::AlreadyExists {}));
}

#[test]
fn key_pricing_merges_field_by_field() {
    let ledger = admin_ledger();
    let mut cat = Catalog::new();
    let admin = "admin".to_string();
    ledger
        .create_key(&mut cat, &admin, Rarity::Esoteric, "k1".to_string(), "u".to_string())
        .unwrap();
    let want = TokenType::Key(KeyDetails { key_id: "k1".to_string(), season_id: "s".to_string() });
    // No pricing record at all: the purchase fails rather than being free.
    assert_eq!(ledger.get_price(&cat, &want), Err(ContractError::PriceNotSet {}));
    ledger
        .update_prices(
            &mut cat,
            &admin,
            PriceUpdateType::HoloKeyPrices {
                generic_price: Some(50),
                esoteric_price: None,
                spectral_price: None,
            },
        )
        .unwrap();
    // The esoteric field is still unset: still no price for this key.
    assert_eq!(ledger.get_price(&cat, &want), Err(ContractError::PriceNotSet {}));
    ledger
        .update_prices(
            &mut cat,
            &admin,
            PriceUpdateType::HoloKeyPrices {
                generic_price: None,
                esoteric_price: Some(75),
                spectral_price: None,
            },
        )
        .unwrap();
    assert_eq!(ledger.get_price(&cat, &want), Ok(75));
    let pricing = cat.get_pricing().unwrap();
    assert_eq!(pricing.generic_price, Some(50));
    assert_eq!(pricing.esoteric_price, Some(75));
    assert_eq!(pricing.spectral_price, None);
}

#[test]
fn special_collectible_batches_validate_and_delete() {
    let ledger = admin_ledger();
    let mut cat = Catalog::new();
    let admin = "admin".to_string();
    let weighted = GloNFT { probability: Some(10), ..item("w", 10) };
    let r = ledger.create_special_glonfts(&mut cat, &admin, vec![weighted]);
    assert_eq!(r, Err(ContractError::InvalidSpecialGloNFT {}));
    let fixed = |id: &str| GloNFT {
        id: id.to_string(),
        rarity: Rarity::Spectral,
        uri: format!("ipfs://{id}"),
        count: None,
        price: Some(100),
        probability: None,
    };
    ledger
        .create_special_glonfts(&mut cat, &admin, vec![fixed("n1"), fixed("n2")])
        .unwrap();
    assert!(cat.get_special_glonft(&"n1".to_string()).is_some());
    let dup = ledger.create_special_glonfts(&mut cat, &admin, vec![fixed("n3"), fixed("n1")]);
    assert_eq!(dup, Err(ContractError::AlreadyExists {}));
    // The failed batch stored nothing.
    assert!(cat.get_special_glonft(&"n3".to_string()).is_none());
    ledger
        .delete_special_glonfts(&mut cat, &admin, &vec!["n1".to_string()])
        .unwrap();
    assert!(cat.get_special_glonft(&"n1".to_string()).is_none());
    assert!(cat.get_special_glonft(&"n2".to_string()).is_some());
}

#[test]
fn special_collectible_edit_and_price_updates() {
    let ledger = admin_ledger();
    let mut cat = Catalog::new();
    let admin = "admin".to_string();
    let fixed = GloNFT {
        id: "n1".to_string(),
        rarity: Rarity::Spectral,
        uri: "u".to_string(),
        count: None,
        price: Some(100),
        probability: None,
    };
    ledger.create_special_glonfts(&mut cat, &admin, vec![fixed]).unwrap();
    ledger
        .edit_special_glonft(
            &mut cat,
            &admin,
            "n1".to_string(),
            Some("n2".to_string()),
            Some("u2".to_string()),
        )
        .unwrap();
    assert!(cat.get_special_glonft(&"n1".to_string()).is_none());
    assert_eq!(cat.get_special_glonft(&"n2".to_string()).unwrap().uri, "u2");
    ledger
        .update_prices(
            &mut cat,
            &admin,
            PriceUpdateType::SpecialGloNFTPrice { id: "n2".to_string(), new_price: Some(7) },
        )
        .unwrap();
    assert_eq!(cat.get_special_glonft(&"n2".to_string()).unwrap().price, Some(7));
    let missing = ledger.update_prices(
        &mut cat,
        &admin,
        PriceUpdateType::SpecialGloNFTPrice { id: "ghost".to_string(), new_price: None },
    );
    assert_eq!(missing, Err(ContractError::GloNFTNotFound {}));
}

#[test]
fn chip_price_updates_require_the_chip() {
    let ledger = admin_ledger();
    let mut cat = Catalog::new();
    let admin = "admin".to_string();
    make_chip(&ledger, &mut cat, "c1", Rarity::Generic, true, None);
    ledger
        .update_prices(
            &mut cat,
            &admin,
            PriceUpdateType::SpecialGloChipPrice { id: "c1".to_string(), new_price: Some(11) },
        )
        .unwrap();
    assert_eq!(cat.get_glochip(&"c1".to_string()).unwrap().price, Some(11));
    let missing = ledger.update_prices(
        &mut cat,
        &admin,
        PriceUpdateType::SpecialGloChipPrice { id: "ghost".to_string(), new_price: None },
    );
    assert!(matches!(missing, Err(ContractError::GloChipNotFound { .. })));
}

#[test]
fn editing_an_absent_season_reports_season_not_found() {
    let ledger = admin_ledger();
    let mut cat = Catalog::new();
    let admin = "admin".to_string();
    let r = ledger.edit_season(
        &mut cat,
        &admin,
        "ghost".to_string(),
        SeasonEditType::Rename("x".to_string()),
    );
    assert_eq!(r, Err(ContractError::SeasonNotFound {}));
}
