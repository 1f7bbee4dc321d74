use minter::errors::ContractError;
use minter::ledger::{Cw721Contract, OwnershipAction};
use minter::state::{BlockInfo, Expiration, TokenInfo};

fn fresh_ledger() -> Cw721Contract {
    Cw721Contract::instantiate(
        "Collectibles".to_string(),
        "COLL".to_string(),
        "admin".to_string(),
    )
}

fn plain_token(owner: &str) -> TokenInfo {
    TokenInfo {
        owner: owner.to_string(),
        approvals: Vec::new(),
        token_uri: Some("ipfs://token".to_string()),
        extension: None,
    }
}

fn now() -> BlockInfo {
    BlockInfo { height: 1000, time: 1_000_000 }
}

#[test]
fn instantiate_sets_configuration() {
    let ledger = fresh_ledger();
    assert_eq!(ledger.name(), "Collectibles");
    assert_eq!(ledger.symbol(), "COLL");
    assert_eq!(ledger.minter(), Some(&"admin".to_string()));
    assert_eq!(ledger.token_count(), 0);
    assert_eq!(ledger.minter_response().minter, Some("admin".to_string()));
}

#[test]
fn create_tracks_supply_and_rejects_duplicates() {
    let mut ledger = fresh_ledger();
    assert_eq!(ledger.create("t1".to_string(), plain_token("alice")), Ok(()));
    assert_eq!(ledger.token_count(), 1);
    assert!(ledger.has_token(&"t1".to_string()));
    let dup = ledger.create("t1".to_string(), plain_token("bob"));
    assert_eq!(dup, Err(ContractError::Claimed {}));
    assert_eq!(ledger.token_count(), 1);
    assert_eq!(ledger.get(&"t1".to_string()).unwrap().owner, "alice");
}

#[test]
fn transfer_moves_ownership_and_clears_approvals() {
    let mut ledger = fresh_ledger();
    let alice = "alice".to_string();
    let bob = "bob".to_string();
    let t1 = "t1".to_string();
    ledger.create(t1.clone(), plain_token("alice")).unwrap();
    ledger.approve(&now(), &alice, bob.clone(), &t1, None).unwrap();
    assert_eq!(ledger.get(&t1).unwrap().approvals.len(), 1);
    ledger.transfer_nft(&now(), &alice, "carol".to_string(), &t1).unwrap();
    let token = ledger.get(&t1).unwrap();
    assert_eq!(token.owner, "carol");
    assert!(token.approvals.is_empty());
}

#[test]
fn stale_approval_cannot_act_after_transfer() {
    let mut ledger = fresh_ledger();
    let alice = "alice".to_string();
    let bob = "bob".to_string();
    let t1 = "t1".to_string();
    ledger.create(t1.clone(), plain_token("alice")).unwrap();
    ledger.approve(&now(), &alice, bob.clone(), &t1, None).unwrap();
    // While approved, the spender can transfer.
    let mut probe = fresh_ledger();
    probe.create(t1.clone(), plain_token("alice")).unwrap();
    probe.approve(&now(), &alice, bob.clone(), &t1, None).unwrap();
    assert_eq!(probe.transfer_nft(&now(), &bob, "dave".to_string(), &t1), Ok(()));
    // The owner transfers away; the old approval is gone with it.
    ledger.transfer_nft(&now(), &alice, "carol".to_string(), &t1).unwrap();
    let denied = ledger.transfer_nft(&now(), &bob, "dave".to_string(), &t1);
    assert_eq!(denied, Err(ContractError::NotOwner {}));
    assert_eq!(ledger.get(&t1).unwrap().owner, "carol");
}

#[test]
fn expired_approval_is_inert_and_expired_grant_rejected() {
    let mut ledger = fresh_ledger();
    let alice = "alice".to_string();
    let bob = "bob".to_string();
    let t1 = "t1".to_string();
    ledger.create(t1.clone(), plain_token("alice")).unwrap();
    let r = ledger.approve(&now(), &alice, bob.clone(), &t1, Some(Expiration::AtTime(5)));
    assert_eq!(r, Err(ContractError::Expired {}));
    // Approval that expires later is accepted, but inert once time passes.
    ledger
        .approve(&now(), &alice, bob.clone(), &t1, Some(Expiration::AtTime(2_000_000)))
        .unwrap();
    let later = BlockInfo { height: 2000, time: 3_000_000 };
    let denied = ledger.transfer_nft(&later, &bob, "dave".to_string(), &t1);
    assert_eq!(denied, Err(ContractError::NotOwner {}));
}

#[test]
fn operators_act_until_revoked() {
    let mut ledger = fresh_ledger();
    let alice = "alice".to_string();
    let op = "operator".to_string();
    let t1 = "t1".to_string();
    ledger.create(t1.clone(), plain_token("alice")).unwrap();
    ledger.approve_all(&now(), &alice, op.clone(), None).unwrap();
    assert_eq!(ledger.transfer_nft(&now(), &op, "bob".to_string(), &t1), Ok(()));
    // Back to alice, then revoke: the operator loses its rights.
    let bob = "bob".to_string();
    ledger.transfer_nft(&now(), &bob, "alice".to_string(), &t1).unwrap();
    ledger.revoke_all(&alice, &op);
    assert_eq!(
        ledger.transfer_nft(&now(), &op, "bob".to_string(), &t1),
        Err(ContractError::NotOwner {})
    );
}

#[test]
fn revoke_removes_a_single_spender() {
    let mut ledger = fresh_ledger();
    let alice = "alice".to_string();
    let bob = "bob".to_string();
    let t1 = "t1".to_string();
    ledger.create(t1.clone(), plain_token("alice")).unwrap();
    ledger.approve(&now(), &alice, bob.clone(), &t1, None).unwrap();
    ledger.revoke(&now(), &alice, bob.clone(), &t1).unwrap();
    assert!(ledger.get(&t1).unwrap().approvals.is_empty());
    assert_eq!(
        ledger.transfer_nft(&now(), &bob, "dave".to_string(), &t1),
        Err(ContractError::NotOwner {})
    );
}

#[test]
fn burn_removes_record_and_lowers_supply() {
    let mut ledger = fresh_ledger();
    let alice = "alice".to_string();
    let t1 = "t1".to_string();
    ledger.create(t1.clone(), plain_token("alice")).unwrap();
    assert_eq!(ledger.burn(&now(), &alice, &t1), Ok(()));
    assert_eq!(ledger.token_count(), 0);
    assert!(!ledger.has_token(&t1));
    assert_eq!(ledger.burn(&now(), &alice, &t1), Err(ContractError::NotFound {}));
}

#[test]
fn missing_token_reports_not_found() {
    let mut ledger = fresh_ledger();
    let ghost = "ghost".to_string();
    assert_eq!(
        ledger.transfer_nft(&now(), &"x".to_string(), "y".to_string(), &ghost),
        Err(ContractError::NotFound {})
    );
    assert!(matches!(ledger.get(&ghost), Err(ContractError::NotFound {})));
    assert!(matches!(ledger.owner_of(&ghost), Err(ContractError::NotFound {})));
}

#[test]
fn verify_token_ownership_distinguishes_owner() {
    let mut ledger = fresh_ledger();
    let t1 = "t1".to_string();
    ledger.create(t1.clone(), plain_token("alice")).unwrap();
    assert_eq!(ledger.verify_token_ownership(&"alice".to_string(), &t1), Ok(()));
    assert_eq!(
        ledger.verify_token_ownership(&"bob".to_string(), &t1),
        Err(ContractError::Unauthorized {})
    );
    assert_eq!(
        ledger.verify_token_ownership(&"alice".to_string(), &"ghost".to_string()),
        Err(ContractError::Unauthorized {})
    );
}

#[test]
fn token_enumeration_paginates() {
    let mut ledger = fresh_ledger();
    for i in 1..=5 {
        ledger.create(format!("t{i}"), plain_token("alice")).unwrap();
    }
    ledger.create("other".to_string(), plain_token("bob")).unwrap();
    let alice = "alice".to_string();
    let all = ledger.tokens(&alice, None, None);
    assert_eq!(all, vec!["t1", "t2", "t3", "t4", "t5"]);
    let first_two = ledger.tokens(&alice, None, Some(2));
    assert_eq!(first_two, vec!["t1", "t2"]);
    let after_t2 = ledger.tokens(&alice, Some(&"t2".to_string()), Some(2));
    assert_eq!(after_t2, vec!["t3", "t4"]);
    let after_absent = ledger.tokens(&alice, Some(&"zzz".to_string()), None);
    assert!(after_absent.is_empty());
    // The maximum page size is enforced even for larger requests.
    let capped = ledger.tokens(&alice, None, Some(1_000));
    assert_eq!(capped.len(), 5);
}

#[test]
fn check_ownership_flags_base_ids() {
    let mut ledger = fresh_ledger();
    ledger.create("chip_1".to_string(), plain_token("alice")).unwrap();
    ledger.create("key_7".to_string(), plain_token("bob")).unwrap();
    let flags = ledger.check_ownership(
        &"alice".to_string(),
        &vec!["chip".to_string(), "key".to_string(), "ghost".to_string()],
    );
    assert_eq!(flags.ownerships, vec![true, false, false]);
}

#[test]
fn ownable_tokens_groups_by_owner() {
    let mut ledger = fresh_ledger();
    ledger.create("a1".to_string(), plain_token("alice")).unwrap();
    ledger.create("b1".to_string(), plain_token("bob")).unwrap();
    ledger.create("a2".to_string(), plain_token("alice")).unwrap();
    let r = ledger.ownable_tokens(&vec!["alice".to_string(), "bob".to_string()]);
    assert_eq!(r.tokens.len(), 2);
    assert_eq!(r.tokens[0].0, "alice");
    assert_eq!(r.tokens[0].1, vec!["a1", "a2"]);
    assert_eq!(r.tokens[1].0, "bob");
    assert_eq!(r.tokens[1].1, vec!["b1"]);
}

#[test]
fn ownership_moves_only_when_the_successor_accepts() {
    let mut ledger = fresh_ledger();
    let admin = "admin".to_string();
    let heir = "heir".to_string();
    // Only the administrator can propose a successor.
    let denied = ledger.update_ownership(
        &now(),
        &heir,
        OwnershipAction::TransferOwnership { new_owner: heir.clone(), expiry: None },
    );
    assert_eq!(denied, Err(ContractError::NotOwner {}));
    // Accepting without a proposal finds nothing.
    assert_eq!(
        ledger.update_ownership(&now(), &heir, OwnershipAction::AcceptOwnership),
        Err(ContractError::NotFound {})
    );
    ledger
        .update_ownership(
            &now(),
            &admin,
            OwnershipAction::TransferOwnership { new_owner: heir.clone(), expiry: None },
        )
        .unwrap();
    // The role has not moved yet, and nobody else can take it.
    assert_eq!(ledger.minter(), Some(&admin));
    assert_eq!(
        ledger.update_ownership(&now(), &"mallory".to_string(), OwnershipAction::AcceptOwnership),
        Err(ContractError::Unauthorized {})
    );
    ledger.update_ownership(&now(), &heir, OwnershipAction::AcceptOwnership).unwrap();
    assert_eq!(ledger.minter(), Some(&heir));
    // The old administrator is out.
    assert_eq!(
        ledger.update_ownership(
            &now(),
            &admin,
            OwnershipAction::TransferOwnership { new_owner: admin.clone(), expiry: None },
        ),
        Err(ContractError::NotOwner {})
    );
}

#[test]
fn expired_ownership_proposals_cannot_be_accepted() {
    let mut ledger = fresh_ledger();
    let admin = "admin".to_string();
    let heir = "heir".to_string();
    ledger
        .update_ownership(
            &now(),
            &admin,
            OwnershipAction::TransferOwnership {
                new_owner: heir.clone(),
                expiry: Some(Expiration::AtTime(2_000_000)),
            },
        )
        .unwrap();
    let late = BlockInfo { height: 2000, time: 3_000_000 };
    assert_eq!(
        ledger.update_ownership(&late, &heir, OwnershipAction::AcceptOwnership),
        Err(ContractError::Expired {})
    );
    assert_eq!(ledger.minter(), Some(&admin));
}

#[test]
fn a_renounced_role_stays_vacant() {
    let mut ledger = fresh_ledger();
    let admin = "admin".to_string();
    ledger.update_ownership(&now(), &admin, OwnershipAction::RenounceOwnership).unwrap();
    assert_eq!(ledger.minter(), None);
    assert_eq!(
        ledger.update_ownership(&now(), &admin, OwnershipAction::RenounceOwnership),
        Err(ContractError::NotOwner {})
    );
}

#[test]
fn nft_info_returns_metadata() {
    let mut ledger = fresh_ledger();
    let mut token = plain_token("alice");
    token.extension = Some("payload".to_string());
    ledger.create("t1".to_string(), token).unwrap();
    let (uri, ext) = ledger.nft_info(&"t1".to_string()).unwrap();
    assert_eq!(uri, Some("ipfs://token".to_string()));
    assert_eq!(ext, Some("payload".to_string()));
}
