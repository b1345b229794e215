use nft_registry::create::ROYALTY_FEE_LIMIT;
use nft_registry::deposit::calculate_fee_deposit;
use nft_registry::registry::Registry;
use nft_registry::types::{
    AccountId, Asset, Attribute, CollectionType, Error, Event, Origin, TokenType,
};

const ALICE: u64 = 1;
const BOB: u64 = 2;

fn fresh() -> Registry {
    // metadata bound 64, batch minting bound 10, batch transfer bound 5,
    // one unit of deposit per byte, existential minimum 1.
    let mut r = Registry::new(64, 10, 5, 1, 1);
    r.ledger.endow(AccountId::User(ALICE), 1_000_000).unwrap();
    r.ledger.endow(AccountId::User(BOB), 1_000_000).unwrap();
    r
}

fn attr(key: &[u8], value: &[u8]) -> Attribute {
    Attribute { key: key.to_vec(), value: value.to_vec() }
}

fn with_class(token_type: TokenType) -> Registry {
    let mut r = fresh();
    r.create_group(Origin::Root, b"land".to_vec(), b"props".to_vec()).unwrap();
    r.create_class(
        Origin::Signed(ALICE),
        b"class-meta".to_vec(),
        vec![attr(b"k", b"v")],
        0,
        token_type,
        CollectionType::Collectable,
        100_000_000,
    )
    .unwrap();
    r
}

#[test]
fn create_group_assigns_increasing_ids() {
    let mut r = fresh();
    r.create_group(Origin::Root, b"land".to_vec(), b"".to_vec()).unwrap();
    r.create_group(Origin::Root, b"sea".to_vec(), b"deep".to_vec()).unwrap();
    assert_eq!(r.total_collections, 2);
    assert_eq!(r.collections.len(), 2);
    assert_eq!(r.collections[0].name, b"land".to_vec());
    assert_eq!(r.collections[1].name, b"sea".to_vec());
    assert_eq!(r.collections[1].properties, b"deep".to_vec());
    assert_eq!(r.events[0], Event::NewNftCollectionCreated(0));
    assert_eq!(r.events[1], Event::NewNftCollectionCreated(1));
}

#[test]
fn create_group_requires_root() {
    let mut r = fresh();
    let e = r.create_group(Origin::Signed(ALICE), b"land".to_vec(), b"".to_vec());
    assert_eq!(e, Err(Error::BadOrigin));
    assert_eq!(r.total_collections, 0);
    assert!(r.events.is_empty());
}

#[test]
fn create_group_rejects_long_metadata() {
    let mut r = fresh();
    let long = vec![0u8; 65];
    let e = r.create_group(Origin::Root, long.clone(), Vec::new());
    assert_eq!(e, Err(Error::ExceedMaximumMetadataLength));
    let e = r.create_group(Origin::Root, Vec::new(), long);
    assert_eq!(e, Err(Error::ExceedMaximumMetadataLength));
    assert_eq!(r.collections.len(), 0);
}

#[test]
fn create_class_escrows_deposit() {
    let mut r = fresh();
    r.create_group(Origin::Root, b"land".to_vec(), b"".to_vec()).unwrap();
    let before = r.ledger.free_balance(AccountId::User(ALICE));
    r.create_class(
        Origin::Signed(ALICE),
        b"meta".to_vec(),
        vec![attr(b"ab", b"cde")],
        0,
        TokenType::Transferable,
        CollectionType::Collectable,
        0,
    )
    .unwrap();
    // deposit = 1 per byte * (|ab| + |cde| + |meta|) = 2 + 3 + 4 = 9
    let fund = Registry::get_class_fund(0);
    assert_eq!(r.classes.len(), 1);
    assert_eq!(r.classes[0].owner, ALICE);
    assert_eq!(r.classes[0].deposit, 9);
    assert_eq!(r.classes[0].collection_id, 0);
    assert_eq!(r.ledger.free_balance(AccountId::User(ALICE)), before - 9);
    assert_eq!(r.ledger.free_balance(fund), 0);
    assert_eq!(r.ledger.reserved_balance(fund), 9);
    assert_eq!(r.events[1], Event::NewNftClassCreated(ALICE, 0));
}

#[test]
fn create_class_needs_existing_collection() {
    let mut r = fresh();
    let e = r.create_class(
        Origin::Signed(ALICE),
        b"meta".to_vec(),
        Vec::new(),
        7,
        TokenType::Transferable,
        CollectionType::Collectable,
        0,
    );
    assert_eq!(e, Err(Error::CollectionDoesNotExist));
}

#[test]
fn create_class_needs_funds() {
    let mut r = Registry::new(64, 10, 5, 1, 1);
    r.create_group(Origin::Root, b"land".to_vec(), b"".to_vec()).unwrap();
    r.ledger.endow(AccountId::User(ALICE), 3).unwrap();
    // deposit would be 4, above the 3 available
    let e = r.create_class(
        Origin::Signed(ALICE),
        b"meta".to_vec(),
        Vec::new(),
        0,
        TokenType::Transferable,
        CollectionType::Collectable,
        0,
    );
    assert_eq!(e, Err(Error::InsufficientBalance));
    assert_eq!(r.classes.len(), 0);
    assert_eq!(r.ledger.free_balance(AccountId::User(ALICE)), 3);
}

#[test]
fn royalty_fee_boundary() {
    let mut r = fresh();
    r.create_group(Origin::Root, b"land".to_vec(), b"".to_vec()).unwrap();
    // 26% fails
    let e = r.create_class(
        Origin::Signed(ALICE),
        b"m".to_vec(),
        Vec::new(),
        0,
        TokenType::Transferable,
        CollectionType::Collectable,
        260_000_000,
    );
    assert_eq!(e, Err(Error::RoyaltyFeeExceedLimit));
    // 25% succeeds
    r.create_class(
        Origin::Signed(ALICE),
        b"m".to_vec(),
        Vec::new(),
        0,
        TokenType::Transferable,
        CollectionType::Collectable,
        ROYALTY_FEE_LIMIT,
    )
    .unwrap();
    assert_eq!(r.classes[0].royalty_fee, 250_000_000);
}

#[test]
fn mint_moves_exact_deposit() {
    let mut r = with_class(TokenType::Transferable);
    let fund = Registry::get_class_fund(0);
    let free_before = r.ledger.free_balance(AccountId::User(ALICE));
    let reserved_before = r.ledger.reserved_balance(fund);
    // per-token deposit = |k| + |v| + |tok| = 1 + 1 + 3 = 5; quantity 4
    r.mint(
        Origin::Signed(ALICE),
        0,
        b"tok".to_vec(),
        vec![attr(b"k", b"v")],
        4,
    )
    .unwrap();
    assert_eq!(r.ledger.free_balance(AccountId::User(ALICE)), free_before - 20);
    assert_eq!(r.ledger.reserved_balance(fund), reserved_before + 20);
    assert_eq!(r.classes[0].tokens.len(), 4);
    for t in 0..4usize {
        let tok = r.classes[0].tokens[t].as_ref().unwrap();
        assert_eq!(tok.owner, ALICE);
        assert_eq!(tok.deposit, 5);
        assert_eq!(tok.metadata, b"tok".to_vec());
    }
    let last = r.events.last().unwrap();
    assert_eq!(
        *last,
        Event::NewNftMinted(
            Asset { class_id: 0, token_id: 0 },
            Asset { class_id: 0, token_id: 3 },
            ALICE,
            0,
            4,
            3,
        )
    );
}

#[test]
fn mint_validation_order() {
    let mut r = with_class(TokenType::Transferable);
    let e = r.mint(Origin::Signed(ALICE), 0, Vec::new(), Vec::new(), 0);
    assert_eq!(e, Err(Error::InvalidQuantity));
    let e = r.mint(Origin::Signed(ALICE), 0, Vec::new(), Vec::new(), 11);
    assert_eq!(e, Err(Error::ExceedMaximumBatchMinting));
    let e = r.mint(Origin::Signed(ALICE), 0, vec![0u8; 65], Vec::new(), 1);
    assert_eq!(e, Err(Error::ExceedMaximumMetadataLength));
    let e = r.mint(Origin::Signed(ALICE), 9, Vec::new(), Vec::new(), 1);
    assert_eq!(e, Err(Error::ClassIdNotFound));
    let e = r.mint(Origin::Signed(BOB), 0, Vec::new(), Vec::new(), 1);
    assert_eq!(e, Err(Error::NoPermission));
    assert_eq!(r.classes[0].tokens.len(), 0);
}

#[test]
fn transfer_changes_owner() {
    let mut r = with_class(TokenType::Transferable);
    r.mint(Origin::Signed(ALICE), 0, Vec::new(), Vec::new(), 2).unwrap();
    let asset = Asset { class_id: 0, token_id: 1 };
    r.transfer(Origin::Signed(ALICE), BOB, asset).unwrap();
    assert_eq!(r.classes[0].tokens[1].as_ref().unwrap().owner, BOB);
    assert_eq!(r.classes[0].tokens[0].as_ref().unwrap().owner, ALICE);
    assert_eq!(*r.events.last().unwrap(), Event::TransferedNft(ALICE, BOB, 1, asset));
    // the new owner can pass it on; the old one cannot
    let e = r.transfer(Origin::Signed(ALICE), BOB, asset);
    assert_eq!(e, Err(Error::NoPermission));
    r.transfer(Origin::Signed(BOB), ALICE, asset).unwrap();
    assert_eq!(r.classes[0].tokens[1].as_ref().unwrap().owner, ALICE);
}

#[test]
fn bound_to_address_never_transfers() {
    let mut r = with_class(TokenType::BoundToAddress);
    r.mint(Origin::Signed(ALICE), 0, Vec::new(), Vec::new(), 1).unwrap();
    let asset = Asset { class_id: 0, token_id: 0 };
    let events_before = r.events.len();
    let e = r.transfer(Origin::Signed(ALICE), BOB, asset);
    assert_eq!(e, Err(Error::NonTransferable));
    let e = r.transfer(Origin::Signed(BOB), BOB, asset);
    assert_eq!(e, Err(Error::NonTransferable));
    assert_eq!(r.classes[0].tokens[0].as_ref().unwrap().owner, ALICE);
    assert_eq!(r.events.len(), events_before);
    assert_eq!(r.is_transferable(asset), Ok(false));
}

#[test]
fn listed_asset_never_transfers() {
    let mut r = with_class(TokenType::Transferable);
    r.mint(Origin::Signed(ALICE), 0, Vec::new(), Vec::new(), 1).unwrap();
    let asset = Asset { class_id: 0, token_id: 0 };
    r.set_auction_listing(asset, true);
    assert_eq!(r.check_item_on_listing(asset), Ok(true));
    let e = r.transfer(Origin::Signed(ALICE), BOB, asset);
    assert_eq!(e, Err(Error::AssetAlreadyInAuction));
    assert_eq!(r.classes[0].tokens[0].as_ref().unwrap().owner, ALICE);
    // once the auction report is withdrawn the same transfer succeeds
    r.set_auction_listing(asset, false);
    r.transfer(Origin::Signed(ALICE), BOB, asset).unwrap();
    assert_eq!(r.classes[0].tokens[0].as_ref().unwrap().owner, BOB);
}

#[test]
fn force_transfer_by_governance() {
    let mut r = with_class(TokenType::Transferable);
    r.mint(Origin::Signed(ALICE), 0, Vec::new(), Vec::new(), 1).unwrap();
    let asset = Asset { class_id: 0, token_id: 0 };
    let e = r.force_transfer(Origin::Signed(ALICE), ALICE, BOB, asset);
    assert_eq!(e, Err(Error::BadOrigin));
    let e = r.force_transfer(Origin::Root, BOB, ALICE, asset);
    assert_eq!(e, Err(Error::NoPermission));
    let e = r.force_transfer(Origin::Root, ALICE, BOB, Asset { class_id: 9, token_id: 0 });
    assert_eq!(e, Err(Error::ClassIdNotFound));
    // governance moves the token without the owner signing the call
    r.force_transfer(Origin::Root, ALICE, BOB, asset).unwrap();
    assert_eq!(r.classes[0].tokens[0].as_ref().unwrap().owner, BOB);
    assert_eq!(*r.events.last().unwrap(), Event::ForceTransferredNft(ALICE, BOB, 0, asset));
}

#[test]
fn force_transfer_respects_transfer_policy() {
    // a bound-to-address token never changes owner, even by force
    let mut r = with_class(TokenType::BoundToAddress);
    r.mint(Origin::Signed(ALICE), 0, Vec::new(), Vec::new(), 1).unwrap();
    let asset = Asset { class_id: 0, token_id: 0 };
    let events_before = r.events.len();
    let e = r.force_transfer(Origin::Root, ALICE, BOB, asset);
    assert_eq!(e, Err(Error::NonTransferable));
    assert_eq!(r.classes[0].tokens[0].as_ref().unwrap().owner, ALICE);
    assert_eq!(r.events.len(), events_before);
}

#[test]
fn force_transfer_blocked_by_listing_and_lock() {
    let mut r = with_class(TokenType::Transferable);
    r.mint(Origin::Signed(ALICE), 0, Vec::new(), Vec::new(), 1).unwrap();
    let asset = Asset { class_id: 0, token_id: 0 };
    r.set_auction_listing(asset, true);
    let e = r.force_transfer(Origin::Root, ALICE, BOB, asset);
    assert_eq!(e, Err(Error::AssetAlreadyInAuction));
    r.set_auction_listing(asset, false);
    r.force_lock_collection(Origin::Root, 0).unwrap();
    let e = r.force_transfer(Origin::Root, ALICE, BOB, asset);
    assert_eq!(e, Err(Error::CollectionIsLocked));
    assert_eq!(r.classes[0].tokens[0].as_ref().unwrap().owner, ALICE);
}

#[test]
fn lock_and_unlock_report_their_errors() {
    let mut r = with_class(TokenType::Transferable);
    let e = r.force_unlock_collection(Origin::Root, 0);
    assert_eq!(e, Err(Error::CollectionIsNotLocked));
    let e = r.force_lock_collection(Origin::Signed(ALICE), 0);
    assert_eq!(e, Err(Error::BadOrigin));
    r.force_lock_collection(Origin::Root, 0).unwrap();
    assert!(r.is_collection_locked(0));
    assert_eq!(*r.events.last().unwrap(), Event::CollectionLocked(0));
    let e = r.force_lock_collection(Origin::Root, 0);
    assert_eq!(e, Err(Error::CollectionAlreadyLocked));
    r.force_unlock_collection(Origin::Root, 0).unwrap();
    assert!(!r.is_collection_locked(0));
    assert_eq!(*r.events.last().unwrap(), Event::CollectionUnlocked(0));
}

#[test]
fn enable_promotion_is_governance_only() {
    let mut r = fresh();
    assert!(!r.is_promotion_enabled());
    let e = r.enable_promotion(Origin::Signed(ALICE), true);
    assert_eq!(e, Err(Error::BadOrigin));
    assert!(!r.is_promotion_enabled());
    r.enable_promotion(Origin::Root, true).unwrap();
    assert!(r.is_promotion_enabled());
    assert_eq!(*r.events.last().unwrap(), Event::PromotionEnabled(true));
    r.enable_promotion(Origin::Root, false).unwrap();
    assert!(!r.is_promotion_enabled());
}

#[test]
fn ownership_and_class_queries() {
    let mut r = with_class(TokenType::Transferable);
    r.mint(Origin::Signed(ALICE), 0, Vec::new(), Vec::new(), 1).unwrap();
    let asset = Asset { class_id: 0, token_id: 0 };
    assert_eq!(r.check_nft_ownership(ALICE, asset), Ok(true));
    assert_eq!(r.check_nft_ownership(BOB, asset), Ok(false));
    assert_eq!(r.check_ownership(ALICE, asset), Ok(true));
    let missing = Asset { class_id: 0, token_id: 9 };
    assert_eq!(r.check_nft_ownership(ALICE, missing), Err(Error::AssetInfoNotFound));
    let detail = r.get_nft_detail(asset).unwrap();
    assert_eq!(detail.owner, ALICE);
    assert_eq!(detail.token_type, TokenType::Transferable);
    assert_eq!(r.get_nft_group_collection(0), Ok(0));
    // an unknown class reads as the default collection
    assert_eq!(r.get_nft_group_collection(9), Ok(0));
    assert_eq!(r.check_collection_and_class(0, 0), Ok(true));
    assert_eq!(r.check_collection_and_class(3, 0), Ok(false));
    assert_eq!(r.check_collection_and_class(0, 9), Err(Error::ClassIdNotFound));
    assert_eq!(r.is_transferable(Asset { class_id: 9, token_id: 0 }), Err(Error::ClassIdNotFound));
    assert_eq!(Registry::get_class_fund(5), AccountId::ClassFund(5));
}

#[test]
fn ledger_overflow_and_existential_minimum() {
    let mut r = Registry::new(64, 10, 5, 1, 1);
    r.ledger.endow(AccountId::User(ALICE), u128::MAX).unwrap();
    let e = r.ledger.endow(AccountId::User(ALICE), 1);
    assert_eq!(e, Err(Error::ArithmeticOverflow));
    // a transfer may not leave the sender under the existential minimum
    let mut r2 = Registry::new(64, 10, 5, 1, 1);
    r2.create_group(Origin::Root, b"g".to_vec(), Vec::new()).unwrap();
    r2.ledger.endow(AccountId::User(ALICE), 4).unwrap();
    // the deposit of 4 would leave the caller at zero, under the minimum of 1
    let e = r2.create_class(
        Origin::Signed(ALICE),
        b"meta".to_vec(),
        Vec::new(),
        0,
        TokenType::Transferable,
        CollectionType::Collectable,
        0,
    );
    assert_eq!(e, Err(Error::InsufficientBalance));
    // with one unit spare the same call succeeds
    r2.ledger.endow(AccountId::User(ALICE), 1).unwrap();
    r2.create_class(
        Origin::Signed(ALICE),
        b"meta".to_vec(),
        Vec::new(),
        0,
        TokenType::Transferable,
        CollectionType::Collectable,
        0,
    )
    .unwrap();
    assert_eq!(r2.ledger.free_balance(AccountId::User(ALICE)), 1);
}

#[test]
fn deposit_calculator_exact_values() {
    // 3 per byte over (2 + 3) attribute bytes and 4 metadata bytes
    let attrs = vec![attr(b"ab", b"cde")];
    let d = calculate_fee_deposit(64, 3, &attrs, &b"meta".to_vec());
    assert_eq!(d, Ok(27));
    // empty input owes nothing
    let d = calculate_fee_deposit(64, 3, &Vec::new(), &Vec::new());
    assert_eq!(d, Ok(0));
    // metadata over the bound is rejected
    let d = calculate_fee_deposit(3, 1, &Vec::new(), &b"meta".to_vec());
    assert_eq!(d, Err(Error::ExceedMaximumMetadataLength));
    // summed attribute bytes over the bound are rejected
    let d = calculate_fee_deposit(4, 1, &attrs, &Vec::new());
    assert_eq!(d, Err(Error::ExceedMaximumMetadataLength));
    // more bytes never owe less
    let small = calculate_fee_deposit(64, 3, &attrs, &b"me".to_vec()).unwrap();
    let large = calculate_fee_deposit(64, 3, &attrs, &b"meta".to_vec()).unwrap();
    assert!(small <= large);
}
