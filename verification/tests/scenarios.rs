use nft_registry::registry::Registry;
use nft_registry::types::{
    AccountId, Asset, Attribute, CollectionType, Error, Event, Origin, TokenType,
};

const MINTER: u64 = 10;
const BUYER: u64 = 11;
const FAN: u64 = 12;

fn fresh() -> Registry {
    let mut r = Registry::new(64, 10, 5, 1, 1);
    r.ledger.endow(AccountId::User(MINTER), 1_000_000).unwrap();
    r.ledger.endow(AccountId::User(BUYER), 1_000_000).unwrap();
    r.ledger.endow(AccountId::User(FAN), 1_000_000).unwrap();
    r
}

fn attr(key: &[u8], value: &[u8]) -> Attribute {
    Attribute { key: key.to_vec(), value: value.to_vec() }
}

fn owner_of(r: &Registry, class_id: usize, token_id: usize) -> u64 {
    r.classes[class_id].tokens[token_id].as_ref().unwrap().owner
}

/// The whole life of a collection: create, class, mint, transfer, lock,
/// unlock, mint again.
#[test]
fn collection_lifecycle() {
    let mut r = fresh();
    // create collection ("Land", "") -> id 0
    r.create_group(Origin::Root, b"Land".to_vec(), b"".to_vec()).unwrap();
    assert_eq!(r.events[0], Event::NewNftCollectionCreated(0));
    // create class under collection 0, transferable, 10% royalty -> id 0
    r.create_class(
        Origin::Signed(MINTER),
        b"class".to_vec(),
        Vec::new(),
        0,
        TokenType::Transferable,
        CollectionType::Collectable,
        100_000_000,
    )
    .unwrap();
    assert_eq!(r.events[1], Event::NewNftClassCreated(MINTER, 0));
    let fund = Registry::get_class_fund(0);
    let class_deposit = r.classes[0].deposit;
    assert_eq!(r.ledger.reserved_balance(fund), class_deposit);
    // mint 3 tokens with empty attributes and metadata -> (0,0), (0,1), (0,2)
    let escrow_before = r.ledger.free_balance(fund) + r.ledger.reserved_balance(fund);
    let base_deposit = 0u128;  // one unit per byte, and nothing is stored
    r.mint(Origin::Signed(MINTER), 0, Vec::new(), Vec::new(), 3).unwrap();
    assert_eq!(r.classes[0].tokens.len(), 3);
    for t in 0..3usize {
        assert_eq!(owner_of(&r, 0, t), MINTER);
    }
    let escrow_after = r.ledger.free_balance(fund) + r.ledger.reserved_balance(fund);
    assert_eq!(escrow_after, escrow_before + 3 * base_deposit);
    // transfer (0,1) to the buyer: that token alone changes owner
    r.transfer(Origin::Signed(MINTER), BUYER, Asset { class_id: 0, token_id: 1 }).unwrap();
    assert_eq!(owner_of(&r, 0, 0), MINTER);
    assert_eq!(owner_of(&r, 0, 1), BUYER);
    assert_eq!(owner_of(&r, 0, 2), MINTER);
    // lock class 0: minting fails
    r.force_lock_collection(Origin::Root, 0).unwrap();
    let e = r.mint(Origin::Signed(MINTER), 0, Vec::new(), Vec::new(), 1);
    assert_eq!(e, Err(Error::CollectionIsLocked));
    assert_eq!(r.classes[0].tokens.len(), 3);
    // unlock: the same mint succeeds again
    r.force_unlock_collection(Origin::Root, 0).unwrap();
    r.mint(Origin::Signed(MINTER), 0, Vec::new(), Vec::new(), 1).unwrap();
    assert_eq!(r.classes[0].tokens.len(), 4);
}

fn with_minted(token_type: TokenType, quantity: u32) -> Registry {
    let mut r = fresh();
    r.create_group(Origin::Root, b"Land".to_vec(), b"".to_vec()).unwrap();
    r.create_class(
        Origin::Signed(MINTER),
        b"class".to_vec(),
        Vec::new(),
        0,
        token_type,
        CollectionType::Collectable,
        0,
    )
    .unwrap();
    r.mint(Origin::Signed(MINTER), 0, b"tok".to_vec(), vec![attr(b"k", b"v")], quantity)
        .unwrap();
    r
}

/// A batch with one entry naming a class that was never created fails whole:
/// no entry is applied, not even those standing before the bad one.
#[test]
fn batch_with_missing_class_is_all_or_nothing() {
    let mut r = with_minted(TokenType::Transferable, 3);
    let events_before = r.events.len();
    let e = r.transfer_batch(
        Origin::Signed(MINTER),
        vec![
            (BUYER, Asset { class_id: 0, token_id: 0 }),
            (BUYER, Asset { class_id: 9, token_id: 0 }),
            (BUYER, Asset { class_id: 0, token_id: 1 }),
        ],
    );
    assert_eq!(e, Err(Error::ClassIdNotFound));
    for t in 0..3usize {
        assert_eq!(owner_of(&r, 0, t), MINTER);
    }
    assert_eq!(r.events.len(), events_before);
}

#[test]
fn batch_transfers_each_entry() {
    let mut r = with_minted(TokenType::Transferable, 3);
    r.transfer_batch(
        Origin::Signed(MINTER),
        vec![
            (BUYER, Asset { class_id: 0, token_id: 0 }),
            (FAN, Asset { class_id: 0, token_id: 2 }),
        ],
    )
    .unwrap();
    assert_eq!(owner_of(&r, 0, 0), BUYER);
    assert_eq!(owner_of(&r, 0, 1), MINTER);
    assert_eq!(owner_of(&r, 0, 2), FAN);
    let n = r.events.len();
    assert_eq!(
        r.events[n - 2],
        Event::TransferedNft(MINTER, BUYER, 0, Asset { class_id: 0, token_id: 0 })
    );
    assert_eq!(
        r.events[n - 1],
        Event::TransferedNft(MINTER, FAN, 2, Asset { class_id: 0, token_id: 2 })
    );
}

/// An entry under a class that does not transfer is skipped in silence while
/// the rest of the batch proceeds.
#[test]
fn batch_skips_bound_to_address_entries() {
    let mut r = with_minted(TokenType::Transferable, 2);
    // a second class that never transfers, with one token
    r.create_class(
        Origin::Signed(MINTER),
        b"bound".to_vec(),
        Vec::new(),
        0,
        TokenType::BoundToAddress,
        CollectionType::Collectable,
        0,
    )
    .unwrap();
    r.mint(Origin::Signed(MINTER), 1, Vec::new(), Vec::new(), 1).unwrap();
    let events_before = r.events.len();
    r.transfer_batch(
        Origin::Signed(MINTER),
        vec![
            (BUYER, Asset { class_id: 1, token_id: 0 }),
            (BUYER, Asset { class_id: 0, token_id: 1 }),
        ],
    )
    .unwrap();
    // the bound entry did nothing, and raised no notification
    assert_eq!(owner_of(&r, 1, 0), MINTER);
    assert_eq!(owner_of(&r, 0, 1), BUYER);
    assert_eq!(r.events.len(), events_before + 1);
}

#[test]
fn batch_respects_bound_and_sequential_ownership() {
    let mut r = with_minted(TokenType::Transferable, 3);
    let e = r.transfer_batch(
        Origin::Signed(MINTER),
        vec![
            (BUYER, Asset { class_id: 0, token_id: 0 }),
            (BUYER, Asset { class_id: 0, token_id: 0 }),
            (BUYER, Asset { class_id: 0, token_id: 1 }),
            (BUYER, Asset { class_id: 0, token_id: 2 }),
            (BUYER, Asset { class_id: 0, token_id: 2 }),
            (BUYER, Asset { class_id: 0, token_id: 2 }),
        ],
    );
    assert_eq!(e, Err(Error::ExceedMaximumBatchTransfer));
    // within the bound, a second transfer of the same token no longer comes
    // from its owner, so the whole batch fails and nothing is applied
    let e = r.transfer_batch(
        Origin::Signed(MINTER),
        vec![
            (BUYER, Asset { class_id: 0, token_id: 0 }),
            (BUYER, Asset { class_id: 0, token_id: 0 }),
        ],
    );
    assert_eq!(e, Err(Error::NoPermission));
    assert_eq!(owner_of(&r, 0, 0), MINTER);
    // a missing token fails the batch too
    let e = r.transfer_batch(
        Origin::Signed(MINTER),
        vec![(BUYER, Asset { class_id: 0, token_id: 9 })],
    );
    assert_eq!(e, Err(Error::AssetInfoNotFound));
}

#[test]
fn sign_asset_records_supporters_and_escrow() {
    let mut r = with_minted(TokenType::Transferable, 1);
    let asset = Asset { class_id: 0, token_id: 0 };
    // the owner cannot sign their own token
    let e = r.sign_asset(Origin::Signed(MINTER), asset, 5);
    assert_eq!(e, Err(Error::SignOwnAsset));
    // a missing token cannot be signed
    let e = r.sign_asset(Origin::Signed(FAN), Asset { class_id: 0, token_id: 9 }, 5);
    assert_eq!(e, Err(Error::AssetInfoNotFound));
    // the contribution must be strictly under the free balance
    let mut poor = Registry::new(64, 10, 5, 0, 0);
    poor.create_group(Origin::Root, Vec::new(), Vec::new()).unwrap();
    poor.create_class(
        Origin::Signed(MINTER),
        Vec::new(),
        Vec::new(),
        0,
        TokenType::Transferable,
        CollectionType::Collectable,
        0,
    )
    .unwrap();
    poor.mint(Origin::Signed(MINTER), 0, Vec::new(), Vec::new(), 1).unwrap();
    poor.ledger.endow(AccountId::User(FAN), 5).unwrap();
    let e = poor.sign_asset(Origin::Signed(FAN), asset, 5);
    assert_eq!(e, Err(Error::InsufficientBalance));
    // a proper contribution moves into the escrow account and is reserved
    let fund = Registry::get_class_fund(0);
    let reserved_before = r.ledger.reserved_balance(fund);
    let free_before = r.ledger.free_balance(AccountId::User(FAN));
    r.sign_asset(Origin::Signed(FAN), asset, 7).unwrap();
    assert_eq!(r.ledger.reserved_balance(fund), reserved_before + 7);
    assert_eq!(r.ledger.free_balance(AccountId::User(FAN)), free_before - 7);
    assert_eq!(r.get_asset_supporters(asset).unwrap(), &vec![FAN]);
    // the token's own recorded deposit does not change
    assert_eq!(r.classes[0].tokens[0].as_ref().unwrap().deposit, 5);
    // signing again appends again: the list keeps duplicates
    r.sign_asset(Origin::Signed(FAN), asset, 2).unwrap();
    r.sign_asset(Origin::Signed(BUYER), asset, 3).unwrap();
    assert_eq!(r.get_asset_supporters(asset).unwrap(), &vec![FAN, FAN, BUYER]);
}

#[test]
fn burn_removes_token_and_returns_deposit() {
    let mut r = with_minted(TokenType::Transferable, 2);
    let asset = Asset { class_id: 0, token_id: 0 };
    let e = r.burn(Origin::Signed(BUYER), asset);
    assert_eq!(e, Err(Error::NoPermission));
    let fund = Registry::get_class_fund(0);
    let reserved_before = r.ledger.reserved_balance(fund);
    let free_before = r.ledger.free_balance(AccountId::User(MINTER));
    let deposit = r.classes[0].tokens[0].as_ref().unwrap().deposit;
    r.burn(Origin::Signed(MINTER), asset).unwrap();
    assert!(r.classes[0].tokens[0].is_none());
    // the identifier is spent, not reused; the other token stands
    assert_eq!(r.classes[0].tokens.len(), 2);
    assert!(r.classes[0].tokens[1].is_some());
    assert_eq!(r.ledger.reserved_balance(fund), reserved_before - deposit);
    assert_eq!(r.ledger.free_balance(AccountId::User(MINTER)), free_before + deposit);
    assert_eq!(*r.events.last().unwrap(), Event::BurnedNft(asset));
    // a burned token is gone for every operation
    let e = r.burn(Origin::Signed(MINTER), asset);
    assert_eq!(e, Err(Error::AssetInfoNotFound));
    let e = r.transfer(Origin::Signed(MINTER), BUYER, asset);
    assert_eq!(e, Err(Error::AssetInfoNotFound));
    // burn_nft follows the same rule without a notification
    let events_before = r.events.len();
    r.burn_nft(MINTER, Asset { class_id: 0, token_id: 1 }).unwrap();
    assert!(r.classes[0].tokens[1].is_none());
    assert_eq!(r.events.len(), events_before);
}

#[test]
fn transfer_nft_and_do_transfer_move_without_listing_check() {
    let mut r = with_minted(TokenType::Transferable, 2);
    let asset = Asset { class_id: 0, token_id: 0 };
    // the collaborator-facing transfer does not consult the auction listing
    r.set_auction_listing(asset, true);
    r.transfer_nft(MINTER, BUYER, asset).unwrap();
    assert_eq!(owner_of(&r, 0, 0), BUYER);
    r.set_auction_listing(asset, false);
    let t = r.do_transfer(BUYER, FAN, asset).unwrap();
    assert_eq!(t, 0);
    assert_eq!(owner_of(&r, 0, 0), FAN);
    // but the lock still gates them
    r.force_lock_collection(Origin::Root, 0).unwrap();
    let e = r.transfer_nft(FAN, MINTER, asset);
    assert_eq!(e, Err(Error::CollectionIsLocked));
}
