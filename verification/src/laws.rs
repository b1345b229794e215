//! Laws of the registry: properties that hold of all inputs, stated over the
//! operations' outcome functions and proved once and for all.

use vstd::prelude::*;

use crate::batch::{batch_entries_outcome, batch_entry_outcome, transfer_batch_outcome};
use crate::create::{create_class_outcome, ROYALTY_FEE_LIMIT};
use crate::deposit::{
    attrs_total_bytes, deposit_outcome, lemma_attrs_total_bytes_nonneg,
    lemma_deposit_amount_monotonic, saturate_u128,
};
use crate::mint::{do_mint_outcome, mint_outcome};
use crate::registry::{
    force_lock_outcome, force_unlock_outcome, token_of, RegistryView,
};
use crate::support::sign_asset_outcome;
use crate::transfer::{force_transfer_outcome, transfer_outcome};
use crate::types::{AccountId, Asset, AttributeView, CollectionType, Error, Origin, TokenType};

verus! {

/// The deposit calculator is a pure function — the same attributes and
/// metadata always price the same — and is monotonically non-decreasing in
/// the total byte length: of two accepted inputs, the one storing no more
/// bytes owes no more.
pub proof fn lemma_deposit_monotone(
    max_metadata: u32,
    rate: u128,
    attrs1: Seq<AttributeView>,
    metadata1: Seq<u8>,
    attrs2: Seq<AttributeView>,
    metadata2: Seq<u8>,
)
    requires
        deposit_outcome(max_metadata, rate, attrs1, metadata1) is Ok,
        deposit_outcome(max_metadata, rate, attrs2, metadata2) is Ok,
        attrs_total_bytes(attrs1) + metadata1.len() <= attrs_total_bytes(attrs2)
            + metadata2.len(),
    ensures
        deposit_outcome(max_metadata, rate, attrs1, metadata1)->Ok_0 <= deposit_outcome(
            max_metadata,
            rate,
            attrs2,
            metadata2,
        )->Ok_0,
{
    lemma_attrs_total_bytes_nonneg(attrs1);
    lemma_deposit_amount_monotonic(
        rate,
        attrs_total_bytes(attrs1) + metadata1.len(),
        attrs_total_bytes(attrs2) + metadata2.len(),
    );
}

/// A successful mint of `quantity` tokens moves exactly the per-token
/// deposit times the quantity out of the minter's free balance and into the
/// class escrow account, where it is reserved: the escrow account's balance
/// after equals its balance before plus that amount.
pub proof fn lemma_mint_moves_exact_deposit(
    s: RegistryView,
    origin: Origin,
    class_id: u64,
    metadata: Seq<u8>,
    attributes: Seq<AttributeView>,
    quantity: u32,
)
    requires
        mint_outcome(s, origin, class_id, metadata, attributes, quantity) is Ok,
    ensures
        ({
            let s2 = mint_outcome(s, origin, class_id, metadata, attributes, quantity)->Ok_0;
            let sender = AccountId::User(origin->Signed_0);
            let fund = AccountId::ClassFund(class_id);
            let per_token = deposit_outcome(
                s.max_metadata,
                s.deposit_per_byte,
                attributes,
                metadata,
            )->Ok_0;
            let total = saturate_u128(per_token * quantity);
            &&& s2.ledger.free[sender] == s.ledger.free[sender] - total
            &&& s2.ledger.reserved[fund] == s.ledger.reserved[fund] + total
            &&& s2.ledger.free[fund] == s.ledger.free[fund]
            &&& s2.ledger.free[fund] + s2.ledger.reserved[fund] == s.ledger.free[fund]
                + s.ledger.reserved[fund] + total
        }),
{
}

/// Transfer of a token whose class is bound to an address always fails — and
/// fails with the non-transferable error whenever nothing earlier in the
/// check order (authorization, auction listing, lock) intervenes. The
/// transfer method's contract leaves the state, and so every owner,
/// unchanged on any failure.
pub proof fn lemma_bound_to_address_never_transfers(
    s: RegistryView,
    origin: Origin,
    to: u64,
    asset: Asset,
)
    requires
        asset.class_id < s.classes.len(),
        s.classes[asset.class_id as int].token_type is BoundToAddress,
    ensures
        transfer_outcome(s, origin, to, asset) is Err,
        (origin is Signed && !s.listed.contains(asset) && !s.locked.contains(asset.class_id))
            ==> transfer_outcome(s, origin, to, asset) == Err::<RegistryView, Error>(
            Error::NonTransferable,
        ),
{
}

/// A governance-forced transfer of a token whose class is bound to an
/// address always fails too — the transfer policy is shared by every
/// transfer entry point — and fails with the non-transferable error whenever
/// nothing earlier in the check order (authorization, auction listing, lock)
/// intervenes.
pub proof fn lemma_bound_to_address_never_force_transfers(
    s: RegistryView,
    origin: Origin,
    from: u64,
    to: u64,
    asset: Asset,
)
    requires
        asset.class_id < s.classes.len(),
        s.classes[asset.class_id as int].token_type is BoundToAddress,
    ensures
        force_transfer_outcome(s, origin, from, to, asset) is Err,
        (origin is Root && !s.listed.contains(asset) && !s.locked.contains(asset.class_id))
            ==> force_transfer_outcome(s, origin, from, to, asset) == Err::<RegistryView, Error>(
            Error::NonTransferable,
        ),
{
}

/// Transfer of an asset the auction collaborator reports as listed always
/// fails with the already-in-auction error for any signed caller, whatever
/// the class policy; the transfer method's contract leaves ownership
/// unchanged on the failure.
pub proof fn lemma_listed_never_transfers(s: RegistryView, origin: Origin, to: u64, asset: Asset)
    requires
        origin is Signed,
        s.listed.contains(asset),
    ensures
        transfer_outcome(s, origin, to, asset) == Err::<RegistryView, Error>(
            Error::AssetAlreadyInAuction,
        ),
{
}

/// After a class is force-locked, any signed mint under it fails with the
/// locked error.
pub proof fn lemma_lock_blocks_mint(
    s: RegistryView,
    class_id: u64,
    origin: Origin,
    metadata: Seq<u8>,
    attributes: Seq<AttributeView>,
    quantity: u32,
)
    requires
        origin is Signed,
        force_lock_outcome(s, Origin::Root, class_id) is Ok,
    ensures
        ({
            let s2 = force_lock_outcome(s, Origin::Root, class_id)->Ok_0;
            mint_outcome(s2, origin, class_id, metadata, attributes, quantity) == Err::<
                RegistryView,
                Error,
            >(Error::CollectionIsLocked)
        }),
{
}

/// After a class is force-locked, any signed transfer of an unlisted asset
/// under it fails with the locked error.
pub proof fn lemma_lock_blocks_transfer(s: RegistryView, class_id: u64, origin: Origin, to: u64, asset: Asset)
    requires
        origin is Signed,
        asset.class_id == class_id,
        !s.listed.contains(asset),
        force_lock_outcome(s, Origin::Root, class_id) is Ok,
    ensures
        ({
            let s2 = force_lock_outcome(s, Origin::Root, class_id)->Ok_0;
            transfer_outcome(s2, origin, to, asset) == Err::<RegistryView, Error>(
                Error::CollectionIsLocked,
            )
        }),
{
}

/// Force-unlocking a class that was just force-locked restores the lock set
/// exactly, and the whole state but for the two notifications; so a mint
/// that the lock alone blocked succeeds again, with the same verdict as
/// before the lock.
pub proof fn lemma_unlock_restores_mint(
    s: RegistryView,
    class_id: u64,
    origin: Origin,
    mint_class: u64,
    metadata: Seq<u8>,
    attributes: Seq<AttributeView>,
    quantity: u32,
)
    requires
        !s.locked.contains(class_id),
    ensures
        ({
            let s2 = force_lock_outcome(s, Origin::Root, class_id)->Ok_0;
            let s3 = force_unlock_outcome(s2, Origin::Root, class_id)->Ok_0;
            &&& s3.locked == s.locked
            &&& s3 == (RegistryView { events: s3.events, ..s })
            &&& (mint_outcome(s3, origin, mint_class, metadata, attributes, quantity) is Ok
                <==> mint_outcome(s, origin, mint_class, metadata, attributes, quantity) is Ok)
        }),
{
    let s2 = force_lock_outcome(s, Origin::Root, class_id)->Ok_0;
    let s3 = force_unlock_outcome(s2, Origin::Root, class_id)->Ok_0;
    assert(s3.locked =~= s.locked);
    if origin is Signed {
        let sender = origin->Signed_0;
        assert(do_mint_outcome(s3, sender, mint_class, metadata, attributes, quantity) is Ok
            <==> do_mint_outcome(s, sender, mint_class, metadata, attributes, quantity) is Ok);
    }
}

/// Force-unlocking a class that was just force-locked leaves a transfer
/// exactly where it stood before the lock: the same call succeeds or fails
/// the same way.
pub proof fn lemma_unlock_restores_transfer(
    s: RegistryView,
    class_id: u64,
    origin: Origin,
    to: u64,
    asset: Asset,
)
    requires
        !s.locked.contains(class_id),
    ensures
        ({
            let s2 = force_lock_outcome(s, Origin::Root, class_id)->Ok_0;
            let s3 = force_unlock_outcome(s2, Origin::Root, class_id)->Ok_0;
            transfer_outcome(s3, origin, to, asset) is Ok <==> transfer_outcome(
                s,
                origin,
                to,
                asset,
            ) is Ok
        }),
{
    let s2 = force_lock_outcome(s, Origin::Root, class_id)->Ok_0;
    let s3 = force_unlock_outcome(s2, Origin::Root, class_id)->Ok_0;
    assert(s3.locked =~= s.locked);
}

/// The entries of a batch rewrite owners only: they never create or remove a
/// class.
proof fn lemma_batch_keeps_classes(s: RegistryView, sender: u64, to: u64, asset: Asset)
    requires
        batch_entry_outcome(s, sender, to, asset) is Ok,
    ensures
        batch_entry_outcome(s, sender, to, asset)->Ok_0.classes.len() == s.classes.len(),
{
}

/// A batch holding an entry whose class was never created fails as a whole —
/// with the class-not-found error when every earlier entry goes through —
/// and the batch method's contract then applies no entry at all.
pub proof fn lemma_batch_missing_class_fails(
    s: RegistryView,
    origin: Origin,
    tos: Seq<(u64, Asset)>,
    i: int,
)
    requires
        origin is Signed,
        tos.len() <= s.max_batch_transfer,
        0 <= i < tos.len(),
        tos[i].1.class_id >= s.classes.len(),
    ensures
        transfer_batch_outcome(s, origin, tos) is Err,
{
    lemma_batch_entries_missing_class_fails(s, origin->Signed_0, tos, i);
}

proof fn lemma_batch_entries_missing_class_fails(
    s: RegistryView,
    sender: u64,
    tos: Seq<(u64, Asset)>,
    i: int,
)
    requires
        0 <= i < tos.len(),
        tos[i].1.class_id >= s.classes.len(),
    ensures
        batch_entries_outcome(s, sender, tos) is Err,
    decreases i,
{
    if i == 0 {
        assert(batch_entry_outcome(s, sender, tos[0].0, tos[0].1) == Err::<RegistryView, Error>(
            Error::ClassIdNotFound,
        ));
    } else {
        if batch_entry_outcome(s, sender, tos[0].0, tos[0].1) is Ok {
            let s2 = batch_entry_outcome(s, sender, tos[0].0, tos[0].1)->Ok_0;
            lemma_batch_keeps_classes(s, sender, tos[0].0, tos[0].1);
            assert(tos.drop_first()[i - 1] == tos[i]);
            lemma_batch_entries_missing_class_fails(s2, sender, tos.drop_first(), i - 1);
        }
    }
}

/// Signing an asset as its current owner always fails with the sign-own
/// error, whatever the contribution.
pub proof fn lemma_sign_own_asset_fails(
    s: RegistryView,
    asset: Asset,
    contribution: u128,
)
    requires
        token_of(s, asset) is Some,
    ensures
        sign_asset_outcome(
            s,
            Origin::Signed(token_of(s, asset)->0.owner),
            asset,
            contribution,
        ) == Err::<RegistryView, Error>(Error::SignOwnAsset),
{
}

/// A royalty fee above one quarter is rejected at class creation, and the
/// royalty check is exactly at the bound: it never rejects a fee at or under
/// one quarter.
pub proof fn lemma_royalty_bound(
    s: RegistryView,
    origin: Origin,
    metadata: Seq<u8>,
    attributes: Seq<AttributeView>,
    collection_id: u64,
    token_type: TokenType,
    collection_type: CollectionType,
    royalty_fee: u32,
)
    requires
        origin is Signed,
        metadata.len() <= s.max_metadata,
        collection_id < s.collections.len(),
    ensures
        royalty_fee > ROYALTY_FEE_LIMIT ==> create_class_outcome(
            s,
            origin,
            metadata,
            attributes,
            collection_id,
            token_type,
            collection_type,
            royalty_fee,
        ) == Err::<RegistryView, Error>(Error::RoyaltyFeeExceedLimit),
        royalty_fee <= ROYALTY_FEE_LIMIT ==> create_class_outcome(
            s,
            origin,
            metadata,
            attributes,
            collection_id,
            token_type,
            collection_type,
            royalty_fee,
        ) != Err::<RegistryView, Error>(Error::RoyaltyFeeExceedLimit),
{
}

} // verus!
