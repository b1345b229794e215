//! The escrow accounting law. Each class's escrow account holds, reserved,
//! exactly the class deposit plus the deposits of its live tokens plus the
//! sum of its supporters' contributions — and nothing free. A fresh registry
//! satisfies the equation, and every operation preserves it; these lemmas
//! state that over the operations' outcome functions, which the methods'
//! contracts pin the implementation to.

use vstd::prelude::*;

use crate::batch::{
    batch_entries_outcome, batch_entry_outcome, transfer_batch_outcome,
};
use crate::create::{create_class_outcome, create_group_outcome};
use crate::mint::{mint_outcome, minted_tokens};
use crate::registry::{
    enable_promotion_outcome, force_lock_outcome, force_unlock_outcome, set_token_owner, token_of,
    RegistryView,
};
use crate::support::{burn_outcome, do_burn_outcome, sign_asset_outcome};
use crate::transfer::{
    do_force_transfer_outcome, do_transfer_outcome, force_transfer_outcome, transfer_outcome,
};
use crate::types::{AccountId, Asset, AttributeView, CollectionType, Origin, TokenType, TokenView};

verus! {

/// The deposit a token slot contributes: nothing once burned.
pub open spec fn slot_deposit(slot: Option<TokenView>) -> int {
    match slot {
        Some(t) => t.deposit as int,
        None => 0,
    }
}

/// The sum of the deposits of a class's live tokens.
pub open spec fn tokens_deposit_sum(tokens: Seq<Option<TokenView>>) -> int
    decreases tokens.len(),
{
    if tokens.len() == 0 {
        0
    } else {
        tokens_deposit_sum(tokens.drop_last()) + slot_deposit(tokens.last())
    }
}

/// What a class's escrow account is owed: the class deposit, its live
/// tokens' deposits, and its supporters' contributions; nothing for a class
/// never created.
pub open spec fn class_escrow_total(s: RegistryView, class_id: u64) -> int {
    if class_id < s.classes.len() {
        s.classes[class_id as int].deposit + tokens_deposit_sum(
            s.classes[class_id as int].tokens,
        ) + s.contributions[class_id]
    } else {
        0
    }
}

/// The escrow accounting equation: every class escrow account holds exactly
/// what it is owed, all of it reserved, and contribution totals are
/// non-negative and only exist for created classes.
pub open spec fn escrow_ok(s: RegistryView) -> bool {
    forall|c: u64|
        #![trigger s.ledger.free[AccountId::ClassFund(c)]]
        {
            &&& s.ledger.free[AccountId::ClassFund(c)] == 0
            &&& s.ledger.reserved[AccountId::ClassFund(c)] == class_escrow_total(s, c)
            &&& s.contributions[c] >= 0
            &&& (c >= s.classes.len() ==> s.contributions[c] == 0)
        }
}

/// A fresh registry — no classes, no funds, no contributions — satisfies the
/// escrow equation.
pub proof fn lemma_escrow_initial(s: RegistryView)
    requires
        s.classes.len() == 0,
        forall|a: AccountId| s.ledger.free[a] == 0 && s.ledger.reserved[a] == 0,
        forall|c: u64| s.contributions[c] == 0,
    ensures
        escrow_ok(s),
{
}

proof fn lemma_sum_nonneg(tokens: Seq<Option<TokenView>>)
    ensures
        tokens_deposit_sum(tokens) >= 0,
    decreases tokens.len(),
{
    if tokens.len() > 0 {
        lemma_sum_nonneg(tokens.drop_last());
    }
}

/// Replacing one slot changes the sum by the difference of the deposits.
proof fn lemma_sum_update(tokens: Seq<Option<TokenView>>, i: int, slot: Option<TokenView>)
    requires
        0 <= i < tokens.len(),
    ensures
        tokens_deposit_sum(tokens.update(i, slot)) == tokens_deposit_sum(tokens) - slot_deposit(
            tokens[i],
        ) + slot_deposit(slot),
    decreases tokens.len(),
{
    let t2 = tokens.update(i, slot);
    if i == tokens.len() - 1 {
        assert(t2.drop_last() =~= tokens.drop_last());
    } else {
        assert(t2.drop_last() =~= tokens.drop_last().update(i, slot));
        assert(t2.last() == tokens.last());
        lemma_sum_update(tokens.drop_last(), i, slot);
    }
}

/// A live token's deposit never exceeds the class's token deposit sum.
proof fn lemma_sum_member(tokens: Seq<Option<TokenView>>, i: int)
    requires
        0 <= i < tokens.len(),
    ensures
        slot_deposit(tokens[i]) <= tokens_deposit_sum(tokens),
{
    lemma_sum_update(tokens, i, None);
    lemma_sum_nonneg(tokens.update(i, None));
}

/// Appending a run of alike tokens adds the per-token deposit that many
/// times.
proof fn lemma_sum_minted(
    tokens: Seq<Option<TokenView>>,
    owner: u64,
    metadata: Seq<u8>,
    deposit: u128,
    attributes: Seq<AttributeView>,
    quantity: int,
)
    requires
        quantity >= 0,
    ensures
        tokens_deposit_sum(
            tokens + minted_tokens(owner, metadata, deposit, attributes, quantity),
        ) == tokens_deposit_sum(tokens) + quantity * deposit,
    decreases quantity,
{
    let whole = tokens + minted_tokens(owner, metadata, deposit, attributes, quantity);
    if quantity == 0 {
        assert(whole =~= tokens);
        assert(quantity * deposit == 0) by (nonlinear_arith)
            requires quantity == 0,
        ;
    } else {
        lemma_sum_minted(tokens, owner, metadata, deposit, attributes, quantity - 1);
        assert(whole.drop_last() =~= tokens + minted_tokens(
            owner,
            metadata,
            deposit,
            attributes,
            quantity - 1,
        ));
        assert(whole.last() == Some(TokenView { owner, metadata, deposit, attributes }));
        assert(quantity * deposit == (quantity - 1) * deposit + deposit) by (nonlinear_arith);
    }
}

/// A state with the same ledger, classes and contribution totals satisfies
/// the escrow equation whenever the first does.
proof fn lemma_escrow_same_parts(s: RegistryView, s2: RegistryView)
    requires
        escrow_ok(s),
        s2.ledger.free == s.ledger.free,
        s2.ledger.reserved == s.ledger.reserved,
        s2.classes == s.classes,
        s2.contributions == s.contributions,
    ensures
        escrow_ok(s2),
{
    assert forall|c: u64|
        #![trigger s2.ledger.free[AccountId::ClassFund(c)]]
        {
            &&& s2.ledger.free[AccountId::ClassFund(c)] == 0
            &&& s2.ledger.reserved[AccountId::ClassFund(c)] == class_escrow_total(s2, c)
            &&& s2.contributions[c] >= 0
            &&& (c >= s2.classes.len() ==> s2.contributions[c] == 0)
        } by {
        assert(s.ledger.free[AccountId::ClassFund(c)] == 0);
        assert(class_escrow_total(s2, c) == class_escrow_total(s, c));
    }
}

/// Creating a group collection moves no funds and keeps the escrow
/// equation.
pub proof fn lemma_escrow_create_group(
    s: RegistryView,
    origin: Origin,
    name: Seq<u8>,
    properties: Seq<u8>,
)
    requires
        escrow_ok(s),
        create_group_outcome(s, origin, name, properties) is Ok,
    ensures
        escrow_ok(create_group_outcome(s, origin, name, properties)->Ok_0),
{
    lemma_escrow_same_parts(s, create_group_outcome(s, origin, name, properties)->Ok_0);
}

/// Locking, unlocking and the promotion flag move no funds and keep the
/// escrow equation.
pub proof fn lemma_escrow_governance_flags(s: RegistryView, origin: Origin, class_id: u64, enable: bool)
    requires
        escrow_ok(s),
    ensures
        force_lock_outcome(s, origin, class_id) is Ok ==> escrow_ok(
            force_lock_outcome(s, origin, class_id)->Ok_0,
        ),
        force_unlock_outcome(s, origin, class_id) is Ok ==> escrow_ok(
            force_unlock_outcome(s, origin, class_id)->Ok_0,
        ),
        enable_promotion_outcome(s, origin, enable) is Ok ==> escrow_ok(
            enable_promotion_outcome(s, origin, enable)->Ok_0,
        ),
{
    if force_lock_outcome(s, origin, class_id) is Ok {
        lemma_escrow_same_parts(s, force_lock_outcome(s, origin, class_id)->Ok_0);
    }
    if force_unlock_outcome(s, origin, class_id) is Ok {
        lemma_escrow_same_parts(s, force_unlock_outcome(s, origin, class_id)->Ok_0);
    }
    if enable_promotion_outcome(s, origin, enable) is Ok {
        lemma_escrow_same_parts(s, enable_promotion_outcome(s, origin, enable)->Ok_0);
    }
}

/// Creating a class escrows exactly the class deposit in the new class's
/// escrow account and keeps the escrow equation.
pub proof fn lemma_escrow_create_class(
    s: RegistryView,
    origin: Origin,
    metadata: Seq<u8>,
    attributes: Seq<AttributeView>,
    collection_id: u64,
    token_type: TokenType,
    collection_type: CollectionType,
    royalty_fee: u32,
)
    requires
        escrow_ok(s),
        create_class_outcome(
            s,
            origin,
            metadata,
            attributes,
            collection_id,
            token_type,
            collection_type,
            royalty_fee,
        ) is Ok,
    ensures
        escrow_ok(
            create_class_outcome(
                s,
                origin,
                metadata,
                attributes,
                collection_id,
                token_type,
                collection_type,
                royalty_fee,
            )->Ok_0,
        ),
{
    let s2 = create_class_outcome(
        s,
        origin,
        metadata,
        attributes,
        collection_id,
        token_type,
        collection_type,
        royalty_fee,
    )->Ok_0;
    let new_id = s.classes.len() as u64;
    let sender = AccountId::User(origin->Signed_0);
    assert forall|c: u64|
        #![trigger s2.ledger.free[AccountId::ClassFund(c)]]
        {
            &&& s2.ledger.free[AccountId::ClassFund(c)] == 0
            &&& s2.ledger.reserved[AccountId::ClassFund(c)] == class_escrow_total(s2, c)
            &&& s2.contributions[c] >= 0
            &&& (c >= s2.classes.len() ==> s2.contributions[c] == 0)
        } by {
        assert(s.ledger.free[AccountId::ClassFund(c)] == 0);
        assert(s.ledger.free[AccountId::ClassFund(new_id)] == 0);
        if c == new_id {
            assert(s2.classes[c as int].tokens =~= Seq::<Option<TokenView>>::empty());
        } else {
            assert(AccountId::ClassFund(c) != sender);
            assert(AccountId::ClassFund(c) != AccountId::ClassFund(new_id));
            if c < s.classes.len() {
                assert(s2.classes[c as int] == s.classes[c as int]);
            }
        }
    }
}

/// Minting moves exactly the batch deposit into the class's escrow account,
/// matching the deposits recorded on the new tokens, and keeps the escrow
/// equation. The law asks that the batch deposit not saturate: at the
/// saturation bound the ledger would move less than the tokens record.
pub proof fn lemma_escrow_mint(
    s: RegistryView,
    origin: Origin,
    class_id: u64,
    metadata: Seq<u8>,
    attributes: Seq<AttributeView>,
    quantity: u32,
)
    requires
        escrow_ok(s),
        mint_outcome(s, origin, class_id, metadata, attributes, quantity) is Ok,
        ({
            let per_token = crate::deposit::deposit_outcome(
                s.max_metadata,
                s.deposit_per_byte,
                attributes,
                metadata,
            )->Ok_0;
            per_token * quantity <= u128::MAX
        }),
    ensures
        escrow_ok(mint_outcome(s, origin, class_id, metadata, attributes, quantity)->Ok_0),
{
    let s2 = mint_outcome(s, origin, class_id, metadata, attributes, quantity)->Ok_0;
    let sender = AccountId::User(origin->Signed_0);
    let per_token = crate::deposit::deposit_outcome(
        s.max_metadata,
        s.deposit_per_byte,
        attributes,
        metadata,
    )->Ok_0;
    assert(per_token * quantity >= 0) by (nonlinear_arith);
    lemma_sum_minted(
        s.classes[class_id as int].tokens,
        origin->Signed_0,
        metadata,
        per_token,
        attributes,
        quantity as int,
    );
    assert forall|c: u64|
        #![trigger s2.ledger.free[AccountId::ClassFund(c)]]
        {
            &&& s2.ledger.free[AccountId::ClassFund(c)] == 0
            &&& s2.ledger.reserved[AccountId::ClassFund(c)] == class_escrow_total(s2, c)
            &&& s2.contributions[c] >= 0
            &&& (c >= s2.classes.len() ==> s2.contributions[c] == 0)
        } by {
        assert(s.ledger.free[AccountId::ClassFund(c)] == 0);
        assert(s.ledger.free[AccountId::ClassFund(class_id)] == 0);
        if c != class_id {
            assert(AccountId::ClassFund(c) != sender);
            assert(AccountId::ClassFund(c) != AccountId::ClassFund(class_id));
            if c < s.classes.len() {
                assert(s2.classes[c as int] == s.classes[c as int]);
            }
        } else {
            let total = crate::deposit::saturate_u128(per_token * quantity);
            assert(total == per_token * quantity);
            assert(s2.classes[c as int].tokens == s.classes[c as int].tokens + minted_tokens(
                origin->Signed_0,
                metadata,
                per_token,
                attributes,
                quantity as int,
            ));
            assert(tokens_deposit_sum(s2.classes[c as int].tokens) == tokens_deposit_sum(
                s.classes[c as int].tokens,
            ) + quantity * per_token);
            assert(quantity * per_token == per_token * quantity) by (nonlinear_arith);
            assert(s2.classes[c as int].deposit == s.classes[c as int].deposit);
            assert(s2.contributions[c] == s.contributions[c]);
            assert(s2.ledger.reserved[AccountId::ClassFund(c)] == s.ledger.reserved[
                AccountId::ClassFund(c)
            ] + total);
        }
    }
}

/// Changing one token's owner moves no funds and keeps the escrow equation.
proof fn lemma_escrow_set_owner(s: RegistryView, asset: Asset, to: u64)
    requires
        escrow_ok(s),
        token_of(s, asset) is Some,
    ensures
        escrow_ok(set_token_owner(s, asset, to)),
{
    let s2 = set_token_owner(s, asset, to);
    let cid = asset.class_id;
    lemma_sum_update(
        s.classes[cid as int].tokens,
        asset.token_id as int,
        s2.classes[cid as int].tokens[asset.token_id as int],
    );
    assert forall|c: u64|
        #![trigger s2.ledger.free[AccountId::ClassFund(c)]]
        {
            &&& s2.ledger.free[AccountId::ClassFund(c)] == 0
            &&& s2.ledger.reserved[AccountId::ClassFund(c)] == class_escrow_total(s2, c)
            &&& s2.contributions[c] >= 0
            &&& (c >= s2.classes.len() ==> s2.contributions[c] == 0)
        } by {
        assert(s.ledger.free[AccountId::ClassFund(c)] == 0);
        if c != cid && c < s.classes.len() {
            assert(s2.classes[c as int] == s.classes[c as int]);
        }
    }
}

/// An owner-initiated transfer moves no funds and keeps the escrow
/// equation; so do its governance-forced and collaborator-facing forms.
pub proof fn lemma_escrow_transfer(s: RegistryView, origin: Origin, from: u64, to: u64, asset: Asset)
    requires
        escrow_ok(s),
    ensures
        transfer_outcome(s, origin, to, asset) is Ok ==> escrow_ok(
            transfer_outcome(s, origin, to, asset)->Ok_0,
        ),
        do_transfer_outcome(s, from, to, asset) is Ok ==> escrow_ok(
            do_transfer_outcome(s, from, to, asset)->Ok_0,
        ),
        force_transfer_outcome(s, origin, from, to, asset) is Ok ==> escrow_ok(
            force_transfer_outcome(s, origin, from, to, asset)->Ok_0,
        ),
        do_force_transfer_outcome(s, from, to, asset) is Ok ==> escrow_ok(
            do_force_transfer_outcome(s, from, to, asset)->Ok_0,
        ),
{
    if do_transfer_outcome(s, from, to, asset) is Ok {
        lemma_escrow_set_owner(s, asset, to);
    }
    if do_force_transfer_outcome(s, from, to, asset) is Ok {
        lemma_escrow_set_owner(s, asset, to);
    }
    if transfer_outcome(s, origin, to, asset) is Ok {
        let sender = origin->Signed_0;
        lemma_escrow_set_owner(s, asset, to);
        lemma_escrow_same_parts(
            set_token_owner(s, asset, to),
            transfer_outcome(s, origin, to, asset)->Ok_0,
        );
    }
    if force_transfer_outcome(s, origin, from, to, asset) is Ok {
        lemma_escrow_set_owner(s, asset, to);
        lemma_escrow_same_parts(
            set_token_owner(s, asset, to),
            force_transfer_outcome(s, origin, from, to, asset)->Ok_0,
        );
    }
}

/// One batch entry moves no funds and keeps the escrow equation.
proof fn lemma_escrow_batch_entry(s: RegistryView, sender: u64, to: u64, asset: Asset)
    requires
        escrow_ok(s),
        batch_entry_outcome(s, sender, to, asset) is Ok,
    ensures
        escrow_ok(batch_entry_outcome(s, sender, to, asset)->Ok_0),
{
    let s2 = batch_entry_outcome(s, sender, to, asset)->Ok_0;
    if s2 != s {
        lemma_escrow_set_owner(s, asset, to);
        lemma_escrow_same_parts(set_token_owner(s, asset, to), s2);
    }
}

proof fn lemma_escrow_batch_entries(s: RegistryView, sender: u64, tos: Seq<(u64, Asset)>)
    requires
        escrow_ok(s),
        batch_entries_outcome(s, sender, tos) is Ok,
    ensures
        escrow_ok(batch_entries_outcome(s, sender, tos)->Ok_0),
    decreases tos.len(),
{
    if tos.len() > 0 {
        let s2 = batch_entry_outcome(s, sender, tos[0].0, tos[0].1)->Ok_0;
        lemma_escrow_batch_entry(s, sender, tos[0].0, tos[0].1);
        lemma_escrow_batch_entries(s2, sender, tos.drop_first());
    }
}

/// A batch transfer moves no funds and keeps the escrow equation.
pub proof fn lemma_escrow_transfer_batch(s: RegistryView, origin: Origin, tos: Seq<(u64, Asset)>)
    requires
        escrow_ok(s),
        transfer_batch_outcome(s, origin, tos) is Ok,
    ensures
        escrow_ok(transfer_batch_outcome(s, origin, tos)->Ok_0),
{
    lemma_escrow_batch_entries(s, origin->Signed_0, tos);
}

/// Signing an asset escrows exactly the contribution in the asset's class
/// escrow account, grows that class's contribution total by the same
/// amount, and keeps the escrow equation.
pub proof fn lemma_escrow_sign_asset(
    s: RegistryView,
    origin: Origin,
    asset: Asset,
    contribution: u128,
)
    requires
        escrow_ok(s),
        sign_asset_outcome(s, origin, asset, contribution) is Ok,
    ensures
        escrow_ok(sign_asset_outcome(s, origin, asset, contribution)->Ok_0),
{
    let s2 = sign_asset_outcome(s, origin, asset, contribution)->Ok_0;
    let sender = AccountId::User(origin->Signed_0);
    let cid = asset.class_id;
    assert forall|c: u64|
        #![trigger s2.ledger.free[AccountId::ClassFund(c)]]
        {
            &&& s2.ledger.free[AccountId::ClassFund(c)] == 0
            &&& s2.ledger.reserved[AccountId::ClassFund(c)] == class_escrow_total(s2, c)
            &&& s2.contributions[c] >= 0
            &&& (c >= s2.classes.len() ==> s2.contributions[c] == 0)
        } by {
        assert(s.ledger.free[AccountId::ClassFund(c)] == 0);
        assert(s.ledger.free[AccountId::ClassFund(cid)] == 0);
        if c != cid {
            assert(AccountId::ClassFund(c) != sender);
            assert(AccountId::ClassFund(c) != AccountId::ClassFund(cid));
        }
    }
}

/// Burning removes the token and returns exactly its recorded deposit from
/// the class escrow account — the equation guarantees that much is reserved
/// — and keeps the escrow equation.
pub proof fn lemma_escrow_burn(s: RegistryView, origin: Origin, asset: Asset)
    requires
        escrow_ok(s),
        burn_outcome(s, origin, asset) is Ok,
    ensures
        escrow_ok(burn_outcome(s, origin, asset)->Ok_0),
        ({
            let s2 = burn_outcome(s, origin, asset)->Ok_0;
            let fund = AccountId::ClassFund(asset.class_id);
            s.ledger.reserved[fund] - s2.ledger.reserved[fund] == token_of(
                s,
                asset,
            )->0.deposit as int
        }),
{
    let s2 = burn_outcome(s, origin, asset)->Ok_0;
    let sender = AccountId::User(origin->Signed_0);
    let cid = asset.class_id;
    let deposit = token_of(s, asset)->0.deposit;
    lemma_sum_member(s.classes[cid as int].tokens, asset.token_id as int);
    lemma_sum_update(s.classes[cid as int].tokens, asset.token_id as int, None);
    // The equation guarantees the escrow account has the whole deposit
    // reserved, so exactly that much comes back.
    assert(s.ledger.free[AccountId::ClassFund(cid)] == 0);
    assert(s.ledger.reserved[AccountId::ClassFund(cid)] == class_escrow_total(s, cid));
    assert(slot_deposit(s.classes[cid as int].tokens[asset.token_id as int]) == deposit);
    assert(class_escrow_total(s, cid) >= deposit);
    assert(s2.ledger.reserved[AccountId::ClassFund(cid)] == s.ledger.reserved[
        AccountId::ClassFund(cid)
    ] - deposit);
    assert forall|c: u64|
        #![trigger s2.ledger.free[AccountId::ClassFund(c)]]
        {
            &&& s2.ledger.free[AccountId::ClassFund(c)] == 0
            &&& s2.ledger.reserved[AccountId::ClassFund(c)] == class_escrow_total(s2, c)
            &&& s2.contributions[c] >= 0
            &&& (c >= s2.classes.len() ==> s2.contributions[c] == 0)
        } by {
        assert(s.ledger.free[AccountId::ClassFund(c)] == 0);
        if c != cid {
            assert(AccountId::ClassFund(c) != sender);
            assert(AccountId::ClassFund(c) != AccountId::ClassFund(cid));
            if c < s.classes.len() {
                assert(s2.classes[c as int] == s.classes[c as int]);
            }
        }
    }
}

/// Burning behind the collaborator interface keeps the escrow equation too.
pub proof fn lemma_escrow_do_burn(s: RegistryView, sender: u64, asset: Asset)
    requires
        escrow_ok(s),
        do_burn_outcome(s, sender, asset) is Ok,
    ensures
        escrow_ok(do_burn_outcome(s, sender, asset)->Ok_0),
{
    lemma_escrow_burn(s, Origin::Signed(sender), asset);
    lemma_escrow_same_parts(
        burn_outcome(s, Origin::Signed(sender), asset)->Ok_0,
        do_burn_outcome(s, sender, asset)->Ok_0,
    );
}

} // verus!
