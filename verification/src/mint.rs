//! Minting: issuing one or more tokens under a class. The minter escrows one
//! pre-computed total deposit for the whole batch into the class's escrow
//! account — a single ledger movement, not one per token — and the tokens are
//! then appended with consecutive identifiers, each recording the same
//! per-token deposit and attributes.

use vstd::prelude::*;

use crate::deposit::{calculate_fee_deposit, deposit_outcome, saturate_u128};
use crate::ledger::{reserve_outcome, transfer_outcome};
use crate::registry::{Registry, RegistryView};
use crate::types::{
    clone_attributes, clone_bytes, lemma_deep_view_unfold, AccountId, Asset, Attributes,
    AttributeView, ClassView, Error, Event, Origin, TokenRecord, TokenView,
};

verus! {

/// A run of `quantity` fresh tokens, all alike: same owner, metadata,
/// per-token deposit and attributes.
pub open spec fn minted_tokens(
    owner: u64,
    metadata: Seq<u8>,
    deposit: u128,
    attributes: Seq<AttributeView>,
    quantity: int,
) -> Seq<Option<TokenView>> {
    Seq::new(
        quantity as nat,
        |i: int| Some(TokenView { owner, metadata, deposit, attributes }),
    )
}

/// What minting does for an already authenticated caller: the class must not
/// be locked; the quantity must be at least one and at most the batch bound;
/// the metadata must fit the bound; the class must exist and the caller own
/// it; the deposit calculator prices one token and the whole batch owes that
/// price times the quantity (saturating); the batch total moves from the
/// caller into the class escrow account and is reserved there; and the
/// tokens are appended to the class under the next identifiers.
pub open spec fn do_mint_outcome(
    s: RegistryView,
    sender: u64,
    class_id: u64,
    metadata: Seq<u8>,
    attributes: Seq<AttributeView>,
    quantity: u32,
) -> Result<RegistryView, Error> {
    if s.locked.contains(class_id) {
        Err(Error::CollectionIsLocked)
    } else if quantity < 1 {
        Err(Error::InvalidQuantity)
    } else if quantity > s.max_batch_minting {
        Err(Error::ExceedMaximumBatchMinting)
    } else if metadata.len() > s.max_metadata {
        Err(Error::ExceedMaximumMetadataLength)
    } else if class_id >= s.classes.len() {
        Err(Error::ClassIdNotFound)
    } else if sender != s.classes[class_id as int].owner {
        Err(Error::NoPermission)
    } else {
        match deposit_outcome(s.max_metadata, s.deposit_per_byte, attributes, metadata) {
            Err(e) => Err(e),
            Ok(token_deposit) => {
                let total = saturate_u128(token_deposit * quantity);
                let cls = s.classes[class_id as int];
                if cls.tokens.len() + quantity > u64::MAX {
                    Err(Error::NoAvailableTokenId)
                } else {
                    let fund = AccountId::ClassFund(class_id);
                    match transfer_outcome(s.ledger, AccountId::User(sender), fund, total) {
                        Err(e) => Err(e),
                        Ok(l1) => match reserve_outcome(l1, fund, total) {
                            Err(e) => Err(e),
                            Ok(l2) => Ok(
                                RegistryView {
                                    classes: s.classes.update(
                                        class_id as int,
                                        ClassView {
                                            tokens: cls.tokens + minted_tokens(
                                                sender,
                                                metadata,
                                                token_deposit,
                                                attributes,
                                                quantity as int,
                                            ),
                                            ..cls
                                        },
                                    ),
                                    ledger: l2,
                                    ..s
                                },
                            ),
                        },
                    }
                }
            },
        }
    }
}

/// What the mint operation does: the caller must sign; the batch is minted
/// as `do_mint_outcome` says; and one notification carries the first and
/// last minted asset, the minter, the class, the quantity and the last token
/// identifier.
pub open spec fn mint_outcome(
    s: RegistryView,
    origin: Origin,
    class_id: u64,
    metadata: Seq<u8>,
    attributes: Seq<AttributeView>,
    quantity: u32,
) -> Result<RegistryView, Error> {
    if !(origin is Signed) {
        Err(Error::BadOrigin)
    } else {
        let sender = origin->Signed_0;
        match do_mint_outcome(s, sender, class_id, metadata, attributes, quantity) {
            Err(e) => Err(e),
            Ok(s2) => {
                let first = s.classes[class_id as int].tokens.len() as u64;
                let last = (first + quantity - 1) as u64;
                Ok(
                    RegistryView {
                        events: s2.events.push(
                            Event::NewNftMinted(
                                Asset { class_id, token_id: first },
                                Asset { class_id, token_id: last },
                                sender,
                                class_id,
                                quantity,
                                last,
                            ),
                        ),
                        ..s2
                    },
                )
            },
        }
    }
}

impl Registry {
    /// Mint `quantity` tokens under `class_id` for `sender`, who must own
    /// the class, escrowing the batch deposit. Reports the new asset
    /// identifiers, in order, and the last token identifier.
    fn do_mint_nfts(
        &mut self,
        sender: u64,
        class_id: u64,
        metadata: Vec<u8>,
        attributes: Attributes,
        quantity: u32,
    ) -> (r: Result<(Vec<Asset>, u64), Error>)
        requires
            old(self).wf(),
        ensures
            final(self).wf(),
            match do_mint_outcome(
                old(self)@,
                sender,
                class_id,
                metadata@,
                attributes.deep_view(),
                quantity,
            ) {
                Ok(s2) => {
                    &&& r is Ok
                    &&& final(self)@ == s2
                    &&& ({
                        let n = old(self)@.classes[class_id as int].tokens.len();
                        &&& r->Ok_0.1 == (n + quantity - 1) as u64
                        &&& r->Ok_0.0@ == Seq::new(
                            quantity as nat,
                            |k: int| Asset { class_id, token_id: (n + k) as u64 },
                        )
                    })
                },
                Err(e) => r == Err::<(Vec<Asset>, u64), Error>(e) && final(self)@ == old(self)@
                    && *final(self) == *old(self),
            },
    {
        let ghost s0 = self@;
        let ghost metadata_view = metadata@;
        let ghost attributes_view = attributes.deep_view();
        if self.is_collection_locked(class_id) {
            return Err(Error::CollectionIsLocked);
        }
        if quantity < 1 {
            return Err(Error::InvalidQuantity);
        }
        if quantity > self.max_batch_minting {
            return Err(Error::ExceedMaximumBatchMinting);
        }
        if metadata.len() > self.max_metadata as usize {
            return Err(Error::ExceedMaximumMetadataLength);
        }
        if class_id >= self.classes.len() as u64 {
            return Err(Error::ClassIdNotFound);
        }
        let ci = class_id as usize;
        proof {
            lemma_deep_view_unfold(self.classes);
        }
        if sender != self.classes[ci].owner {
            return Err(Error::NoPermission);
        }
        let token_deposit = match calculate_fee_deposit(
            self.max_metadata,
            self.deposit_per_byte,
            &attributes,
            &metadata,
        ) {
            Ok(d) => d,
            Err(e) => {
                return Err(e);
            },
        };
        let total: u128 = match token_deposit.checked_mul(quantity as u128) {
            Some(v) => v,
            None => u128::MAX,
        };
        let n_tokens = self.classes[ci].tokens.len();
        proof {
            lemma_deep_view_unfold(self.classes[ci as int].tokens);
        }
        let n = n_tokens as u64;
        if quantity as u64 > u64::MAX - n {
            return Err(Error::NoAvailableTokenId);
        }
        let fund = AccountId::ClassFund(class_id);
        let sender_account = AccountId::User(sender);
        // Every check below reads only, so that a failure leaves the state
        // untouched; the ledger movements then provably succeed.
        let free_sender = self.ledger.free_balance(sender_account);
        if free_sender < total {
            return Err(Error::InsufficientBalance);
        }
        if free_sender - total < self.ledger.existential_min {
            return Err(Error::InsufficientBalance);
        }
        let free_fund = self.ledger.free_balance(fund);
        if total > u128::MAX - free_fund {
            return Err(Error::ArithmeticOverflow);
        }
        let reserved_fund = self.ledger.reserved_balance(fund);
        if total > u128::MAX - reserved_fund {
            return Err(Error::ArithmeticOverflow);
        }
        if let Err(e) = self.ledger.transfer_keep_alive(sender_account, fund, total) {
            proof {
                assert(false);
            }
            return Err(e);
        }
        if let Err(e) = self.ledger.reserve(fund, total) {
            proof {
                assert(false);
            }
            return Err(e);
        }
        let ghost mid = *self;
        let mut cls = self.classes.remove(ci);
        let ghost cls_view = cls@;
        let ghost tokens0 = cls.tokens.deep_view();
        let mut new_asset_ids: Vec<Asset> = Vec::new();
        let mut j: u32 = 0;
        proof {
            assert(cls.tokens.deep_view() =~= tokens0 + minted_tokens(
                sender,
                metadata_view,
                token_deposit,
                attributes_view,
                0,
            ));
            assert(new_asset_ids@ =~= Seq::new(
                0nat,
                |k: int| Asset { class_id, token_id: (n + k) as u64 },
            ));
        }
        while j < quantity
            invariant
                0 <= j <= quantity,
                n == tokens0.len(),
                n + quantity <= u64::MAX,
                metadata@ == metadata_view,
                attributes.deep_view() == attributes_view,
                cls@ == (ClassView { tokens: cls.tokens.deep_view(), ..cls_view }),
                cls.tokens.deep_view() == tokens0 + minted_tokens(
                    sender,
                    metadata_view,
                    token_deposit,
                    attributes_view,
                    j as int,
                ),
                new_asset_ids@ == Seq::new(
                    j as nat,
                    |k: int| Asset { class_id, token_id: (n + k) as u64 },
                ),
            decreases quantity - j,
        {
            let tok_metadata = clone_bytes(&metadata);
            let tok_attributes = clone_attributes(&attributes);
            let ghost toks_before = cls.tokens@;
            let ghost deep_before = cls.tokens.deep_view();
            cls.tokens.push(
                Some(
                    TokenRecord {
                        owner: sender,
                        metadata: tok_metadata,
                        deposit: token_deposit,
                        attributes: tok_attributes,
                    },
                ),
            );
            new_asset_ids.push(Asset { class_id, token_id: n + j as u64 });
            proof {
                let target = tokens0 + minted_tokens(
                    sender,
                    metadata_view,
                    token_deposit,
                    attributes_view,
                    j + 1,
                );
                lemma_deep_view_unfold(cls.tokens);
                assert(deep_before == Seq::new(
                    toks_before.len(),
                    |k: int| toks_before[k].deep_view(),
                ));
                assert(deep_before.len() == toks_before.len());
                assert(toks_before.len() == n + j);
                assert forall|k: int| 0 <= k < n + j + 1 implies #[trigger] cls.tokens.deep_view()[
                    k
                ] == target[k] by {
                    if k < n + j {
                        assert(cls.tokens@[k] == toks_before[k]);
                        assert(deep_before[k] == (tokens0 + minted_tokens(
                            sender,
                            metadata_view,
                            token_deposit,
                            attributes_view,
                            j as int,
                        ))[k]);
                        if k >= n {
                            assert((tokens0 + minted_tokens(
                                sender,
                                metadata_view,
                                token_deposit,
                                attributes_view,
                                j as int,
                            ))[k] == minted_tokens(
                                sender,
                                metadata_view,
                                token_deposit,
                                attributes_view,
                                j as int,
                            )[k - n]);
                            assert(target[k] == minted_tokens(
                                sender,
                                metadata_view,
                                token_deposit,
                                attributes_view,
                                j + 1,
                            )[k - n]);
                        }
                    } else {
                        assert(cls.tokens@[k].deep_view()->0 =~= TokenView {
                            owner: sender,
                            metadata: metadata_view,
                            deposit: token_deposit,
                            attributes: attributes_view,
                        });
                        assert(target[k] == Some(
                            TokenView {
                                owner: sender,
                                metadata: metadata_view,
                                deposit: token_deposit,
                                attributes: attributes_view,
                            },
                        ));
                    }
                }
                assert(cls.tokens.deep_view() =~= target);
                assert(new_asset_ids@ =~= Seq::new(
                    (j + 1) as nat,
                    |k: int| Asset { class_id, token_id: (n + k) as u64 },
                ));
            }
            j = j + 1;
        }
        proof {
            lemma_deep_view_unfold(self.classes);
            lemma_deep_view_unfold(mid.classes);
        }
        self.classes.insert(ci, cls);
        proof {
            lemma_deep_view_unfold(self.classes);
            assert(self.classes@ =~= mid.classes@.update(ci as int, self.classes@[ci as int]));
            assert(self.classes.deep_view() =~= mid.classes.deep_view().update(ci as int, cls@));
            assert(self@ =~~= do_mint_outcome(
                s0,
                sender,
                class_id,
                metadata_view,
                attributes_view,
                quantity,
            )->Ok_0);
        }
        Ok((new_asset_ids, n + (quantity as u64 - 1)))
    }

    /// Mint `quantity` tokens under `class_id`. The caller must sign and own
    /// the class; the batch deposit is escrowed as one movement; one
    /// notification reports the minted range.
    pub fn mint(
        &mut self,
        origin: Origin,
        class_id: u64,
        metadata: Vec<u8>,
        attributes: Attributes,
        quantity: u32,
    ) -> (r: Result<(), Error>)
        requires
            old(self).wf(),
        ensures
            final(self).wf(),
            match mint_outcome(
                old(self)@,
                origin,
                class_id,
                metadata@,
                attributes.deep_view(),
                quantity,
            ) {
                Ok(s2) => r is Ok && final(self)@ == s2,
                Err(e) => r == Err::<(), Error>(e) && final(self)@ == old(self)@,
            },
    {
        let ghost metadata_view = metadata@;
        let ghost attributes_view = attributes.deep_view();
        let sender: u64 = match origin {
            Origin::Signed(s) => s,
            _ => {
                return Err(Error::BadOrigin);
            },
        };
        let (new_asset_ids, last_token_id) = match self.do_mint_nfts(
            sender,
            class_id,
            metadata,
            attributes,
            quantity,
        ) {
            Ok(p) => p,
            Err(e) => {
                return Err(e);
            },
        };
        let first = new_asset_ids[0];
        let last = Asset { class_id, token_id: last_token_id };
        self.events.push(
            Event::NewNftMinted(first, last, sender, class_id, quantity, last_token_id),
        );
        proof {
            assert(self@ =~~= mint_outcome(
                old(self)@,
                origin,
                class_id,
                metadata_view,
                attributes_view,
                quantity,
            )->Ok_0);
        }
        Ok(())
    }
}

} // verus!
