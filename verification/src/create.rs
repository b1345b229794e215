//! Creation of group collections and of token classes. Collections are
//! created by governance and charge no deposit; classes are created by a
//! signed caller who escrows a deposit proportional to the stored bytes into
//! the class's derived escrow account.

use vstd::prelude::*;

use crate::deposit::{calculate_fee_deposit, deposit_outcome};
use crate::ledger::{reserve_outcome, transfer_outcome};
use crate::registry::{Registry, RegistryView};
use crate::types::{
    AccountId, Attributes, AttributeView, ClassRecord, ClassView, CollectionType, CollectionView, Error, Event,
    NftGroupCollectionData, Origin, TokenType, TokenView,
};

verus! {

/// The largest allowed royalty fraction, in parts per billion: one quarter.
pub const ROYALTY_FEE_LIMIT: u32 = 250000000;

/// What creating a group collection does: only governance may create one;
/// the name and the properties must fit the metadata bound; the next
/// collection identifier and the collection counter must not overflow; on
/// success the record is appended under the next identifier, the counter
/// grows, and a notification carries the new identifier.
pub open spec fn create_group_outcome(
    s: RegistryView,
    origin: Origin,
    name: Seq<u8>,
    properties: Seq<u8>,
) -> Result<RegistryView, Error> {
    if !(origin is Root) {
        Err(Error::BadOrigin)
    } else if name.len() > s.max_metadata || properties.len() > s.max_metadata {
        Err(Error::ExceedMaximumMetadataLength)
    } else if s.collections.len() >= u64::MAX {
        Err(Error::NoAvailableCollectionId)
    } else if s.total_collections == u64::MAX {
        Err(Error::CounterOverflow)
    } else {
        Ok(
            RegistryView {
                collections: s.collections.push(CollectionView { name, properties }),
                total_collections: (s.total_collections + 1) as u64,
                events: s.events.push(
                    Event::NewNftCollectionCreated(s.collections.len() as u64),
                ),
                ..s
            },
        )
    }
}

/// What creating a class does: the caller must sign; the metadata must fit
/// the bound; the collection must exist; the royalty fee may not exceed the
/// limit; the deposit calculator prices the stored bytes; the deposit moves
/// from the caller into the new class's escrow account, whose whole free
/// balance is then reserved; and the class record is appended under the next
/// class identifier with the caller as owner, with a notification carrying
/// the new identifier.
pub open spec fn create_class_outcome(
    s: RegistryView,
    origin: Origin,
    metadata: Seq<u8>,
    attributes: Seq<AttributeView>,
    collection_id: u64,
    token_type: TokenType,
    collection_type: CollectionType,
    royalty_fee: u32,
) -> Result<RegistryView, Error> {
    if !(origin is Signed) {
        Err(Error::BadOrigin)
    } else {
        let sender = origin->Signed_0;
        if metadata.len() > s.max_metadata {
            Err(Error::ExceedMaximumMetadataLength)
        } else if collection_id >= s.collections.len() {
            Err(Error::CollectionDoesNotExist)
        } else if royalty_fee > ROYALTY_FEE_LIMIT {
            Err(Error::RoyaltyFeeExceedLimit)
        } else {
            match deposit_outcome(s.max_metadata, s.deposit_per_byte, attributes, metadata) {
                Err(e) => Err(e),
                Ok(class_deposit) => {
                    let fund = AccountId::ClassFund(s.classes.len() as u64);
                    match transfer_outcome(s.ledger, AccountId::User(sender), fund, class_deposit) {
                        Err(e) => Err(e),
                        Ok(l1) => match reserve_outcome(l1, fund, l1.free[fund]) {
                            Err(e) => Err(e),
                            Ok(l2) => if s.classes.len() >= u64::MAX {
                                Err(Error::NoAvailableClassId)
                            } else {
                                Ok(
                                    RegistryView {
                                        classes: s.classes.push(
                                            ClassView {
                                                owner: sender,
                                                metadata,
                                                token_type,
                                                collection_type,
                                                royalty_fee,
                                                deposit: class_deposit,
                                                attributes,
                                                collection_id,
                                                tokens: Seq::<Option<TokenView>>::empty(),
                                            },
                                        ),
                                        ledger: l2,
                                        events: s.events.push(
                                            Event::NewNftClassCreated(
                                                sender,
                                                s.classes.len() as u64,
                                            ),
                                        ),
                                        ..s
                                    },
                                )
                            },
                        },
                    }
                },
            }
        }
    }
}

impl Registry {
    /// Allocate the next collection identifier and store the record under
    /// it.
    fn do_create_group_collection(&mut self, name: Vec<u8>, properties: Vec<u8>) -> (r: Result<
        u64,
        Error,
    >)
        ensures
            final(self).locked == old(self).locked,
            final(self).listed == old(self).listed,
            final(self).total_collections == old(self).total_collections,
            match r {
                Ok(id) => {
                    &&& old(self)@.collections.len() < u64::MAX
                    &&& id == old(self)@.collections.len()
                    &&& final(self).collections@.len() == old(self).collections@.len() + 1
                    &&& final(self)@ == (RegistryView {
                        collections: old(self)@.collections.push(
                            CollectionView { name: name@, properties: properties@ },
                        ),
                        ..old(self)@
                    })
                },
                Err(e) => {
                    &&& old(self)@.collections.len() >= u64::MAX
                    &&& e == Error::NoAvailableCollectionId
                    &&& *final(self) == *old(self)
                },
            },
    {
        let ghost name_view = name@;
        let ghost properties_view = properties@;
        if self.collections.len() as u64 == u64::MAX {
            return Err(Error::NoAvailableCollectionId);
        }
        let id = self.collections.len() as u64;
        self.collections.push(NftGroupCollectionData { name, properties });
        proof {
            assert(self@ =~~= (RegistryView {
                collections: old(self)@.collections.push(
                    CollectionView { name: name_view, properties: properties_view },
                ),
                ..old(self)@
            }));
        }
        Ok(id)
    }

    /// Create a named group collection. Governance only; no deposit is
    /// charged.
    pub fn create_group(&mut self, origin: Origin, name: Vec<u8>, properties: Vec<u8>) -> (r:
        Result<(), Error>)
        requires
            old(self).wf(),
        ensures
            final(self).wf(),
            match create_group_outcome(old(self)@, origin, name@, properties@) {
                Ok(s2) => r is Ok && final(self)@ == s2,
                Err(e) => r == Err::<(), Error>(e) && final(self)@ == old(self)@,
            },
    {
        let ghost name_view = name@;
        let ghost properties_view = properties@;
        match origin {
            Origin::Root => {},
            _ => {
                return Err(Error::BadOrigin);
            },
        }
        if name.len() > self.max_metadata as usize || properties.len() > self.max_metadata as usize
        {
            return Err(Error::ExceedMaximumMetadataLength);
        }
        let id = match self.do_create_group_collection(name, properties) {
            Ok(id) => id,
            Err(e) => {
                return Err(e);
            },
        };
        // The collection counter walks in step with the identifier counter,
        // so it cannot overflow here; the check mirrors the allocation
        // above.
        if self.total_collections == u64::MAX {
            proof {
                assert(false);
            }
            return Err(Error::CounterOverflow);
        }
        self.total_collections = self.total_collections + 1;
        self.events.push(Event::NewNftCollectionCreated(id));
        proof {
            assert(self@ =~~= create_group_outcome(
                old(self)@,
                origin,
                name_view,
                properties_view,
            )->Ok_0);
        }
        Ok(())
    }

    /// Create a token class under a collection, with the caller as owner.
    /// The caller escrows the deposit for the class's stored bytes.
    pub fn create_class(
        &mut self,
        origin: Origin,
        metadata: Vec<u8>,
        attributes: Attributes,
        collection_id: u64,
        token_type: TokenType,
        collection_type: CollectionType,
        royalty_fee: u32,
    ) -> (r: Result<(), Error>)
        requires
            old(self).wf(),
        ensures
            final(self).wf(),
            match create_class_outcome(
                old(self)@,
                origin,
                metadata@,
                attributes.deep_view(),
                collection_id,
                token_type,
                collection_type,
                royalty_fee,
            ) {
                Ok(s2) => r is Ok && final(self)@ == s2,
                Err(e) => r == Err::<(), Error>(e) && final(self)@ == old(self)@,
            },
    {
        let ghost metadata_view = metadata@;
        let ghost attributes_view = attributes.deep_view();
        let sender: u64 = match origin {
            Origin::Signed(s) => s,
            _ => {
                return Err(Error::BadOrigin);
            },
        };
        if metadata.len() > self.max_metadata as usize {
            return Err(Error::ExceedMaximumMetadataLength);
        }
        if collection_id >= self.collections.len() as u64 {
            return Err(Error::CollectionDoesNotExist);
        }
        if royalty_fee > ROYALTY_FEE_LIMIT {
            return Err(Error::RoyaltyFeeExceedLimit);
        }
        let class_deposit = match calculate_fee_deposit(
            self.max_metadata,
            self.deposit_per_byte,
            &attributes,
            &metadata,
        ) {
            Ok(d) => d,
            Err(e) => {
                return Err(e);
            },
        };
        let next_class_id = self.classes.len() as u64;
        let fund = AccountId::ClassFund(next_class_id);
        let sender_account = AccountId::User(sender);
        // Every check below reads only, so that a failure leaves the state
        // untouched; the ledger movements then provably succeed.
        let free_sender = self.ledger.free_balance(sender_account);
        if free_sender < class_deposit {
            return Err(Error::InsufficientBalance);
        }
        if free_sender - class_deposit < self.ledger.existential_min {
            return Err(Error::InsufficientBalance);
        }
        let free_fund = self.ledger.free_balance(fund);
        if class_deposit > u128::MAX - free_fund {
            return Err(Error::ArithmeticOverflow);
        }
        let reserved_fund = self.ledger.reserved_balance(fund);
        if free_fund + class_deposit > u128::MAX - reserved_fund {
            return Err(Error::ArithmeticOverflow);
        }
        if self.classes.len() as u64 == u64::MAX {
            return Err(Error::NoAvailableClassId);
        }
        if let Err(e) = self.ledger.transfer_keep_alive(sender_account, fund, class_deposit) {
            proof {
                assert(false);
            }
            return Err(e);
        }
        let fund_balance = self.ledger.free_balance(fund);
        if let Err(e) = self.ledger.reserve(fund, fund_balance) {
            proof {
                assert(false);
            }
            return Err(e);
        }
        self.classes.push(
            ClassRecord {
                owner: sender,
                metadata,
                token_type,
                collection_type,
                royalty_fee,
                deposit: class_deposit,
                attributes,
                collection_id,
                tokens: Vec::new(),
            },
        );
        self.events.push(Event::NewNftClassCreated(sender, next_class_id));
        proof {
            assert(self@ =~~= create_class_outcome(
                old(self)@,
                origin,
                metadata_view,
                attributes_view,
                collection_id,
                token_type,
                collection_type,
                royalty_fee,
            )->Ok_0);
        }
        Ok(())
    }
}

} // verus!
