//! The transfer engine: owner-initiated and governance-forced transfer of
//! one token. A token of a bound-to-address class never changes owner; a
//! transferable token changes owner when its class is not locked and the
//! auction collaborator does not report it as listed.

use vstd::prelude::*;

use crate::registry::{
    set_token_owner, token_of, Registry, RegistryView,
};
use crate::types::{
    lemma_deep_view_unfold, Asset, ClassView, Error, Event, Origin, TokenView,
};

verus! {

/// Replacing one token's owner changes that token record alone, and no other
/// part of the state.
pub proof fn lemma_token_of_set_owner(s: RegistryView, asset: Asset, to: u64)
    requires
        token_of(s, asset) is Some,
    ensures
        ({
            let s2 = set_token_owner(s, asset, to);
            &&& s2.classes.len() == s.classes.len()
            &&& forall|a: Asset|
                #[trigger] token_of(s2, a) == if a == asset {
                    Some(TokenView { owner: to, ..token_of(s, asset)->0 })
                } else {
                    token_of(s, a)
                }
            &&& forall|c: int|
                0 <= c < s.classes.len() ==> #[trigger] s2.classes[c] == (ClassView {
                    tokens: s2.classes[c].tokens,
                    ..s.classes[c]
                })
            &&& forall|c: int|
                0 <= c < s.classes.len() ==> #[trigger] s2.classes[c].tokens.len()
                    == s.classes[c].tokens.len()
            &&& s2 == (RegistryView { classes: s2.classes, ..s })
        }),
{
    let s2 = set_token_owner(s, asset, to);
    assert forall|a: Asset|
        #[trigger] token_of(s2, a) == if a == asset {
            Some(TokenView { owner: to, ..token_of(s, asset)->0 })
        } else {
            token_of(s, a)
        } by {
        if a.class_id == asset.class_id && a.class_id < s.classes.len() {
            assert(s2.classes[a.class_id as int].tokens == s.classes[
                a.class_id as int
            ].tokens.update(asset.token_id as int, token_of(s2, asset)));
        }
    }
}

/// What an owner-initiated transfer of one token does, once the caller is
/// authenticated and the auction listing has been checked: the class must
/// not be locked and must exist; a bound-to-address class never transfers; a
/// transferable token must exist and belong to the sender, and then changes
/// owner.
pub open spec fn do_transfer_outcome(s: RegistryView, sender: u64, to: u64, asset: Asset) -> Result<
    RegistryView,
    Error,
> {
    if s.locked.contains(asset.class_id) {
        Err(Error::CollectionIsLocked)
    } else if asset.class_id >= s.classes.len() {
        Err(Error::ClassIdNotFound)
    } else if s.classes[asset.class_id as int].token_type is BoundToAddress {
        Err(Error::NonTransferable)
    } else {
        match token_of(s, asset) {
            None => Err(Error::AssetInfoNotFound),
            Some(t) => if t.owner != sender {
                Err(Error::NoPermission)
            } else {
                Ok(set_token_owner(s, asset, to))
            },
        }
    }
}

/// What the transfer operation does: the caller must sign; an asset the
/// auction collaborator reports as listed never transfers; the rest is
/// `do_transfer_outcome`, plus a notification.
pub open spec fn transfer_outcome(s: RegistryView, origin: Origin, to: u64, asset: Asset) -> Result<
    RegistryView,
    Error,
> {
    if !(origin is Signed) {
        Err(Error::BadOrigin)
    } else {
        let sender = origin->Signed_0;
        if s.listed.contains(asset) {
            Err(Error::AssetAlreadyInAuction)
        } else {
            match do_transfer_outcome(s, sender, to, asset) {
                Err(e) => Err(e),
                Ok(s2) => Ok(
                    RegistryView {
                        events: s2.events.push(
                            Event::TransferedNft(sender, to, asset.token_id, asset),
                        ),
                        ..s2
                    },
                ),
            }
        }
    }
}

/// What a governance-forced transfer does: only governance may force; a
/// listed asset and a locked class still block it, and so does the class's
/// transfer policy — a bound-to-address token never changes owner, even by
/// force; the token must exist and `from` must own it; ownership then moves
/// to `to` with a distinguished notification, bypassing only the
/// caller-ownership check.
pub open spec fn force_transfer_outcome(
    s: RegistryView,
    origin: Origin,
    from: u64,
    to: u64,
    asset: Asset,
) -> Result<RegistryView, Error> {
    if !(origin is Root) {
        Err(Error::BadOrigin)
    } else if s.listed.contains(asset) {
        Err(Error::AssetAlreadyInAuction)
    } else if s.locked.contains(asset.class_id) {
        Err(Error::CollectionIsLocked)
    } else if asset.class_id >= s.classes.len() {
        Err(Error::ClassIdNotFound)
    } else if s.classes[asset.class_id as int].token_type is BoundToAddress {
        Err(Error::NonTransferable)
    } else {
        match token_of(s, asset) {
            None => Err(Error::AssetInfoNotFound),
            Some(t) => if t.owner != from {
                Err(Error::NoPermission)
            } else {
                Ok(
                    RegistryView {
                        events: set_token_owner(s, asset, to).events.push(
                            Event::ForceTransferredNft(from, to, asset.token_id, asset),
                        ),
                        ..set_token_owner(s, asset, to)
                    },
                )
            },
        }
    }
}

impl Registry {
    /// Overwrite the owner of an existing token, leaving everything else as
    /// it is.
    pub(crate) fn write_token_owner(&mut self, asset: Asset, to: u64)
        requires
            token_of(old(self)@, asset) is Some,
        ensures
            final(self).locked == old(self).locked,
            final(self).listed == old(self).listed,
            final(self).total_collections == old(self).total_collections,
            final(self).collections == old(self).collections,
            final(self)@ == set_token_owner(old(self)@, asset, to),
    {
        let ghost s0 = self@;
        let ghost ci_g = asset.class_id as int;
        let ghost ti_g = asset.token_id as int;
        proof {
            lemma_deep_view_unfold(self.classes);
        }
        let n_classes = self.classes.len();
        proof {
            assert(asset.class_id < n_classes as u64);
        }
        let ci = asset.class_id as usize;
        let mut cls = self.classes.remove(ci);
        proof {
            lemma_deep_view_unfold(cls.tokens);
        }
        let n_tokens = cls.tokens.len();
        proof {
            assert(asset.token_id < n_tokens as u64);
        }
        let ti = asset.token_id as usize;
        let tok_opt = cls.tokens.remove(ti);
        let new_opt = match tok_opt {
            Some(mut t) => {
                t.owner = to;
                Some(t)
            },
            None => {
                proof {
                    assert(false);
                }
                None
            },
        };
        cls.tokens.insert(ti, new_opt);
        self.classes.insert(ci, cls);
        proof {
            let s2 = set_token_owner(s0, asset, to);
            let cls0 = s0.classes[ci_g];
            let tok0 = cls0.tokens[ti_g]->0;
            lemma_deep_view_unfold(self.classes);
            lemma_deep_view_unfold(old(self).classes);
            assert(self.classes@ =~= old(self).classes@.update(ci_g, self.classes@[ci_g]));
            let toks_new = self.classes@[ci_g].tokens;
            let toks_old = old(self).classes@[ci_g].tokens;
            lemma_deep_view_unfold(toks_new);
            lemma_deep_view_unfold(toks_old);
            assert(toks_new@ =~= toks_old@.update(ti_g, toks_new@[ti_g]));
            assert(toks_new@[ti_g]->0.owner == to);
            assert(toks_new@[ti_g]->0.metadata == toks_old@[ti_g]->0.metadata);
            assert(toks_new@[ti_g]->0.deposit == toks_old@[ti_g]->0.deposit);
            assert(toks_new@[ti_g]->0.attributes == toks_old@[ti_g]->0.attributes);
            assert(toks_new@[ti_g].deep_view() =~= Some(TokenView { owner: to, ..tok0 }));
            assert forall|k: int| 0 <= k < toks_old@.len() implies #[trigger] toks_new.deep_view()[
                k
            ] == cls0.tokens.update(ti_g, Some(TokenView { owner: to, ..tok0 }))[k] by {
                if k != ti_g {
                    assert(toks_new@[k] == toks_old@[k]);
                }
            }
            assert(toks_new.deep_view() =~= cls0.tokens.update(
                ti_g,
                Some(TokenView { owner: to, ..tok0 }),
            ));
            assert forall|c: int| 0 <= c < old(self).classes@.len() implies #[trigger] self.classes.deep_view()[
                c
            ] == s2.classes[c] by {
                if c != ci_g {
                    assert(self.classes@[c] == old(self).classes@[c]);
                } else {
                    assert(self.classes@[c]@ =~= (ClassView {
                        tokens: toks_new.deep_view(),
                        ..cls0
                    }));
                }
            }
            assert(self.classes.deep_view() =~= s2.classes);
            assert(self@ =~= s2);
        }
    }

    /// Transfer one token from `sender` to `to`: the class must not be
    /// locked, the token's class must let it transfer, and `sender` must own
    /// it. Reports the token identifier moved; emits no notification itself.
    pub fn do_transfer(&mut self, sender: u64, to: u64, asset: Asset) -> (r: Result<u64, Error>)
        requires
            old(self).wf(),
        ensures
            final(self).wf(),
            match do_transfer_outcome(old(self)@, sender, to, asset) {
                Ok(s2) => r == Ok::<u64, Error>(asset.token_id) && final(self)@ == s2,
                Err(e) => r == Err::<u64, Error>(e) && final(self)@ == old(self)@ && *final(self)
                    == *old(self),
            },
    {
        if self.is_collection_locked(asset.class_id) {
            return Err(Error::CollectionIsLocked);
        }
        if asset.class_id >= self.classes.len() as u64 {
            return Err(Error::ClassIdNotFound);
        }
        proof {
            lemma_deep_view_unfold(self.classes);
        }
        let transferable = self.classes[asset.class_id as usize].token_type.is_transferable();
        if !transferable {
            return Err(Error::NonTransferable);
        }
        let owned = match self.check_nft_ownership(sender, asset) {
            Ok(b) => b,
            Err(e) => {
                return Err(e);
            },
        };
        if !owned {
            return Err(Error::NoPermission);
        }
        self.write_token_owner(asset, to);
        Ok(asset.token_id)
    }

    /// Transfer one token from `sender` to `to`, as the transfer
    /// collaborator interface does: same rule as `do_transfer`, reporting
    /// nothing.
    pub fn transfer_nft(&mut self, sender: u64, to: u64, asset: Asset) -> (r: Result<(), Error>)
        requires
            old(self).wf(),
        ensures
            final(self).wf(),
            match do_transfer_outcome(old(self)@, sender, to, asset) {
                Ok(s2) => r is Ok && final(self)@ == s2,
                Err(e) => r == Err::<(), Error>(e) && final(self)@ == old(self)@,
            },
    {
        match self.do_transfer(sender, to, asset) {
            Ok(_) => Ok(()),
            Err(e) => Err(e),
        }
    }

    /// Transfer one token to `to`. The caller must sign, own the token, and
    /// the asset must be neither listed in an auction nor under a locked
    /// class; a notification reports the movement.
    pub fn transfer(&mut self, origin: Origin, to: u64, asset: Asset) -> (r: Result<(), Error>)
        requires
            old(self).wf(),
        ensures
            final(self).wf(),
            match transfer_outcome(old(self)@, origin, to, asset) {
                Ok(s2) => r is Ok && final(self)@ == s2,
                Err(e) => r == Err::<(), Error>(e) && final(self)@ == old(self)@,
            },
    {
        let sender: u64 = match origin {
            Origin::Signed(s) => s,
            _ => {
                return Err(Error::BadOrigin);
            },
        };
        let listed = match self.check_item_on_listing(asset) {
            Ok(b) => b,
            Err(e) => {
                return Err(e);
            },
        };
        if listed {
            return Err(Error::AssetAlreadyInAuction);
        }
        let token_id = match self.do_transfer(sender, to, asset) {
            Ok(t) => t,
            Err(e) => {
                return Err(e);
            },
        };
        self.events.push(Event::TransferedNft(sender, to, token_id, asset));
        proof {
            assert(self@ =~= transfer_outcome(old(self)@, origin, to, asset)->Ok_0);
        }
        Ok(())
    }

    /// Force one token's ownership from `from` to `to`, bypassing the
    /// caller-ownership check but not the lock, the auction listing or the
    /// class's transfer policy. Emits no notification itself.
    fn do_force_transfer(&mut self, from: u64, to: u64, asset: Asset) -> (r: Result<u64, Error>)
        requires
            old(self).wf(),
        ensures
            final(self).wf(),
            match do_force_transfer_outcome(old(self)@, from, to, asset) {
                Ok(s2) => r == Ok::<u64, Error>(asset.token_id) && final(self)@ == s2,
                Err(e) => r == Err::<u64, Error>(e) && final(self)@ == old(self)@,
            },
    {
        if self.is_collection_locked(asset.class_id) {
            return Err(Error::CollectionIsLocked);
        }
        if asset.class_id >= self.classes.len() as u64 {
            return Err(Error::ClassIdNotFound);
        }
        proof {
            lemma_deep_view_unfold(self.classes);
        }
        let transferable = self.classes[asset.class_id as usize].token_type.is_transferable();
        if !transferable {
            return Err(Error::NonTransferable);
        }
        let owned = match self.check_nft_ownership(from, asset) {
            Ok(b) => b,
            Err(e) => {
                return Err(e);
            },
        };
        if !owned {
            return Err(Error::NoPermission);
        }
        self.write_token_owner(asset, to);
        Ok(asset.token_id)
    }

    /// Force a transfer by governance: the listing, the lock and the class's
    /// transfer policy still block it, `from` must own the token, and a
    /// distinguished notification reports the movement. Only the
    /// caller-ownership check is bypassed.
    pub fn force_transfer(&mut self, origin: Origin, from: u64, to: u64, asset: Asset) -> (r:
        Result<(), Error>)
        requires
            old(self).wf(),
        ensures
            final(self).wf(),
            match force_transfer_outcome(old(self)@, origin, from, to, asset) {
                Ok(s2) => r is Ok && final(self)@ == s2,
                Err(e) => r == Err::<(), Error>(e) && final(self)@ == old(self)@,
            },
    {
        match origin {
            Origin::Root => {},
            _ => {
                return Err(Error::BadOrigin);
            },
        }
        let listed = match self.check_item_on_listing(asset) {
            Ok(b) => b,
            Err(e) => {
                return Err(e);
            },
        };
        if listed {
            return Err(Error::AssetAlreadyInAuction);
        }
        let token_id = match self.do_force_transfer(from, to, asset) {
            Ok(t) => t,
            Err(e) => {
                return Err(e);
            },
        };
        self.events.push(Event::ForceTransferredNft(from, to, token_id, asset));
        proof {
            assert(self@ =~= force_transfer_outcome(old(self)@, origin, from, to, asset)->Ok_0);
        }
        Ok(())
    }
}

/// What forcing one token's ownership does, once governance is
/// authenticated and the listing has been checked: the class must not be
/// locked, must exist, and must let its tokens transfer — a bound-to-address
/// token never changes owner, even by force; the token must exist and `from`
/// must own it; ownership then moves.
pub open spec fn do_force_transfer_outcome(
    s: RegistryView,
    from: u64,
    to: u64,
    asset: Asset,
) -> Result<RegistryView, Error> {
    if s.locked.contains(asset.class_id) {
        Err(Error::CollectionIsLocked)
    } else if asset.class_id >= s.classes.len() {
        Err(Error::ClassIdNotFound)
    } else if s.classes[asset.class_id as int].token_type is BoundToAddress {
        Err(Error::NonTransferable)
    } else {
        match token_of(s, asset) {
            None => Err(Error::AssetInfoNotFound),
            Some(t) => if t.owner != from {
                Err(Error::NoPermission)
            } else {
                Ok(set_token_owner(s, asset, to))
            },
        }
    }
}

} // verus!
