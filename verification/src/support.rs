//! The supporter ledger and burning. A third party may co-fund an asset's
//! escrow by signing it: the contribution moves into the class escrow
//! account and the signer joins the asset's supporter list. The owner may
//! burn a token, which removes the record and returns the token's reserved
//! deposit portion from the escrow account.

use vstd::prelude::*;

use crate::ledger::{repatriate_outcome, reserve_outcome, transfer_outcome};
use crate::registry::{supp_lookup, token_of, Registry, RegistryView, SupporterEntry};
use crate::types::{
    lemma_deep_view_unfold, AccountId, Asset, ClassView, Error, Event, Origin,
};

verus! {

/// An entry for `k` at index `i`, with none before it, decides the supporter
/// lookup.
proof fn lemma_supp_found(s: Seq<SupporterEntry>, i: int, k: Asset)
    requires
        0 <= i < s.len(),
        s[i].asset == k,
        forall|j: int| 0 <= j < i ==> s[j].asset != k,
    ensures
        supp_lookup(s, k) == Some(s[i].accounts@),
    decreases i,
{
    if i > 0 {
        lemma_supp_found(s.drop_first(), i - 1, k);
    }
}

/// With no entry for `k`, the supporter lookup is empty.
proof fn lemma_supp_absent(s: Seq<SupporterEntry>, k: Asset)
    requires
        forall|j: int| 0 <= j < s.len() ==> s[j].asset != k,
    ensures
        supp_lookup(s, k) is None,
    decreases s.len(),
{
    if s.len() > 0 {
        lemma_supp_absent(s.drop_first(), k);
    }
}

/// Replacing the first entry for `k` changes the lookup at `k` alone.
proof fn lemma_supp_update(s: Seq<SupporterEntry>, i: int, e: SupporterEntry, k: Asset)
    requires
        0 <= i < s.len(),
        s[i].asset == k,
        e.asset == k,
        forall|j: int| 0 <= j < i ==> s[j].asset != k,
    ensures
        forall|x: Asset|
            #[trigger] supp_lookup(s.update(i, e), x) == if x == k {
                Some(e.accounts@)
            } else {
                supp_lookup(s, x)
            },
    decreases i,
{
    let s2 = s.update(i, e);
    if i > 0 {
        lemma_supp_update(s.drop_first(), i - 1, e, k);
    }
    assert forall|x: Asset|
        #[trigger] supp_lookup(s2, x) == if x == k {
            Some(e.accounts@)
        } else {
            supp_lookup(s, x)
        } by {
        if i == 0 {
            assert(s2[0] == e);
            if x != k {
                assert(supp_lookup(s2, x) == supp_lookup(s2.drop_first(), x));
                assert(supp_lookup(s, x) == supp_lookup(s.drop_first(), x));
                assert(s2.drop_first() =~= s.drop_first());
            }
        } else {
            assert(s2[0] == s[0]);
            if s[0].asset != x {
                assert(supp_lookup(s2, x) == supp_lookup(s2.drop_first(), x));
                assert(supp_lookup(s, x) == supp_lookup(s.drop_first(), x));
                assert(s2.drop_first() =~= s.drop_first().update(i - 1, e));
                assert(supp_lookup(s.drop_first().update(i - 1, e), x) == if x == k {
                    Some(e.accounts@)
                } else {
                    supp_lookup(s.drop_first(), x)
                });
            }
        }
    }
}

/// Appending an entry for an absent asset changes the lookup there alone.
proof fn lemma_supp_push(s: Seq<SupporterEntry>, e: SupporterEntry)
    requires
        forall|j: int| 0 <= j < s.len() ==> s[j].asset != e.asset,
    ensures
        forall|x: Asset|
            #[trigger] supp_lookup(s.push(e), x) == if x == e.asset {
                Some(e.accounts@)
            } else {
                supp_lookup(s, x)
            },
    decreases s.len(),
{
    if s.len() > 0 {
        lemma_supp_push(s.drop_first(), e);
    }
    assert forall|x: Asset|
        #[trigger] supp_lookup(s.push(e), x) == if x == e.asset {
            Some(e.accounts@)
        } else {
            supp_lookup(s, x)
        } by {
        if s.len() == 0 {
            assert(s.push(e)[0] == e);
            if x != e.asset {
                assert(supp_lookup(s.push(e), x) == supp_lookup(s.push(e).drop_first(), x));
                assert(s.push(e).drop_first() =~= s);
            }
        } else {
            assert(s.push(e)[0] == s[0]);
            if s[0].asset != x {
                assert(supp_lookup(s.push(e), x) == supp_lookup(s.push(e).drop_first(), x));
                assert(supp_lookup(s, x) == supp_lookup(s.drop_first(), x));
                assert(s.push(e).drop_first() =~= s.drop_first().push(e));
                assert(supp_lookup(s.drop_first().push(e), x) == if x == e.asset {
                    Some(e.accounts@)
                } else {
                    supp_lookup(s.drop_first(), x)
                });
            }
        }
    }
}

/// The view of `s` with the record of `asset` removed, all else unchanged.
pub open spec fn clear_token(s: RegistryView, asset: Asset) -> RegistryView {
    let cls = s.classes[asset.class_id as int];
    RegistryView {
        classes: s.classes.update(
            asset.class_id as int,
            ClassView { tokens: cls.tokens.update(asset.token_id as int, None), ..cls },
        ),
        ..s
    }
}

/// What signing an asset does: the caller must sign the call and must not
/// own the token; the caller's free balance must strictly exceed the
/// contribution; the contribution moves into the class escrow account and is
/// reserved there; and the caller joins the asset's supporter list, which is
/// created on first support.
pub open spec fn sign_asset_outcome(
    s: RegistryView,
    origin: Origin,
    asset: Asset,
    contribution: u128,
) -> Result<RegistryView, Error> {
    if !(origin is Signed) {
        Err(Error::BadOrigin)
    } else {
        let sender = origin->Signed_0;
        match token_of(s, asset) {
            None => Err(Error::AssetInfoNotFound),
            Some(t) => if t.owner == sender {
                Err(Error::SignOwnAsset)
            } else if s.ledger.free[AccountId::User(sender)] <= contribution {
                Err(Error::InsufficientBalance)
            } else {
                let fund = AccountId::ClassFund(asset.class_id);
                match transfer_outcome(s.ledger, AccountId::User(sender), fund, contribution) {
                    Err(e) => Err(e),
                    Ok(l1) => match reserve_outcome(l1, fund, contribution) {
                        Err(e) => Err(e),
                        Ok(l2) => {
                            let list = if s.supporters.dom().contains(asset) {
                                s.supporters[asset]
                            } else {
                                Seq::<u64>::empty()
                            };
                            Ok(
                                RegistryView {
                                    ledger: l2,
                                    supporters: s.supporters.insert(asset, list.push(sender)),
                                    contributions: s.contributions.insert(
                                        asset.class_id,
                                        s.contributions[asset.class_id] + contribution,
                                    ),
                                    ..s
                                },
                            )
                        },
                    },
                }
            },
        }
    }
}

/// What burning does for an already authenticated caller: the token must
/// exist and belong to the caller; the record is removed, and the token's
/// reserved deposit portion returns from the class escrow account to the
/// caller.
pub open spec fn do_burn_outcome(s: RegistryView, sender: u64, asset: Asset) -> Result<
    RegistryView,
    Error,
> {
    match token_of(s, asset) {
        None => Err(Error::AssetInfoNotFound),
        Some(t) => if t.owner != sender {
            Err(Error::NoPermission)
        } else {
            match repatriate_outcome(
                s.ledger,
                AccountId::ClassFund(asset.class_id),
                AccountId::User(sender),
                t.deposit,
            ) {
                Err(e) => Err(e),
                Ok(p) => Ok(RegistryView { ledger: p.0, ..clear_token(s, asset) }),
            }
        },
    }
}

/// What the burn operation does: the caller must sign; the token is burned
/// as `do_burn_outcome` says; and a notification reports the burned asset.
pub open spec fn burn_outcome(s: RegistryView, origin: Origin, asset: Asset) -> Result<
    RegistryView,
    Error,
> {
    if !(origin is Signed) {
        Err(Error::BadOrigin)
    } else {
        match do_burn_outcome(s, origin->Signed_0, asset) {
            Err(e) => Err(e),
            Ok(s2) => Ok(RegistryView { events: s2.events.push(Event::BurnedNft(asset)), ..s2 }),
        }
    }
}

impl Registry {
    /// The index of the first supporter entry for `asset`, if any.
    fn supporter_position(&self, asset: Asset) -> (r: Option<usize>)
        ensures
            match r {
                Some(i) => i < self.supporters@.len() && self.supporters@[i as int].asset == asset
                    && forall|j: int| 0 <= j < i ==> self.supporters@[j].asset != asset,
                None => forall|j: int|
                    0 <= j < self.supporters@.len() ==> self.supporters@[j].asset != asset,
            },
    {
        let mut i: usize = 0;
        while i < self.supporters.len()
            invariant
                0 <= i <= self.supporters@.len(),
                forall|j: int| 0 <= j < i ==> self.supporters@[j].asset != asset,
            decreases self.supporters@.len() - i,
        {
            if self.supporters[i].asset == asset {
                return Some(i);
            }
            i = i + 1;
        }
        None
    }

    /// The asset's supporters so far, in signing order; nothing when nobody
    /// has signed it.
    pub fn get_asset_supporters(&self, asset: Asset) -> (r: Option<&Vec<u64>>)
        ensures
            match r {
                Some(v) => self@.supporters.dom().contains(asset) && v@ == self@.supporters[asset],
                None => !self@.supporters.dom().contains(asset),
            },
    {
        match self.supporter_position(asset) {
            Some(i) => {
                proof {
                    lemma_supp_found(self.supporters@, i as int, asset);
                }
                Some(&self.supporters[i].accounts)
            },
            None => {
                proof {
                    lemma_supp_absent(self.supporters@, asset);
                }
                None
            },
        }
    }

    /// Remove the record of an existing token, leaving everything else as it
    /// is.
    fn remove_token_record(&mut self, asset: Asset)
        requires
            token_of(old(self)@, asset) is Some,
        ensures
            final(self).locked == old(self).locked,
            final(self).listed == old(self).listed,
            final(self).total_collections == old(self).total_collections,
            final(self).collections == old(self).collections,
            final(self)@ == clear_token(old(self)@, asset),
    {
        let ghost s0 = self@;
        let ghost ci_g = asset.class_id as int;
        let ghost ti_g = asset.token_id as int;
        proof {
            lemma_deep_view_unfold(self.classes);
        }
        let n_classes = self.classes.len();
        proof {
            assert(asset.class_id < n_classes as u64);
        }
        let ci = asset.class_id as usize;
        let mut cls = self.classes.remove(ci);
        proof {
            lemma_deep_view_unfold(cls.tokens);
        }
        let n_tokens = cls.tokens.len();
        proof {
            assert(asset.token_id < n_tokens as u64);
        }
        let ti = asset.token_id as usize;
        let _ = cls.tokens.remove(ti);
        cls.tokens.insert(ti, None);
        self.classes.insert(ci, cls);
        proof {
            let s2 = clear_token(s0, asset);
            let cls0 = s0.classes[ci_g];
            lemma_deep_view_unfold(self.classes);
            lemma_deep_view_unfold(old(self).classes);
            assert(self.classes@ =~= old(self).classes@.update(ci_g, self.classes@[ci_g]));
            let toks_new = self.classes@[ci_g].tokens;
            let toks_old = old(self).classes@[ci_g].tokens;
            lemma_deep_view_unfold(toks_new);
            lemma_deep_view_unfold(toks_old);
            assert(toks_new@ =~= toks_old@.update(ti_g, toks_new@[ti_g]));
            assert(toks_new@[ti_g] is None);
            assert forall|k: int| 0 <= k < toks_old@.len() implies #[trigger] toks_new.deep_view()[
                k
            ] == cls0.tokens.update(ti_g, None)[k] by {
                if k != ti_g {
                    assert(toks_new@[k] == toks_old@[k]);
                }
            }
            assert(toks_new.deep_view() =~= cls0.tokens.update(ti_g, None));
            assert forall|c: int| 0 <= c < old(self).classes@.len() implies #[trigger] self.classes.deep_view()[
                c
            ] == s2.classes[c] by {
                if c != ci_g {
                    assert(self.classes@[c] == old(self).classes@[c]);
                } else {
                    assert(self.classes@[c]@ =~= (ClassView {
                        tokens: toks_new.deep_view(),
                        ..cls0
                    }));
                }
            }
            assert(self.classes.deep_view() =~= s2.classes);
            assert(self@ =~= s2);
        }
    }

    /// Sign an asset: contribute toward its escrow and join its supporter
    /// list. An owner cannot sign their own token.
    pub fn sign_asset(&mut self, origin: Origin, asset: Asset, contribution: u128) -> (r: Result<
        (),
        Error,
    >)
        requires
            old(self).wf(),
        ensures
            final(self).wf(),
            match sign_asset_outcome(old(self)@, origin, asset, contribution) {
                Ok(s2) => r is Ok && final(self)@ == s2,
                Err(e) => r == Err::<(), Error>(e) && final(self)@ == old(self)@,
            },
    {
        let sender: u64 = match origin {
            Origin::Signed(s) => s,
            _ => {
                return Err(Error::BadOrigin);
            },
        };
        let owned = match self.check_nft_ownership(sender, asset) {
            Ok(b) => b,
            Err(e) => {
                return Err(e);
            },
        };
        if owned {
            return Err(Error::SignOwnAsset);
        }
        let sender_account = AccountId::User(sender);
        let fund = AccountId::ClassFund(asset.class_id);
        let free_sender = self.ledger.free_balance(sender_account);
        if free_sender <= contribution {
            return Err(Error::InsufficientBalance);
        }
        // Every check below reads only, so that a failure leaves the state
        // untouched; the ledger movements then provably succeed.
        if free_sender - contribution < self.ledger.existential_min {
            return Err(Error::InsufficientBalance);
        }
        let free_fund = self.ledger.free_balance(fund);
        if contribution > u128::MAX - free_fund {
            return Err(Error::ArithmeticOverflow);
        }
        let reserved_fund = self.ledger.reserved_balance(fund);
        if contribution > u128::MAX - reserved_fund {
            return Err(Error::ArithmeticOverflow);
        }
        if let Err(e) = self.ledger.transfer_keep_alive(sender_account, fund, contribution) {
            proof {
                assert(false);
            }
            return Err(e);
        }
        if let Err(e) = self.ledger.reserve(fund, contribution) {
            proof {
                assert(false);
            }
            return Err(e);
        }
        proof {
            self.contributions@ = self.contributions@.insert(
                asset.class_id,
                self.contributions@[asset.class_id] + contribution,
            );
        }
        match self.supporter_position(asset) {
            Some(i) => {
                let ghost entries0 = self.supporters@;
                let mut entry = self.supporters.remove(i);
                entry.accounts.push(sender);
                self.supporters.insert(i, entry);
                proof {
                    assert(self.supporters@ =~= entries0.update(i as int, self.supporters@[
                        i as int
                    ]));
                    lemma_supp_found(entries0, i as int, asset);
                    lemma_supp_update(entries0, i as int, self.supporters@[i as int], asset);
                    assert(self@.supporters =~= old(self)@.supporters.insert(
                        asset,
                        old(self)@.supporters[asset].push(sender),
                    ));
                    assert(self@ =~~= sign_asset_outcome(
                        old(self)@,
                        origin,
                        asset,
                        contribution,
                    )->Ok_0);
                }
            },
            None => {
                let ghost entries0 = self.supporters@;
                let mut accounts: Vec<u64> = Vec::new();
                accounts.push(sender);
                let entry = SupporterEntry { asset, accounts };
                self.supporters.push(entry);
                proof {
                    lemma_supp_absent(entries0, asset);
                    lemma_supp_push(entries0, self.supporters@.last());
                    assert(self.supporters@ =~= entries0.push(self.supporters@.last()));
                    assert(self@.supporters =~= old(self)@.supporters.insert(
                        asset,
                        Seq::<u64>::empty().push(sender),
                    ));
                    assert(self@ =~~= sign_asset_outcome(
                        old(self)@,
                        origin,
                        asset,
                        contribution,
                    )->Ok_0);
                }
            },
        }
        Ok(())
    }

    /// Burn a token for `sender`, who must own it, returning its reserved
    /// deposit portion. Emits no notification itself.
    fn do_burn(&mut self, sender: u64, asset: Asset) -> (r: Result<(), Error>)
        requires
            old(self).wf(),
        ensures
            final(self).wf(),
            match do_burn_outcome(old(self)@, sender, asset) {
                Ok(s2) => r is Ok && final(self)@ == s2,
                Err(e) => r == Err::<(), Error>(e) && final(self)@ == old(self)@ && *final(self)
                    == *old(self),
            },
    {
        let owned = match self.check_nft_ownership(sender, asset) {
            Ok(b) => b,
            Err(e) => {
                return Err(e);
            },
        };
        if !owned {
            return Err(Error::NoPermission);
        }
        proof {
            lemma_deep_view_unfold(self.classes);
        }
        let n_classes = self.classes.len();
        proof {
            assert(asset.class_id < n_classes as u64);
        }
        let ci = asset.class_id as usize;
        proof {
            lemma_deep_view_unfold(self.classes@[ci as int].tokens);
        }
        let n_tokens = self.classes[ci].tokens.len();
        proof {
            assert(asset.token_id < n_tokens as u64);
        }
        let ti = asset.token_id as usize;
        let deposit: u128 = match &self.classes[ci].tokens[ti] {
            Some(t) => t.deposit,
            None => {
                proof {
                    assert(false);
                }
                0
            },
        };
        let fund = AccountId::ClassFund(asset.class_id);
        let sender_account = AccountId::User(sender);
        let reserved_fund = self.ledger.reserved_balance(fund);
        let moved: u128 = if deposit <= reserved_fund {
            deposit
        } else {
            reserved_fund
        };
        let free_sender = self.ledger.free_balance(sender_account);
        if moved > u128::MAX - free_sender {
            return Err(Error::ArithmeticOverflow);
        }
        if let Err(e) = self.ledger.repatriate_reserved(fund, sender_account, deposit) {
            proof {
                assert(false);
            }
            return Err(e);
        }
        self.remove_token_record(asset);
        proof {
            assert(self@ =~~= do_burn_outcome(old(self)@, sender, asset)->Ok_0);
        }
        Ok(())
    }

    /// Burn a token. The caller must sign and own it; the record is removed,
    /// the token's reserved deposit portion returns to the caller, and a
    /// notification reports the burn.
    pub fn burn(&mut self, origin: Origin, asset: Asset) -> (r: Result<(), Error>)
        requires
            old(self).wf(),
        ensures
            final(self).wf(),
            match burn_outcome(old(self)@, origin, asset) {
                Ok(s2) => r is Ok && final(self)@ == s2,
                Err(e) => r == Err::<(), Error>(e) && final(self)@ == old(self)@,
            },
    {
        let sender: u64 = match origin {
            Origin::Signed(s) => s,
            _ => {
                return Err(Error::BadOrigin);
            },
        };
        if let Err(e) = self.do_burn(sender, asset) {
            return Err(e);
        }
        self.events.push(Event::BurnedNft(asset));
        proof {
            assert(self@ =~= burn_outcome(old(self)@, origin, asset)->Ok_0);
        }
        Ok(())
    }

    /// Burn a token for `sender`, as the burn collaborator interface does:
    /// same rule as `do_burn`, with no notification.
    pub fn burn_nft(&mut self, sender: u64, asset: Asset) -> (r: Result<(), Error>)
        requires
            old(self).wf(),
        ensures
            final(self).wf(),
            match do_burn_outcome(old(self)@, sender, asset) {
                Ok(s2) => r is Ok && final(self)@ == s2,
                Err(e) => r == Err::<(), Error>(e) && final(self)@ == old(self)@,
            },
    {
        self.do_burn(sender, asset)
    }
}

} // verus!
