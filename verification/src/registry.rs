//! The registry state and its simple operations: construction, ownership and
//! policy queries, the administrative lock set, the promotion flag, and the
//! auction listing board that the transfer engine consults.

use vstd::prelude::*;

use crate::ledger::{Ledger, LedgerView};
use crate::types::{
    AccountId, Asset, ClassRecord, ClassView, CollectionView, Error, Event,
    NftGroupCollectionData, Origin, TokenView,
};

verus! {

/// The accounts that have contributed toward one asset's escrow, in the
/// order they signed.
pub struct SupporterEntry {
    pub asset: Asset,
    pub accounts: Vec<u64>,
}

/// The supporter list of `k` in an entry list: that of the first entry for
/// `k`, if any.
pub open spec fn supp_lookup(s: Seq<SupporterEntry>, k: Asset) -> Option<Seq<u64>>
    decreases s.len(),
{
    if s.len() == 0 {
        None
    } else if s[0].asset == k {
        Some(s[0].accounts@)
    } else {
        supp_lookup(s.drop_first(), k)
    }
}

/// The supporter table as a map from asset to its supporter list.
pub open spec fn supporters_map(s: Seq<SupporterEntry>) -> Map<Asset, Seq<u64>> {
    Map::new(|k: Asset| supp_lookup(s, k) is Some, |k: Asset| supp_lookup(s, k)->0)
}

/// The registry's view: every table as its mathematical model. A class
/// identifier is an index into `classes`; a token identifier an index into
/// its class's `tokens`.
#[verifier::ext_equal]
pub struct RegistryView {
    /// Bound on metadata length and on the summed attribute bytes.
    pub max_metadata: u32,
    /// Bound on the quantity of one mint call.
    pub max_batch_minting: u32,
    /// Bound on the size of one transfer batch.
    pub max_batch_transfer: u32,
    /// The deposit rate per stored byte.
    pub deposit_per_byte: u128,
    /// The group collections, in creation order.
    pub collections: Seq<CollectionView>,
    /// The count of collections ever created.
    pub total_collections: u64,
    /// The classes, in creation order.
    pub classes: Seq<ClassView>,
    /// The administratively locked classes.
    pub locked: Set<u64>,
    /// The governance-set promotion flag.
    pub promotion_enabled: bool,
    /// Each asset's supporters, in signing order.
    pub supporters: Map<Asset, Seq<u64>>,
    /// The sum of the supporter contributions escrowed for each class.
    pub contributions: Map<u64, int>,
    /// The assets the auction collaborator reports as listed.
    pub listed: Set<Asset>,
    /// Every account's balances.
    pub ledger: LedgerView,
    /// The notifications emitted so far, oldest first.
    pub events: Seq<Event>,
}

/// The registry: the whole system state as one value.
pub struct Registry {
    pub max_metadata: u32,
    pub max_batch_minting: u32,
    pub max_batch_transfer: u32,
    pub deposit_per_byte: u128,
    pub collections: Vec<NftGroupCollectionData>,
    pub total_collections: u64,
    pub classes: Vec<ClassRecord>,
    pub locked: Vec<u64>,
    pub promotion_enabled: bool,
    pub supporters: Vec<SupporterEntry>,
    /// What each class's supporters have contributed in sum: a shadow of the
    /// ledger kept only for the escrow accounting law.
    pub contributions: Ghost<Map<u64, int>>,
    pub listed: Vec<Asset>,
    pub ledger: Ledger,
    pub events: Vec<Event>,
}

impl View for Registry {
    type V = RegistryView;

    open spec fn view(&self) -> RegistryView {
        RegistryView {
            max_metadata: self.max_metadata,
            max_batch_minting: self.max_batch_minting,
            max_batch_transfer: self.max_batch_transfer,
            deposit_per_byte: self.deposit_per_byte,
            collections: self.collections.deep_view(),
            total_collections: self.total_collections,
            classes: self.classes.deep_view(),
            locked: self.locked@.to_set(),
            promotion_enabled: self.promotion_enabled,
            supporters: supporters_map(self.supporters@),
            contributions: self.contributions@,
            listed: self.listed@.to_set(),
            ledger: self.ledger@,
            events: self.events@,
        }
    }
}

/// The token record of `asset`, if the class exists, the identifier was ever
/// assigned, and the token is not burned.
pub open spec fn token_of(s: RegistryView, asset: Asset) -> Option<TokenView> {
    if asset.class_id < s.classes.len() && asset.token_id < s.classes[
        asset.class_id as int
    ].tokens.len() {
        s.classes[asset.class_id as int].tokens[asset.token_id as int]
    } else {
        None
    }
}

/// The view of `s` with the owner of `asset` replaced, all else unchanged.
pub open spec fn set_token_owner(s: RegistryView, asset: Asset, to: u64) -> RegistryView {
    let cls = s.classes[asset.class_id as int];
    let tok = cls.tokens[asset.token_id as int]->0;
    RegistryView {
        classes: s.classes.update(
            asset.class_id as int,
            ClassView {
                tokens: cls.tokens.update(
                    asset.token_id as int,
                    Some(TokenView { owner: to, ..tok }),
                ),
                ..cls
            },
        ),
        ..s
    }
}

/// What checking ownership returns: whether `who` owns the token, or the
/// not-found failure when there is no token record.
pub open spec fn check_ownership_outcome(s: RegistryView, who: u64, asset: Asset) -> Result<
    bool,
    Error,
> {
    match token_of(s, asset) {
        Some(t) => Ok(t.owner == who),
        None => Err(Error::AssetInfoNotFound),
    }
}

/// What locking a class does: only governance may lock, a locked class
/// cannot be locked again, and on success the class joins the lock set and a
/// notification is emitted.
pub open spec fn force_lock_outcome(s: RegistryView, origin: Origin, class_id: u64) -> Result<
    RegistryView,
    Error,
> {
    if !(origin is Root) {
        Err(Error::BadOrigin)
    } else if s.locked.contains(class_id) {
        Err(Error::CollectionAlreadyLocked)
    } else {
        Ok(
            RegistryView {
                locked: s.locked.insert(class_id),
                events: s.events.push(Event::CollectionLocked(class_id)),
                ..s
            },
        )
    }
}

/// What unlocking a class does: only governance may unlock, only a locked
/// class can be unlocked, and on success the class leaves the lock set and a
/// notification is emitted.
pub open spec fn force_unlock_outcome(s: RegistryView, origin: Origin, class_id: u64) -> Result<
    RegistryView,
    Error,
> {
    if !(origin is Root) {
        Err(Error::BadOrigin)
    } else if !s.locked.contains(class_id) {
        Err(Error::CollectionIsNotLocked)
    } else {
        Ok(
            RegistryView {
                locked: s.locked.remove(class_id),
                events: s.events.push(Event::CollectionUnlocked(class_id)),
                ..s
            },
        )
    }
}

/// What setting the promotion flag does: only governance may set it.
pub open spec fn enable_promotion_outcome(s: RegistryView, origin: Origin, enable: bool) -> Result<
    RegistryView,
    Error,
> {
    if !(origin is Root) {
        Err(Error::BadOrigin)
    } else {
        Ok(
            RegistryView {
                promotion_enabled: enable,
                events: s.events.push(Event::PromotionEnabled(enable)),
                ..s
            },
        )
    }
}

/// Appending an element adds it to the sequence's set.
proof fn lemma_to_set_push<T>(s: Seq<T>, x: T)
    ensures
        s.push(x).to_set() =~= s.to_set().insert(x),
{
    assert forall|y: T| #[trigger] s.push(x).to_set().contains(y) implies s.to_set().insert(
        x,
    ).contains(y) by {
        let i = choose|i: int| 0 <= i < s.push(x).len() && s.push(x)[i] == y;
        if i < s.len() {
            assert(s[i] == y);
        }
    }
    assert forall|y: T| #[trigger] s.to_set().insert(x).contains(y) implies s.push(x).to_set()
        .contains(y) by {
        if y == x {
            assert(s.push(x)[s.len() as int] == y);
        } else {
            let i = choose|i: int| 0 <= i < s.len() && s[i] == y;
            assert(s.push(x)[i] == y);
        }
    }
}

/// Removing the one occurrence of an element removes it from the sequence's
/// set.
proof fn lemma_to_set_remove<T>(s: Seq<T>, i: int, x: T)
    requires
        0 <= i < s.len(),
        s[i] == x,
        s.no_duplicates(),
    ensures
        s.remove(i).to_set() =~= s.to_set().remove(x),
{
    let s2 = s.remove(i);
    assert forall|y: T| #[trigger] s2.to_set().contains(y) implies s.to_set().remove(x).contains(
        y,
    ) by {
        let j = choose|j: int| 0 <= j < s2.len() && s2[j] == y;
        if j < i {
            assert(s[j] == y);
        } else {
            assert(s[j + 1] == y);
        }
    }
    assert forall|y: T| #[trigger] s.to_set().remove(x).contains(y) implies s2.to_set().contains(
        y,
    ) by {
        let j = choose|j: int| 0 <= j < s.len() && s[j] == y;
        if j < i {
            assert(s2[j] == y);
        } else {
            assert(j != i);
            assert(s2[j - 1] == y);
        }
    }
}

/// Removing one occurrence keeps a duplicate-free sequence duplicate-free.
proof fn lemma_remove_no_duplicates<T>(s: Seq<T>, i: int)
    requires
        0 <= i < s.len(),
        s.no_duplicates(),
    ensures
        s.remove(i).no_duplicates(),
{
    let s2 = s.remove(i);
    assert forall|p: int, q: int| 0 <= p < q < s2.len() implies s2[p] != s2[q] by {
        let p0 = if p < i { p } else { p + 1 };
        let q0 = if q < i { q } else { q + 1 };
        assert(s2[p] == s[p0]);
        assert(s2[q] == s[q0]);
    }
}

impl Registry {
    /// The registry's internal validity: the collection counter agrees with
    /// the collection table, and the lock set and the listing board hold no
    /// duplicates. Every operation preserves it.
    pub open spec fn wf(&self) -> bool {
        &&& self.total_collections == self.collections@.len()
        &&& self.locked@.no_duplicates()
        &&& self.listed@.no_duplicates()
    }

    /// A fresh registry: the given bounds and rate, and otherwise nothing —
    /// no collections, classes, locks, supporters, listings, funds or
    /// events, and promotion off.
    pub fn new(
        max_metadata: u32,
        max_batch_minting: u32,
        max_batch_transfer: u32,
        deposit_per_byte: u128,
        existential_min: u128,
    ) -> (r: Registry)
        ensures
            r.wf(),
            r@.max_metadata == max_metadata,
            r@.max_batch_minting == max_batch_minting,
            r@.max_batch_transfer == max_batch_transfer,
            r@.deposit_per_byte == deposit_per_byte,
            r@.collections == Seq::<CollectionView>::empty(),
            r@.total_collections == 0,
            r@.classes == Seq::<ClassView>::empty(),
            r@.locked == Set::<u64>::empty(),
            !r@.promotion_enabled,
            r@.supporters == Map::<Asset, Seq<u64>>::empty(),
            forall|c: u64| r@.contributions[c] == 0,
            r@.listed == Set::<Asset>::empty(),
            r@.ledger.existential_min == existential_min,
            forall|a: AccountId| r@.ledger.free[a] == 0 && r@.ledger.reserved[a] == 0,
            r@.events == Seq::<Event>::empty(),
    {
        let r = Registry {
            max_metadata,
            max_batch_minting,
            max_batch_transfer,
            deposit_per_byte,
            collections: Vec::new(),
            total_collections: 0,
            classes: Vec::new(),
            locked: Vec::new(),
            promotion_enabled: false,
            supporters: Vec::new(),
            contributions: Ghost(Map::new(|c: u64| true, |c: u64| 0int)),
            listed: Vec::new(),
            ledger: Ledger::new(existential_min),
            events: Vec::new(),
        };
        proof {
            assert(r@.collections =~= Seq::<CollectionView>::empty());
            assert(r@.classes =~= Seq::<ClassView>::empty());
            assert(r@.locked =~= Set::<u64>::empty());
            assert(r@.supporters =~= Map::<Asset, Seq<u64>>::empty());
            assert(r@.listed =~= Set::<Asset>::empty());
        }
        r
    }

    /// Whether governance has enabled promotion.
    pub fn is_promotion_enabled(&self) -> (r: bool)
        ensures
            r == self@.promotion_enabled,
    {
        self.promotion_enabled
    }

    /// The escrow account of a class: derived deterministically and
    /// injectively from the class identifier.
    pub fn get_class_fund(class_id: u64) -> (r: AccountId)
        ensures
            r == AccountId::ClassFund(class_id),
    {
        AccountId::ClassFund(class_id)
    }

    /// Whether the class is administratively locked.
    pub fn is_collection_locked(&self, class_id: u64) -> (r: bool)
        ensures
            r == self@.locked.contains(class_id),
    {
        let mut i: usize = 0;
        while i < self.locked.len()
            invariant
                0 <= i <= self.locked@.len(),
                forall|j: int| 0 <= j < i ==> self.locked@[j] != class_id,
            decreases self.locked@.len() - i,
        {
            if self.locked[i] == class_id {
                assert(self.locked@.contains(class_id));
                return true;
            }
            i = i + 1;
        }
        assert(!self.locked@.contains(class_id));
        false
    }

    /// Whether the auction collaborator reports the asset as listed.
    pub fn check_item_on_listing(&self, asset: Asset) -> (r: Result<bool, Error>)
        ensures
            r == Ok::<bool, Error>(self@.listed.contains(asset)),
    {
        Ok(self.item_listed(asset))
    }

    /// Whether the asset stands on the listing board.
    pub fn item_listed(&self, asset: Asset) -> (r: bool)
        ensures
            r == self@.listed.contains(asset),
    {
        let mut i: usize = 0;
        while i < self.listed.len()
            invariant
                0 <= i <= self.listed@.len(),
                forall|j: int| 0 <= j < i ==> self.listed@[j] != asset,
            decreases self.listed@.len() - i,
        {
            if self.listed[i] == asset {
                assert(self.listed@.contains(asset));
                return true;
            }
            i = i + 1;
        }
        assert(!self.listed@.contains(asset));
        false
    }

    /// Record or withdraw the auction collaborator's report that the asset
    /// is listed. This is the listing board's interface to that
    /// collaborator; it touches nothing else.
    pub fn set_auction_listing(&mut self, asset: Asset, listed: bool)
        requires
            old(self).wf(),
        ensures
            final(self).wf(),
            final(self)@ == (RegistryView {
                listed: if listed {
                    old(self)@.listed.insert(asset)
                } else {
                    old(self)@.listed.remove(asset)
                },
                ..old(self)@
            }),
    {
        let present = self.item_listed(asset);
        if listed {
            if !present {
                self.listed.push(asset);
                proof {
                    lemma_to_set_push(old(self).listed@, asset);
                    assert(self.listed@.no_duplicates()) by {
                        assert(forall|j: int|
                            0 <= j < old(self).listed@.len() ==> old(self).listed@[j] != asset);
                    }
                }
            } else {
                proof {
                    assert(self@.listed =~= self@.listed.insert(asset));
                }
            }
        } else {
            if present {
                let mut i: usize = 0;
                let n = self.listed.len();
                while i < n
                    invariant
                        0 <= i <= n == self.listed@.len(),
                        *self == *old(self),
                        old(self).wf(),
                        !listed,
                        self@.listed.contains(asset),
                        forall|j: int| 0 <= j < i ==> self.listed@[j] != asset,
                    decreases n - i,
                {
                    if self.listed[i] == asset {
                        proof {
                            lemma_to_set_remove(self.listed@, i as int, asset);
                            lemma_remove_no_duplicates(self.listed@, i as int);
                        }
                        self.listed.remove(i);
                        proof {
                            assert(self@ =~= (RegistryView {
                                listed: old(self)@.listed.remove(asset),
                                ..old(self)@
                            }));
                        }
                        return ;
                    }
                    i = i + 1;
                }
                proof {
                    assert(!self.listed@.contains(asset));
                    assert(false);
                }
            } else {
                proof {
                    assert(self@.listed =~= self@.listed.remove(asset));
                }
            }
        }
        proof {
            assert(self@ =~= (RegistryView {
                listed: if listed {
                    old(self)@.listed.insert(asset)
                } else {
                    old(self)@.listed.remove(asset)
                },
                ..old(self)@
            }));
        }
    }

    /// Whether `sender` owns the token; the not-found failure when there is
    /// no token record.
    pub fn check_nft_ownership(&self, sender: u64, asset: Asset) -> (r: Result<bool, Error>)
        ensures
            r == check_ownership_outcome(self@, sender, asset),
    {
        if asset.class_id >= self.classes.len() as u64 {
            return Err(Error::AssetInfoNotFound);
        }
        let ci = asset.class_id as usize;
        let cls = &self.classes[ci];
        if asset.token_id >= cls.tokens.len() as u64 {
            return Err(Error::AssetInfoNotFound);
        }
        let ti = asset.token_id as usize;
        match &cls.tokens[ti] {
            Some(t) => Ok(t.owner == sender),
            None => Err(Error::AssetInfoNotFound),
        }
    }

    /// Whether `who` owns the token; the not-found failure when there is no
    /// token record.
    pub fn check_ownership(&self, who: u64, asset: Asset) -> (r: Result<bool, Error>)
        ensures
            r == check_ownership_outcome(self@, who, asset),
    {
        self.check_nft_ownership(who, asset)
    }

    /// The class record that the asset belongs to; the not-found failure
    /// when the class was never created.
    pub fn get_nft_detail(&self, asset: Asset) -> (r: Result<&ClassRecord, Error>)
        ensures
            match r {
                Ok(c) => asset.class_id < self@.classes.len() && c@ == self@.classes[
                    asset.class_id as int
                ],
                Err(e) => asset.class_id >= self@.classes.len() && e == Error::AssetInfoNotFound,
            },
    {
        if asset.class_id >= self.classes.len() as u64 {
            return Err(Error::AssetInfoNotFound);
        }
        Ok(&self.classes[asset.class_id as usize])
    }

    /// The collection a class belongs to; the default collection when the
    /// class was never created.
    pub fn get_nft_group_collection(&self, class_id: u64) -> (r: Result<u64, Error>)
        ensures
            r == Ok::<u64, Error>(
                if class_id < self@.classes.len() {
                    self@.classes[class_id as int].collection_id
                } else {
                    0u64
                },
            ),
    {
        if class_id >= self.classes.len() as u64 {
            return Ok(0);
        }
        Ok(self.classes[class_id as usize].collection_id)
    }

    /// Whether the class belongs to the collection; the not-found failure
    /// when the class was never created.
    pub fn check_collection_and_class(&self, collection_id: u64, class_id: u64) -> (r: Result<
        bool,
        Error,
    >)
        ensures
            r == if class_id < self@.classes.len() {
                Ok::<bool, Error>(self@.classes[class_id as int].collection_id == collection_id)
            } else {
                Err::<bool, Error>(Error::ClassIdNotFound)
            },
    {
        if class_id >= self.classes.len() as u64 {
            return Err(Error::ClassIdNotFound);
        }
        Ok(self.classes[class_id as usize].collection_id == collection_id)
    }

    /// Whether the asset's class lets its tokens change owner; the not-found
    /// failure when the class was never created.
    pub fn is_transferable(&self, asset: Asset) -> (r: Result<bool, Error>)
        ensures
            r == if asset.class_id < self@.classes.len() {
                Ok::<bool, Error>(self@.classes[asset.class_id as int].token_type is Transferable)
            } else {
                Err::<bool, Error>(Error::ClassIdNotFound)
            },
    {
        if asset.class_id >= self.classes.len() as u64 {
            return Err(Error::ClassIdNotFound);
        }
        Ok(self.classes[asset.class_id as usize].token_type.is_transferable())
    }

    /// Set the promotion flag. Governance only.
    pub fn enable_promotion(&mut self, origin: Origin, enable: bool) -> (r: Result<(), Error>)
        requires
            old(self).wf(),
        ensures
            final(self).wf(),
            match enable_promotion_outcome(old(self)@, origin, enable) {
                Ok(s2) => r is Ok && final(self)@ == s2,
                Err(e) => r == Err::<(), Error>(e) && final(self)@ == old(self)@,
            },
    {
        match origin {
            Origin::Root => {},
            _ => {
                return Err(Error::BadOrigin);
            },
        }
        self.promotion_enabled = enable;
        self.events.push(Event::PromotionEnabled(enable));
        proof {
            assert(self@ =~= enable_promotion_outcome(old(self)@, origin, enable)->Ok_0);
        }
        Ok(())
    }

    /// Lock a class, barring minting and transfer under it. Governance only.
    pub fn force_lock_collection(&mut self, origin: Origin, class_id: u64) -> (r: Result<
        (),
        Error,
    >)
        requires
            old(self).wf(),
        ensures
            final(self).wf(),
            match force_lock_outcome(old(self)@, origin, class_id) {
                Ok(s2) => r is Ok && final(self)@ == s2,
                Err(e) => r == Err::<(), Error>(e) && final(self)@ == old(self)@,
            },
    {
        match origin {
            Origin::Root => {},
            _ => {
                return Err(Error::BadOrigin);
            },
        }
        if self.is_collection_locked(class_id) {
            return Err(Error::CollectionAlreadyLocked);
        }
        self.locked.push(class_id);
        self.events.push(Event::CollectionLocked(class_id));
        proof {
            lemma_to_set_push(old(self).locked@, class_id);
            assert(self.locked@.no_duplicates()) by {
                assert(forall|j: int|
                    0 <= j < old(self).locked@.len() ==> old(self).locked@[j] != class_id);
            }
            assert(self@ =~= force_lock_outcome(old(self)@, origin, class_id)->Ok_0);
        }
        Ok(())
    }

    /// Unlock a class, letting minting and transfer under it resume.
    /// Governance only.
    pub fn force_unlock_collection(&mut self, origin: Origin, class_id: u64) -> (r: Result<
        (),
        Error,
    >)
        requires
            old(self).wf(),
        ensures
            final(self).wf(),
            match force_unlock_outcome(old(self)@, origin, class_id) {
                Ok(s2) => r is Ok && final(self)@ == s2,
                Err(e) => r == Err::<(), Error>(e) && final(self)@ == old(self)@,
            },
    {
        match origin {
            Origin::Root => {},
            _ => {
                return Err(Error::BadOrigin);
            },
        }
        if !self.is_collection_locked(class_id) {
            return Err(Error::CollectionIsNotLocked);
        }
        let mut i: usize = 0;
        let n = self.locked.len();
        while i < n
            invariant
                0 <= i <= n == self.locked@.len(),
                *self == *old(self),
                old(self).wf(),
                origin is Root,
                self@.locked.contains(class_id),
                forall|j: int| 0 <= j < i ==> self.locked@[j] != class_id,
            decreases n - i,
        {
            if self.locked[i] == class_id {
                proof {
                    lemma_to_set_remove(self.locked@, i as int, class_id);
                    lemma_remove_no_duplicates(self.locked@, i as int);
                }
                self.locked.remove(i);
                self.events.push(Event::CollectionUnlocked(class_id));
                proof {
                    assert(self@ =~= force_unlock_outcome(old(self)@, origin, class_id)->Ok_0);
                }
                return Ok(());
            }
            i = i + 1;
        }
        proof {
            assert(!self.locked@.contains(class_id));
            assert(false);
        }
        Err(Error::CollectionIsNotLocked)
    }
}

} // verus!
