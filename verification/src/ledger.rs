//! The balance ledger: every account's free and reserved funds. The ledger
//! moves funds between accounts, reserves them so they cannot be spent, and
//! returns reserved funds, keeping a sender at or above the existential
//! minimum on ordinary transfers. It is the registry's model of the currency
//! system that holds the deposits the registry escrows.

use vstd::prelude::*;

use crate::types::{AccountId, Error};

verus! {

/// One account's balances.
#[derive(Clone, Copy, Debug, PartialEq, Eq, Structural)]
pub struct LedgerEntry {
    pub account: AccountId,
    pub free: u128,
    pub reserved: u128,
}

/// The ledger's view: two total maps from account to amount. An account
/// without an entry holds nothing.
#[verifier::ext_equal]
pub struct LedgerView {
    pub existential_min: u128,
    pub free: Map<AccountId, u128>,
    pub reserved: Map<AccountId, u128>,
}

/// The free and reserved amounts of `a` in an entry list: those of the first
/// entry for `a`, or nothing.
pub open spec fn lookup(entries: Seq<LedgerEntry>, a: AccountId) -> (u128, u128)
    decreases entries.len(),
{
    if entries.len() == 0 {
        (0u128, 0u128)
    } else if entries[0].account == a {
        (entries[0].free, entries[0].reserved)
    } else {
        lookup(entries.drop_first(), a)
    }
}

/// The ledger: a table of account balances and the existential minimum a
/// sender must keep.
pub struct Ledger {
    pub existential_min: u128,
    pub entries: Vec<LedgerEntry>,
}

impl View for Ledger {
    type V = LedgerView;

    open spec fn view(&self) -> LedgerView {
        LedgerView {
            existential_min: self.existential_min,
            free: Map::new(|a: AccountId| true, |a: AccountId| lookup(self.entries@, a).0),
            reserved: Map::new(|a: AccountId| true, |a: AccountId| lookup(self.entries@, a).1),
        }
    }
}

/// An entry for `a` at index `i`, with none before it, decides the lookup.
proof fn lemma_lookup_found(s: Seq<LedgerEntry>, i: int, a: AccountId)
    requires
        0 <= i < s.len(),
        s[i].account == a,
        forall|j: int| 0 <= j < i ==> s[j].account != a,
    ensures
        lookup(s, a) == (s[i].free, s[i].reserved),
    decreases i,
{
    if i > 0 {
        lemma_lookup_found(s.drop_first(), i - 1, a);
    }
}

/// With no entry for `a`, the lookup is empty.
proof fn lemma_lookup_absent(s: Seq<LedgerEntry>, a: AccountId)
    requires
        forall|j: int| 0 <= j < s.len() ==> s[j].account != a,
    ensures
        lookup(s, a) == (0u128, 0u128),
    decreases s.len(),
{
    if s.len() > 0 {
        lemma_lookup_absent(s.drop_first(), a);
    }
}

/// Replacing the first entry for `a` changes the lookup at `a` alone.
proof fn lemma_lookup_update(s: Seq<LedgerEntry>, i: int, e: LedgerEntry, a: AccountId)
    requires
        0 <= i < s.len(),
        s[i].account == a,
        e.account == a,
        forall|j: int| 0 <= j < i ==> s[j].account != a,
    ensures
        forall|x: AccountId|
            #[trigger] lookup(s.update(i, e), x) == if x == a {
                (e.free, e.reserved)
            } else {
                lookup(s, x)
            },
    decreases i,
{
    let s2 = s.update(i, e);
    if i > 0 {
        lemma_lookup_update(s.drop_first(), i - 1, e, a);
    }
    assert forall|x: AccountId|
        #[trigger] lookup(s2, x) == if x == a {
            (e.free, e.reserved)
        } else {
            lookup(s, x)
        } by {
        if i == 0 {
            assert(s2[0] == e);
            if x != a {
                assert(lookup(s2, x) == lookup(s2.drop_first(), x));
                assert(lookup(s, x) == lookup(s.drop_first(), x));
                assert(s2.drop_first() =~= s.drop_first());
            }
        } else {
            assert(s2[0] == s[0]);
            if s[0].account != x {
                assert(lookup(s2, x) == lookup(s2.drop_first(), x));
                assert(lookup(s, x) == lookup(s.drop_first(), x));
                assert(s2.drop_first() =~= s.drop_first().update(i - 1, e));
                assert(lookup(s.drop_first().update(i - 1, e), x) == if x == a {
                    (e.free, e.reserved)
                } else {
                    lookup(s.drop_first(), x)
                });
            }
        }
    }
}

/// Appending an entry for an absent account changes the lookup there alone.
proof fn lemma_lookup_push(s: Seq<LedgerEntry>, e: LedgerEntry)
    requires
        forall|j: int| 0 <= j < s.len() ==> s[j].account != e.account,
    ensures
        forall|x: AccountId|
            #[trigger] lookup(s.push(e), x) == if x == e.account {
                (e.free, e.reserved)
            } else {
                lookup(s, x)
            },
    decreases s.len(),
{
    if s.len() > 0 {
        lemma_lookup_push(s.drop_first(), e);
    }
    assert forall|x: AccountId|
        #[trigger] lookup(s.push(e), x) == if x == e.account {
            (e.free, e.reserved)
        } else {
            lookup(s, x)
        } by {
        if s.len() == 0 {
            assert(s.push(e)[0] == e);
            if x != e.account {
                assert(lookup(s.push(e), x) == lookup(s.push(e).drop_first(), x));
                assert(s.push(e).drop_first() =~= s);
            }
        } else {
            assert(s.push(e)[0] == s[0]);
            if s[0].account != x {
                assert(lookup(s.push(e), x) == lookup(s.push(e).drop_first(), x));
                assert(lookup(s, x) == lookup(s.drop_first(), x));
                assert(s.push(e).drop_first() =~= s.drop_first().push(e));
                assert(lookup(s.drop_first().push(e), x) == if x == e.account {
                    (e.free, e.reserved)
                } else {
                    lookup(s.drop_first(), x)
                });
            }
        }
    }
}

/// What an ordinary transfer does: it fails for want of funds when the
/// sender's free balance is short of the amount or would drop under the
/// existential minimum, succeeds without effect from an account to itself,
/// fails on receiver overflow, and otherwise moves the amount between the
/// two free balances.
pub open spec fn transfer_outcome(
    l: LedgerView,
    from: AccountId,
    to: AccountId,
    amount: u128,
) -> Result<LedgerView, Error> {
    if l.free[from] < amount {
        Err(Error::InsufficientBalance)
    } else if l.free[from] - amount < l.existential_min {
        Err(Error::InsufficientBalance)
    } else if from == to {
        Ok(l)
    } else if l.free[to] + amount > u128::MAX {
        Err(Error::ArithmeticOverflow)
    } else {
        Ok(LedgerView {
            free: l.free.insert(from, (l.free[from] - amount) as u128).insert(
                to,
                (l.free[to] + amount) as u128,
            ),
            ..l
        })
    }
}

/// What reserving does: it moves the amount from the account's free balance
/// to its reserved balance, failing when free funds are short or the
/// reserved balance would overflow.
pub open spec fn reserve_outcome(l: LedgerView, who: AccountId, amount: u128) -> Result<
    LedgerView,
    Error,
> {
    if l.free[who] < amount {
        Err(Error::InsufficientBalance)
    } else if l.reserved[who] + amount > u128::MAX {
        Err(Error::ArithmeticOverflow)
    } else {
        Ok(LedgerView {
            free: l.free.insert(who, (l.free[who] - amount) as u128),
            reserved: l.reserved.insert(who, (l.reserved[who] + amount) as u128),
            ..l
        })
    }
}

/// What returning reserved funds does: it moves as much of the amount as is
/// actually reserved on `from` into the free balance of `to`, failing only
/// when the receiver would overflow, and reports how much moved.
pub open spec fn repatriate_outcome(
    l: LedgerView,
    from: AccountId,
    to: AccountId,
    amount: u128,
) -> Result<(LedgerView, u128), Error> {
    let moved: u128 = if amount <= l.reserved[from] {
        amount
    } else {
        l.reserved[from]
    };
    if l.free[to] + moved > u128::MAX {
        Err(Error::ArithmeticOverflow)
    } else {
        Ok(
            (
                LedgerView {
                    free: l.free.insert(to, (l.free[to] + moved) as u128),
                    reserved: l.reserved.insert(from, (l.reserved[from] - moved) as u128),
                    ..l
                },
                moved,
            ),
        )
    }
}

/// What issuing new funds does: it raises the account's free balance,
/// failing on overflow.
pub open spec fn endow_outcome(l: LedgerView, who: AccountId, amount: u128) -> Result<
    LedgerView,
    Error,
> {
    if l.free[who] + amount > u128::MAX {
        Err(Error::ArithmeticOverflow)
    } else {
        Ok(LedgerView { free: l.free.insert(who, (l.free[who] + amount) as u128), ..l })
    }
}

impl Ledger {
    /// An empty ledger with the given existential minimum.
    pub fn new(existential_min: u128) -> (r: Ledger)
        ensures
            r@.existential_min == existential_min,
            r@.free == Map::<AccountId, u128>::new(|a: AccountId| true, |a: AccountId| 0u128),
            r@.reserved == Map::<AccountId, u128>::new(|a: AccountId| true, |a: AccountId| 0u128),
    {
        let l = Ledger { existential_min, entries: Vec::new() };
        proof {
            assert(l@.free =~= Map::<AccountId, u128>::new(|a: AccountId| true, |a: AccountId| 0u128));
            assert(l@.reserved =~= Map::<AccountId, u128>::new(
                |a: AccountId| true,
                |a: AccountId| 0u128,
            ));
        }
        l
    }

    /// The index of the first entry for `who`, if any.
    fn position_of(&self, who: AccountId) -> (r: Option<usize>)
        ensures
            match r {
                Some(i) => i < self.entries@.len() && self.entries@[i as int].account == who
                    && forall|j: int| 0 <= j < i ==> self.entries@[j].account != who,
                None => forall|j: int|
                    0 <= j < self.entries@.len() ==> self.entries@[j].account != who,
            },
    {
        let mut i: usize = 0;
        while i < self.entries.len()
            invariant
                0 <= i <= self.entries@.len(),
                forall|j: int| 0 <= j < i ==> self.entries@[j].account != who,
            decreases self.entries@.len() - i,
        {
            if self.entries[i].account == who {
                return Some(i);
            }
            i = i + 1;
        }
        None
    }

    /// The account's free balance.
    pub fn free_balance(&self, who: AccountId) -> (r: u128)
        ensures
            r == self@.free[who],
    {
        match self.position_of(who) {
            Some(i) => {
                proof {
                    lemma_lookup_found(self.entries@, i as int, who);
                }
                self.entries[i].free
            },
            None => {
                proof {
                    lemma_lookup_absent(self.entries@, who);
                }
                0
            },
        }
    }

    /// The account's reserved balance.
    pub fn reserved_balance(&self, who: AccountId) -> (r: u128)
        ensures
            r == self@.reserved[who],
    {
        match self.position_of(who) {
            Some(i) => {
                proof {
                    lemma_lookup_found(self.entries@, i as int, who);
                }
                self.entries[i].reserved
            },
            None => {
                proof {
                    lemma_lookup_absent(self.entries@, who);
                }
                0
            },
        }
    }

    /// Set the account's free balance, leaving every other balance as it is.
    fn set_free(&mut self, who: AccountId, value: u128)
        ensures
            final(self)@.free == old(self)@.free.insert(who, value),
            final(self)@.reserved == old(self)@.reserved,
            final(self).existential_min == old(self).existential_min,
    {
        let ghost s0 = self.entries@;
        match self.position_of(who) {
            Some(i) => {
                let mut e = self.entries[i];
                e.free = value;
                self.entries[i] = e;
                proof {
                    lemma_lookup_found(s0, i as int, who);
                    lemma_lookup_update(s0, i as int, e, who);
                }
            },
            None => {
                let e = LedgerEntry { account: who, free: value, reserved: 0 };
                self.entries.push(e);
                proof {
                    lemma_lookup_absent(s0, who);
                    lemma_lookup_push(s0, e);
                }
            },
        }
        proof {
            assert(self@.free =~= old(self)@.free.insert(who, value));
            assert(self@.reserved =~= old(self)@.reserved);
        }
    }

    /// Set the account's reserved balance, leaving every other balance as it
    /// is.
    fn set_reserved(&mut self, who: AccountId, value: u128)
        ensures
            final(self)@.reserved == old(self)@.reserved.insert(who, value),
            final(self)@.free == old(self)@.free,
            final(self).existential_min == old(self).existential_min,
    {
        let ghost s0 = self.entries@;
        match self.position_of(who) {
            Some(i) => {
                let mut e = self.entries[i];
                e.reserved = value;
                self.entries[i] = e;
                proof {
                    lemma_lookup_found(s0, i as int, who);
                    lemma_lookup_update(s0, i as int, e, who);
                }
            },
            None => {
                let e = LedgerEntry { account: who, free: 0, reserved: value };
                self.entries.push(e);
                proof {
                    lemma_lookup_absent(s0, who);
                    lemma_lookup_push(s0, e);
                }
            },
        }
        proof {
            assert(self@.reserved =~= old(self)@.reserved.insert(who, value));
            assert(self@.free =~= old(self)@.free);
        }
    }

    /// Issue `amount` of new funds to the account.
    pub fn endow(&mut self, who: AccountId, amount: u128) -> (r: Result<(), Error>)
        ensures
            match endow_outcome(old(self)@, who, amount) {
                Ok(l2) => r is Ok && final(self)@ == l2,
                Err(e) => r == Err::<(), Error>(e) && final(self)@ == old(self)@,
            },
    {
        let free = self.free_balance(who);
        if amount > u128::MAX - free {
            return Err(Error::ArithmeticOverflow);
        }
        self.set_free(who, free + amount);
        proof {
            assert(self@ =~= endow_outcome(old(self)@, who, amount)->Ok_0);
        }
        Ok(())
    }

    /// Move `amount` from the free balance of `from` to the free balance of
    /// `to`, keeping `from` at or above the existential minimum.
    pub fn transfer_keep_alive(&mut self, from: AccountId, to: AccountId, amount: u128) -> (r:
        Result<(), Error>)
        ensures
            match transfer_outcome(old(self)@, from, to, amount) {
                Ok(l2) => r is Ok && final(self)@ == l2,
                Err(e) => r == Err::<(), Error>(e) && final(self)@ == old(self)@,
            },
    {
        let free_from = self.free_balance(from);
        if free_from < amount {
            return Err(Error::InsufficientBalance);
        }
        if free_from - amount < self.existential_min {
            return Err(Error::InsufficientBalance);
        }
        if from == to {
            return Ok(());
        }
        let free_to = self.free_balance(to);
        if amount > u128::MAX - free_to {
            return Err(Error::ArithmeticOverflow);
        }
        self.set_free(from, free_from - amount);
        self.set_free(to, free_to + amount);
        proof {
            assert(self@ =~= transfer_outcome(old(self)@, from, to, amount)->Ok_0);
        }
        Ok(())
    }

    /// Move `amount` from the account's free balance to its reserved
    /// balance, so it cannot be spent.
    pub fn reserve(&mut self, who: AccountId, amount: u128) -> (r: Result<(), Error>)
        ensures
            match reserve_outcome(old(self)@, who, amount) {
                Ok(l2) => r is Ok && final(self)@ == l2,
                Err(e) => r == Err::<(), Error>(e) && final(self)@ == old(self)@,
            },
    {
        let free = self.free_balance(who);
        if free < amount {
            return Err(Error::InsufficientBalance);
        }
        let reserved = self.reserved_balance(who);
        if amount > u128::MAX - reserved {
            return Err(Error::ArithmeticOverflow);
        }
        self.set_free(who, free - amount);
        self.set_reserved(who, reserved + amount);
        proof {
            assert(self@ =~= reserve_outcome(old(self)@, who, amount)->Ok_0);
        }
        Ok(())
    }

    /// Return up to `amount` of the funds reserved on `from` into the free
    /// balance of `to`, reporting how much actually moved.
    pub fn repatriate_reserved(&mut self, from: AccountId, to: AccountId, amount: u128) -> (r:
        Result<u128, Error>)
        ensures
            match repatriate_outcome(old(self)@, from, to, amount) {
                Ok(p) => r == Ok::<u128, Error>(p.1) && final(self)@ == p.0,
                Err(e) => r == Err::<u128, Error>(e) && final(self)@ == old(self)@,
            },
    {
        let reserved_from = self.reserved_balance(from);
        let moved: u128 = if amount <= reserved_from {
            amount
        } else {
            reserved_from
        };
        let free_to = self.free_balance(to);
        if moved > u128::MAX - free_to {
            return Err(Error::ArithmeticOverflow);
        }
        self.set_free(to, free_to + moved);
        self.set_reserved(from, reserved_from - moved);
        proof {
            assert(self@ =~= repatriate_outcome(old(self)@, from, to, amount)->Ok_0.0);
        }
        Ok(moved)
    }
}

} // verus!
