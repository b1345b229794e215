//! Batch transfer: a list of (receiver, asset) entries processed in order by
//! one signed caller. An entry whose class was never created fails the whole
//! call, as does a missing token or a token the caller does not own at that
//! point of the batch; an entry under a class that does not transfer is
//! silently skipped. The call is all-or-nothing: on any failure no entry is
//! applied.

use vstd::prelude::*;

use crate::registry::{set_token_owner, token_of, Registry, RegistryView};
use crate::transfer::lemma_token_of_set_owner;
use crate::types::{lemma_deep_view_unfold, Asset, ClassView, Error, Event, Origin, TokenView};

verus! {

/// What one batch entry does to the current state: an absent class fails the
/// call; a class that does not transfer is skipped; otherwise the token must
/// exist and belong to the sender, and then changes owner, with one
/// notification.
pub open spec fn batch_entry_outcome(s: RegistryView, sender: u64, to: u64, asset: Asset) -> Result<
    RegistryView,
    Error,
> {
    if asset.class_id >= s.classes.len() {
        Err(Error::ClassIdNotFound)
    } else if !(s.classes[asset.class_id as int].token_type is Transferable) {
        Ok(s)
    } else {
        match token_of(s, asset) {
            None => Err(Error::AssetInfoNotFound),
            Some(t) => if t.owner != sender {
                Err(Error::NoPermission)
            } else {
                let s2 = set_token_owner(s, asset, to);
                Ok(
                    RegistryView {
                        events: s2.events.push(
                            Event::TransferedNft(sender, to, asset.token_id, asset),
                        ),
                        ..s2
                    },
                )
            },
        }
    }
}

/// The batch entries folded over the state, first entry first; the first
/// failure wins.
pub open spec fn batch_entries_outcome(
    s: RegistryView,
    sender: u64,
    tos: Seq<(u64, Asset)>,
) -> Result<RegistryView, Error>
    decreases tos.len(),
{
    if tos.len() == 0 {
        Ok(s)
    } else {
        match batch_entry_outcome(s, sender, tos[0].0, tos[0].1) {
            Err(e) => Err(e),
            Ok(s2) => batch_entries_outcome(s2, sender, tos.drop_first()),
        }
    }
}

/// What the batch transfer operation does: the caller must sign; the batch
/// must fit the bound; and the entries fold over the state all-or-nothing.
pub open spec fn transfer_batch_outcome(
    s: RegistryView,
    origin: Origin,
    tos: Seq<(u64, Asset)>,
) -> Result<RegistryView, Error> {
    if !(origin is Signed) {
        Err(Error::BadOrigin)
    } else if tos.len() > s.max_batch_transfer {
        Err(Error::ExceedMaximumBatchTransfer)
    } else {
        batch_entries_outcome(s, origin->Signed_0, tos)
    }
}

/// Folding a concatenation folds the first part, then the second.
proof fn lemma_batch_concat(
    s: RegistryView,
    sender: u64,
    a: Seq<(u64, Asset)>,
    b: Seq<(u64, Asset)>,
)
    ensures
        batch_entries_outcome(s, sender, a + b) == (match batch_entries_outcome(s, sender, a) {
            Ok(m) => batch_entries_outcome(m, sender, b),
            Err(e) => Err(e),
        }),
    decreases a.len(),
{
    if a.len() == 0 {
        assert(a + b =~= b);
    } else {
        assert((a + b)[0] == a[0]);
        assert((a + b).len() > 0);
        assert((a + b).drop_first() =~= a.drop_first() + b);
        if batch_entry_outcome(s, sender, a[0].0, a[0].1) is Ok {
            let s2 = batch_entry_outcome(s, sender, a[0].0, a[0].1)->Ok_0;
            lemma_batch_concat(s2, sender, a.drop_first(), b);
        }
    }
}

/// A failing entry at position `i`, after a successful prefix, fails the
/// whole fold with its error.
proof fn lemma_fold_step_err(
    s0: RegistryView,
    sender: u64,
    tos: Seq<(u64, Asset)>,
    i: int,
    sg: RegistryView,
)
    requires
        0 <= i < tos.len(),
        batch_entries_outcome(s0, sender, tos.take(i)) == Ok::<RegistryView, Error>(sg),
        batch_entry_outcome(sg, sender, tos[i].0, tos[i].1) is Err,
    ensures
        batch_entries_outcome(s0, sender, tos) == Err::<RegistryView, Error>(
            batch_entry_outcome(sg, sender, tos[i].0, tos[i].1)->Err_0,
        ),
{
    let single = seq![tos[i]];
    assert(single.drop_first() =~= Seq::<(u64, Asset)>::empty());
    lemma_batch_concat(s0, sender, tos.take(i), single);
    assert(tos.take(i) + single =~= tos.take(i + 1));
    lemma_batch_concat(s0, sender, tos.take(i + 1), tos.skip(i + 1));
    assert(tos.take(i + 1) + tos.skip(i + 1) =~= tos);
}

/// A successful entry at position `i`, after a successful prefix, extends
/// the successful prefix by one.
proof fn lemma_fold_step_ok(
    s0: RegistryView,
    sender: u64,
    tos: Seq<(u64, Asset)>,
    i: int,
    sg: RegistryView,
)
    requires
        0 <= i < tos.len(),
        batch_entries_outcome(s0, sender, tos.take(i)) == Ok::<RegistryView, Error>(sg),
        batch_entry_outcome(sg, sender, tos[i].0, tos[i].1) is Ok,
    ensures
        batch_entries_outcome(s0, sender, tos.take(i + 1)) == Ok::<RegistryView, Error>(
            batch_entry_outcome(sg, sender, tos[i].0, tos[i].1)->Ok_0,
        ),
{
    let single = seq![tos[i]];
    assert(single.drop_first() =~= Seq::<(u64, Asset)>::empty());
    let s2 = batch_entry_outcome(sg, sender, tos[i].0, tos[i].1)->Ok_0;
    assert(single[0] == tos[i]);
    assert(batch_entries_outcome(s2, sender, single.drop_first()) == Ok::<RegistryView, Error>(s2));
    assert(batch_entries_outcome(sg, sender, single) == Ok::<RegistryView, Error>(s2));
    lemma_batch_concat(s0, sender, tos.take(i), single);
    assert(tos.take(i) + single =~= tos.take(i + 1));
}

/// The receiver recorded by the latest pending transfer of `asset`, if any.
pub open spec fn last_override(applied: Seq<(u64, Asset)>, asset: Asset) -> Option<u64>
    decreases applied.len(),
{
    if applied.len() == 0 {
        None
    } else if applied.last().1 == asset {
        Some(applied.last().0)
    } else {
        last_override(applied.drop_last(), asset)
    }
}

/// An asset with a pending transfer stands in the pending list.
proof fn lemma_override_member(applied: Seq<(u64, Asset)>, asset: Asset)
    requires
        last_override(applied, asset) is Some,
    ensures
        exists|k: int| 0 <= k < applied.len() && applied[k].1 == asset,
    decreases applied.len(),
{
    if applied.last().1 == asset {
        assert(applied[applied.len() - 1].1 == asset);
    } else {
        lemma_override_member(applied.drop_last(), asset);
        let k = choose|k: int| 0 <= k < applied.drop_last().len() && applied.drop_last()[k].1
            == asset;
        assert(applied[k].1 == asset);
    }
}

/// The state after applying a list of pending transfers in order: each sets
/// its token's owner and appends one notification.
pub open spec fn applied_state(
    s: RegistryView,
    sender: u64,
    applied: Seq<(u64, Asset)>,
) -> RegistryView
    decreases applied.len(),
{
    if applied.len() == 0 {
        s
    } else {
        let prev = applied_state(s, sender, applied.drop_last());
        let to = applied.last().0;
        let asset = applied.last().1;
        let s2 = set_token_owner(prev, asset, to);
        RegistryView {
            events: s2.events.push(Event::TransferedNft(sender, to, asset.token_id, asset)),
            ..s2
        }
    }
}

/// Applying pending transfers only rewrites the owners they name and appends
/// their notifications: every token reads as the stored one unless a pending
/// transfer overrides its owner, class records keep every other field, and
/// the rest of the state is untouched.
proof fn lemma_applied_state(s: RegistryView, sender: u64, applied: Seq<(u64, Asset)>)
    requires
        forall|k: int| 0 <= k < applied.len() ==> #[trigger] token_of(s, applied[k].1) is Some,
    ensures
        ({
            let s2 = applied_state(s, sender, applied);
            &&& s2.classes.len() == s.classes.len()
            &&& forall|c: int|
                0 <= c < s.classes.len() ==> #[trigger] s2.classes[c] == (ClassView {
                    tokens: s2.classes[c].tokens,
                    ..s.classes[c]
                })
            &&& forall|c: int|
                0 <= c < s.classes.len() ==> #[trigger] s2.classes[c].tokens.len()
                    == s.classes[c].tokens.len()
            &&& forall|a: Asset|
                #[trigger] token_of(s2, a) == (match last_override(applied, a) {
                    Some(o) => Some(TokenView { owner: o, ..token_of(s, a)->0 }),
                    None => token_of(s, a),
                })
            &&& s2.events == s.events + Seq::new(
                applied.len(),
                |k: int|
                    Event::TransferedNft(sender, applied[k].0, applied[k].1.token_id, applied[k].1),
            )
            &&& s2 == (RegistryView { classes: s2.classes, events: s2.events, ..s })
        }),
    decreases applied.len(),
{
    let s2 = applied_state(s, sender, applied);
    if applied.len() == 0 {
        assert(s2.events =~= s.events + Seq::new(
            applied.len(),
            |k: int|
                Event::TransferedNft(sender, applied[k].0, applied[k].1.token_id, applied[k].1),
        ));
    } else {
        let rest = applied.drop_last();
        let to = applied.last().0;
        let asset = applied.last().1;
        lemma_applied_state(s, sender, rest);
        let prev = applied_state(s, sender, rest);
        assert(token_of(s, asset) is Some) by {
            assert(applied[applied.len() - 1].1 == asset);
        }
        assert(token_of(prev, asset) is Some) by {
            if last_override(rest, asset) is None {
            }
        }
        lemma_token_of_set_owner(prev, asset, to);
        let stepped = set_token_owner(prev, asset, to);
        assert forall|a: Asset|
            #[trigger] token_of(s2, a) == (match last_override(applied, a) {
                Some(o) => Some(TokenView { owner: o, ..token_of(s, a)->0 }),
                None => token_of(s, a),
            }) by {
            assert(token_of(s2, a) == token_of(stepped, a));
            if a == asset {
                assert(token_of(stepped, a) == Some(
                    TokenView { owner: to, ..token_of(prev, asset)->0 },
                ));
                if last_override(rest, asset) is Some {
                    let o = last_override(rest, asset)->0;
                    assert(token_of(prev, asset) == Some(
                        TokenView { owner: o, ..token_of(s, asset)->0 },
                    ));
                }
                assert(last_override(applied, a) == Some(to));
            } else {
                assert(last_override(applied, a) == last_override(rest, a));
            }
        }
        assert forall|c: int| 0 <= c < s.classes.len() implies #[trigger] s2.classes[c]
            == (ClassView { tokens: s2.classes[c].tokens, ..s.classes[c] }) by {
            assert(stepped.classes[c] == (ClassView {
                tokens: stepped.classes[c].tokens,
                ..prev.classes[c]
            }));
            assert(prev.classes[c] == (ClassView { tokens: prev.classes[c].tokens, ..s.classes[c] }));
        }
        assert forall|c: int| 0 <= c < s.classes.len() implies #[trigger] s2.classes[c].tokens.len()
            == s.classes[c].tokens.len() by {
            assert(stepped.classes[c].tokens.len() == prev.classes[c].tokens.len());
        }
        assert(s2.events =~= s.events + Seq::new(
            applied.len(),
            |k: int|
                Event::TransferedNft(sender, applied[k].0, applied[k].1.token_id, applied[k].1),
        )) by {
            assert(prev.events == s.events + Seq::new(
                rest.len(),
                |k: int| Event::TransferedNft(sender, rest[k].0, rest[k].1.token_id, rest[k].1),
            ));
            assert forall|k: int| 0 <= k < rest.len() implies rest[k] == applied[k] by {}
        }
    }
}

/// The latest pending transfer of `asset` in the list, scanned from the end.
fn find_override(applied: &Vec<(u64, Asset)>, asset: Asset) -> (r: Option<u64>)
    ensures
        r == last_override(applied@, asset),
{
    let mut m: usize = applied.len();
    proof {
        assert(applied@.take(applied@.len() as int) =~= applied@);
    }
    while m > 0
        invariant
            0 <= m <= applied@.len(),
            last_override(applied@, asset) == last_override(applied@.take(m as int), asset),
        decreases m,
    {
        let j = m - 1;
        if applied[j].1 == asset {
            proof {
                assert(applied@.take(m as int).last() == applied@[j as int]);
            }
            return Some(applied[j].0);
        }
        proof {
            assert(applied@.take(m as int).last() == applied@[j as int]);
            assert(applied@.take(m as int).drop_last() =~= applied@.take(j as int));
        }
        m = j;
    }
    proof {
        assert(applied@.take(0) =~= Seq::<(u64, Asset)>::empty());
    }
    None
}

impl Registry {
    /// Transfer a batch of tokens, entry by entry, all-or-nothing. The
    /// caller must sign; the batch must fit the bound; an entry under a
    /// class that does not transfer is skipped without a notification; any
    /// other failing entry fails the whole call with no entry applied.
    pub fn transfer_batch(&mut self, origin: Origin, tos: Vec<(u64, Asset)>) -> (r: Result<
        (),
        Error,
    >)
        requires
            old(self).wf(),
        ensures
            final(self).wf(),
            match transfer_batch_outcome(old(self)@, origin, tos@) {
                Ok(s2) => r is Ok && final(self)@ == s2,
                Err(e) => r == Err::<(), Error>(e) && final(self)@ == old(self)@,
            },
    {
        let ghost s0 = self@;
        let ghost tos_view = tos@;
        let sender: u64 = match origin {
            Origin::Signed(s) => s,
            _ => {
                return Err(Error::BadOrigin);
            },
        };
        if tos.len() > self.max_batch_transfer as usize {
            return Err(Error::ExceedMaximumBatchTransfer);
        }
        // Phase one: walk the entries in order against the stored owners
        // overlaid with the transfers already pending, recording what to
        // apply; nothing is written, so a failure leaves the state as it
        // was.
        let mut applied: Vec<(u64, Asset)> = Vec::new();
        let mut i: usize = 0;
        proof {
            assert(tos_view.take(0) =~= Seq::<(u64, Asset)>::empty());
        }
        while i < tos.len()
            invariant
                0 <= i <= tos_view.len(),
                tos@ == tos_view,
                *self == *old(self),
                s0 == old(self)@,
                old(self).wf(),
                origin == Origin::Signed(sender),
                tos_view.len() <= s0.max_batch_transfer,
                batch_entries_outcome(s0, sender, tos_view.take(i as int)) == Ok::<
                    RegistryView,
                    Error,
                >(applied_state(s0, sender, applied@)),
                forall|k: int|
                    0 <= k < applied@.len() ==> #[trigger] token_of(s0, applied@[k].1) is Some,
            decreases tos_view.len() - i,
        {
            let to = tos[i].0;
            let asset = tos[i].1;
            let ghost sg = applied_state(s0, sender, applied@);
            proof {
                lemma_applied_state(s0, sender, applied@);
                lemma_deep_view_unfold(self.classes);
            }
            if asset.class_id >= self.classes.len() as u64 {
                proof {
                    lemma_fold_step_err(s0, sender, tos_view, i as int, sg);
                }
                return Err(Error::ClassIdNotFound);
            }
            let ci = asset.class_id as usize;
            let transferable = self.classes[ci].token_type.is_transferable();
            if transferable {
                let pending = find_override(&applied, asset);
                let current_owner: Option<u64> = match pending {
                    Some(o) => Some(o),
                    None => {
                        proof {
                            lemma_deep_view_unfold(self.classes@[ci as int].tokens);
                        }
                        if asset.token_id >= self.classes[ci].tokens.len() as u64 {
                            None
                        } else {
                            let ti = asset.token_id as usize;
                            match &self.classes[ci].tokens[ti] {
                                Some(t) => Some(t.owner),
                                None => None,
                            }
                        }
                    },
                };
                proof {
                    if pending is Some {
                        lemma_override_member(applied@, asset);
                    }
                }
                match current_owner {
                    None => {
                        proof {
                            assert(token_of(sg, asset) is None);
                            lemma_fold_step_err(s0, sender, tos_view, i as int, sg);
                        }
                        return Err(Error::AssetInfoNotFound);
                    },
                    Some(owner) => {
                        proof {
                            assert(token_of(sg, asset) is Some);
                            assert(token_of(sg, asset)->0.owner == owner);
                        }
                        if owner != sender {
                            proof {
                                lemma_fold_step_err(s0, sender, tos_view, i as int, sg);
                            }
                            return Err(Error::NoPermission);
                        }
                        let ghost applied0 = applied@;
                        applied.push((to, asset));
                        proof {
                            lemma_fold_step_ok(s0, sender, tos_view, i as int, sg);
                            assert(applied@.drop_last() =~= applied0);
                            assert(applied_state(s0, sender, applied@)
                                == batch_entry_outcome(sg, sender, to, asset)->Ok_0);
                            assert(tos_view.take(i as int + 1) =~= tos_view.take((i + 1) as int));
                        }
                    },
                }
            } else {
                proof {
                    assert(batch_entry_outcome(sg, sender, to, asset) == Ok::<RegistryView, Error>(
                        sg,
                    ));
                    lemma_fold_step_ok(s0, sender, tos_view, i as int, sg);
                    assert(tos_view.take(i as int + 1) =~= tos_view.take((i + 1) as int));
                }
            }
            i = i + 1;
        }
        proof {
            assert(tos_view.take(tos_view.len() as int) =~= tos_view);
        }
        // Phase two: apply the pending transfers in order.
        let ghost applied_view = applied@;
        let mut m: usize = 0;
        proof {
            assert(applied_view.take(0) =~= Seq::<(u64, Asset)>::empty());
        }
        while m < applied.len()
            invariant
                0 <= m <= applied_view.len(),
                applied@ == applied_view,
                s0 == old(self)@,
                old(self).wf(),
                self.locked == old(self).locked,
                self.listed == old(self).listed,
                self.total_collections == old(self).total_collections,
                self.collections == old(self).collections,
                self@ == applied_state(s0, sender, applied_view.take(m as int)),
                forall|k: int|
                    0 <= k < applied_view.len() ==> #[trigger] token_of(
                        s0,
                        applied_view[k].1,
                    ) is Some,
            decreases applied_view.len() - m,
        {
            let to = applied[m].0;
            let asset = applied[m].1;
            proof {
                assert(forall|k: int|
                    0 <= k < m ==> applied_view.take(m as int)[k] == applied_view[k]);
                lemma_applied_state(s0, sender, applied_view.take(m as int));
                assert(token_of(self@, asset) is Some);
            }
            self.write_token_owner(asset, to);
            self.events.push(Event::TransferedNft(sender, to, asset.token_id, asset));
            proof {
                assert(applied_view.take(m as int + 1).drop_last() =~= applied_view.take(m as int));
                assert(applied_view.take(m as int + 1).last() == applied_view[m as int]);
                assert(self@ =~= applied_state(s0, sender, applied_view.take(m as int + 1)));
                assert(applied_view.take(m as int + 1) =~= applied_view.take((m + 1) as int));
            }
            m = m + 1;
        }
        proof {
            assert(applied_view.take(applied_view.len() as int) =~= applied_view);
            assert(self@ == applied_state(s0, sender, applied_view));
        }
        Ok(())
    }
}

} // verus!
