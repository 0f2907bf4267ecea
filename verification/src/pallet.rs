//! The ledger itself: the three stores and the operations that keep them in step.

use vstd::prelude::*;
use crate::codec::kitty_digest;
use crate::invariants::{
    lemma_mint_keeps_agreement, lemma_price_keeps_agreement, lemma_transfer_keeps_agreement,
};
use crate::owned::{lemma_first_index, without_first, OwnedIndex};
use crate::store::KittyStore;
use crate::types::{AccountId, Balance, Error, Gender, Kitty, H256};

verus! {

/// The record of a kitty as it is minted: not for sale, in the hands of `owner`.
pub open spec fn newborn(owner: AccountId, dna: [u8; 16], gender: Gender) -> Kitty {
    Kitty { dna, price: None, gender, owner }
}

/// `id` is the identifier that a kitty of this genetic code and gender got
/// when some account minted it.
pub open spec fn minted_as(id: H256, dna: [u8; 16], gender: Gender) -> bool {
    exists|minter: AccountId| id.0@ == #[trigger] kitty_digest(newborn(minter, dna, gender))
}

/// The ledger: every kitty by identifier, the identifiers by owner, and the
/// number of kitties minted so far.
pub struct Pallet {
    reservation_fee: Balance,
    kitty_cnt: u64,
    kitties: KittyStore,
    owned: OwnedIndex,
}

impl Pallet {
    /// The record of every kitty, by identifier.
    pub closed spec fn kitty_map(&self) -> Map<H256, Kitty> {
        self.kitties@
    }

    /// The identifiers that `who` owns, in the order the ledger keeps them.
    pub closed spec fn owned_by(&self, who: AccountId) -> Seq<H256> {
        self.owned.of(who)
    }

    /// How many kitties were minted so far.
    pub closed spec fn count(&self) -> u64 {
        self.kitty_cnt
    }

    /// The most kitties that one account can own.
    pub closed spec fn capacity(&self) -> u32 {
        self.owned.capacity()
    }

    /// The deposit that is reserved for each kitty minted.
    pub closed spec fn fee(&self) -> Balance {
        self.reservation_fee
    }

    /// What the stores need of their own representation.
    pub closed spec fn sound(&self) -> bool {
        self.kitties.inv()
    }

    /// What holds of the ledger between any two operations: no account owns
    /// more than the capacity, the counter is no less than the number of
    /// records, and each identifier is still the one its kitty was minted under.
    pub open spec fn wf(&self) -> bool {
        &&& self.sound()
        &&& forall|who: AccountId| #[trigger] self.owned_by(who).len() <= self.capacity()
        &&& self.kitty_map().dom().finite()
        &&& self.kitty_map().dom().len() <= self.count()
        &&& forall|id: H256| #[trigger]
            self.kitty_map().contains_key(id) ==> minted_as(
                id,
                self.kitty_map()[id].dna,
                self.kitty_map()[id].gender,
            )
    }

    /// The records and the lists agree: an account's list holds an
    /// identifier, once, exactly when the record under it names that account
    /// as its owner.
    pub open spec fn consistent(&self) -> bool {
        &&& forall|who: AccountId, id: H256| #[trigger]
            self.owned_by(who).contains(id) ==> self.kitty_map().contains_key(id)
                && self.kitty_map()[id].owner == who
        &&& forall|id: H256| #[trigger]
            self.kitty_map().contains_key(id) ==> self.owned_by(
                self.kitty_map()[id].owner,
            ).contains(id)
        &&& forall|who: AccountId| #[trigger] self.owned_by(who).no_duplicates()
    }

    /// The capacity and the fee are those of `pre`.
    pub open spec fn same_setup(&self, pre: &Pallet) -> bool {
        &&& self.capacity() == pre.capacity()
        &&& self.fee() == pre.fee()
    }

    /// This ledger is `pre` after `kitty` was minted under `id`.
    pub open spec fn minted_from(&self, pre: &Pallet, id: H256, kitty: Kitty) -> bool {
        &&& self.same_setup(pre)
        &&& self.count() == pre.count() + 1
        &&& self.kitty_map() == pre.kitty_map().insert(id, kitty)
        &&& self.owned_by(kitty.owner) == pre.owned_by(kitty.owner).push(id)
        &&& forall|who: AccountId|
            who != kitty.owner ==> #[trigger] self.owned_by(who) == pre.owned_by(who)
    }

    /// This ledger is `pre` after the price of `id` became `price`.
    pub open spec fn repriced_from(&self, pre: &Pallet, id: H256, price: Option<Balance>) -> bool {
        &&& self.same_setup(pre)
        &&& self.count() == pre.count()
        &&& self.kitty_map() == pre.kitty_map().insert(
            id,
            Kitty { price, ..pre.kitty_map()[id] },
        )
        &&& forall|who: AccountId| #[trigger] self.owned_by(who) == pre.owned_by(who)
    }

    /// This ledger is `pre` after `id` went from its owner to `to`: the
    /// record names `to` and is no longer for sale, the first `id` left
    /// the list of the former owner, and `id` stands last in the list of `to`.
    pub open spec fn transferred_from(&self, pre: &Pallet, id: H256, to: AccountId) -> bool {
        let kitty = pre.kitty_map()[id];
        let from = kitty.owner;
        &&& self.same_setup(pre)
        &&& self.count() == pre.count()
        &&& self.kitty_map() == pre.kitty_map().insert(
            id,
            Kitty { owner: to, price: None, ..kitty },
        )
        &&& from != to ==> self.owned_by(from) == without_first(pre.owned_by(from), id)
        &&& from != to ==> self.owned_by(to) == pre.owned_by(to).push(id)
        &&& from == to ==> self.owned_by(to) == without_first(pre.owned_by(from), id).push(id)
        &&& forall|who: AccountId|
            who != from && who != to ==> #[trigger] self.owned_by(who) == pre.owned_by(who)
    }

    /// Why the kitty `id` cannot go to `to`, if it cannot: there is no such
    /// kitty, the list of its owner does not hold it, or `to` has no room.
    pub open spec fn handover_error(&self, id: H256, to: AccountId) -> Option<Error> {
        if !self.kitty_map().contains_key(id) {
            Some(Error::KittyNotExist)
        } else if !self.owned_by(self.kitty_map()[id].owner).contains(id) {
            Some(Error::KittyNotExist)
        } else if self.kitty_map()[id].owner != to && self.owned_by(to).len()
            >= self.capacity() {
            Some(Error::ExceedMaxKittyOwned)
        } else {
            None
        }
    }

    /// The index keeps its bound when no account owns more than the capacity.
    proof fn lemma_index_bounded(&self)
        requires
            forall|who: AccountId| #[trigger] self.owned_by(who).len() <= self.capacity(),
        ensures
            self.owned.inv(),
    {
        assert forall|who: AccountId| #[trigger]
            self.owned.of(who).len() <= self.owned.capacity() by {
            assert(self.owned_by(who).len() <= self.capacity());
        }
    }

    /// No account owns more than the capacity when the index keeps its bound.
    proof fn lemma_capacity_kept(&self)
        requires
            self.owned.inv(),
        ensures
            forall|who: AccountId| #[trigger] self.owned_by(who).len() <= self.capacity(),
    {
        assert forall|who: AccountId| #[trigger]
            self.owned_by(who).len() <= self.capacity() by {
            assert(self.owned.of(who).len() <= self.owned.capacity());
        }
    }

    /// A ledger without kitties, with the given capacity per account and
    /// deposit per kitty.
    pub fn new(max_kitty_owned: u32, reservation_fee: Balance) -> (pallet: Pallet)
        ensures
            pallet.wf(),
            pallet.consistent(),
            pallet.capacity() == max_kitty_owned,
            pallet.fee() == reservation_fee,
            pallet.count() == 0,
            pallet.kitty_map() == Map::<H256, Kitty>::empty(),
            forall|who: AccountId| #[trigger] pallet.owned_by(who) == Seq::<H256>::empty(),
    {
        Pallet {
            reservation_fee,
            kitty_cnt: 0,
            kitties: KittyStore::new(),
            owned: OwnedIndex::new(max_kitty_owned),
        }
    }

    /// The most kitties that one account can own.
    pub fn max_kitty_owned(&self) -> (n: u32)
        ensures
            n == self.capacity(),
    {
        self.owned.bound()
    }

    /// The deposit that is reserved for each kitty minted.
    pub fn reservation_fee(&self) -> (fee: Balance)
        ensures
            fee == self.fee(),
    {
        self.reservation_fee
    }

    /// How many kitties were minted so far.
    pub fn kitty_cnt(&self) -> (n: u64)
        ensures
            n == self.count(),
    {
        self.kitty_cnt
    }

    /// The record of the kitty `kitty_id`, if there is one.
    pub fn kitties(&self, kitty_id: &H256) -> (r: Option<Kitty>)
        requires
            self.wf(),
        ensures
            r == (if self.kitty_map().contains_key(*kitty_id) {
                Some(self.kitty_map()[*kitty_id])
            } else {
                None
            }),
    {
        self.kitties.get(kitty_id)
    }

    /// The identifiers that `who` owns.
    pub fn kittes_owned(&self, who: AccountId) -> (list: Vec<H256>)
        requires
            self.wf(),
        ensures
            list@ == self.owned_by(who),
            list.len() <= self.capacity(),
    {
        assert(self.owned_by(who).len() <= self.capacity());
        self.owned.get(who)
    }

    /// Whether `who` can own one kitty more.
    pub fn has_room(&self, who: AccountId) -> (room: bool)
        ensures
            room == (self.owned_by(who).len() < self.capacity()),
    {
        !self.owned.is_full(who)
    }

    /// Whether the list of `who` holds `id`.
    pub fn holds(&self, who: AccountId, id: &H256) -> (held: bool)
        ensures
            held == self.owned_by(who).contains(*id),
    {
        self.owned.position(who, id).is_some()
    }

    /// Whether `acct` owns the kitty `kitty_id`, by its record.
    pub fn is_kitty_owner(&self, kitty_id: &H256, acct: AccountId) -> (r: Result<bool, Error>)
        requires
            self.wf(),
        ensures
            r == (if self.kitty_map().contains_key(*kitty_id) {
                Ok::<bool, Error>(self.kitty_map()[*kitty_id].owner == acct)
            } else {
                Err::<bool, Error>(Error::KittyNotExist)
            }),
    {
        match self.kitties.get(kitty_id) {
            Some(kitty) => Ok(kitty.owner == acct),
            None => Err(Error::KittyNotExist),
        }
    }

    /// Records a kitty minted for `owner` and returns its identifier: the
    /// hash of the new record. Fails, and changes nothing, when the counter
    /// cannot go up or `owner` has no room.
    pub fn enroll(&mut self, owner: AccountId, dna: [u8; 16], gender: Gender) -> (r: Result<
        H256,
        Error,
    >)
        requires
            old(self).wf(),
        ensures
            final(self).wf(),
            match r {
                Ok(id) => {
                    &&& old(self).count() < u64::MAX
                    &&& old(self).owned_by(owner).len() < old(self).capacity()
                    &&& id.0@ == kitty_digest(newborn(owner, dna, gender))
                    &&& final(self).minted_from(old(self), id, newborn(owner, dna, gender))
                    &&& old(self).consistent() && !old(self).kitty_map().contains_key(id)
                        ==> final(self).consistent()
                },
                Err(e) => {
                    &&& *final(self) == *old(self)
                    &&& old(self).count() == u64::MAX ==> e == Error::KittyCntOverflow
                    &&& old(self).count() < u64::MAX ==> e == Error::ExceedMaxKittyOwned
                        && old(self).owned_by(owner).len() >= old(self).capacity()
                },
            },
    {
        let kitty = Kitty { dna, price: None, gender, owner };
        let id = kitty.hash();
        if self.kitty_cnt == u64::MAX {
            return Err(Error::KittyCntOverflow);
        }
        if self.owned.is_full(owner) {
            return Err(Error::ExceedMaxKittyOwned);
        }
        proof {
            self.lemma_index_bounded();
        }
        let pushed = self.owned.try_push(owner, id);
        self.kitties.insert(id, kitty);
        self.kitty_cnt = self.kitty_cnt + 1;
        proof {
            self.lemma_capacity_kept();
            assert(pushed is Ok);
            assert(minted_as(id, dna, gender));
            assert forall|key: H256| #[trigger] self.kitty_map().contains_key(key) implies minted_as(
                key,
                self.kitty_map()[key].dna,
                self.kitty_map()[key].gender,
            ) by {
                if key != id {
                    assert(old(self).kitty_map().contains_key(key));
                }
            }
            if old(self).consistent() && !old(self).kitty_map().contains_key(id) {
                lemma_mint_keeps_agreement(*old(self), *self, id, kitty);
            }
        }
        Ok(id)
    }

    /// Sets or clears the price of the kitty `id`. Fails, and changes
    /// nothing, when there is no such kitty.
    pub fn reprice(&mut self, id: &H256, price: Option<Balance>) -> (r: Result<(), Error>)
        requires
            old(self).wf(),
        ensures
            final(self).wf(),
            match r {
                Ok(()) => {
                    &&& old(self).kitty_map().contains_key(*id)
                    &&& final(self).repriced_from(old(self), *id, price)
                    &&& old(self).consistent() ==> final(self).consistent()
                },
                Err(e) => !old(self).kitty_map().contains_key(*id) && e == Error::KittyNotExist
                    && *final(self) == *old(self),
            },
    {
        let kitty = match self.kitties.get(id) {
            Some(kitty) => kitty,
            None => {
                return Err(Error::KittyNotExist);
            },
        };
        self.kitties.insert(
            *id,
            Kitty { dna: kitty.dna, price, gender: kitty.gender, owner: kitty.owner },
        );
        proof {
            assert forall|who: AccountId| #[trigger]
                self.owned_by(who).len() <= self.capacity() by {
                assert(old(self).owned_by(who).len() <= old(self).capacity());
            }
            assert(self.kitty_map().dom() =~= old(self).kitty_map().dom());
            assert forall|key: H256| #[trigger] self.kitty_map().contains_key(key) implies minted_as(
                key,
                self.kitty_map()[key].dna,
                self.kitty_map()[key].gender,
            ) by {
                assert(old(self).kitty_map().contains_key(key));
            }
            if old(self).consistent() {
                lemma_price_keeps_agreement(*old(self), *self, *id, price);
            }
        }
        Ok(())
    }

    /// Hands the kitty `id` over to `to` and returns its former owner: the
    /// record names `to` and loses its price, the identifier leaves the list
    /// of the former owner and joins that of `to`. Fails, and changes nothing,
    /// when `handover_error` names a reason.
    pub fn hand_over(&mut self, id: &H256, to: AccountId) -> (r: Result<AccountId, Error>)
        requires
            old(self).wf(),
        ensures
            final(self).wf(),
            match r {
                Ok(from) => {
                    &&& old(self).handover_error(*id, to) is None
                    &&& from == old(self).kitty_map()[*id].owner
                    &&& final(self).transferred_from(old(self), *id, to)
                    &&& old(self).consistent() ==> final(self).consistent()
                },
                Err(e) => old(self).handover_error(*id, to) == Some(e) && *final(self) == *old(
                    self,
                ),
            },
    {
        let kitty = match self.kitties.get(id) {
            Some(kitty) => kitty,
            None => {
                return Err(Error::KittyNotExist);
            },
        };
        let from = kitty.owner;
        let at = match self.owned.position(from, id) {
            Some(at) => at,
            None => {
                return Err(Error::KittyNotExist);
            },
        };
        if from != to && self.owned.is_full(to) {
            return Err(Error::ExceedMaxKittyOwned);
        }
        proof {
            self.lemma_index_bounded();
            lemma_first_index(self.owned_by(from), *id, at as int);
        }
        let removed = self.owned.swap_remove(from, at);
        let pushed = self.owned.try_push(to, *id);
        self.kitties.insert(
            *id,
            Kitty { dna: kitty.dna, price: None, gender: kitty.gender, owner: to },
        );
        proof {
            self.lemma_capacity_kept();
            assert(pushed is Ok);
            assert(self.kitty_map().dom() =~= old(self).kitty_map().dom());
            assert forall|key: H256| #[trigger] self.kitty_map().contains_key(key) implies minted_as(
                key,
                self.kitty_map()[key].dna,
                self.kitty_map()[key].gender,
            ) by {
                assert(old(self).kitty_map().contains_key(key));
            }
            if old(self).consistent() {
                lemma_transfer_keeps_agreement(*old(self), *self, *id, to);
            }
        }
        Ok(from)
    }
}

} // verus!
