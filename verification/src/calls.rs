//! The operations that accounts call, and the steps they are made of. Each
//! one either takes effect as a whole or changes nothing.

use vstd::prelude::*;
use crate::codec::kitty_digest;
use crate::config::{escrowed, lemma_material, released, same_balances, settled, Config};
use crate::genetics::{
    dna_from_seed, dna_subject, drawn_dna, drawn_gender, gender_from_seed, gender_subject,
    mix_dna, mixed,
};
use crate::pallet::Pallet;
use crate::types::{AccountId, Balance, Error, Event, Gender, H256};

verus! {

/// The view of a genetic code that may be given.
pub open spec fn code_of(dna: Option<[u8; 16]>) -> Option<Seq<u8>> {
    match dna {
        Some(code) => Some(code@),
        None => None,
    }
}

/// What a mint for `owner` that answered `r` has done, where `dna` and
/// `gender` were given or left to the runtime. On success there is one kitty
/// more: its record holds the code and the gender given, or else those that
/// the runtime yielded before the call; it stands under the hash of that
/// record; and the fee is in escrow. On failure nothing has changed, and the
/// error names a reason that holds. An owner whose free balance is below the
/// fee gets `NotEnoughBalance`.
pub open spec fn mint_outcome<T: Config>(
    pre: &Pallet,
    post: &Pallet,
    pre_rt: &T,
    post_rt: &T,
    owner: AccountId,
    dna: Option<Seq<u8>>,
    gender: Option<Gender>,
    r: Result<H256, Error>,
) -> bool {
    &&& pre_rt.free(owner) < pre.fee() ==> r == Err::<H256, Error>(Error::NotEnoughBalance)
    &&& match r {
        Ok(id) => {
            let kitty = post.kitty_map()[id];
            &&& pre.count() < u64::MAX
            &&& pre.owned_by(owner).len() < pre.capacity()
            &&& kitty.owner == owner
            &&& kitty.price is None
            &&& kitty.dna@ == (match dna {
                Some(code) => code,
                None => drawn_dna(pre_rt),
            })
            &&& kitty.gender == (match gender {
                Some(given) => given,
                None => drawn_gender(pre_rt),
            })
            &&& id.0@ == kitty_digest(kitty)
            &&& post.minted_from(pre, id, kitty)
            &&& pre.consistent() && !pre.kitty_map().contains_key(id) ==> post.consistent()
            &&& escrowed(pre_rt, post_rt, owner, pre.fee())
        },
        Err(e) => {
            &&& *post == *pre
            &&& same_balances(pre_rt, post_rt)
            &&& e == Error::NotEnoughBalance || (e == Error::KittyCntOverflow && pre.count()
                == u64::MAX) || (e == Error::ExceedMaxKittyOwned && pre.count() < u64::MAX
                && pre.owned_by(owner).len() >= pre.capacity())
        },
    }
}

impl Pallet {
    /// Why `from` cannot transfer the kitty `id` to `to`, if it cannot.
    pub open spec fn transfer_error(&self, from: AccountId, to: AccountId, id: H256) -> Option<
        Error,
    > {
        if !self.kitty_map().contains_key(id) {
            Some(Error::KittyNotExist)
        } else if self.kitty_map()[id].owner != from {
            Some(Error::NotKittyOwner)
        } else if from == to {
            Some(Error::TransferToSelf)
        } else if self.owned_by(to).len() >= self.capacity() {
            Some(Error::ExceedMaxKittyOwned)
        } else if !self.owned_by(from).contains(id) {
            Some(Error::KittyNotExist)
        } else {
            None
        }
    }

    /// Why `buyer`, with `free` to spend, cannot buy the kitty `id` for `bid`,
    /// if that can be said before the payment is tried.
    pub open spec fn buy_error(
        &self,
        buyer: AccountId,
        id: H256,
        bid: Balance,
        free: Balance,
    ) -> Option<Error> {
        if !self.kitty_map().contains_key(id) {
            Some(Error::KittyNotExist)
        } else {
            let kitty = self.kitty_map()[id];
            if kitty.owner == buyer {
                Some(Error::BuyerIsKittyOwner)
            } else if kitty.price is None {
                Some(Error::KittyNotForSale)
            } else if kitty.price->Some_0 > bid {
                Some(Error::KittyBidPriceTooLow)
            } else if free < bid {
                Some(Error::NotEnoughBalance)
            } else if self.owned_by(buyer).len() >= self.capacity() {
                Some(Error::KittyCntOverflow)
            } else if !self.owned_by(kitty.owner).contains(id) {
                Some(Error::KittyNotExist)
            } else {
                None
            }
        }
    }

    /// Why `sender` cannot breed the kitties `parent1` and `parent2`, if
    /// that can be said before the mint is tried.
    pub open spec fn breed_error(&self, sender: AccountId, parent1: H256, parent2: H256) -> Option<
        Error,
    > {
        if !self.kitty_map().contains_key(parent1) {
            Some(Error::KittyNotExist)
        } else if self.kitty_map()[parent1].owner != sender {
            Some(Error::NotKittyOwner)
        } else if !self.kitty_map().contains_key(parent2) {
            Some(Error::KittyNotExist)
        } else if self.kitty_map()[parent2].owner != sender {
            Some(Error::NotKittyOwner)
        } else {
            None
        }
    }

    /// The genetic code bred from the kitties `parent1` and `parent2` in the
    /// runtime `rt`: each bit is that of the first parent where the code that
    /// the runtime yields has a one, and that of the second where it has a zero.
    pub open spec fn bred_code<T: Config>(&self, rt: &T, parent1: H256, parent2: H256) -> Seq<u8> {
        mixed(drawn_dna(rt), self.kitty_map()[parent1].dna@, self.kitty_map()[parent2].dna@)
    }

    /// The gender that the runtime yields: male when the first byte of its
    /// random material for the subject `gender` is even, female when it is odd.
    pub fn gen_gender<T: Config>(rt: &T) -> (gender: Gender)
        ensures
            gender == drawn_gender(rt),
    {
        let subject = gender_subject();
        let asked = subject.as_slice();
        let random = rt.random(asked);
        proof {
            lemma_material(rt, asked);
        }
        gender_from_seed(&random)
    }

    /// The genetic code that the runtime yields: the digest of its random
    /// material for the subject `dna` and of its block height.
    pub fn gen_dna<T: Config>(rt: &T) -> (dna: [u8; 16])
        ensures
            dna@ == drawn_dna(rt),
    {
        let subject = dna_subject();
        let asked = subject.as_slice();
        let random = rt.random(asked);
        let height = rt.block_number();
        proof {
            lemma_material(rt, asked);
        }
        dna_from_seed(&random, height)
    }

    /// Mints a kitty for `owner` and returns its identifier. A genetic code
    /// or a gender that is not given is the one that the runtime yields. The
    /// fee goes from the free balance of `owner` into escrow. When the runtime
    /// refuses the fee the answer is `NotEnoughBalance`; when the ledger has
    /// no room the fee is released again before the error is returned.
    pub fn mint<T: Config>(
        &mut self,
        rt: &mut T,
        owner: AccountId,
        dna: Option<[u8; 16]>,
        gender: Option<Gender>,
    ) -> (r: Result<H256, Error>)
        requires
            old(self).wf(),
        ensures
            final(self).wf(),
            mint_outcome(old(self), final(self), old(rt), final(rt), owner, code_of(dna), gender, r),
    {
        let fee = self.reservation_fee();
        let dna = match dna {
            Some(dna) => dna,
            None => Self::gen_dna(rt),
        };
        let gender = match gender {
            Some(gender) => gender,
            None => Self::gen_gender(rt),
        };
        match rt.reserve(owner, fee) {
            Ok(()) => {},
            Err(_) => {
                return Err(Error::NotEnoughBalance);
            },
        }
        match self.enroll(owner, dna, gender) {
            Ok(id) => Ok(id),
            Err(e) => {
                rt.unreserve(owner, fee);
                Err(e)
            },
        }
    }

    /// Moves the kitty `kitty_id` from its owner to `to` and releases the
    /// fee held in escrow for `from`. Fails, and changes nothing, when
    /// `handover_error` names a reason.
    pub fn transfer_kitty_to<T: Config>(
        &mut self,
        rt: &mut T,
        from: AccountId,
        to: AccountId,
        kitty_id: &H256,
    ) -> (r: Result<(), Error>)
        requires
            old(self).wf(),
        ensures
            final(self).wf(),
            match r {
                Ok(()) => {
                    &&& old(self).handover_error(*kitty_id, to) is None
                    &&& final(self).transferred_from(old(self), *kitty_id, to)
                    &&& old(self).consistent() ==> final(self).consistent()
                    &&& released(old(rt), final(rt), from, old(self).fee())
                },
                Err(e) => {
                    &&& old(self).handover_error(*kitty_id, to) == Some(e)
                    &&& *final(self) == *old(self)
                    &&& *final(rt) == *old(rt)
                },
            },
    {
        match self.hand_over(kitty_id, to) {
            Ok(_) => {},
            Err(e) => {
                return Err(e);
            },
        }
        rt.unreserve(from, self.reservation_fee());
        Ok(())
    }

    /// Mints a kitty of random genetic code and gender for `sender`.
    pub fn create_kitty<T: Config>(&mut self, rt: &mut T, sender: AccountId) -> (r: Result<
        Event,
        Error,
    >)
        requires
            old(self).wf(),
        ensures
            final(self).wf(),
            match r {
                Ok(event) => match event {
                    Event::Created(who, id, deposit) => {
                        &&& who == sender
                        &&& deposit == old(self).fee()
                        &&& mint_outcome(
                            old(self),
                            final(self),
                            old(rt),
                            final(rt),
                            sender,
                            None,
                            None,
                            Ok::<H256, Error>(id),
                        )
                    },
                    _ => false,
                },
                Err(e) => mint_outcome(
                    old(self),
                    final(self),
                    old(rt),
                    final(rt),
                    sender,
                    None,
                    None,
                    Err::<H256, Error>(e),
                ),
            },
    {
        match self.mint(rt, sender, None, None) {
            Ok(id) => Ok(Event::Created(sender, id, self.reservation_fee())),
            Err(e) => Err(e),
        }
    }

    /// Sets or clears the asking price of the kitty `kitty_id` on behalf of
    /// `sender`. Any account may do so: the owner is not asked for. Fails,
    /// and changes nothing, when there is no such kitty.
    pub fn set_price(&mut self, sender: AccountId, kitty_id: H256, new_price: Option<Balance>) -> (r:
        Result<Event, Error>)
        requires
            old(self).wf(),
        ensures
            final(self).wf(),
            match r {
                Ok(event) => {
                    &&& old(self).kitty_map().contains_key(kitty_id)
                    &&& event == Event::PriceSet(sender, kitty_id, new_price)
                    &&& final(self).repriced_from(old(self), kitty_id, new_price)
                    &&& old(self).consistent() ==> final(self).consistent()
                },
                Err(e) => {
                    &&& !old(self).kitty_map().contains_key(kitty_id)
                    &&& e == Error::KittyNotExist
                    &&& *final(self) == *old(self)
                },
            },
    {
        match self.reprice(&kitty_id, new_price) {
            Ok(()) => Ok(Event::PriceSet(sender, kitty_id, new_price)),
            Err(e) => Err(e),
        }
    }

    /// Transfers the kitty `kitty_id` from `from`, who must own it, to
    /// another account `to` with room for it, clears its price and releases
    /// the fee held in escrow for `from`. Fails, and changes nothing, when
    /// `transfer_error` names a reason.
    pub fn transfer<T: Config>(
        &mut self,
        rt: &mut T,
        from: AccountId,
        to: AccountId,
        kitty_id: H256,
    ) -> (r: Result<Event, Error>)
        requires
            old(self).wf(),
        ensures
            final(self).wf(),
            match r {
                Ok(event) => {
                    &&& old(self).transfer_error(from, to, kitty_id) is None
                    &&& event == Event::Transferred(from, to, kitty_id)
                    &&& final(self).transferred_from(old(self), kitty_id, to)
                    &&& old(self).consistent() ==> final(self).consistent()
                    &&& released(old(rt), final(rt), from, old(self).fee())
                },
                Err(e) => {
                    &&& old(self).transfer_error(from, to, kitty_id) == Some(e)
                    &&& *final(self) == *old(self)
                    &&& *final(rt) == *old(rt)
                },
            },
    {
        match self.is_kitty_owner(&kitty_id, from) {
            Ok(true) => {},
            Ok(false) => {
                return Err(Error::NotKittyOwner);
            },
            Err(e) => {
                return Err(e);
            },
        }
        if from == to {
            return Err(Error::TransferToSelf);
        }
        if !self.has_room(to) {
            return Err(Error::ExceedMaxKittyOwned);
        }
        match self.transfer_kitty_to(rt, from, to, &kitty_id) {
            Ok(()) => Ok(Event::Transferred(from, to, kitty_id)),
            Err(e) => Err(e),
        }
    }

    /// Decides whether `buyer`, with `free` to spend, may buy the kitty
    /// `kitty_id` for `bid_price`, and from whom: the checks of a purchase, in
    /// their order, up to the payment.
    pub fn check_buy(&self, buyer: AccountId, kitty_id: &H256, bid_price: Balance, free: Balance) -> (r:
        Result<AccountId, Error>)
        requires
            self.wf(),
        ensures
            r == (match self.buy_error(buyer, *kitty_id, bid_price, free) {
                Some(e) => Err::<AccountId, Error>(e),
                None => Ok::<AccountId, Error>(self.kitty_map()[*kitty_id].owner),
            }),
    {
        let kitty = match self.kitties(kitty_id) {
            Some(kitty) => kitty,
            None => {
                return Err(Error::KittyNotExist);
            },
        };
        if kitty.owner == buyer {
            return Err(Error::BuyerIsKittyOwner);
        }
        match kitty.price {
            Some(ask_price) => {
                if ask_price > bid_price {
                    return Err(Error::KittyBidPriceTooLow);
                }
            },
            None => {
                return Err(Error::KittyNotForSale);
            },
        }
        if free < bid_price {
            return Err(Error::NotEnoughBalance);
        }
        if !self.has_room(buyer) {
            return Err(Error::KittyCntOverflow);
        }
        if !self.holds(kitty.owner, kitty_id) {
            return Err(Error::KittyNotExist);
        }
        Ok(kitty.owner)
    }

    /// Buys the kitty `kitty_id` for `buyer` at `bid_price`: the price goes
    /// from the buyer to the seller, the kitty from the seller to the buyer,
    /// and the fee held in escrow for the seller is released. Fails, and
    /// changes nothing, when `buy_error` names a reason, and with
    /// `NotEnoughBalance` when the runtime refuses the payment.
    pub fn buy_kitty<T: Config>(
        &mut self,
        rt: &mut T,
        buyer: AccountId,
        kitty_id: H256,
        bid_price: Balance,
    ) -> (r: Result<Event, Error>)
        requires
            old(self).wf(),
        ensures
            final(self).wf(),
            match r {
                Ok(event) => {
                    let seller = old(self).kitty_map()[kitty_id].owner;
                    &&& old(self).buy_error(buyer, kitty_id, bid_price, old(rt).free(buyer))
                        is None
                    &&& event == Event::Bought(buyer, seller, kitty_id, bid_price)
                    &&& final(self).transferred_from(old(self), kitty_id, buyer)
                    &&& old(self).consistent() ==> final(self).consistent()
                    &&& settled(old(rt), final(rt), buyer, seller, bid_price, old(self).fee())
                },
                Err(e) => {
                    &&& *final(self) == *old(self)
                    &&& same_balances(old(rt), final(rt))
                    &&& match old(self).buy_error(buyer, kitty_id, bid_price, old(rt).free(buyer)) {
                        Some(reason) => e == reason,
                        None => e == Error::NotEnoughBalance,
                    }
                },
            },
    {
        let free = rt.free_balance(buyer);
        let seller = match self.check_buy(buyer, &kitty_id, bid_price, free) {
            Ok(seller) => seller,
            Err(e) => {
                return Err(e);
            },
        };
        match rt.transfer(buyer, seller, bid_price, true) {
            Ok(()) => {},
            Err(_) => {
                return Err(Error::NotEnoughBalance);
            },
        }
        let moved = self.transfer_kitty_to(rt, seller, buyer, &kitty_id);
        assert(moved is Ok);
        Ok(Event::Bought(buyer, seller, kitty_id, bid_price))
    }

    /// Breeds a genetic code from those of the kitties `parent1` and
    /// `parent2`, under the genetic code that the runtime yields as seed.
    /// Fails when either kitty does not exist.
    pub fn breed_dna<T: Config>(&self, rt: &T, parent1: &H256, parent2: &H256) -> (r: Result<
        [u8; 16],
        Error,
    >)
        requires
            self.wf(),
        ensures
            match r {
                Ok(child) => {
                    &&& self.kitty_map().contains_key(*parent1)
                    &&& self.kitty_map().contains_key(*parent2)
                    &&& child@ == self.bred_code(rt, *parent1, *parent2)
                },
                Err(e) => {
                    &&& e == Error::KittyNotExist
                    &&& !self.kitty_map().contains_key(*parent1) || !self.kitty_map().contains_key(
                        *parent2,
                    )
                },
            },
    {
        let dna1 = match self.kitties(parent1) {
            Some(kitty) => kitty.dna,
            None => {
                return Err(Error::KittyNotExist);
            },
        };
        let dna2 = match self.kitties(parent2) {
            Some(kitty) => kitty.dna,
            None => {
                return Err(Error::KittyNotExist);
            },
        };
        let seed = Self::gen_dna(rt);
        Ok(mix_dna(&seed, &dna1, &dna2))
    }

    /// Breeds the kitties `parent1` and `parent2`, which `sender` must own,
    /// and mints the child for `sender`: its genetic code is mixed from
    /// those of the parents under the code that the runtime yields, its
    /// gender is the one that the runtime yields.
    /// Fails, and changes nothing, when `breed_error` names a reason or the
    /// mint fails.
    pub fn breed_kitty<T: Config>(
        &mut self,
        rt: &mut T,
        sender: AccountId,
        parent1: H256,
        parent2: H256,
    ) -> (r: Result<Event, Error>)
        requires
            old(self).wf(),
        ensures
            final(self).wf(),
            match old(self).breed_error(sender, parent1, parent2) {
                Some(reason) => {
                    &&& r == Err::<Event, Error>(reason)
                    &&& *final(self) == *old(self)
                    &&& *final(rt) == *old(rt)
                },
                None => match r {
                    Ok(event) => match event {
                        Event::Created(who, id, deposit) => {
                            &&& who == sender
                            &&& deposit == old(self).fee()
                            &&& mint_outcome(
                                old(self),
                                final(self),
                                old(rt),
                                final(rt),
                                sender,
                                Some(old(self).bred_code(old(rt), parent1, parent2)),
                                None,
                                Ok::<H256, Error>(id),
                            )
                        },
                        _ => false,
                    },
                    Err(e) => mint_outcome(
                        old(self),
                        final(self),
                        old(rt),
                        final(rt),
                        sender,
                        Some(old(self).bred_code(old(rt), parent1, parent2)),
                        None,
                        Err::<H256, Error>(e),
                    ),
                },
            },
    {
        match self.is_kitty_owner(&parent1, sender) {
            Ok(true) => {},
            Ok(false) => {
                return Err(Error::NotKittyOwner);
            },
            Err(e) => {
                return Err(e);
            },
        }
        match self.is_kitty_owner(&parent2, sender) {
            Ok(true) => {},
            Ok(false) => {
                return Err(Error::NotKittyOwner);
            },
            Err(e) => {
                return Err(e);
            },
        }
        let new_dna = match self.breed_dna(rt, &parent1, &parent2) {
            Ok(dna) => dna,
            Err(e) => {
                return Err(e);
            },
        };
        match self.mint(rt, sender, Some(new_dna), None) {
            Ok(id) => Ok(Event::Created(sender, id, self.reservation_fee())),
            Err(e) => Err(e),
        }
    }
}

} // verus!
