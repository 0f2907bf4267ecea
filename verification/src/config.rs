//! What the ledger asks of the runtime it is embedded in.

use vstd::prelude::*;
use crate::types::{AccountId, Balance, H256};

verus! {

/// The currency refused to move the funds.
#[derive(Clone, Copy, Debug, PartialEq, Eq, Structural)]
pub struct InsufficientFunds;

/// The runtime around the ledger: its currency, its randomness and its clock.
///
/// `free`, `reserved`, `alive`, `drawn` and `height` are the state of the
/// runtime as the contracts below speak of it. Nothing checks an
/// implementation against these contracts but its author: what the ledger
/// proves about the runtime holds for implementations that keep them.
pub trait Config: Sized {
    /// The balance that `who` can spend.
    spec fn free(&self, who: AccountId) -> Balance;

    /// The balance of `who` that is held in escrow.
    spec fn reserved(&self, who: AccountId) -> Balance;

    /// Whether the account of `who` exists.
    spec fn alive(&self, who: AccountId) -> bool;

    /// The random material that the runtime gives for `subject` as the chain stands.
    spec fn drawn(&self, subject: &[u8]) -> H256;

    /// The block height as the chain stands.
    spec fn height(&self) -> u64;

    /// Random material for `subject`, fixed by the state of the chain at the current height.
    fn random(&self, subject: &[u8]) -> (material: H256)
        ensures
            material == self.drawn(subject),
    ;

    /// The current block height.
    fn block_number(&self) -> (n: u64)
        ensures
            n == self.height(),
    ;

    /// The free balance of `who`.
    fn free_balance(&self, who: AccountId) -> (balance: Balance)
        ensures
            balance == self.free(who),
    ;

    /// Moves `value` from the free balance of `who` into escrow, or moves nothing and fails.
    fn reserve(&mut self, who: AccountId, value: Balance) -> (r: Result<(), InsufficientFunds>)
        ensures
            r is Ok ==> final(self).free(who) == old(self).free(who) - value,
            r is Ok ==> final(self).reserved(who) == old(self).reserved(who) + value,
            forall|a: AccountId|
                #![trigger final(self).free(a)]
                #![trigger final(self).reserved(a)]
                a != who || r is Err ==> final(self).free(a) == old(self).free(a)
                    && final(self).reserved(a) == old(self).reserved(a),
    ;

    /// Moves up to `value` from escrow back to the free balance of `who` and
    /// returns the part of `value` that the escrow did not hold. A free
    /// balance that cannot take all of it stops at the largest balance.
    fn unreserve(&mut self, who: AccountId, value: Balance) -> (rest: Balance)
        ensures
            old(self).reserved(who) < value ==> rest == value - old(self).reserved(who),
            old(self).reserved(who) >= value ==> rest == 0,
            final(self).reserved(who) == old(self).reserved(who) - (value - rest),
            final(self).free(who) == topped_up(old(self).free(who), (value - rest) as Balance),
            forall|a: AccountId|
                #![trigger final(self).free(a)]
                #![trigger final(self).reserved(a)]
                a != who ==> final(self).free(a) == old(self).free(a) && final(self).reserved(a)
                    == old(self).reserved(a),
            forall|a: AccountId| a != who ==> #[trigger] final(self).alive(a) == old(self).alive(a),
    ;

    /// Moves `value` of free balance from `source` to `dest`, or moves nothing and fails.
    /// With `keep_alive` a transfer that succeeds leaves the account of
    /// `source` in existence, if it existed.
    fn transfer(
        &mut self,
        source: AccountId,
        dest: AccountId,
        value: Balance,
        keep_alive: bool,
    ) -> (r: Result<(), InsufficientFunds>)
        ensures
            forall|a: AccountId| #[trigger] final(self).reserved(a) == old(self).reserved(a),
            forall|a: AccountId|
                a != source && a != dest || source == dest || r is Err
                    ==> #[trigger] final(self).free(a) == old(self).free(a),
            r is Ok && source != dest ==> final(self).free(source) == old(self).free(source)
                - value,
            r is Ok && source != dest ==> final(self).free(dest) == old(self).free(dest) + value,
            r is Ok && keep_alive && old(self).alive(source) ==> final(self).alive(source),
    ;
}

/// The material that the runtime gives for the subject made of `bytes`.
pub open spec fn material<T: Config>(rt: &T, bytes: Seq<u8>) -> H256 {
    rt.drawn(choose|subject: &[u8]| subject@ == bytes)
}

/// The material for a subject goes by the bytes of the subject alone.
pub proof fn lemma_material<T: Config>(rt: &T, subject: &[u8])
    ensures
        material(rt, subject@) == rt.drawn(subject),
{
    let chosen = choose|other: &[u8]| other@ == subject@;
    assert(chosen@ == subject@);
    assert(chosen =~= subject);
}

/// The balance `free` after `amount` came to it, as far as a balance can go.
pub open spec fn topped_up(free: Balance, amount: Balance) -> Balance {
    if free + amount > Balance::MAX {
        Balance::MAX
    } else {
        (free + amount) as Balance
    }
}

/// No balance differs between `pre` and `post`.
pub open spec fn same_balances<T: Config>(pre: &T, post: &T) -> bool {
    forall|a: AccountId|
        #![trigger post.free(a)]
        #![trigger post.reserved(a)]
        post.free(a) == pre.free(a) && post.reserved(a) == pre.reserved(a)
}

/// `post` is `pre` after `value` went from the free balance of `who` into escrow.
pub open spec fn escrowed<T: Config>(pre: &T, post: &T, who: AccountId, value: Balance) -> bool {
    &&& post.free(who) == pre.free(who) - value
    &&& post.reserved(who) == pre.reserved(who) + value
    &&& forall|a: AccountId|
        #![trigger post.free(a)]
        #![trigger post.reserved(a)]
        a != who ==> post.free(a) == pre.free(a) && post.reserved(a) == pre.reserved(a)
}

/// How much of `value` the escrow of `who` can give back.
pub open spec fn released_amount<T: Config>(pre: &T, who: AccountId, value: Balance) -> Balance {
    if pre.reserved(who) < value {
        pre.reserved(who)
    } else {
        value
    }
}

/// `post` is `pre` after as much of `value` as the escrow of `who` held went back
/// to the free balance of `who`: no other account is touched.
pub open spec fn released<T: Config>(pre: &T, post: &T, who: AccountId, value: Balance) -> bool {
    &&& post.free(who) == topped_up(pre.free(who), released_amount(pre, who, value))
    &&& post.reserved(who) == pre.reserved(who) - released_amount(pre, who, value)
    &&& forall|a: AccountId|
        #![trigger post.free(a)]
        #![trigger post.reserved(a)]
        a != who ==> post.free(a) == pre.free(a) && post.reserved(a) == pre.reserved(a)
    &&& forall|a: AccountId| a != who ==> #[trigger] post.alive(a) == pre.alive(a)
}

/// `post` is `pre` after `buyer` paid `price` to `seller` without giving up
/// its account, and the escrow of `seller` gave back as much of `fee` as it held.
pub open spec fn settled<T: Config>(
    pre: &T,
    post: &T,
    buyer: AccountId,
    seller: AccountId,
    price: Balance,
    fee: Balance,
) -> bool {
    let back = released_amount(pre, seller, fee);
    &&& post.free(buyer) == pre.free(buyer) - price
    &&& post.reserved(buyer) == pre.reserved(buyer)
    &&& pre.free(seller) + price <= Balance::MAX
    &&& post.free(seller) == topped_up((pre.free(seller) + price) as Balance, back)
    &&& post.reserved(seller) == pre.reserved(seller) - back
    &&& pre.alive(buyer) ==> post.alive(buyer)
    &&& forall|a: AccountId|
        #![trigger post.free(a)]
        #![trigger post.reserved(a)]
        a != buyer && a != seller ==> post.free(a) == pre.free(a) && post.reserved(a)
            == pre.reserved(a)
}

} // verus!
