//! Seeding the ledger with the kitties that exist from the start.

use vstd::prelude::*;
use crate::calls::mint_outcome;
use crate::codec::kitty_digest;
use crate::config::Config;
use crate::pallet::{newborn, Pallet};
use crate::types::{AccountId, Error, Gender, Kitty, H256};

verus! {

/// One kitty to seed: its owner, its genetic code and its gender.
pub type Seed = (AccountId, [u8; 16], Gender);

/// The record that a seed is minted as.
pub open spec fn seed_record(seed: Seed) -> Kitty {
    newborn(seed.0, seed.1, seed.2)
}

/// How many of the seeds that `results` answer for were minted.
pub open spec fn seeded_count(results: Seq<Result<H256, Error>>) -> nat
    decreases results.len(),
{
    if results.len() == 0 {
        0
    } else {
        seeded_count(results.drop_last()) + if results.last() is Ok {
            1nat
        } else {
            0nat
        }
    }
}

/// The identifiers minted for `who`, in the order of their seeds.
pub open spec fn seeded_ids(
    seeds: Seq<Seed>,
    results: Seq<Result<H256, Error>>,
    who: AccountId,
) -> Seq<H256>
    decreases results.len(),
{
    if results.len() == 0 {
        Seq::empty()
    } else {
        let before = seeded_ids(seeds, results.drop_last(), who);
        match results.last() {
            Ok(id) => if seeds[results.len() - 1].0 == who {
                before.push(id)
            } else {
                before
            },
            Err(_) => before,
        }
    }
}

/// The records after the seeds that `results` answer for: each one minted
/// stands under its identifier, in place of what stood there before.
pub open spec fn seeded_records(
    base: Map<H256, Kitty>,
    seeds: Seq<Seed>,
    results: Seq<Result<H256, Error>>,
) -> Map<H256, Kitty>
    decreases results.len(),
{
    if results.len() == 0 {
        base
    } else {
        let before = seeded_records(base, seeds, results.drop_last());
        match results.last() {
            Ok(id) => before.insert(id, seed_record(seeds[results.len() - 1])),
            Err(_) => before,
        }
    }
}

/// What the mint of seed `at` answered, and why: the ledger and the
/// balances it met are those from before the seeding with the earlier seeds
/// minted. An owner whose free balance was below the fee got
/// `NotEnoughBalance`; a seed was minted only with the counter below its
/// limit and room in its owner's list; any other error names what was wanting.
pub open spec fn seed_outcome<T: Config>(
    pre: &Pallet,
    pre_rt: &T,
    seeds: Seq<Seed>,
    results: Seq<Result<H256, Error>>,
    at: int,
) -> bool {
    let owner = seeds[at].0;
    let earlier = results.take(at);
    let gained = seeded_ids(seeds, earlier, owner).len();
    let held = pre.owned_by(owner).len() + gained;
    let minted = pre.count() + seeded_count(earlier);
    let free = pre_rt.free(owner) - pre.fee() * gained;
    &&& free < pre.fee() ==> results[at] == Err::<H256, Error>(Error::NotEnoughBalance)
    &&& match results[at] {
        Ok(id) => {
            &&& id.0@ == kitty_digest(seed_record(seeds[at]))
            &&& minted < u64::MAX
            &&& held < pre.capacity()
        },
        Err(e) => e == Error::NotEnoughBalance || (e == Error::KittyCntOverflow && minted
            == u64::MAX) || (e == Error::ExceedMaxKittyOwned && minted < u64::MAX && held
            >= pre.capacity()),
    }
}

/// What a seed was answered does not depend on the answers after it.
proof fn lemma_seed_outcome_kept<T: Config>(
    pre: &Pallet,
    pre_rt: &T,
    seeds: Seq<Seed>,
    results: Seq<Result<H256, Error>>,
    next: Result<H256, Error>,
    at: int,
)
    requires
        0 <= at < results.len(),
        seed_outcome(pre, pre_rt, seeds, results, at),
    ensures
        seed_outcome(pre, pre_rt, seeds, results.push(next), at),
{
    assert(results.push(next).take(at) =~= results.take(at));
    assert(results.push(next)[at] == results[at]);
}

/// The kitties that exist from the start.
pub struct GenesisConfig {
    /// The seeds, in the order in which they are minted.
    pub kitties: Vec<Seed>,
}

impl Default for GenesisConfig {
    fn default() -> (config: GenesisConfig)
        ensures
            config.kitties@.len() == 0,
    {
        GenesisConfig { kitties: Vec::new() }
    }
}

impl GenesisConfig {
    /// Mints each seed in turn and returns what each mint answered. A seed
    /// whose mint fails is passed over: the ledger then holds the others.
    /// For every account the escrow grows, and the free balance shrinks, by
    /// one fee for each kitty minted for it, which is one fee for each
    /// identifier that its list gained.
    pub fn build<T: Config>(&self, pallet: &mut Pallet, rt: &mut T) -> (results: Vec<
        Result<H256, Error>,
    >)
        requires
            old(pallet).wf(),
        ensures
            final(pallet).wf(),
            final(pallet).same_setup(old(pallet)),
            results@.len() == self.kitties@.len(),
            forall|i: int|
                0 <= i < results@.len() ==> #[trigger] seed_outcome(
                    old(pallet),
                    old(rt),
                    self.kitties@,
                    results@,
                    i,
                ),
            final(pallet).count() == old(pallet).count() + seeded_count(results@),
            final(pallet).kitty_map() == seeded_records(
                old(pallet).kitty_map(),
                self.kitties@,
                results@,
            ),
            forall|who: AccountId| #[trigger]
                final(pallet).owned_by(who) == old(pallet).owned_by(who) + seeded_ids(
                    self.kitties@,
                    results@,
                    who,
                ),
            forall|who: AccountId|
                #![trigger final(rt).reserved(who)]
                #![trigger final(rt).free(who)]
                {
                    let minted = seeded_ids(self.kitties@, results@, who).len();
                    &&& final(rt).reserved(who) == old(rt).reserved(who) + old(pallet).fee()
                        * minted
                    &&& final(rt).free(who) == old(rt).free(who) - old(pallet).fee() * minted
                    &&& minted == final(pallet).owned_by(who).len() - old(pallet).owned_by(
                        who,
                    ).len()
                },
    {
        let ghost seeds = self.kitties@;
        let ghost fee = pallet.fee() as int;
        let mut results: Vec<Result<H256, Error>> = Vec::new();
        let mut i: usize = 0;
        proof {
            assert forall|who: AccountId| #[trigger]
                pallet.owned_by(who) == old(pallet).owned_by(who) + seeded_ids(
                    seeds,
                    results@,
                    who,
                ) by {
                assert(old(pallet).owned_by(who) + Seq::<H256>::empty() =~= old(pallet).owned_by(
                    who,
                ));
            }
            assert forall|who: AccountId|
                #![trigger rt.reserved(who)]
                #![trigger rt.free(who)]
                {
                    let minted = seeded_ids(seeds, results@, who).len();
                    &&& rt.reserved(who) == old(rt).reserved(who) + fee * minted
                    &&& rt.free(who) == old(rt).free(who) - fee * minted
                } by {
                assert(seeded_ids(seeds, results@, who).len() == 0);
                assert(fee * 0 == 0);
            }
        }
        while i < self.kitties.len()
            invariant
                i <= self.kitties.len(),
                seeds == self.kitties@,
                fee == old(pallet).fee(),
                results@.len() == i,
                pallet.wf(),
                pallet.same_setup(old(pallet)),
                forall|j: int|
                    0 <= j < results@.len() ==> #[trigger] seed_outcome(
                        old(pallet),
                        old(rt),
                        seeds,
                        results@,
                        j,
                    ),
                pallet.count() == old(pallet).count() + seeded_count(results@),
                pallet.kitty_map() == seeded_records(old(pallet).kitty_map(), seeds, results@),
                forall|who: AccountId| #[trigger]
                    pallet.owned_by(who) == old(pallet).owned_by(who) + seeded_ids(
                        seeds,
                        results@,
                        who,
                    ),
                forall|who: AccountId|
                    #![trigger rt.reserved(who)]
                    #![trigger rt.free(who)]
                    {
                        let minted = seeded_ids(seeds, results@, who).len();
                        &&& rt.reserved(who) == old(rt).reserved(who) + fee * minted
                        &&& rt.free(who) == old(rt).free(who) - fee * minted
                    },
            decreases self.kitties.len() - i,
        {
            let (owner, dna, gender) = self.kitties[i];
            let ghost pallet_before = *pallet;
            let ghost rt_before = *rt;
            let ghost results_before = results@;
            let r = pallet.mint(rt, owner, Some(dna), Some(gender));
            results.push(r);
            proof {
                assert(results@ == results_before.push(r));
                assert(results@.drop_last() =~= results_before);
                assert(results@.last() == r);
                assert(results@.take(i as int) =~= results_before);
                assert(pallet_before.owned_by(owner) == old(pallet).owned_by(owner) + seeded_ids(
                    seeds,
                    results_before,
                    owner,
                ));
                assert(rt_before.free(owner) == old(rt).free(owner) - fee * seeded_ids(
                    seeds,
                    results_before,
                    owner,
                ).len());
                assert(mint_outcome(
                    &pallet_before,
                    pallet,
                    &rt_before,
                    rt,
                    owner,
                    Some(dna@),
                    Some(gender),
                    r,
                ));
                match r {
                    Ok(id) => {
                        let kitty = pallet.kitty_map()[id];
                        assert(kitty.dna =~= dna);
                        assert(kitty == seed_record(seeds[i as int]));
                        assert forall|who: AccountId| #[trigger]
                            pallet.owned_by(who) == old(pallet).owned_by(who) + seeded_ids(
                                seeds,
                                results@,
                                who,
                            ) by {
                            let before = seeded_ids(seeds, results_before, who);
                            assert(pallet_before.owned_by(who) == old(pallet).owned_by(who)
                                + before);
                            if who == owner {
                                assert((old(pallet).owned_by(who) + before).push(id) =~= old(
                                    pallet,
                                ).owned_by(who) + before.push(id));
                            }
                        }
                        assert forall|who: AccountId|
                            #![trigger rt.reserved(who)]
                            #![trigger rt.free(who)]
                            {
                                let minted = seeded_ids(seeds, results@, who).len();
                                &&& rt.reserved(who) == old(rt).reserved(who) + fee * minted
                                &&& rt.free(who) == old(rt).free(who) - fee * minted
                            } by {
                            let before = seeded_ids(seeds, results_before, who).len();
                            assert(rt_before.reserved(who) == old(rt).reserved(who) + fee
                                * before);
                            assert(rt_before.free(who) == old(rt).free(who) - fee * before);
                            assert(fee * (before + 1) == fee * before + fee)
                                by (nonlinear_arith);
                        }
                    },
                    Err(e) => {
                        assert forall|who: AccountId| #[trigger]
                            pallet.owned_by(who) == old(pallet).owned_by(who) + seeded_ids(
                                seeds,
                                results@,
                                who,
                            ) by {
                            assert(pallet_before.owned_by(who) == old(pallet).owned_by(who)
                                + seeded_ids(seeds, results_before, who));
                        }
                        assert forall|who: AccountId|
                            #![trigger rt.reserved(who)]
                            #![trigger rt.free(who)]
                            {
                                let minted = seeded_ids(seeds, results@, who).len();
                                &&& rt.reserved(who) == old(rt).reserved(who) + fee * minted
                                &&& rt.free(who) == old(rt).free(who) - fee * minted
                            } by {
                            let before = seeded_ids(seeds, results_before, who).len();
                            assert(rt_before.reserved(who) == old(rt).reserved(who) + fee
                                * before);
                            assert(rt_before.free(who) == old(rt).free(who) - fee * before);
                        }
                    },
                }
                match r {
                    Ok(id) => {
                        assert(pallet.kitty_map()[id].dna =~= dna);
                        assert(pallet.kitty_map()[id] == seed_record(seeds[i as int]));
                    },
                    Err(_) => {},
                }
                assert(seed_outcome(old(pallet), old(rt), seeds, results@, i as int));
                assert forall|j: int| 0 <= j < results@.len() implies #[trigger] seed_outcome(
                    old(pallet),
                    old(rt),
                    seeds,
                    results@,
                    j,
                ) by {
                    if j < i {
                        lemma_seed_outcome_kept(old(pallet), old(rt), seeds, results_before, r, j);
                    }
                }
            }
            i += 1;
        }
        proof {
            assert forall|who: AccountId|
                #![trigger rt.reserved(who)]
                #![trigger rt.free(who)]
                seeded_ids(seeds, results@, who).len() == pallet.owned_by(who).len() - old(
                    pallet,
                ).owned_by(who).len() by {
                assert(pallet.owned_by(who) == old(pallet).owned_by(who) + seeded_ids(
                    seeds,
                    results@,
                    who,
                ));
            }
        }
        results
    }
}

} // verus!
