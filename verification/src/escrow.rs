//! The deposits held in escrow, summed over accounts.

use vstd::prelude::*;
use crate::config::{escrowed, Config};
use crate::genesis::{seeded_count, seeded_ids, Seed};
use crate::types::{AccountId, Balance, Error, H256};

verus! {

/// The sum of what is held in escrow for the accounts listed.
pub open spec fn total_reserved<T: Config>(rt: &T, accounts: Seq<AccountId>) -> int
    decreases accounts.len(),
{
    if accounts.len() == 0 {
        0
    } else {
        total_reserved(rt, accounts.drop_last()) + rt.reserved(accounts.last())
    }
}

/// How many kitties were minted for the accounts listed, an account
/// counted as often as it is listed.
pub open spec fn total_seeded(
    seeds: Seq<Seed>,
    results: Seq<Result<H256, Error>>,
    accounts: Seq<AccountId>,
) -> int
    decreases accounts.len(),
{
    if accounts.len() == 0 {
        0
    } else {
        total_seeded(seeds, results, accounts.drop_last()) + seeded_ids(
            seeds,
            results,
            accounts.last(),
        ).len()
    }
}

/// How often `who` is listed.
pub open spec fn occurrences(accounts: Seq<AccountId>, who: AccountId) -> int
    decreases accounts.len(),
{
    if accounts.len() == 0 {
        0
    } else {
        occurrences(accounts.drop_last(), who) + if accounts.last() == who {
            1int
        } else {
            0int
        }
    }
}

/// An account in a list without repeats is listed once.
pub proof fn lemma_listed_once(accounts: Seq<AccountId>, who: AccountId)
    requires
        accounts.no_duplicates(),
    ensures
        occurrences(accounts, who) == if accounts.contains(who) {
            1int
        } else {
            0int
        },
    decreases accounts.len(),
{
    if accounts.len() > 0 {
        let rest = accounts.drop_last();
        lemma_listed_once(rest, who);
        if accounts.last() == who {
            assert(accounts[accounts.len() - 1] == who);
            if rest.contains(who) {
                let i = choose|i: int| 0 <= i < rest.len() && rest[i] == who;
                assert(accounts[i] == who);
            }
        } else if accounts.contains(who) {
            let i = choose|i: int| 0 <= i < accounts.len() && accounts[i] == who;
            assert(rest[i] == who);
        } else if rest.contains(who) {
            let i = choose|i: int| 0 <= i < rest.len() && rest[i] == who;
            assert(accounts[i] == who);
        }
    }
}

/// A successful mint adds exactly one fee to the escrow in total: over any
/// list of accounts without repeats that names the owner, the sum of the
/// reserved balances grows by the fee.
pub proof fn lemma_mint_adds_one_fee<T: Config>(
    pre: &T,
    post: &T,
    owner: AccountId,
    fee: Balance,
    accounts: Seq<AccountId>,
)
    requires
        escrowed(pre, post, owner, fee),
        accounts.no_duplicates(),
    ensures
        total_reserved(post, accounts) == total_reserved(pre, accounts) + fee * occurrences(
            accounts,
            owner,
        ),
        accounts.contains(owner) ==> total_reserved(post, accounts) == total_reserved(
            pre,
            accounts,
        ) + fee,
    decreases accounts.len(),
{
    lemma_listed_once(accounts, owner);
    if accounts.len() > 0 {
        let rest = accounts.drop_last();
        lemma_mint_adds_one_fee(pre, post, owner, fee, rest);
        let last = accounts.last();
        assert(post.reserved(last) == pre.reserved(last) + if last == owner {
            fee as int
        } else {
            0int
        });
        assert(fee * (occurrences(rest, owner) + 1) == fee * occurrences(rest, owner) + fee)
            by (nonlinear_arith);
    } else {
        assert(fee * 0 == 0);
    }
}

/// One seed more adds, to the number minted for the accounts listed, the
/// number of times its owner is listed, if it was minted.
proof fn lemma_total_seeded_step(
    seeds: Seq<Seed>,
    results: Seq<Result<H256, Error>>,
    accounts: Seq<AccountId>,
)
    requires
        results.len() > 0,
    ensures
        total_seeded(seeds, results, accounts) == total_seeded(
            seeds,
            results.drop_last(),
            accounts,
        ) + if results.last() is Ok {
            occurrences(accounts, seeds[results.len() - 1].0)
        } else {
            0int
        },
    decreases accounts.len(),
{
    if accounts.len() > 0 {
        lemma_total_seeded_step(seeds, results, accounts.drop_last());
    }
}

/// Over a list of accounts without repeats that names the owner of every
/// kitty minted, the numbers minted for each account add up to the number minted.
pub proof fn lemma_total_seeded(
    seeds: Seq<Seed>,
    results: Seq<Result<H256, Error>>,
    accounts: Seq<AccountId>,
)
    requires
        results.len() <= seeds.len(),
        accounts.no_duplicates(),
        forall|i: int|
            0 <= i < results.len() && (#[trigger] results[i]) is Ok ==> accounts.contains(
                seeds[i].0,
            ),
    ensures
        total_seeded(seeds, results, accounts) == seeded_count(results),
    decreases results.len(),
{
    if results.len() > 0 {
        let rest = results.drop_last();
        assert forall|i: int| 0 <= i < rest.len() && (#[trigger] rest[i]) is Ok implies accounts.contains(
            seeds[i].0,
        ) by {
            assert(results[i] == rest[i]);
        }
        lemma_total_seeded(seeds, rest, accounts);
        lemma_total_seeded_step(seeds, results, accounts);
        if results.last() is Ok {
            assert(results[results.len() - 1] is Ok);
            lemma_listed_once(accounts, seeds[results.len() - 1].0);
        }
    } else {
        lemma_total_seeded_empty(seeds, results, accounts);
    }
}

/// Nothing was minted for anyone while no seed was answered for.
proof fn lemma_total_seeded_empty(
    seeds: Seq<Seed>,
    results: Seq<Result<H256, Error>>,
    accounts: Seq<AccountId>,
)
    requires
        results.len() == 0,
    ensures
        total_seeded(seeds, results, accounts) == 0,
    decreases accounts.len(),
{
    if accounts.len() > 0 {
        lemma_total_seeded_empty(seeds, results, accounts.drop_last());
    }
}

/// Where each account's escrow grew by one fee for each kitty minted for it,
/// the escrow of the accounts listed grew by one fee for each kitty minted
/// for them.
proof fn lemma_total_reserved_grows<T: Config>(
    pre: &T,
    post: &T,
    fee: Balance,
    seeds: Seq<Seed>,
    results: Seq<Result<H256, Error>>,
    accounts: Seq<AccountId>,
)
    requires
        forall|who: AccountId| #[trigger]
            post.reserved(who) == pre.reserved(who) + fee * seeded_ids(seeds, results, who).len(),
    ensures
        total_reserved(post, accounts) == total_reserved(pre, accounts) + fee * total_seeded(
            seeds,
            results,
            accounts,
        ),
    decreases accounts.len(),
{
    if accounts.len() > 0 {
        let rest = accounts.drop_last();
        lemma_total_reserved_grows(pre, post, fee, seeds, results, rest);
        let last = accounts.last();
        let minted = seeded_ids(seeds, results, last).len() as int;
        let before = total_seeded(seeds, results, rest);
        assert(post.reserved(last) == pre.reserved(last) + fee * minted);
        assert(fee * (before + minted) == fee * before + fee * minted) by (nonlinear_arith);
    } else {
        assert(fee * 0 == 0);
    }
}

/// Seeding adds one fee to the escrow in total for each kitty minted: over
/// any list of accounts without repeats that names every owner minted for,
/// the sum of the reserved balances grows by the fee times the number minted.
pub proof fn lemma_seeding_adds_a_fee_each<T: Config>(
    pre: &T,
    post: &T,
    fee: Balance,
    seeds: Seq<Seed>,
    results: Seq<Result<H256, Error>>,
    accounts: Seq<AccountId>,
)
    requires
        results.len() <= seeds.len(),
        accounts.no_duplicates(),
        forall|i: int|
            0 <= i < results.len() && (#[trigger] results[i]) is Ok ==> accounts.contains(
                seeds[i].0,
            ),
        forall|who: AccountId| #[trigger]
            post.reserved(who) == pre.reserved(who) + fee * seeded_ids(seeds, results, who).len(),
    ensures
        total_reserved(post, accounts) == total_reserved(pre, accounts) + fee * seeded_count(
            results,
        ),
{
    lemma_total_reserved_grows(pre, post, fee, seeds, results, accounts);
    lemma_total_seeded(seeds, results, accounts);
}

} // verus!
