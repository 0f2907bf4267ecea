//! What holds of the ledger across its operations.

use vstd::prelude::*;
use crate::owned::{lemma_first_of_unique, lemma_push_fresh, without_first};
use crate::pallet::Pallet;
use crate::types::{AccountId, Balance, Kitty, H256};

verus! {

/// Minting under an identifier that no record has yet keeps the records and
/// the lists in agreement.
pub proof fn lemma_mint_keeps_agreement(pre: Pallet, post: Pallet, id: H256, kitty: Kitty)
    requires
        pre.consistent(),
        !pre.kitty_map().contains_key(id),
        post.minted_from(&pre, id, kitty),
    ensures
        post.consistent(),
{
    let owner = kitty.owner;
    assert(!pre.owned_by(owner).contains(id));
    assert(pre.owned_by(owner).no_duplicates());
    lemma_push_fresh(pre.owned_by(owner), id);
    assert forall|who: AccountId, key: H256| #[trigger]
        post.owned_by(who).contains(key) implies post.kitty_map().contains_key(key)
        && post.kitty_map()[key].owner == who by {
        if who == owner {
            if key != id {
                assert(pre.owned_by(owner).contains(key));
            }
        } else {
            assert(post.owned_by(who) == pre.owned_by(who));
            assert(pre.owned_by(who).contains(key));
        }
    }
    assert forall|key: H256| #[trigger] post.kitty_map().contains_key(key) implies post.owned_by(
        post.kitty_map()[key].owner,
    ).contains(key) by {
        if key != id {
            assert(pre.kitty_map().contains_key(key));
            let holder = pre.kitty_map()[key].owner;
            assert(pre.owned_by(holder).contains(key));
            if holder != owner {
                assert(post.owned_by(holder) == pre.owned_by(holder));
            }
        }
    }
    assert forall|who: AccountId| #[trigger] post.owned_by(who).no_duplicates() by {
        if who != owner {
            assert(post.owned_by(who) == pre.owned_by(who));
            assert(pre.owned_by(who).no_duplicates());
        }
    }
}

/// Setting a price keeps the records and the lists in agreement.
pub proof fn lemma_price_keeps_agreement(
    pre: Pallet,
    post: Pallet,
    id: H256,
    price: Option<Balance>,
)
    requires
        pre.consistent(),
        pre.kitty_map().contains_key(id),
        post.repriced_from(&pre, id, price),
    ensures
        post.consistent(),
{
    assert forall|who: AccountId, key: H256| #[trigger]
        post.owned_by(who).contains(key) implies post.kitty_map().contains_key(key)
        && post.kitty_map()[key].owner == who by {
        assert(post.owned_by(who) == pre.owned_by(who));
        assert(pre.owned_by(who).contains(key));
    }
    assert forall|key: H256| #[trigger] post.kitty_map().contains_key(key) implies post.owned_by(
        post.kitty_map()[key].owner,
    ).contains(key) by {
        assert(pre.kitty_map().contains_key(key));
        let holder = pre.kitty_map()[key].owner;
        assert(pre.owned_by(holder).contains(key));
        assert(post.owned_by(holder) == pre.owned_by(holder));
    }
    assert forall|who: AccountId| #[trigger] post.owned_by(who).no_duplicates() by {
        assert(post.owned_by(who) == pre.owned_by(who));
        assert(pre.owned_by(who).no_duplicates());
    }
}

/// Handing a kitty over keeps the records and the lists in agreement.
pub proof fn lemma_transfer_keeps_agreement(pre: Pallet, post: Pallet, id: H256, to: AccountId)
    requires
        pre.consistent(),
        pre.kitty_map().contains_key(id),
        post.transferred_from(&pre, id, to),
    ensures
        post.consistent(),
{
    let from = pre.kitty_map()[id].owner;
    let before = pre.owned_by(from);
    let rest = without_first(before, id);
    assert(before.contains(id));
    assert(before.no_duplicates());
    lemma_first_of_unique(before, id);
    if from != to {
        assert(!pre.owned_by(to).contains(id));
        assert(pre.owned_by(to).no_duplicates());
        lemma_push_fresh(pre.owned_by(to), id);
    } else {
        lemma_push_fresh(rest, id);
    }
    assert forall|who: AccountId, key: H256| #[trigger]
        post.owned_by(who).contains(key) implies post.kitty_map().contains_key(key)
        && post.kitty_map()[key].owner == who by {
        if who == to {
            if key != id {
                if from != to {
                    assert(pre.owned_by(to).contains(key));
                } else {
                    assert(rest.contains(key));
                    assert(before.contains(key));
                }
            }
        } else if who == from {
            assert(rest.contains(key));
            assert(before.contains(key));
        } else {
            assert(post.owned_by(who) == pre.owned_by(who));
            assert(pre.owned_by(who).contains(key));
        }
    }
    assert forall|key: H256| #[trigger] post.kitty_map().contains_key(key) implies post.owned_by(
        post.kitty_map()[key].owner,
    ).contains(key) by {
        if key != id {
            assert(pre.kitty_map().contains_key(key));
            let holder = pre.kitty_map()[key].owner;
            assert(pre.owned_by(holder).contains(key));
            if holder == from {
                assert(rest.contains(key));
            } else if holder != to {
                assert(post.owned_by(holder) == pre.owned_by(holder));
            }
        }
    }
    assert forall|who: AccountId| #[trigger] post.owned_by(who).no_duplicates() by {
        if who != from && who != to {
            assert(post.owned_by(who) == pre.owned_by(who));
            assert(pre.owned_by(who).no_duplicates());
        }
    }
}

/// Setting a price or handing a kitty over changes no identifier: the
/// ledger holds the same identifiers as before, each with the genetic code and
/// the gender it had.
pub proof fn lemma_identity_stable(
    pre: Pallet,
    post: Pallet,
    id: H256,
    price: Option<Balance>,
    to: AccountId,
)
    requires
        pre.kitty_map().contains_key(id),
        post.repriced_from(&pre, id, price) || post.transferred_from(&pre, id, to),
    ensures
        post.kitty_map().dom() == pre.kitty_map().dom(),
        forall|key: H256| #[trigger]
            pre.kitty_map().contains_key(key) ==> post.kitty_map()[key].dna
                == pre.kitty_map()[key].dna && post.kitty_map()[key].gender
                == pre.kitty_map()[key].gender,
{
    assert(post.kitty_map().dom() =~= pre.kitty_map().dom());
}

} // verus!
