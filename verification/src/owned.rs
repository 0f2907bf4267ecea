//! The ownership index: for each account, the bounded list of the
//! identifiers it owns.
//!
//! The lists are `BoundedVec`s, as a runtime stores them. Their type carries
//! the largest bound there is; the bound that an account is held to is the
//! one the index was made with, and is looked at before every append.

use std::collections::HashMap;
use frame_support::traits::ConstU32;
use frame_support::BoundedVec;
use vstd::prelude::*;
use crate::types::{AccountId, H256};

verus! {

#[verifier::external_type_specification]
#[verifier::external_body]
#[verifier::reject_recursive_types(T)]
#[verifier::reject_recursive_types(S)]
pub struct ExBoundedVec<T, S>(BoundedVec<T, S>);

#[verifier::external_type_specification]
#[verifier::external_body]
pub struct ExConstU32<const T: u32>(ConstU32<T>);

/// The identifiers that a list holds, in its order.
pub uninterp spec fn listed(list: BoundedVec<H256, ConstU32<4294967295>>) -> Seq<H256>;

/// Whether a list of these entries is shorter than the bound of its type allows.
pub open spec fn below_type_bound(entries: Seq<H256>) -> bool {
    entries.len() < 4294967295
}

/// Calls `BoundedVec::new`. Trusted: the new list holds nothing.
#[verifier::external_body]
fn list_new() -> (list: BoundedVec<H256, ConstU32<4294967295>>)
    ensures
        listed(list) == Seq::<H256>::empty(),
{
    BoundedVec::new()
}

/// Calls `len` on the vector inside a `BoundedVec`. Trusted: it is the
/// number of identifiers that the list holds.
#[verifier::external_body]
fn list_len(list: &BoundedVec<H256, ConstU32<4294967295>>) -> (n: usize)
    ensures
        n == listed(*list).len(),
{
    list.len()
}

/// Indexes a `BoundedVec`, which panics past the end. Trusted: within the
/// list it gives the identifier at that place.
#[verifier::external_body]
fn list_get(list: &BoundedVec<H256, ConstU32<4294967295>>, at: usize) -> (id: H256)
    requires
        at < listed(*list).len(),
    ensures
        id == listed(*list)[at as int],
{
    list[at]
}

/// Calls `BoundedVec::try_push`. Trusted: below the bound of the type the
/// identifier is appended; at the bound nothing changes and it is handed back.
#[verifier::external_body]
fn list_try_push(
    list: &mut BoundedVec<H256, ConstU32<4294967295>>,
    id: H256,
) -> (r: Result<(), H256>)
    ensures
        (r is Ok) == below_type_bound(listed(*old(list))),
        r is Ok ==> listed(*final(list)) == listed(*old(list)).push(id),
        r is Err ==> r->Err_0 == id,
        r is Err ==> listed(*final(list)) == listed(*old(list)),
{
    list.try_push(id)
}

/// Calls `BoundedVec::swap_remove`, which panics past the end. Trusted:
/// within the list the entry at `at` is returned, the last entry takes its
/// place and the list is shorter by one.
#[verifier::external_body]
fn list_swap_remove(
    list: &mut BoundedVec<H256, ConstU32<4294967295>>,
    at: usize,
) -> (removed: H256)
    requires
        at < listed(*old(list)).len(),
    ensures
        removed == listed(*old(list))[at as int],
        listed(*final(list)) == swap_removed(listed(*old(list)), at as int),
{
    list.swap_remove(at)
}

/// `id` stands at `at` in `list` and nowhere before it.
pub open spec fn first_at(list: Seq<H256>, id: H256, at: int) -> bool {
    &&& 0 <= at < list.len()
    &&& list[at] == id
    &&& forall|j: int| 0 <= j < at ==> list[j] != id
}

/// The place of the first `id` in `list`.
pub open spec fn first_index(list: Seq<H256>, id: H256) -> int {
    choose|at: int| first_at(list, id, at)
}

/// `list` after the entry at `at` was replaced by the last entry and the
/// list shortened by one: the order of the rest is not kept.
pub open spec fn swap_removed(list: Seq<H256>, at: int) -> Seq<H256> {
    list.update(at, list.last()).drop_last()
}

/// `list` without its first `id`, removed by swapping the last entry into its place.
pub open spec fn without_first(list: Seq<H256>, id: H256) -> Seq<H256> {
    swap_removed(list, first_index(list, id))
}

/// Only one place can be the first.
pub proof fn lemma_first_index(list: Seq<H256>, id: H256, at: int)
    requires
        first_at(list, id, at),
    ensures
        first_index(list, id) == at,
{
    let chosen = first_index(list, id);
    assert(first_at(list, id, chosen));
    if chosen < at {
        assert(list[chosen] != id);
    }
    if at < chosen {
        assert(list[at] != id);
    }
}

/// A list without repeats holds, after the entry at `at` was swapped out,
/// what it held before but for that entry, and still has no repeats.
pub proof fn lemma_swap_removed(list: Seq<H256>, at: int)
    requires
        list.no_duplicates(),
        0 <= at < list.len(),
    ensures
        swap_removed(list, at).len() == list.len() - 1,
        swap_removed(list, at).no_duplicates(),
        !swap_removed(list, at).contains(list[at]),
        forall|id: H256|
            id != list[at] ==> (#[trigger] swap_removed(list, at).contains(id) <==> list.contains(
                id,
            )),
{
    let rest = swap_removed(list, at);
    let last = list.len() - 1;
    assert forall|i: int| 0 <= i < rest.len() implies rest[i] == list[if i == at {
        last
    } else {
        i
    }] by {}
    assert forall|i: int, j: int| 0 <= i < rest.len() && 0 <= j < rest.len() && i != j implies rest[i]
        != rest[j] by {
        let from_i = if i == at {
            last
        } else {
            i
        };
        let from_j = if j == at {
            last
        } else {
            j
        };
        assert(rest[i] == list[from_i]);
        assert(rest[j] == list[from_j]);
    }
    assert(!rest.contains(list[at])) by {
        if rest.contains(list[at]) {
            let i = choose|i: int| 0 <= i < rest.len() && rest[i] == list[at];
            assert(rest[i] == list[if i == at {
                last
            } else {
                i
            }]);
        }
    }
    assert forall|id: H256| id != list[at] implies (#[trigger] rest.contains(id)
        <==> list.contains(id)) by {
        if rest.contains(id) {
            let i = choose|i: int| 0 <= i < rest.len() && rest[i] == id;
            assert(rest[i] == list[if i == at {
                last
            } else {
                i
            }]);
        }
        if list.contains(id) {
            let i = choose|i: int| 0 <= i < list.len() && list[i] == id;
            if i == last {
                assert(rest[at] == id);
            } else {
                assert(rest[i] == id);
            }
        }
    }
}

/// In a list without repeats an entry stands first where it stands at all.
pub proof fn lemma_first_of_unique(list: Seq<H256>, id: H256)
    requires
        list.no_duplicates(),
        list.contains(id),
    ensures
        first_at(list, id, first_index(list, id)),
        !without_first(list, id).contains(id),
        without_first(list, id).no_duplicates(),
        without_first(list, id).len() == list.len() - 1,
        forall|other: H256|
            other != id ==> (#[trigger] without_first(list, id).contains(other) <==> list.contains(
                other,
            )),
{
    let at = choose|i: int| 0 <= i < list.len() && list[i] == id;
    assert(first_at(list, id, at));
    lemma_first_index(list, id, at);
    lemma_swap_removed(list, at);
}

/// A list without repeats has none after an entry it did not hold was appended.
pub proof fn lemma_push_fresh(list: Seq<H256>, id: H256)
    requires
        list.no_duplicates(),
        !list.contains(id),
    ensures
        list.push(id).no_duplicates(),
        forall|other: H256| #[trigger]
            list.push(id).contains(other) <==> other == id || list.contains(other),
{
    let longer = list.push(id);
    assert forall|i: int, j: int| 0 <= i < longer.len() && 0 <= j < longer.len() && i
        != j implies longer[i] != longer[j] by {
        if i < list.len() {
            assert(list.contains(list[i]));
        }
        if j < list.len() {
            assert(list.contains(list[j]));
        }
    }
    assert forall|other: H256| #[trigger]
        longer.contains(other) <==> other == id || list.contains(other) by {
        if longer.contains(other) {
            let i = choose|i: int| 0 <= i < longer.len() && longer[i] == other;
            if i < list.len() {
                assert(list[i] == other);
            }
        }
        if list.contains(other) {
            let i = choose|i: int| 0 <= i < list.len() && list[i] == other;
            assert(longer[i] == other);
        }
        if other == id {
            assert(longer[list.len() as int] == id);
        }
    }
}

/// The lists of identifiers by account. An account without a list owns nothing.
/// No list is longer than the bound the index was made with.
pub struct OwnedIndex {
    bound: u32,
    lists: HashMap<AccountId, BoundedVec<H256, ConstU32<4294967295>>>,
}

impl OwnedIndex {
    /// The most identifiers that one account can own.
    pub closed spec fn capacity(&self) -> u32 {
        self.bound
    }

    /// The identifiers that `who` owns, in the order the index keeps them.
    pub closed spec fn of(&self, who: AccountId) -> Seq<H256> {
        if self.lists@.contains_key(who) {
            listed(self.lists@[who])
        } else {
            Seq::empty()
        }
    }

    /// No account owns more than the bound allows.
    pub open spec fn inv(&self) -> bool {
        forall|who: AccountId| #[trigger] self.of(who).len() <= self.capacity()
    }

    /// An index in which no account owns anything.
    pub fn new(bound: u32) -> (index: OwnedIndex)
        ensures
            index.inv(),
            index.capacity() == bound,
            forall|who: AccountId| #[trigger] index.of(who) == Seq::<H256>::empty(),
    {
        OwnedIndex { bound, lists: HashMap::new() }
    }

    /// The bound the index was made with.
    pub fn bound(&self) -> (bound: u32)
        ensures
            bound == self.capacity(),
    {
        self.bound
    }

    /// How many identifiers `who` owns.
    pub fn len(&self, who: AccountId) -> (n: usize)
        ensures
            n == self.of(who).len(),
    {
        match self.lists.get(&who) {
            Some(list) => list_len(list),
            None => 0,
        }
    }

    /// Whether `who` owns as many identifiers as the bound allows.
    pub fn is_full(&self, who: AccountId) -> (full: bool)
        ensures
            full == (self.of(who).len() >= self.capacity()),
    {
        self.len(who) >= self.bound as usize
    }

    /// A copy of the list of `who`.
    pub fn get(&self, who: AccountId) -> (list: Vec<H256>)
        ensures
            list@ == self.of(who),
    {
        let mut copy: Vec<H256> = Vec::new();
        match self.lists.get(&who) {
            Some(list) => {
                let n = list_len(list);
                let mut i: usize = 0;
                while i < n
                    invariant
                        i <= n,
                        n == listed(*list).len(),
                        copy@ == listed(*list).subrange(0, i as int),
                    decreases n - i,
                {
                    copy.push(list_get(list, i));
                    assert(copy@ =~= listed(*list).subrange(0, i + 1));
                    i += 1;
                }
                assert(copy@ =~= listed(*list));
            },
            None => {},
        }
        copy
    }

    /// Where the first `id` stands in the list of `who`.
    pub fn position(&self, who: AccountId, id: &H256) -> (r: Option<usize>)
        ensures
            match r {
                Some(at) => first_at(self.of(who), *id, at as int),
                None => !self.of(who).contains(*id),
            },
    {
        match self.lists.get(&who) {
            Some(list) => {
                let n = list_len(list);
                let mut i: usize = 0;
                while i < n
                    invariant
                        i <= n,
                        n == listed(*list).len(),
                        listed(*list) == self.of(who),
                        forall|j: int| 0 <= j < i ==> listed(*list)[j] != *id,
                    decreases n - i,
                {
                    if list_get(list, i).same(id) {
                        return Some(i);
                    }
                    i += 1;
                }
                None
            },
            None => None,
        }
    }

    /// Appends `id` to the list of `who`, or hands it back when the list is full.
    pub fn try_push(&mut self, who: AccountId, id: H256) -> (r: Result<(), H256>)
        requires
            old(self).inv(),
        ensures
            final(self).inv(),
            final(self).capacity() == old(self).capacity(),
            forall|other: AccountId|
                other != who ==> #[trigger] final(self).of(other) == old(self).of(other),
            old(self).of(who).len() < old(self).capacity() ==> r is Ok && final(self).of(who)
                == old(self).of(who).push(id),
            old(self).of(who).len() >= old(self).capacity() ==> r == Err::<(), H256>(id)
                && final(self).of(who) == old(self).of(who),
    {
        if self.len(who) >= self.bound as usize {
            return Err(id);
        }
        let mut list = match self.lists.remove(&who) {
            Some(list) => list,
            None => list_new(),
        };
        let pushed = list_try_push(&mut list, id);
        self.lists.insert(who, list);
        assert forall|other: AccountId| other != who implies #[trigger] self.of(other) == old(
            self,
        ).of(other) by {}
        assert forall|any: AccountId| #[trigger] self.of(any).len() <= self.capacity() by {
            if any != who {
                assert(self.of(any) == old(self).of(any));
                assert(old(self).of(any).len() <= old(self).capacity());
            }
        }
        pushed
    }

    /// Removes the entry at `at` from the list of `who` by moving the last
    /// entry into its place, and returns it.
    pub fn swap_remove(&mut self, who: AccountId, at: usize) -> (removed: H256)
        requires
            old(self).inv(),
            at < old(self).of(who).len(),
        ensures
            final(self).inv(),
            final(self).capacity() == old(self).capacity(),
            removed == old(self).of(who)[at as int],
            final(self).of(who) == swap_removed(old(self).of(who), at as int),
            forall|other: AccountId|
                other != who ==> #[trigger] final(self).of(other) == old(self).of(other),
    {
        let mut list = match self.lists.remove(&who) {
            Some(list) => list,
            None => list_new(),
        };
        let removed = list_swap_remove(&mut list, at);
        self.lists.insert(who, list);
        assert forall|other: AccountId| other != who implies #[trigger] self.of(other) == old(
            self,
        ).of(other) by {}
        assert forall|any: AccountId| #[trigger] self.of(any).len() <= self.capacity() by {
            if any != who {
                assert(self.of(any) == old(self).of(any));
                assert(old(self).of(any).len() <= old(self).capacity());
            } else {
                assert(old(self).of(who).len() <= old(self).capacity());
            }
        }
        removed
    }
}

} // verus!
