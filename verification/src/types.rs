//! The plain data of the ledger: identifiers, records, errors and events.

use vstd::prelude::*;

verus! {

/// The identifier of an account.
pub type AccountId = u64;

/// An amount of currency.
pub type Balance = u128;

/// A 256-bit identifier, as the hash of a record yields it.
#[derive(Clone, Copy, Debug, PartialEq, Eq, Hash)]
pub struct H256(pub [u8; 32]);

impl H256 {
    /// The identifier whose bytes are all zero.
    pub fn zero() -> (r: H256)
        ensures
            forall|i: int| 0 <= i < 32 ==> r.0[i] == 0,
    {
        H256([0u8;32])
    }

    /// Whether two identifiers hold the same bytes.
    pub fn same(&self, other: &H256) -> (r: bool)
        ensures
            r == (*self == *other),
    {
        let mut i: usize = 0;
        while i < 32
            invariant
                i <= 32,
                forall|j: int| 0 <= j < i ==> self.0[j] == other.0[j],
            decreases 32 - i,
        {
            if self.0[i] != other.0[i] {
                return false;
            }
            i += 1;
        }
        assert(self.0 =~= other.0);
        true
    }
}

/// The sex of a kitty.
#[derive(Clone, Copy, Debug, PartialEq, Eq, Structural)]
pub enum Gender {
    Male,
    Female,
}

/// The record kept for one kitty.
#[derive(Clone, Copy, Debug, PartialEq, Eq)]
pub struct Kitty {
    /// Genetic code, fixed at mint.
    pub dna: [u8; 16],
    /// Asking price; `None` while the kitty is not for sale.
    pub price: Option<Balance>,
    /// Fixed at mint.
    pub gender: Gender,
    /// The account that owns the kitty now.
    pub owner: AccountId,
}

/// Why an operation of the ledger was rejected.
#[derive(Clone, Copy, Debug, PartialEq, Eq, Structural)]
pub enum Error {
    BuyerIsKittyOwner,
    ExceedMaxKittyOwned,
    NotEnoughBalance,
    NotKittyOwner,
    KittyBidPriceTooLow,
    KittyCntOverflow,
    KittyNotExist,
    KittyNotForSale,
    TransferToSelf,
}

/// What a successful operation reports to the outside.
#[derive(Clone, Copy, Debug, PartialEq, Eq)]
pub enum Event {
    /// A kitty was minted: owner, identifier, deposit reserved.
    Created(AccountId, H256, Balance),
    /// A price was set or cleared: sender, identifier, new price.
    PriceSet(AccountId, H256, Option<Balance>),
    /// A kitty changed hands: from, to, identifier.
    Transferred(AccountId, AccountId, H256),
    /// A kitty was sold: buyer, seller, identifier, price paid.
    Bought(AccountId, AccountId, H256, Balance),
}

} // verus!
