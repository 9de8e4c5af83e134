//! The asset registry and marketplace: five state-transition operations
//! over an explicit store, each of which either fully applies or leaves
//! every component of the state untouched.

use vstd::prelude::*;

use crate::dna::combine_dna;
use crate::dna::mix_dna;
use crate::kv::KvMap;
use crate::ledger::Ledger;

verus! {

/// An account identifier, handed in already authenticated.
pub type AccountId = u64;

/// An asset identifier, assigned monotonically from 1.
pub type KittyIndex = u32;

/// A currency amount.
pub type Balance = u64;

/// The collateral reserved from the owner whenever an asset gains a new
/// owner through `create` or `buy`.
pub const RESERVE_OF_NEW_CREATE: Balance = 1000;

/// An asset: an immutable 16-byte genetic payload.
#[derive(Clone, Copy, Debug, PartialEq, Eq)]
pub struct Kitty(pub [u8; 16]);

/// The notification a successful operation emits.
#[derive(Clone, Copy, Debug, PartialEq, Eq)]
pub enum Event {
    /// A new asset exists, owned by the account.
    KittyCreated(AccountId, KittyIndex),
    /// Ownership moved from the first account to the second.
    KittyTransfered(AccountId, AccountId, KittyIndex),
    /// The owner listed the asset at the given price.
    KittyForSale(AccountId, KittyIndex, Option<Balance>),
    /// The owner withdrew the asset from sale.
    KittyCancelSale(AccountId, KittyIndex),
}

/// The reason an operation was rejected.  A rejected operation leaves the
/// whole state unchanged.
#[derive(Clone, Copy, Debug, PartialEq, Eq)]
pub enum Error {
    /// The asset id space is exhausted.
    KittiesCountOverflow,
    /// The referenced asset does not exist.
    InvalidKittyIndex,
    /// The caller does not own the asset.
    NotOwnerOfKitty,
    /// Breeding an asset with itself.
    SameParentIndex,
    /// Transferring an asset to its current owner.
    SameOwner,
    /// Buying an asset that is not listed.
    NotForSale,
    /// Too little free balance for the collateral or the payment.
    NotEnoughBalance,
    /// The buyer already owns the asset.
    KittyAlreadyOwned,
    /// The payment would leave the paying account without a residual.
    WouldKillAccount,
}

/// Whether a new id can still be allocated: the count has not reached the
/// representable maximum.
pub open spec fn can_allocate(count: Option<u32>) -> bool {
    match count {
        Some(c) => c < u32::MAX,
        None => true,
    }
}

/// The id the next created or bred asset receives: one past the count,
/// starting from 1.
pub open spec fn next_kitty_id(count: Option<u32>) -> u32 {
    match count {
        Some(c) => if c < u32::MAX {
            (c + 1) as u32
        } else {
            0
        },
        None => 1,
    }
}

/// The whole state of the registry and marketplace: the asset count, the
/// three storage maps, and the currency ledger.  Every public operation
/// takes the store explicitly and is atomic over all five components.
pub struct Pallet {
    count: Option<u32>,
    kitties: KvMap<Kitty>,
    owners: KvMap<AccountId>,
    prices: KvMap<Balance>,
    ledger: Ledger,
}

impl Pallet {
    /// How many assets were ever created; `None` means zero.
    pub closed spec fn spec_count(&self) -> Option<u32> {
        self.count
    }

    /// The asset registry: id to genetic payload.
    pub closed spec fn spec_kitties(&self) -> Map<u32, Kitty> {
        self.kitties@
    }

    /// The ownership ledger: id to owning account.
    pub closed spec fn spec_owners(&self) -> Map<u32, AccountId> {
        self.owners@
    }

    /// The listings: id to asking price; absence means not for sale.
    pub closed spec fn spec_prices(&self) -> Map<u32, Balance> {
        self.prices@
    }

    /// The free balance of `who`.
    pub closed spec fn spec_free(&self, who: AccountId) -> Balance {
        self.ledger.spec_free(who)
    }

    /// The reserved balance of `who`.
    pub closed spec fn spec_reserved(&self, who: AccountId) -> Balance {
        self.ledger.spec_reserved(who)
    }

    /// The sum of all balances in the currency ledger.
    pub closed spec fn spec_total(&self) -> Balance {
        self.ledger.spec_total()
    }

    /// Well-formed state: the components are internally consistent, an
    /// asset exists exactly when it has an owner, a listing exists only
    /// for an existing asset, and every existing id lies between 1 and
    /// the count.
    pub closed spec fn wf(&self) -> bool {
        &&& self.kitties.wf()
        &&& self.owners.wf()
        &&& self.prices.wf()
        &&& self.ledger.wf()
        &&& forall|id: u32| #[trigger]
            self.kitties@.contains_key(id) <==> #[trigger] self.owners@.contains_key(id)
        &&& forall|id: u32| #[trigger]
            self.prices@.contains_key(id) ==> self.kitties@.contains_key(id)
        &&& forall|id: u32| #[trigger]
            self.kitties@.contains_key(id) ==> self.count is Some && 1 <= id <= self.count->0
    }

    /// Both states bind the same balances to every account.
    pub open spec fn ledger_eq(self, other: Pallet) -> bool {
        forall|a: AccountId|
            #![trigger other.spec_free(a)]
            #![trigger other.spec_reserved(a)]
            other.spec_free(a) == self.spec_free(a) && other.spec_reserved(a) == self.spec_reserved(
                a,
            )
    }

    /// Both states bind the same balances to every account but `who`.
    pub open spec fn ledger_eq_except(self, other: Pallet, who: AccountId) -> bool {
        forall|a: AccountId|
            #![trigger other.spec_free(a)]
            #![trigger other.spec_reserved(a)]
            a != who ==> other.spec_free(a) == self.spec_free(a) && other.spec_reserved(a)
                == self.spec_reserved(a)
    }

    /// Both states bind the same balances to every account but `w1` and
    /// `w2`.
    pub open spec fn ledger_eq_except2(self, other: Pallet, w1: AccountId, w2: AccountId) -> bool {
        forall|a: AccountId|
            #![trigger other.spec_free(a)]
            #![trigger other.spec_reserved(a)]
            a != w1 && a != w2 ==> other.spec_free(a) == self.spec_free(a) && other.spec_reserved(a)
                == self.spec_reserved(a)
    }

    /// The two states are observably identical: same count, same maps,
    /// same balances.  A failed operation relates its pre- and post-state
    /// by this predicate.
    pub open spec fn obs_eq(self, other: Pallet) -> bool {
        &&& other.spec_count() == self.spec_count()
        &&& other.spec_kitties() == self.spec_kitties()
        &&& other.spec_owners() == self.spec_owners()
        &&& other.spec_prices() == self.spec_prices()
        &&& self.ledger_eq(other)
        &&& other.spec_total() == self.spec_total()
    }

    /// An empty store: no assets, no listings, no balances.
    pub fn new() -> (r: Pallet)
        ensures
            r.wf(),
            r.spec_count() is None,
            r.spec_kitties() == Map::<u32, Kitty>::empty(),
            r.spec_owners() == Map::<u32, AccountId>::empty(),
            r.spec_prices() == Map::<u32, Balance>::empty(),
            r.spec_total() == 0,
            forall|a: AccountId| r.spec_free(a) == 0 && r.spec_reserved(a) == 0,
    {
        Pallet {
            count: None,
            kitties: KvMap::new(),
            owners: KvMap::new(),
            prices: KvMap::new(),
            ledger: Ledger::new(),
        }
    }

    /// How many assets were ever created; `None` means zero.
    pub fn kitties_count(&self) -> (r: Option<u32>)
        ensures
            r == self.spec_count(),
    {
        self.count
    }

    /// The genetic payload stored under `kitty_id`, if any.
    pub fn kitties(&self, kitty_id: KittyIndex) -> (r: Option<Kitty>)
        requires
            self.wf(),
        ensures
            r is Some <==> self.spec_kitties().contains_key(kitty_id),
            r is Some ==> r->0 == self.spec_kitties()[kitty_id],
    {
        self.kitties.get(kitty_id)
    }

    /// The current owner of `kitty_id`, if the asset exists.
    pub fn owner(&self, kitty_id: KittyIndex) -> (r: Option<AccountId>)
        requires
            self.wf(),
        ensures
            r is Some <==> self.spec_owners().contains_key(kitty_id),
            r is Some ==> r->0 == self.spec_owners()[kitty_id],
    {
        self.owners.get(kitty_id)
    }

    /// The listed price of `kitty_id`; `None` means not for sale.
    pub fn kitties_price(&self, kitty_id: KittyIndex) -> (r: Option<Balance>)
        requires
            self.wf(),
        ensures
            r is Some <==> self.spec_prices().contains_key(kitty_id),
            r is Some ==> r->0 == self.spec_prices()[kitty_id],
    {
        self.prices.get(kitty_id)
    }

    /// The free balance of `who`.
    pub fn free_balance(&self, who: AccountId) -> (r: Balance)
        requires
            self.wf(),
        ensures
            r == self.spec_free(who),
    {
        self.ledger.free_balance(who)
    }

    /// The reserved balance of `who`.
    pub fn reserved_balance(&self, who: AccountId) -> (r: Balance)
        requires
            self.wf(),
        ensures
            r == self.spec_reserved(who),
    {
        self.ledger.reserved_balance(who)
    }

    /// Issues `amount` of new free balance to `who`.  Refused only when
    /// the sum of all balances would outgrow the representable range.
    pub fn fund(&mut self, who: AccountId, amount: Balance) -> (ok: bool)
        requires
            old(self).wf(),
        ensures
            final(self).wf(),
            ok <==> amount <= u64::MAX - old(self).spec_total(),
            ok ==> ({
                &&& final(self).spec_free(who) == old(self).spec_free(who) + amount
                &&& final(self).spec_reserved(who) == old(self).spec_reserved(who)
                &&& old(self).ledger_eq_except(*final(self), who)
                &&& final(self).spec_total() == old(self).spec_total() + amount
                &&& final(self).spec_count() == old(self).spec_count()
                &&& final(self).spec_kitties() == old(self).spec_kitties()
                &&& final(self).spec_owners() == old(self).spec_owners()
                &&& final(self).spec_prices() == old(self).spec_prices()
            }),
            !ok ==> old(self).obs_eq(*final(self)),
    {
        self.ledger.fund(who, amount)
    }

    /// Overwrites the asset count, as a test harness for the storage
    /// does.  Refused if it would fall below an already assigned id.
    pub fn put_kitties_count(&mut self, count: u32) -> (ok: bool)
        requires
            old(self).wf(),
        ensures
            final(self).wf(),
            ok <==> (old(self).spec_count() is None || old(self).spec_count()->0 <= count),
            ok ==> ({
                &&& final(self).spec_count() == Some(count)
                &&& final(self).spec_kitties() == old(self).spec_kitties()
                &&& final(self).spec_owners() == old(self).spec_owners()
                &&& final(self).spec_prices() == old(self).spec_prices()
                &&& old(self).ledger_eq(*final(self))
                &&& final(self).spec_total() == old(self).spec_total()
            }),
            !ok ==> old(self).obs_eq(*final(self)),
    {
        match self.count {
            None => {
                self.count = Some(count);
                true
            },
            Some(c) => {
                if c <= count {
                    self.count = Some(count);
                    true
                } else {
                    false
                }
            },
        }
    }

    /// Reassigns ownership of an existing asset, unconditionally, and
    /// reports the move.  Callers have already verified authorization.
    fn transfer_kitty(&mut self, from: AccountId, to: AccountId, kitty_id: KittyIndex) -> (ev:
        Event)
        requires
            old(self).wf(),
            old(self).spec_owners().contains_key(kitty_id),
        ensures
            final(self).wf(),
            ev == Event::KittyTransfered(from, to, kitty_id),
            final(self).spec_owners() == old(self).spec_owners().insert(kitty_id, to),
            final(self).spec_kitties() == old(self).spec_kitties(),
            final(self).spec_prices() == old(self).spec_prices(),
            final(self).spec_count() == old(self).spec_count(),
            old(self).ledger_eq(*final(self)),
            final(self).spec_total() == old(self).spec_total(),
    {
        self.owners.insert(kitty_id, to);
        Event::KittyTransfered(from, to, kitty_id)
    }

    /// Creates a new asset whose payload is the given entropy, reserves
    /// the creation collateral from the caller, and assigns the caller as
    /// owner.
    pub fn create(&mut self, who: AccountId, entropy: [u8; 16]) -> (r: Result<Event, Error>)
        requires
            old(self).wf(),
        ensures
            final(self).wf(),
            r is Ok <==> can_allocate(old(self).spec_count()) && RESERVE_OF_NEW_CREATE <= old(self).spec_free(who),
            r is Ok ==> ({
                let id = next_kitty_id(old(self).spec_count());
                &&& r == Ok::<Event, Error>(Event::KittyCreated(who, id))
                &&& final(self).spec_count() == Some(id)
                &&& final(self).spec_kitties() == old(self).spec_kitties().insert(
                    id,
                    Kitty(entropy),
                )
                &&& final(self).spec_owners() == old(self).spec_owners().insert(id, who)
                &&& final(self).spec_prices() == old(self).spec_prices()
                &&& final(self).spec_free(who) == old(self).spec_free(who)
                    - RESERVE_OF_NEW_CREATE
                &&& final(self).spec_reserved(who) == old(self).spec_reserved(who)
                    + RESERVE_OF_NEW_CREATE
                &&& old(self).ledger_eq_except(*final(self), who)
                &&& final(self).spec_total() == old(self).spec_total()
            }),
            r is Err ==> old(self).obs_eq(*final(self)),
            r is Err ==> r == Err::<Event, Error>(
                if !can_allocate(old(self).spec_count()) {
                    Error::KittiesCountOverflow
                } else {
                    Error::NotEnoughBalance
                },
            ),
    {
        let kitty_id: u32 = match self.count {
            Some(c) => {
                if c == u32::MAX {
                    return Err(Error::KittiesCountOverflow);
                }
                c + 1
            },
            None => 1,
        };
        match self.ledger.reserve(who, RESERVE_OF_NEW_CREATE) {
            Err(e) => {
                return Err(e);
            },
            Ok(()) => {},
        }
        self.kitties.insert(kitty_id, Kitty(entropy));
        self.owners.insert(kitty_id, who);
        self.count = Some(kitty_id);
        Ok(Event::KittyCreated(who, kitty_id))
    }

    /// Moves an asset the caller owns to another account.  A transfer to
    /// the current owner is rejected, not silently accepted.
    pub fn transfer(&mut self, sender: AccountId, to: AccountId, kitty_id: KittyIndex) -> (r:
        Result<Event, Error>)
        requires
            old(self).wf(),
        ensures
            final(self).wf(),
            r is Ok <==> old(self).spec_owners().contains_key(kitty_id) && old(self).spec_owners()[kitty_id] == sender && to != sender,
            r is Ok ==> ({
                &&& r == Ok::<Event, Error>(Event::KittyTransfered(sender, to, kitty_id))
                &&& final(self).spec_owners() == old(self).spec_owners().insert(kitty_id, to)
                &&& final(self).spec_kitties() == old(self).spec_kitties()
                &&& final(self).spec_prices() == old(self).spec_prices()
                &&& final(self).spec_count() == old(self).spec_count()
                &&& old(self).ledger_eq(*final(self))
                &&& final(self).spec_total() == old(self).spec_total()
            }),
            r is Err ==> old(self).obs_eq(*final(self)),
            r is Err ==> r == Err::<Event, Error>(
                if !old(self).spec_owners().contains_key(kitty_id) {
                    Error::InvalidKittyIndex
                } else if old(self).spec_owners()[kitty_id] != sender {
                    Error::NotOwnerOfKitty
                } else {
                    Error::SameOwner
                },
            ),
    {
        let owner = match self.owners.get(kitty_id) {
            Some(o) => o,
            None => {
                return Err(Error::InvalidKittyIndex);
            },
        };
        if owner != sender {
            return Err(Error::NotOwnerOfKitty);
        }
        if to == owner {
            return Err(Error::SameOwner);
        }
        Ok(self.transfer_kitty(sender, to, kitty_id))
    }

    /// Derives a new asset from two distinct parents the caller owns.
    /// The child's payload takes each bit from parent one where the
    /// entropy has a 1 bit and from parent two where it has a 0 bit.
    pub fn breed(
        &mut self,
        who: AccountId,
        kitty_id_1: KittyIndex,
        kitty_id_2: KittyIndex,
        entropy: [u8; 16],
    ) -> (r: Result<Event, Error>)
        requires
            old(self).wf(),
        ensures
            final(self).wf(),
            r is Ok <==> ({
                &&& kitty_id_1 != kitty_id_2
                &&& old(self).spec_owners().contains_key(kitty_id_1)
                &&& old(self).spec_owners().contains_key(kitty_id_2)
                &&& old(self).spec_owners()[kitty_id_1] == who
                &&& old(self).spec_owners()[kitty_id_2] == who
                &&& can_allocate(old(self).spec_count())
            }),
            r is Ok ==> ({
                let id = next_kitty_id(old(self).spec_count());
                let d1 = old(self).spec_kitties()[kitty_id_1].0@;
                let d2 = old(self).spec_kitties()[kitty_id_2].0@;
                &&& r == Ok::<Event, Error>(Event::KittyCreated(who, id))
                &&& final(self).spec_count() == Some(id)
                &&& final(self).spec_kitties() == old(self).spec_kitties().insert(
                    id,
                    final(self).spec_kitties()[id],
                )
                &&& final(self).spec_kitties()[id].0@ == mix_dna(entropy@, d1, d2)
                &&& final(self).spec_owners() == old(self).spec_owners().insert(id, who)
                &&& final(self).spec_prices() == old(self).spec_prices()
                &&& old(self).ledger_eq(*final(self))
                &&& final(self).spec_total() == old(self).spec_total()
            }),
            r is Err ==> old(self).obs_eq(*final(self)),
            r is Err ==> r == Err::<Event, Error>(
                if kitty_id_1 == kitty_id_2 {
                    Error::SameParentIndex
                } else if !old(self).spec_owners().contains_key(kitty_id_1) || !old(self).spec_owners().contains_key(kitty_id_2) {
                    Error::InvalidKittyIndex
                } else if old(self).spec_owners()[kitty_id_1] != who || old(self).spec_owners()[kitty_id_2] != who {
                    Error::NotOwnerOfKitty
                } else {
                    Error::KittiesCountOverflow
                },
            ),
    {
        if kitty_id_1 == kitty_id_2 {
            return Err(Error::SameParentIndex);
        }
        let owner1 = match self.owners.get(kitty_id_1) {
            Some(o) => o,
            None => {
                return Err(Error::InvalidKittyIndex);
            },
        };
        let owner2 = match self.owners.get(kitty_id_2) {
            Some(o) => o,
            None => {
                return Err(Error::InvalidKittyIndex);
            },
        };
        if owner1 != who {
            return Err(Error::NotOwnerOfKitty);
        }
        if owner2 != who {
            return Err(Error::NotOwnerOfKitty);
        }
        let kitty1 = match self.kitties.get(kitty_id_1) {
            Some(k) => k,
            None => {
                // unreachable: a well-formed store holds a payload for every owned id
                proof {
                    assert(false);
                }
                return Err(Error::InvalidKittyIndex);
            },
        };
        let kitty2 = match self.kitties.get(kitty_id_2) {
            Some(k) => k,
            None => {
                // unreachable: a well-formed store holds a payload for every owned id
                proof {
                    assert(false);
                }
                return Err(Error::InvalidKittyIndex);
            },
        };
        let kitty_id: u32 = match self.count {
            Some(c) => {
                if c == u32::MAX {
                    return Err(Error::KittiesCountOverflow);
                }
                c + 1
            },
            None => 1,
        };
        let new_dna = combine_dna(&entropy, &kitty1.0, &kitty2.0);
        self.kitties.insert(kitty_id, Kitty(new_dna));
        self.owners.insert(kitty_id, who);
        self.count = Some(kitty_id);
        Ok(Event::KittyCreated(who, kitty_id))
    }

    /// Lists an asset the caller owns at the given price, or withdraws
    /// the listing when the price is `None`.
    pub fn sell(&mut self, who: AccountId, kitty_id: KittyIndex, price: Option<Balance>) -> (r:
        Result<Event, Error>)
        requires
            old(self).wf(),
        ensures
            final(self).wf(),
            r is Ok <==> old(self).spec_owners().contains_key(kitty_id) && old(self).spec_owners()[kitty_id] == who,
            r is Ok ==> ({
                &&& match price {
                    Some(p) => final(self).spec_prices() == old(self).spec_prices().insert(
                        kitty_id,
                        p,
                    ) && r == Ok::<Event, Error>(Event::KittyForSale(who, kitty_id, Some(p))),
                    None => final(self).spec_prices() == old(self).spec_prices().remove(kitty_id)
                        && r == Ok::<Event, Error>(Event::KittyCancelSale(who, kitty_id)),
                }
                &&& final(self).spec_kitties() == old(self).spec_kitties()
                &&& final(self).spec_owners() == old(self).spec_owners()
                &&& final(self).spec_count() == old(self).spec_count()
                &&& old(self).ledger_eq(*final(self))
                &&& final(self).spec_total() == old(self).spec_total()
            }),
            r is Err ==> old(self).obs_eq(*final(self)) && r == Err::<Event, Error>(
                Error::NotOwnerOfKitty,
            ),
    {
        let owned = match self.owners.get(kitty_id) {
            Some(o) => o == who,
            None => false,
        };
        if !owned {
            return Err(Error::NotOwnerOfKitty);
        }
        match price {
            Some(p) => {
                self.prices.insert(kitty_id, p);
                Ok(Event::KittyForSale(who, kitty_id, Some(p)))
            },
            None => {
                self.prices.remove(kitty_id);
                Ok(Event::KittyCancelSale(who, kitty_id))
            },
        }
    }

    /// Buys a listed asset: reserves the collateral from the buyer,
    /// releases the seller's collateral, pays the listed price, removes
    /// the listing and reassigns ownership — all as one atomic unit.
    pub fn buy(&mut self, buyer: AccountId, kitty_id: KittyIndex) -> (r: Result<Event, Error>)
        requires
            old(self).wf(),
        ensures
            final(self).wf(),
            r is Ok <==> ({
                &&& old(self).spec_owners().contains_key(kitty_id)
                &&& old(self).spec_owners()[kitty_id] != buyer
                &&& old(self).spec_prices().contains_key(kitty_id)
                &&& RESERVE_OF_NEW_CREATE <= old(self).spec_free(buyer)
                &&& old(self).spec_prices()[kitty_id] <= old(self).spec_free(buyer)
                    - RESERVE_OF_NEW_CREATE
                &&& old(self).spec_free(buyer) - RESERVE_OF_NEW_CREATE - old(self).spec_prices()[kitty_id] >= 1
            }),
            r is Ok ==> ({
                let seller = old(self).spec_owners()[kitty_id];
                let price = old(self).spec_prices()[kitty_id];
                let refund = vstd::math::min(
                    RESERVE_OF_NEW_CREATE as int,
                    old(self).spec_reserved(seller) as int,
                );
                &&& r == Ok::<Event, Error>(Event::KittyTransfered(seller, buyer, kitty_id))
                &&& final(self).spec_owners() == old(self).spec_owners().insert(kitty_id, buyer)
                &&& final(self).spec_prices() == old(self).spec_prices().remove(kitty_id)
                &&& final(self).spec_kitties() == old(self).spec_kitties()
                &&& final(self).spec_count() == old(self).spec_count()
                &&& final(self).spec_free(buyer) == old(self).spec_free(buyer)
                    - RESERVE_OF_NEW_CREATE - price
                &&& final(self).spec_reserved(buyer) == old(self).spec_reserved(buyer)
                    + RESERVE_OF_NEW_CREATE
                &&& final(self).spec_free(seller) == old(self).spec_free(seller) + refund + price
                &&& final(self).spec_reserved(seller) == old(self).spec_reserved(seller) - refund
                &&& old(self).ledger_eq_except2(*final(self), buyer, seller)
                &&& final(self).spec_total() == old(self).spec_total()
            }),
            r is Err ==> old(self).obs_eq(*final(self)),
            r is Err ==> r == Err::<Event, Error>(
                if !old(self).spec_owners().contains_key(kitty_id) {
                    Error::InvalidKittyIndex
                } else if old(self).spec_owners()[kitty_id] == buyer {
                    Error::KittyAlreadyOwned
                } else if !old(self).spec_prices().contains_key(kitty_id) {
                    Error::NotForSale
                } else if old(self).spec_free(buyer) < RESERVE_OF_NEW_CREATE || old(self).spec_free(buyer) - RESERVE_OF_NEW_CREATE < old(self).spec_prices()[kitty_id] {
                    Error::NotEnoughBalance
                } else {
                    Error::WouldKillAccount
                },
            ),
    {
        let owner = match self.owners.get(kitty_id) {
            Some(o) => o,
            None => {
                return Err(Error::InvalidKittyIndex);
            },
        };
        if owner == buyer {
            return Err(Error::KittyAlreadyOwned);
        }
        let price = match self.prices.get(kitty_id) {
            Some(p) => p,
            None => {
                return Err(Error::NotForSale);
            },
        };
        let buyer_free = self.ledger.free_balance(buyer);
        if buyer_free < RESERVE_OF_NEW_CREATE {
            return Err(Error::NotEnoughBalance);
        }
        if buyer_free - RESERVE_OF_NEW_CREATE < price {
            return Err(Error::NotEnoughBalance);
        }
        if buyer_free - RESERVE_OF_NEW_CREATE - price < 1 {
            return Err(Error::WouldKillAccount);
        }
        match self.ledger.reserve(buyer, RESERVE_OF_NEW_CREATE) {
            Ok(()) => {},
            Err(_) => {
                // unreachable: the buyer's free balance was just checked
                proof {
                    assert(false);
                }
                return Err(Error::NotEnoughBalance);
            },
        }
        self.ledger.unreserve(owner, RESERVE_OF_NEW_CREATE);
        match self.ledger.transfer(buyer, owner, price, true) {
            Ok(()) => {},
            Err(_) => {
                // unreachable: the buyer keeps a residual after collateral and price
                proof {
                    assert(false);
                }
                return Err(Error::NotEnoughBalance);
            },
        }
        self.prices.remove(kitty_id);
        let ev = self.transfer_kitty(owner, buyer, kitty_id);
        Ok(ev)
    }
}

/// Monotonic unique ids, first half: after a successful allocation the
/// count stands at the assigned id, and the next allocation, if any,
/// assigns a strictly larger id.
pub proof fn lemma_allocated_ids_increase(c0: Option<u32>, c1: Option<u32>)
    requires
        can_allocate(c0),
        c1 == Some(next_kitty_id(c0)),
    ensures
        can_allocate(c1) ==> next_kitty_id(c1) > next_kitty_id(c0),
{
}

/// Monotonic unique ids, second half: in a well-formed state the id the
/// next allocation would assign does not belong to any existing asset, so
/// ids are never reused.
pub proof fn lemma_allocated_id_fresh(p: Pallet)
    requires
        p.wf(),
    ensures
        !p.spec_kitties().contains_key(next_kitty_id(p.spec_count())),
{
}

/// Single owner invariant: in every well-formed state an asset exists
/// exactly when the ownership ledger binds it to an account — and a map
/// binds each id to at most one account.
pub proof fn lemma_single_owner(p: Pallet, kitty_id: KittyIndex)
    requires
        p.wf(),
    ensures
        p.spec_kitties().contains_key(kitty_id) <==> p.spec_owners().contains_key(kitty_id),
{
}

/// A listing exists only for an existing asset.
pub proof fn lemma_listing_has_asset(p: Pallet, kitty_id: KittyIndex)
    requires
        p.wf(),
        p.spec_prices().contains_key(kitty_id),
    ensures
        p.spec_kitties().contains_key(kitty_id),
{
}

/// Escrow conservation: across a successful purchase the sum of the four
/// balances of buyer and seller is unchanged; the buyer's holdings fall
/// by the price, the seller's rise by it; the collateral ends reserved
/// under the buyer, and the seller's reserved part falls by the released
/// amount.
pub proof fn lemma_escrow_conservation(
    pre: Pallet,
    post: Pallet,
    buyer: AccountId,
    seller: AccountId,
    price: Balance,
)
    requires
        buyer != seller,
        post.spec_free(buyer) == pre.spec_free(buyer) - RESERVE_OF_NEW_CREATE - price,
        post.spec_reserved(buyer) == pre.spec_reserved(buyer) + RESERVE_OF_NEW_CREATE,
        post.spec_free(seller) == pre.spec_free(seller) + vstd::math::min(
            RESERVE_OF_NEW_CREATE as int,
            pre.spec_reserved(seller) as int,
        ) + price,
        post.spec_reserved(seller) == pre.spec_reserved(seller) - vstd::math::min(
            RESERVE_OF_NEW_CREATE as int,
            pre.spec_reserved(seller) as int,
        ),
    ensures
        post.spec_free(buyer) + post.spec_reserved(buyer) + post.spec_free(seller)
            + post.spec_reserved(seller) == pre.spec_free(buyer) + pre.spec_reserved(buyer)
            + pre.spec_free(seller) + pre.spec_reserved(seller),
        post.spec_free(buyer) + post.spec_reserved(buyer) == pre.spec_free(buyer)
            + pre.spec_reserved(buyer) - price,
        post.spec_free(seller) + post.spec_reserved(seller) == pre.spec_free(seller)
            + pre.spec_reserved(seller) + price,
{
}

} // verus!
