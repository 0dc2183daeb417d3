//! The executable ledger: the asset registry, the ownership records, the
//! sorted ask index and the currency ledger, with the five public operations
//! `create`, `breed`, `transfer`, `sale` and `buy`.
//!
//! Every operation is proved to behave exactly as the corresponding
//! transition of [`crate::state`]: it either takes full effect or fails with
//! one typed error and leaves the ledger untouched, and it preserves the
//! ledger invariants.

use vstd::prelude::*;
use crate::balances::{Balances, FundsModel};
use crate::errors::Error;
use crate::events::Event;
use crate::genome::mix;
use crate::state::{
    ask_insert, breed_tr, buy_tr, create_tr, insert_pos, lemma_breed_wf, lemma_buy_wf,
    lemma_create_wf, lemma_insert_pos_split, lemma_sale_wf, lemma_transfer_wf, sale_tr,
    strictly_sorted, transfer_tr, count_owned, KittyState, State,
};

verus! {

/// One asset record: its ask price, identifier, genome and sale flag.
#[derive(Clone, Copy, Debug)]
pub struct Kitty {
    /// The current ask price; zero while not listed.
    pub price: u128,
    /// The asset's identifier.
    pub id: u32,
    /// The immutable 16-byte genome.
    pub dna: [u8; 16],
    /// Whether the asset is currently listed for sale.
    pub for_sale: bool,
}

impl View for Kitty {
    type V = KittyState;

    open spec fn view(&self) -> KittyState {
        KittyState { id: self.id, price: self.price, dna: self.dna@, for_sale: self.for_sale }
    }
}

/// The ledger's fixed parameters.
#[derive(Clone, Copy, Debug)]
pub struct Config {
    /// The collateral reserved from an owner for each asset held.
    pub asset_deposit: u128,
}

/// The ledger instance: all state lives here and is mutated only through
/// the operations below.
pub struct Pallet {
    kitties: Vec<Kitty>,
    owners: Vec<u64>,
    market_ask: Vec<u32>,
    balances: Balances,
    config: Config,
}

impl View for Pallet {
    type V = State;

    closed spec fn view(&self) -> State {
        State {
            kitties: self.kitties@.map_values(|k: Kitty| k@),
            owners: self.owners@,
            ask: self.market_ask@,
            funds: self.balances@,
            deposit: self.config.asset_deposit,
        }
    }
}

impl Pallet {
    /// A fresh, empty ledger with the given parameters.
    pub fn new(config: Config) -> (p: Pallet)
        ensures
            p@ == State::genesis(config.asset_deposit),
            p@.wf(),
    {
        let p = Pallet {
            kitties: Vec::new(),
            owners: Vec::new(),
            market_ask: Vec::new(),
            balances: Balances::new(),
            config,
        };
        proof {
            assert(p@.kitties =~= State::genesis(config.asset_deposit).kitties);
            assert(p@ =~= State::genesis(config.asset_deposit));
            assert forall|a: u64| (#[trigger] p@.funds.reserved[a]) == p@.deposit * count_owned(
                p@.owners,
                a,
            ) by {
                assert(count_owned(p@.owners, a) == 0);
            }
        }
        p
    }

    /// Endow `who` with `amount` of spendable currency (genesis setup).
    pub fn endow(&mut self, who: u64, amount: u128)
        requires
            old(self)@.wf(),
            old(self)@.funds.free[who] + amount + old(self)@.funds.reserved[who] <= u128::MAX,
        ensures
            final(self)@ == (State {
                funds: FundsModel {
                    free: old(self)@.funds.free.insert(
                        who,
                        (old(self)@.funds.free[who] + amount) as u128,
                    ),
                    reserved: old(self)@.funds.reserved,
                },
                ..old(self)@
            }),
            final(self)@.wf(),
    {
        self.balances.endow(who, amount);
        proof {
            assert(self@.funds.reserved =~= old(self)@.funds.reserved);
            assert(self@ =~= (State {
                funds: FundsModel {
                    free: old(self)@.funds.free.insert(
                        who,
                        (old(self)@.funds.free[who] + amount) as u128,
                    ),
                    reserved: old(self)@.funds.reserved,
                },
                ..old(self)@
            }));
        }
    }

    /// How many assets have been minted so far; also the next id to allocate.
    pub fn kitties_count(&self) -> (r: u32)
        requires
            self@.wf(),
        ensures
            r == self@.kitties.len(),
    {
        self.kitties.len() as u32
    }

    /// The record of one asset, when it exists.
    pub fn kitties(&self, kitty_id: u32) -> (r: Option<Kitty>)
        ensures
            match r {
                Option::Some(k) => kitty_id < self@.kitties.len() && k@
                    == self@.kitties[kitty_id as int],
                Option::None => kitty_id >= self@.kitties.len(),
            },
    {
        if (kitty_id as usize) < self.kitties.len() {
            Some(self.kitties[kitty_id as usize])
        } else {
            None
        }
    }

    /// The owner of one asset, when it exists.
    pub fn owner(&self, kitty_id: u32) -> (r: Option<u64>)
        ensures
            match r {
                Option::Some(a) => kitty_id < self@.owners.len() && a
                    == self@.owners[kitty_id as int],
                Option::None => kitty_id >= self@.owners.len(),
            },
    {
        if (kitty_id as usize) < self.owners.len() {
            Some(self.owners[kitty_id as usize])
        } else {
            None
        }
    }

    /// The ask price of one asset: its price while listed, nothing otherwise.
    pub fn kitty_price(&self, kitty_id: u32) -> (r: Option<u128>)
        ensures
            match r {
                Option::Some(p) => kitty_id < self@.kitties.len()
                    && self@.kitties[kitty_id as int].for_sale && p
                    == self@.kitties[kitty_id as int].price,
                Option::None => kitty_id >= self@.kitties.len()
                    || !self@.kitties[kitty_id as int].for_sale,
            },
    {
        if (kitty_id as usize) < self.kitties.len() {
            let k = self.kitties[kitty_id as usize];
            if k.for_sale {
                Some(k.price)
            } else {
                None
            }
        } else {
            None
        }
    }

    /// A copy of the sorted ask index.
    pub fn market_ask(&self) -> (r: Vec<u32>)
        ensures
            r@ == self@.ask,
    {
        let mut r: Vec<u32> = Vec::new();
        let mut idx: usize = 0;
        while idx < self.market_ask.len()
            invariant
                idx <= self.market_ask@.len(),
                r@ =~= self.market_ask@.subrange(0, idx as int),
            decreases self.market_ask@.len() - idx,
        {
            r.push(self.market_ask[idx]);
            idx = idx + 1;
        }
        proof {
            assert(r@ =~= self@.ask);
        }
        r
    }

    /// The spendable balance of `who`.
    pub fn free_balance(&self, who: u64) -> (r: u128)
        ensures
            r == self@.funds.free[who],
    {
        self.balances.free_balance(who)
    }

    /// The reserved balance of `who`.
    pub fn reserved_balance(&self, who: u64) -> (r: u128)
        ensures
            r == self@.funds.reserved[who],
    {
        self.balances.reserved_balance(who)
    }

    /// The deposit constant the ledger was configured with.
    pub fn asset_deposit(&self) -> (r: u128)
        ensures
            r == self@.deposit,
    {
        self.config.asset_deposit
    }

    /// The counter value an asset minted now would be stored under, or
    /// `KittiesCountOverflow` when allocating one more id would overflow.
    pub fn next_kitty_index(&self) -> (r: Result<u32, Error>)
        requires
            self@.wf(),
        ensures
            self@.kitties.len() < u32::MAX ==> r == Ok::<u32, Error>(
                (self@.kitties.len() + 1) as u32,
            ),
            self@.kitties.len() >= u32::MAX ==> r == Err::<u32, Error>(Error::KittiesCountOverflow),
    {
        if self.kitties.len() < u32::MAX as usize {
            Ok(self.kitties.len() as u32 + 1)
        } else {
            Err(Error::KittiesCountOverflow)
        }
    }

    /// The id to use for an asset minted now (a peek that does not advance
    /// the counter), or `KittiesCountOverflow` when the counter is exhausted.
    pub fn get_kitty_index(&self) -> (r: Result<u32, Error>)
        requires
            self@.wf(),
        ensures
            self@.kitties.len() < u32::MAX ==> r == Ok::<u32, Error>(self@.kitties.len() as u32),
            self@.kitties.len() >= u32::MAX ==> r == Err::<u32, Error>(Error::KittiesCountOverflow),
    {
        match self.next_kitty_index() {
            Ok(_) => Ok(self.kitties.len() as u32),
            Err(e) => Err(e),
        }
    }

    /// The first position in the sorted index whose element is at least `k`.
    fn lower_bound(v: &Vec<u32>, k: u32) -> (p: usize)
        requires
            strictly_sorted(v@),
        ensures
            p <= v@.len(),
            forall|t: int| 0 <= t < p ==> (#[trigger] v@[t]) < k,
            forall|t: int| p <= t < v@.len() ==> (#[trigger] v@[t]) >= k,
    {
        let mut lo: usize = 0;
        let mut hi: usize = v.len();
        while lo < hi
            invariant
                lo <= hi <= v@.len(),
                strictly_sorted(v@),
                forall|t: int| 0 <= t < lo ==> (#[trigger] v@[t]) < k,
                forall|t: int| hi <= t < v@.len() ==> (#[trigger] v@[t]) >= k,
            decreases hi - lo,
        {
            let mid: usize = lo + (hi - lo) / 2;
            if v[mid] < k {
                lo = mid + 1;
            } else {
                hi = mid;
            }
        }
        lo
    }

    /// Record a listed asset in the sorted ask index, inserting it at its
    /// sorted position; recording an id already present changes nothing.
    fn add_kitty_to_ask_market(&mut self, kitty: u32) -> (r: Result<(), Error>)
        requires
            strictly_sorted(old(self)@.ask),
        ensures
            r == Ok::<(), Error>(()),
            final(self)@ == (State { ask: ask_insert(old(self)@.ask, kitty), ..old(self)@ }),
    {
        let ghost s0 = self@.ask;
        let p = Self::lower_bound(&self.market_ask, kitty);
        if p < self.market_ask.len() && self.market_ask[p] == kitty {
            proof {
                assert(s0[p as int] == kitty);
                assert(s0.contains(kitty));
                assert(self@ =~= (State { ask: ask_insert(s0, kitty), ..self@ }));
            }
            Ok(())
        } else {
            proof {
                assert(!s0.contains(kitty)) by {
                    assert forall|t: int| 0 <= t < s0.len() implies s0[t] != kitty by {
                        if t > p as int {
                            assert(s0[p as int] < s0[t]);
                        }
                    }
                }
                lemma_insert_pos_split(s0, kitty);
                assert(p as int == insert_pos(s0, kitty)) by {
                    let pos: int = insert_pos(s0, kitty);
                    if (p as int) < pos {
                        assert(s0[p as int] >= kitty);
                        assert(s0[p as int] < kitty);
                    }
                    if (p as int) > pos {
                        assert(s0[pos] < kitty);
                        assert(s0[pos] >= kitty);
                    }
                }
            }
            self.market_ask.insert(p, kitty);
            proof {
                assert(self.market_ask@ =~= ask_insert(s0, kitty));
                assert(self@ =~= (State { ask: ask_insert(s0, kitty), ..old(self)@ }));
            }
            Ok(())
        }
    }

    /// Mint a fresh asset for `who` with the drawn 16-byte genome: reserve
    /// the deposit from `who`, allocate the next id, insert the record (not
    /// for sale) and make `who` its owner.  Behaves exactly as
    /// [`create_tr`]: on failure nothing changes.
    pub fn create(&mut self, who: u64, dna: [u8; 16]) -> (r: Result<Event, Error>)
        requires
            old(self)@.wf(),
        ensures
            final(self)@ == create_tr(old(self)@, who, dna@).0,
            r == create_tr(old(self)@, who, dna@).1,
            final(self)@.wf(),
    {
        proof {
            lemma_create_wf(old(self)@, who, dna@);
        }
        let deposit: u128 = self.config.asset_deposit;
        let free = self.balances.free_balance(who);
        let reserved = self.balances.reserved_balance(who);
        if !(free >= deposit && deposit <= u128::MAX - reserved) {
            return Err(Error::MoneyNotEnough);
        }
        let kitty_id = match self.get_kitty_index() {
            Ok(id) => id,
            Err(e) => {
                return Err(e);
            },
        };
        let _ = self.balances.reserve(who, deposit);
        let kitty_obj = Kitty { price: 0, id: kitty_id, dna, for_sale: false };
        self.kitties.push(kitty_obj);
        self.owners.push(who);
        proof {
            assert(self@.kitties =~= create_tr(old(self)@, who, dna@).0.kitties);
            assert(self@ =~= create_tr(old(self)@, who, dna@).0);
        }
        Ok(Event::KittyCreate(who, kitty_id))
    }

    /// Derive a child of the two parents for `who`: the child's genome mixes
    /// the parents' genomes under the drawn selector, byte by byte, and the
    /// child is minted exactly as in `create`.  Behaves exactly as
    /// [`breed_tr`]: on failure nothing changes.
    pub fn breed(&mut self, who: u64, kitty_id_1: u32, kitty_id_2: u32, selector: [u8; 16]) -> (r:
        Result<Event, Error>)
        requires
            old(self)@.wf(),
        ensures
            final(self)@ == breed_tr(old(self)@, who, kitty_id_1, kitty_id_2, selector@).0,
            r == breed_tr(old(self)@, who, kitty_id_1, kitty_id_2, selector@).1,
            final(self)@.wf(),
    {
        proof {
            lemma_breed_wf(old(self)@, who, kitty_id_1, kitty_id_2, selector@);
        }
        if kitty_id_1 == kitty_id_2 {
            return Err(Error::SameParentIndex);
        }
        if !((kitty_id_1 as usize) < self.kitties.len()) {
            return Err(Error::InvalidKittyIndex);
        }
        if !((kitty_id_2 as usize) < self.kitties.len()) {
            return Err(Error::InvalidKittyIndex);
        }
        let deposit: u128 = self.config.asset_deposit;
        let free = self.balances.free_balance(who);
        let reserved = self.balances.reserved_balance(who);
        if !(free >= deposit && deposit <= u128::MAX - reserved) {
            return Err(Error::MoneyNotEnough);
        }
        let kitty_id = match self.get_kitty_index() {
            Ok(id) => id,
            Err(e) => {
                return Err(e);
            },
        };
        let kitty_1 = self.kitties[kitty_id_1 as usize];
        let kitty_2 = self.kitties[kitty_id_2 as usize];
        let new_dna = mix(&kitty_1.dna, &kitty_2.dna, &selector);
        let _ = self.balances.reserve(who, deposit);
        let kitty_obj = Kitty { price: 0, id: kitty_id, dna: new_dna, for_sale: false };
        self.kitties.push(kitty_obj);
        self.owners.push(who);
        proof {
            let expected = breed_tr(old(self)@, who, kitty_id_1, kitty_id_2, selector@).0;
            assert(self@.kitties =~= expected.kitties);
            assert(self@ =~= expected);
        }
        Ok(Event::KittyCreate(who, kitty_id))
    }

    /// The shared ownership rewrite: move `kitty_id` from `from` to `to`,
    /// reserving the deposit from `to` before releasing `from`'s.
    fn transfer_to(&mut self, from: u64, to: u64, kitty_id: u32) -> (r: Result<Event, Error>)
        requires
            old(self)@.wf(),
        ensures
            final(self)@ == transfer_tr(old(self)@, from, to, kitty_id).0,
            r == transfer_tr(old(self)@, from, to, kitty_id).1,
            final(self)@.wf(),
    {
        proof {
            lemma_transfer_wf(old(self)@, from, to, kitty_id);
        }
        if !((kitty_id as usize) < self.kitties.len()) {
            return Err(Error::InvalidKittyIndex);
        }
        let idx: usize = kitty_id as usize;
        if self.owners[idx] != from {
            return Err(Error::NotOwner);
        }
        if to == from {
            return Err(Error::AlreadyOwned);
        }
        let deposit: u128 = self.config.asset_deposit;
        let free_to = self.balances.free_balance(to);
        let reserved_to = self.balances.reserved_balance(to);
        if !(free_to >= deposit && deposit <= u128::MAX - reserved_to) {
            return Err(Error::MoneyNotEnough);
        }
        let _ = self.balances.reserve(to, deposit);
        self.balances.unreserve(from, deposit);
        self.owners[idx] = to;
        proof {
            assert(self@ =~= transfer_tr(old(self)@, from, to, kitty_id).0);
        }
        Ok(Event::KittyTransfer(from, to, kitty_id))
    }

    /// Move ownership of `kitty_id` from `from` to `to`, moving the deposit
    /// with it.  Behaves exactly as [`transfer_tr`]: fails on an absent
    /// asset, when `from` is not the owner, on a self-transfer, or when `to`
    /// cannot cover the deposit, changing nothing.
    pub fn transfer(&mut self, from: u64, to: u64, kitty_id: u32) -> (r: Result<Event, Error>)
        requires
            old(self)@.wf(),
        ensures
            final(self)@ == transfer_tr(old(self)@, from, to, kitty_id).0,
            r == transfer_tr(old(self)@, from, to, kitty_id).1,
            final(self)@.wf(),
    {
        self.transfer_to(from, to, kitty_id)
    }

    /// Overwrite one asset's price and sale flag, and record it in the ask
    /// index when it is being listed.
    fn set_kitty_price(&mut self, kitty_id: u32, new_price: u128, for_sale: bool) -> (r: Result<
        (),
        Error,
    >)
        requires
            strictly_sorted(old(self)@.ask),
        ensures
            kitty_id < old(self)@.kitties.len() ==> {
                let k = old(self)@.kitties[kitty_id as int];
                &&& r == Ok::<(), Error>(())
                &&& final(self)@ == (State {
                    kitties: old(self)@.kitties.update(
                        kitty_id as int,
                        KittyState { price: new_price, for_sale, ..k },
                    ),
                    ask: if for_sale {
                        ask_insert(old(self)@.ask, kitty_id)
                    } else {
                        old(self)@.ask
                    },
                    ..old(self)@
                })
            },
            kitty_id >= old(self)@.kitties.len() ==> r == Err::<(), Error>(Error::InvalidKittyIndex)
                && final(self)@ == old(self)@,
    {
        if !((kitty_id as usize) < self.kitties.len()) {
            return Err(Error::InvalidKittyIndex);
        }
        let idx: usize = kitty_id as usize;
        let mut kitty_obj = self.kitties[idx];
        kitty_obj.price = new_price;
        kitty_obj.for_sale = for_sale;
        self.kitties[idx] = kitty_obj;
        proof {
            let k = old(self)@.kitties[kitty_id as int];
            assert(self@.kitties =~= old(self)@.kitties.update(
                kitty_id as int,
                KittyState { price: new_price, for_sale, ..k },
            ));
        }
        if for_sale {
            let _ = self.add_kitty_to_ask_market(kitty_id);
        }
        proof {
            assert(self@ =~= (State {
                kitties: old(self)@.kitties.update(
                    kitty_id as int,
                    KittyState {
                        price: new_price,
                        for_sale,
                        ..old(self)@.kitties[kitty_id as int]
                    },
                ),
                ask: if for_sale {
                    ask_insert(old(self)@.ask, kitty_id)
                } else {
                    old(self)@.ask
                },
                ..old(self)@
            }));
        }
        Ok(())
    }

    /// List `kitty_id` at `kitty_price`, overwriting any earlier listing and
    /// recording the id in the ask index.  Behaves exactly as [`sale_tr`]:
    /// fails on an absent asset, a caller who is not the owner, or a zero
    /// price, changing nothing.
    pub fn sale(&mut self, who: u64, kitty_id: u32, kitty_price: u128) -> (r: Result<Event, Error>)
        requires
            old(self)@.wf(),
        ensures
            final(self)@ == sale_tr(old(self)@, who, kitty_id, kitty_price).0,
            r == sale_tr(old(self)@, who, kitty_id, kitty_price).1,
            final(self)@.wf(),
    {
        proof {
            lemma_sale_wf(old(self)@, who, kitty_id, kitty_price);
        }
        if !((kitty_id as usize) < self.kitties.len()) {
            return Err(Error::InvalidKittyIndex);
        }
        if self.owners[kitty_id as usize] != who {
            return Err(Error::NotOwner);
        }
        if kitty_price == 0 {
            return Err(Error::NotForSale);
        }
        let _ = self.set_kitty_price(kitty_id, kitty_price, true);
        proof {
            assert(self@ =~= sale_tr(old(self)@, who, kitty_id, kitty_price).0);
        }
        Ok(Event::KittyForSale(who, kitty_id, kitty_price))
    }

    /// Buy `kitty_id` for at most `bid_price`: pay the ask price from the
    /// buyer to the owner (keeping the buyer alive), clear the sale state and
    /// move ownership and deposit to the buyer, all atomically.  Behaves
    /// exactly as [`buy_tr`]: on any failure nothing changes — the payment is
    /// never made unless the whole operation goes through.
    pub fn buy(&mut self, buyer: u64, kitty_id: u32, bid_price: u128) -> (r: Result<Event, Error>)
        requires
            old(self)@.wf(),
        ensures
            final(self)@ == buy_tr(old(self)@, buyer, kitty_id, bid_price).0,
            r == buy_tr(old(self)@, buyer, kitty_id, bid_price).1,
            final(self)@.wf(),
    {
        proof {
            lemma_buy_wf(old(self)@, buyer, kitty_id, bid_price);
        }
        if !((kitty_id as usize) < self.kitties.len()) {
            return Err(Error::InvalidKittyIndex);
        }
        let idx: usize = kitty_id as usize;
        let seller = self.owners[idx];
        if seller == buyer {
            return Err(Error::AlreadyOwned);
        }
        let kitty_obj = self.kitties[idx];
        if !kitty_obj.for_sale || kitty_obj.price == 0 {
            return Err(Error::NotForSale);
        }
        if kitty_obj.price > bid_price {
            return Err(Error::OutOfBudget);
        }
        let kitty_price: u128 = kitty_obj.price;
        let deposit: u128 = self.config.asset_deposit;
        let free_buyer = self.balances.free_balance(buyer);
        let free_seller = self.balances.free_balance(seller);
        let reserved_seller = self.balances.reserved_balance(seller);
        if !(free_buyer >= kitty_price && free_buyer - kitty_price > 0 && kitty_price <= u128::MAX
            - free_seller && kitty_price <= u128::MAX - free_seller - reserved_seller) {
            return Err(Error::TransferFailed);
        }
        let reserved_buyer = self.balances.reserved_balance(buyer);
        if !(free_buyer - kitty_price >= deposit && deposit <= u128::MAX - reserved_buyer) {
            return Err(Error::MoneyNotEnough);
        }
        let _ = self.balances.transfer(buyer, seller, kitty_price, true);
        let mut sold = kitty_obj;
        sold.price = 0;
        sold.for_sale = false;
        self.kitties[idx] = sold;
        let _ = self.balances.reserve(buyer, deposit);
        self.balances.unreserve(seller, deposit);
        self.owners[idx] = buyer;
        proof {
            let expected = buy_tr(old(self)@, buyer, kitty_id, bid_price).0;
            assert(self@.kitties =~= expected.kitties);
            assert(self@ =~= expected);
        }
        Ok(Event::KittySaleOut(buyer, kitty_id, kitty_price))
    }
}

} // verus!
