//! The fungible-currency ledger: one spendable ("free") and one collateral
//! ("reserved") balance per account, with the three primitives the asset
//! ledger needs: `reserve`, `unreserve` and `transfer`.
//!
//! Every primitive checks its own preconditions and either takes full effect
//! or changes nothing, so callers can build atomic operations on top.

use vstd::prelude::*;
use std::collections::HashMap;
use crate::errors::Error;

verus! {

broadcast use vstd::std_specs::hash::group_hash_axioms;

/// The balances of one account.
#[derive(Clone, Copy, Debug, PartialEq, Eq, Structural)]
pub struct AccountData {
    /// Spendable balance.
    pub free: u128,
    /// Balance locked as collateral.
    pub reserved: u128,
}

/// The smaller of two amounts.
pub open spec fn min_u128(a: u128, b: u128) -> u128 {
    if a <= b {
        a
    } else {
        b
    }
}

/// The mathematical model of the currency ledger: total maps from account to
/// free and to reserved balance, with absent accounts holding zero.
#[verifier::ext_equal]
pub struct FundsModel {
    /// Spendable balance of every account.
    pub free: Map<u64, u128>,
    /// Reserved balance of every account.
    pub reserved: Map<u64, u128>,
}

impl FundsModel {
    /// Both maps are total: every account has a balance, absent ones zero.
    pub open spec fn total(self) -> bool {
        &&& forall|a: u64| self.free.dom().contains(a)
        &&& forall|a: u64| self.reserved.dom().contains(a)
    }

    /// The ledger with no endowed accounts.
    pub open spec fn empty() -> FundsModel {
        FundsModel {
            free: Map::new(|a: u64| true, |a: u64| 0u128),
            reserved: Map::new(|a: u64| true, |a: u64| 0u128),
        }
    }

    /// `amount` can move from `who`'s free balance into reserve.
    pub open spec fn can_reserve(self, who: u64, amount: u128) -> bool {
        &&& self.free[who] >= amount
        &&& self.reserved[who] + amount <= u128::MAX
    }

    /// The ledger after reserving `amount` from `who`.
    pub open spec fn reserve_done(self, who: u64, amount: u128) -> FundsModel {
        FundsModel {
            free: self.free.insert(who, (self.free[who] - amount) as u128),
            reserved: self.reserved.insert(who, (self.reserved[who] + amount) as u128),
        }
    }

    /// How much an unreserve of `amount` actually moves: all of it when that
    /// much is reserved, the whole reserve otherwise (best effort).
    pub open spec fn unreserve_moved(self, who: u64, amount: u128) -> u128 {
        min_u128(amount, self.reserved[who])
    }

    /// The ledger after unreserving `amount` for `who`.
    pub open spec fn unreserve_done(self, who: u64, amount: u128) -> FundsModel {
        let moved = self.unreserve_moved(who, amount);
        FundsModel {
            free: self.free.insert(who, (self.free[who] + moved) as u128),
            reserved: self.reserved.insert(who, (self.reserved[who] - moved) as u128),
        }
    }

    /// `amount` can be paid from `from`'s free balance to `to`'s; with
    /// `keep_alive` the payer must be left with a positive free balance.
    pub open spec fn can_transfer(self, from: u64, to: u64, amount: u128, keep_alive: bool) -> bool {
        &&& self.free[from] >= amount
        &&& keep_alive ==> self.free[from] - amount > 0
        &&& from != to ==> self.free[to] + amount <= u128::MAX
    }

    /// The ledger after paying `amount` from `from` to `to`.
    pub open spec fn transfer_done(self, from: u64, to: u64, amount: u128) -> FundsModel {
        if from == to {
            self
        } else {
            FundsModel {
                free: self.free.insert(from, (self.free[from] - amount) as u128).insert(
                    to,
                    (self.free[to] + amount) as u128,
                ),
                reserved: self.reserved,
            }
        }
    }
}

/// The spendable balance of every account recorded in `m`, zero elsewhere.
pub open spec fn free_map(m: Map<u64, AccountData>) -> Map<u64, u128> {
    Map::new(
        |a: u64| true,
        |a: u64|
            if m.contains_key(a) {
                m[a].free
            } else {
                0u128
            },
    )
}

/// The reserved balance of every account recorded in `m`, zero elsewhere.
pub open spec fn reserved_map(m: Map<u64, AccountData>) -> Map<u64, u128> {
    Map::new(
        |a: u64| true,
        |a: u64|
            if m.contains_key(a) {
                m[a].reserved
            } else {
                0u128
            },
    )
}

/// The executable currency ledger.
pub struct Balances {
    accounts: HashMap<u64, AccountData>,
}

impl View for Balances {
    type V = FundsModel;

    closed spec fn view(&self) -> FundsModel {
        FundsModel { free: free_map(self.accounts@), reserved: reserved_map(self.accounts@) }
    }
}

impl Balances {
    /// A ledger where every account holds nothing.
    pub fn new() -> (b: Balances)
        ensures
            b@ == FundsModel::empty(),
    {
        let b = Balances { accounts: HashMap::new() };
        proof {
            assert(b@.free =~= FundsModel::empty().free);
            assert(b@.reserved =~= FundsModel::empty().reserved);
            assert(b@ =~= FundsModel::empty());
        }
        b
    }

    /// The recorded balances of `who`, zero when the account is unknown.
    fn account(&self, who: u64) -> (d: AccountData)
        ensures
            d.free == self@.free[who],
            d.reserved == self@.reserved[who],
    {
        match self.accounts.get(&who) {
            Option::Some(d) => *d,
            Option::None => AccountData { free: 0, reserved: 0 },
        }
    }

    /// Record `d` as the balances of `who`.
    fn put_account(&mut self, who: u64, d: AccountData)
        ensures
            final(self)@.free == old(self)@.free.insert(who, d.free),
            final(self)@.reserved == old(self)@.reserved.insert(who, d.reserved),
    {
        self.accounts.insert(who, d);
        proof {
            assert(self@.free =~= old(self)@.free.insert(who, d.free));
            assert(self@.reserved =~= old(self)@.reserved.insert(who, d.reserved));
        }
    }

    /// The spendable balance of `who`.
    pub fn free_balance(&self, who: u64) -> (r: u128)
        ensures
            r == self@.free[who],
    {
        self.account(who).free
    }

    /// The reserved balance of `who`.
    pub fn reserved_balance(&self, who: u64) -> (r: u128)
        ensures
            r == self@.reserved[who],
    {
        self.account(who).reserved
    }

    /// Add `amount` to `who`'s spendable balance (endowment at genesis).
    pub fn endow(&mut self, who: u64, amount: u128)
        requires
            old(self)@.free[who] + amount <= u128::MAX,
        ensures
            final(self)@.free == old(self)@.free.insert(
                who,
                (old(self)@.free[who] + amount) as u128,
            ),
            final(self)@.reserved == old(self)@.reserved.insert(who, old(self)@.reserved[who]),
    {
        let d = self.account(who);
        self.put_account(who, AccountData { free: d.free + amount, reserved: d.reserved });
    }

    /// Move `amount` from `who`'s free balance into reserve; fails, changing
    /// nothing, when the free balance cannot cover it.
    pub fn reserve(&mut self, who: u64, amount: u128) -> (r: Result<(), Error>)
        ensures
            r is Ok <==> old(self)@.can_reserve(who, amount),
            r is Ok ==> final(self)@ == old(self)@.reserve_done(who, amount),
            r is Err ==> final(self)@ == old(self)@ && r == Err::<(), Error>(Error::MoneyNotEnough),
    {
        let d = self.account(who);
        if d.free >= amount && amount <= u128::MAX - d.reserved {
            self.put_account(
                who,
                AccountData { free: d.free - amount, reserved: d.reserved + amount },
            );
            Ok(())
        } else {
            Err(Error::MoneyNotEnough)
        }
    }

    /// Release up to `amount` of `who`'s reserve back into the free balance;
    /// moves the whole remaining reserve when less than `amount` is held.
    pub fn unreserve(&mut self, who: u64, amount: u128)
        requires
            old(self)@.free[who] + old(self)@.unreserve_moved(who, amount) <= u128::MAX,
        ensures
            final(self)@ == old(self)@.unreserve_done(who, amount),
    {
        let d = self.account(who);
        let moved = if amount <= d.reserved {
            amount
        } else {
            d.reserved
        };
        self.put_account(who, AccountData { free: d.free + moved, reserved: d.reserved - moved });
    }

    /// Pay `amount` from `from`'s free balance to `to`'s; with `keep_alive`
    /// the payer must be left with a positive free balance.  Fails, changing
    /// nothing, when the payment cannot be made.
    pub fn transfer(&mut self, from: u64, to: u64, amount: u128, keep_alive: bool) -> (r: Result<
        (),
        Error,
    >)
        ensures
            r is Ok <==> old(self)@.can_transfer(from, to, amount, keep_alive),
            r is Ok ==> final(self)@ == old(self)@.transfer_done(from, to, amount),
            r is Err ==> final(self)@ == old(self)@ && r == Err::<(), Error>(Error::TransferFailed),
    {
        let df = self.account(from);
        if !(df.free >= amount && (!keep_alive || df.free - amount > 0)) {
            return Err(Error::TransferFailed);
        }
        if from == to {
            return Ok(());
        }
        let dt = self.account(to);
        if amount > u128::MAX - dt.free {
            return Err(Error::TransferFailed);
        }
        self.put_account(from, AccountData { free: df.free - amount, reserved: df.reserved });
        self.put_account(to, AccountData { free: dt.free + amount, reserved: dt.reserved });
        proof {
            assert(self@.free =~= old(self)@.transfer_done(from, to, amount).free);
            assert(self@ =~= old(self)@.transfer_done(from, to, amount));
        }
        Ok(())
    }
}

} // verus!
