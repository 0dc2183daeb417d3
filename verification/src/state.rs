//! The mathematical model of the ledger and of its five operations.
//!
//! A `State` holds the asset records, the ownership relation, the sorted ask
//! index, the currency ledger and the deposit constant.  Each operation is a
//! total function from a state and a request to the next state and the
//! reported outcome, so replaying the same requests from the same state
//! always reproduces the same ledger.

use vstd::prelude::*;
use crate::balances::FundsModel;
use crate::errors::Error;
use crate::events::Event;
use crate::genome::mix_spec;

verus! {

/// Model of one asset record.
#[verifier::ext_equal]
pub struct KittyState {
    /// The asset's identifier, equal to its position in the registry.
    pub id: u32,
    /// The current ask price; zero when the asset has never been listed or
    /// was sold.
    pub price: u128,
    /// The immutable 16-byte genome.
    pub dna: Seq<u8>,
    /// Whether the asset is currently listed for sale.
    pub for_sale: bool,
}

/// Model of the whole ledger.
#[verifier::ext_equal]
pub struct State {
    /// Asset records, indexed by asset identifier.
    pub kitties: Seq<KittyState>,
    /// The owner of each asset, at the asset's index.
    pub owners: Seq<u64>,
    /// The sorted, duplicate-free auxiliary index of listed asset ids.
    pub ask: Seq<u32>,
    /// The currency ledger.
    pub funds: FundsModel,
    /// The collateral reserved from an owner for each asset held.
    pub deposit: u128,
}

/// How many assets in `owners` belong to `who`.
pub open spec fn count_owned(owners: Seq<u64>, who: u64) -> nat
    decreases owners.len(),
{
    if owners.len() == 0 {
        0
    } else {
        count_owned(owners.drop_last(), who) + if owners.last() == who {
            1nat
        } else {
            0nat
        }
    }
}

/// Appending an owner raises exactly that owner's count by one.
pub proof fn lemma_count_owned_push(owners: Seq<u64>, x: u64, a: u64)
    ensures
        count_owned(owners.push(x), a) == count_owned(owners, a) + if x == a {
            1nat
        } else {
            0nat
        },
{
    assert(owners.push(x).drop_last() =~= owners);
    assert(owners.push(x).last() == x);
}

/// An account owning the asset at position `i` owns at least one asset.
pub proof fn lemma_count_owned_at_least_one(owners: Seq<u64>, i: int, a: u64)
    requires
        0 <= i < owners.len(),
        owners[i] == a,
    ensures
        count_owned(owners, a) >= 1,
    decreases owners.len(),
{
    if i < owners.len() - 1 {
        lemma_count_owned_at_least_one(owners.drop_last(), i, a);
    }
}

/// Rewriting the owner at position `i` moves one unit of count from the old
/// owner to the new one.
pub proof fn lemma_count_owned_update(owners: Seq<u64>, i: int, x: u64, a: u64)
    requires
        0 <= i < owners.len(),
    ensures
        count_owned(owners.update(i, x), a) == count_owned(owners, a) - (
        if owners[i] == a {
            1nat
        } else {
            0nat
        }) + (
        if x == a {
            1nat
        } else {
            0nat
        }),
    decreases owners.len(),
{
    let s2 = owners.update(i, x);
    if i == owners.len() - 1 {
        assert(s2.drop_last() =~= owners.drop_last());
    } else {
        assert(s2.drop_last() =~= owners.drop_last().update(i, x));
        lemma_count_owned_update(owners.drop_last(), i, x, a);
    }
}

/// The ask index holds strictly increasing asset ids: sorted and free of
/// duplicates.
pub open spec fn strictly_sorted(s: Seq<u32>) -> bool {
    forall|i: int, j: int| 0 <= i < j < s.len() ==> s[i] < s[j]
}

/// Where `k` belongs in the sorted sequence `s`: the number of leading
/// elements below `k`.
pub open spec fn insert_pos(s: Seq<u32>, k: u32) -> int
    decreases s.len(),
{
    if s.len() == 0 {
        0
    } else if s[0] < k {
        1 + insert_pos(s.drop_first(), k)
    } else {
        0
    }
}

/// The ask index after recording `k`: unchanged when already present, else
/// `k` spliced in at its sorted position.
pub open spec fn ask_insert(s: Seq<u32>, k: u32) -> Seq<u32> {
    if s.contains(k) {
        s
    } else {
        s.subrange(0, insert_pos(s, k)) + seq![k] + s.subrange(insert_pos(s, k), s.len() as int)
    }
}

pub proof fn lemma_insert_pos_bounds(s: Seq<u32>, k: u32)
    ensures
        0 <= insert_pos(s, k) <= s.len(),
    decreases s.len(),
{
    if s.len() > 0 && s[0] < k {
        lemma_insert_pos_bounds(s.drop_first(), k);
    }
}

/// In a sorted sequence, everything before the insertion position is below
/// `k` and everything from it on is at least `k`.
pub proof fn lemma_insert_pos_split(s: Seq<u32>, k: u32)
    requires
        strictly_sorted(s),
    ensures
        0 <= insert_pos(s, k) <= s.len(),
        forall|i: int| 0 <= i < insert_pos(s, k) ==> s[i] < k,
        forall|i: int| insert_pos(s, k) <= i < s.len() ==> s[i] >= k,
    decreases s.len(),
{
    lemma_insert_pos_bounds(s, k);
    if s.len() == 0 {
    } else if s[0] < k {
        let rest = s.drop_first();
        assert(strictly_sorted(rest)) by {
            assert(forall|i: int, j: int|
                0 <= i < j < rest.len() ==> rest[i] == s[i + 1] && rest[j] == s[j + 1]);
        }
        lemma_insert_pos_split(rest, k);
        assert(forall|i: int| 1 <= i < s.len() ==> s[i] == rest[i - 1]);
    } else {
        assert(forall|i: int| 0 < i < s.len() ==> #[trigger] s[i] > s[0]);
    }
}

/// Inserting into a sorted ask index keeps it sorted, and its elements are
/// exactly the old ones together with `k`.
pub proof fn lemma_ask_insert_props(s: Seq<u32>, k: u32)
    requires
        strictly_sorted(s),
    ensures
        strictly_sorted(ask_insert(s, k)),
        forall|x: u32| ask_insert(s, k).contains(x) <==> (s.contains(x) || x == k),
        s.contains(k) ==> ask_insert(s, k) == s,
        !s.contains(k) ==> ask_insert(s, k).len() == s.len() + 1,
{
    if s.contains(k) {
    } else {
        lemma_insert_pos_split(s, k);
        let p: int = insert_pos(s, k);
        let t = ask_insert(s, k);
        assert(t.len() == s.len() + 1);
        assert(forall|i: int| 0 <= i < p ==> t[i] == s[i]);
        assert(t[p] == k);
        assert(forall|i: int| p < i < t.len() ==> t[i] == s[i - 1]);
        assert(forall|i: int| p <= i < s.len() ==> s[i] > k) by {
            assert(forall|i: int| p <= i < s.len() ==> s[i] >= k && s[i] != k);
        }
        assert(strictly_sorted(t)) by {
            assert(forall|i: int, j: int| 0 <= i < j < t.len() ==> t[i] < t[j]);
        }
        assert(forall|x: u32| s.contains(x) ==> t.contains(x)) by {
            assert(forall|i: int|
                0 <= i < s.len() ==> t[if i < p {
                    i
                } else {
                    i + 1
                }] == s[i]);
        }
        assert(forall|x: u32| t.contains(x) ==> (s.contains(x) || x == k)) by {
            assert(forall|i: int|
                0 <= i < t.len() && i != p ==> t[i] == s[if i < p {
                    i
                } else {
                    i - 1
                }]);
        }
        assert(t.contains(k)) by {
            assert(t[p] == k);
        }
    }
}

impl State {
    /// The ledger invariants:
    /// every asset id equals its registry position (so no two live assets
    /// share an id and every asset has exactly one owner); a listed asset has
    /// a positive price; genomes are 16 bytes; the ask index is sorted,
    /// duplicate-free, holds only existing ids and holds every listed id;
    /// every account's reserve is exactly the deposit for each asset it owns;
    /// and no account's two balances can overflow together.
    pub open spec fn wf(self) -> bool {
        &&& self.owners.len() == self.kitties.len()
        &&& self.kitties.len() <= u32::MAX
        &&& forall|i: int| 0 <= i < self.kitties.len() ==> (#[trigger] self.kitties[i]).id == i
        &&& forall|i: int|
            0 <= i < self.kitties.len() ==> ((#[trigger] self.kitties[i]).for_sale
                ==> self.kitties[i].price > 0)
        &&& forall|i: int|
            0 <= i < self.kitties.len() ==> (#[trigger] self.kitties[i]).dna.len() == 16
        &&& strictly_sorted(self.ask)
        &&& forall|j: int| 0 <= j < self.ask.len() ==> (#[trigger] self.ask[j]) < self.kitties.len()
        &&& forall|i: int|
            0 <= i < self.kitties.len() && (#[trigger] self.kitties[i]).for_sale
                ==> self.ask.contains(i as u32)
        &&& self.funds.total()
        &&& forall|a: u64|
            (#[trigger] self.funds.reserved[a]) == self.deposit * count_owned(self.owners, a)
        &&& forall|a: u64| (#[trigger] self.funds.free[a]) + self.funds.reserved[a] <= u128::MAX
    }

    /// The empty ledger with the given deposit constant.
    pub open spec fn genesis(deposit: u128) -> State {
        State {
            kitties: Seq::empty(),
            owners: Seq::empty(),
            ask: Seq::empty(),
            funds: FundsModel::empty(),
            deposit,
        }
    }

    /// The id the allocator would hand out next.
    pub open spec fn next_id(self) -> nat {
        self.kitties.len()
    }
}

/// The ledger after minting a fresh asset with genome `dna` for `who`:
/// the deposit is reserved from `who`, the record is appended with the next
/// id, not for sale, and `who` becomes its owner.
pub open spec fn mint(s: State, who: u64, dna: Seq<u8>) -> State {
    State {
        kitties: s.kitties.push(
            KittyState { id: s.kitties.len() as u32, price: 0, dna, for_sale: false },
        ),
        owners: s.owners.push(who),
        funds: s.funds.reserve_done(who, s.deposit),
        ..s
    }
}

/// `create`: reserve the deposit from the caller, allocate the next id and
/// mint a fresh asset with the drawn genome.  Fails with `MoneyNotEnough`
/// when the caller cannot cover the deposit, and with
/// `KittiesCountOverflow` when the id counter is exhausted.
pub open spec fn create_tr(s: State, who: u64, dna: Seq<u8>) -> (State, Result<Event, Error>) {
    if !s.funds.can_reserve(who, s.deposit) {
        (s, Err(Error::MoneyNotEnough))
    } else if s.kitties.len() >= u32::MAX {
        (s, Err(Error::KittiesCountOverflow))
    } else {
        (mint(s, who, dna), Ok(Event::KittyCreate(who, s.kitties.len() as u32)))
    }
}

/// `breed`: mix the two parent genomes under the drawn selector and mint the
/// child exactly as `create` does.  Fails with `SameParentIndex` when the two
/// parents are the same index (whether or not it exists), and with
/// `InvalidKittyIndex` when either parent is absent.
pub open spec fn breed_tr(s: State, who: u64, parent_a: u32, parent_b: u32, selector: Seq<u8>) -> (
    State,
    Result<Event, Error>,
) {
    if parent_a == parent_b {
        (s, Err(Error::SameParentIndex))
    } else if parent_a >= s.kitties.len() || parent_b >= s.kitties.len() {
        (s, Err(Error::InvalidKittyIndex))
    } else if !s.funds.can_reserve(who, s.deposit) {
        (s, Err(Error::MoneyNotEnough))
    } else if s.kitties.len() >= u32::MAX {
        (s, Err(Error::KittiesCountOverflow))
    } else {
        let dna = mix_spec(
            s.kitties[parent_a as int].dna,
            s.kitties[parent_b as int].dna,
            selector,
        );
        (mint(s, who, dna), Ok(Event::KittyCreate(who, s.kitties.len() as u32)))
    }
}

/// `transfer`: move ownership of `id` from `from` to `to`, moving the
/// deposit with it: the deposit is reserved from `to` first, and only then
/// released to `from`.  Fails with `InvalidKittyIndex` when the asset is
/// absent, with `NotOwner` when `from` does not own it, with `AlreadyOwned`
/// on a self-transfer, and with `MoneyNotEnough` when `to` cannot cover the
/// deposit; a failing transfer changes nothing.
pub open spec fn transfer_tr(s: State, from: u64, to: u64, id: u32) -> (
    State,
    Result<Event, Error>,
) {
    if id >= s.kitties.len() {
        (s, Err(Error::InvalidKittyIndex))
    } else if s.owners[id as int] != from {
        (s, Err(Error::NotOwner))
    } else if to == from {
        (s, Err(Error::AlreadyOwned))
    } else if !s.funds.can_reserve(to, s.deposit) {
        (s, Err(Error::MoneyNotEnough))
    } else {
        let funds = s.funds.reserve_done(to, s.deposit).unreserve_done(from, s.deposit);
        (
            State { owners: s.owners.update(id as int, to), funds, ..s },
            Ok(Event::KittyTransfer(from, to, id)),
        )
    }
}

/// `sale`: list the asset at the given price, overwriting any earlier
/// listing, and record the id in the ask index.  Fails with
/// `InvalidKittyIndex` when the asset is absent, with `NotOwner` when the
/// caller does not own it, and with `NotForSale` when the price is zero
/// (a zero price means "not listed").
pub open spec fn sale_tr(s: State, who: u64, id: u32, price: u128) -> (
    State,
    Result<Event, Error>,
) {
    if id >= s.kitties.len() {
        (s, Err(Error::InvalidKittyIndex))
    } else if s.owners[id as int] != who {
        (s, Err(Error::NotOwner))
    } else if price == 0 {
        (s, Err(Error::NotForSale))
    } else {
        let k = s.kitties[id as int];
        let k2 = KittyState { price, for_sale: true, ..k };
        (
            State {
                kitties: s.kitties.update(id as int, k2),
                ask: ask_insert(s.ask, id),
                ..s
            },
            Ok(Event::KittyForSale(who, id, price)),
        )
    }
}

/// The seller can receive the price: the payment itself can be made with the
/// buyer kept alive, and the seller's balances can absorb both the price and
/// the deposit about to be released.
pub open spec fn seller_can_be_paid(s: State, buyer: u64, seller: u64, price: u128) -> bool {
    &&& s.funds.can_transfer(buyer, seller, price, true)
    &&& s.funds.free[seller] + s.funds.reserved[seller] + price <= u128::MAX
}

/// `buy`: pay the ask price from the buyer to the owner, clear the sale
/// state, and move ownership and deposit to the buyer, all atomically.
/// Fails with `InvalidKittyIndex` when the asset is absent, with
/// `AlreadyOwned` when the buyer already owns it, with `NotForSale` when it
/// is not listed, with `OutOfBudget` when the ask price exceeds the bid
/// limit, with `TransferFailed` when the payment cannot be made, and with
/// `MoneyNotEnough` when the buyer cannot also cover the deposit; a failing
/// buy changes nothing.
pub open spec fn buy_tr(s: State, buyer: u64, id: u32, bid: u128) -> (State, Result<Event, Error>) {
    if id >= s.kitties.len() {
        (s, Err(Error::InvalidKittyIndex))
    } else if s.owners[id as int] == buyer {
        (s, Err(Error::AlreadyOwned))
    } else {
        let seller = s.owners[id as int];
        let k = s.kitties[id as int];
        if !k.for_sale || k.price == 0 {
            (s, Err(Error::NotForSale))
        } else if k.price > bid {
            (s, Err(Error::OutOfBudget))
        } else if !seller_can_be_paid(s, buyer, seller, k.price) {
            (s, Err(Error::TransferFailed))
        } else if !s.funds.transfer_done(buyer, seller, k.price).can_reserve(buyer, s.deposit) {
            (s, Err(Error::MoneyNotEnough))
        } else {
            let funds = s.funds.transfer_done(buyer, seller, k.price).reserve_done(
                buyer,
                s.deposit,
            ).unreserve_done(seller, s.deposit);
            let k2 = KittyState { price: 0, for_sale: false, ..k };
            (
                State {
                    kitties: s.kitties.update(id as int, k2),
                    owners: s.owners.update(id as int, buyer),
                    funds,
                    ..s
                },
                Ok(Event::KittySaleOut(buyer, id, k.price)),
            )
        }
    }
}

/// Minting preserves the ledger invariants.
pub proof fn lemma_mint_wf(s: State, who: u64, dna: Seq<u8>)
    requires
        s.wf(),
        dna.len() == 16,
        s.funds.can_reserve(who, s.deposit),
        s.kitties.len() < u32::MAX,
    ensures
        mint(s, who, dna).wf(),
{
    let s2 = mint(s, who, dna);
    assert forall|a: u64| (#[trigger] s2.funds.reserved[a]) == s2.deposit * count_owned(
        s2.owners,
        a,
    ) by {
        lemma_count_owned_push(s.owners, who, a);
        if a == who {
            assert(s.deposit * (count_owned(s.owners, a) + 1nat) == s.deposit * count_owned(
                s.owners,
                a,
            ) + s.deposit) by (nonlinear_arith);
        }
    }
}

/// `create` preserves the ledger invariants.
pub proof fn lemma_create_wf(s: State, who: u64, dna: Seq<u8>)
    requires
        s.wf(),
        dna.len() == 16,
    ensures
        create_tr(s, who, dna).0.wf(),
{
    if s.funds.can_reserve(who, s.deposit) && s.kitties.len() < u32::MAX {
        lemma_mint_wf(s, who, dna);
    }
}

/// `breed` preserves the ledger invariants.
pub proof fn lemma_breed_wf(s: State, who: u64, parent_a: u32, parent_b: u32, selector: Seq<u8>)
    requires
        s.wf(),
        selector.len() == 16,
    ensures
        breed_tr(s, who, parent_a, parent_b, selector).0.wf(),
{
    if parent_a != parent_b && parent_a < s.kitties.len() && parent_b < s.kitties.len()
        && s.funds.can_reserve(who, s.deposit) && s.kitties.len() < u32::MAX {
        lemma_mint_wf(
            s,
            who,
            mix_spec(s.kitties[parent_a as int].dna, s.kitties[parent_b as int].dna, selector),
        );
    }
}

/// An owner's reserve covers at least one deposit.
pub proof fn lemma_owner_reserve_covers_deposit(s: State, i: int)
    requires
        s.wf(),
        0 <= i < s.owners.len(),
    ensures
        s.funds.reserved[s.owners[i]] >= s.deposit,
{
    let a = s.owners[i];
    lemma_count_owned_at_least_one(s.owners, i, a);
    assert(s.deposit * count_owned(s.owners, a) >= s.deposit * 1nat) by (nonlinear_arith)
        requires
            count_owned(s.owners, a) >= 1,
    ;
}

/// `transfer` preserves the ledger invariants.
pub proof fn lemma_transfer_wf(s: State, from: u64, to: u64, id: u32)
    requires
        s.wf(),
    ensures
        transfer_tr(s, from, to, id).0.wf(),
{
    if to != from && id < s.kitties.len() && s.owners[id as int] == from && s.funds.can_reserve(
        to,
        s.deposit,
    ) {
        let i: int = id as int;
        let s2 = transfer_tr(s, from, to, id).0;
        lemma_owner_reserve_covers_deposit(s, i);
        assert forall|a: u64| (#[trigger] s2.funds.reserved[a]) == s2.deposit * count_owned(
            s2.owners,
            a,
        ) by {
            lemma_count_owned_update(s.owners, i, to, a);
            if a == to {
                assert(s.deposit * (count_owned(s.owners, a) + 1nat) == s.deposit * count_owned(
                    s.owners,
                    a,
                ) + s.deposit) by (nonlinear_arith);
            } else if a == from {
                assert(count_owned(s.owners, a) >= 1) by {
                    lemma_count_owned_at_least_one(s.owners, i, a);
                }
                assert(s.deposit * (count_owned(s.owners, a) - 1nat) == s.deposit * count_owned(
                    s.owners,
                    a,
                ) - s.deposit) by (nonlinear_arith)
                    requires
                        count_owned(s.owners, a) >= 1,
                ;
            }
        }
    }
}

/// `sale` preserves the ledger invariants.
pub proof fn lemma_sale_wf(s: State, who: u64, id: u32, price: u128)
    requires
        s.wf(),
    ensures
        sale_tr(s, who, id, price).0.wf(),
{
    if id < s.kitties.len() && s.owners[id as int] == who && price != 0 {
        let s2 = sale_tr(s, who, id, price).0;
        lemma_ask_insert_props(s.ask, id);
        assert forall|j: int| 0 <= j < s2.ask.len() implies (#[trigger] s2.ask[j])
            < s2.kitties.len() by {
            let x = s2.ask[j];
            assert(s2.ask.contains(x));
            if s.ask.contains(x) {
                let t: int = choose|t: int| 0 <= t < s.ask.len() && s.ask[t] == x;
                assert(s.ask[t] < s.kitties.len());
            }
        }
        assert forall|i: int|
            0 <= i < s2.kitties.len() && (#[trigger] s2.kitties[i]).for_sale implies s2.ask.contains(
            i as u32,
        ) by {
            if i != id as int {
                assert(s.ask.contains(i as u32));
            }
        }
    }
}

/// `buy` preserves the ledger invariants.
pub proof fn lemma_buy_wf(s: State, buyer: u64, id: u32, bid: u128)
    requires
        s.wf(),
    ensures
        buy_tr(s, buyer, id, bid).0.wf(),
{
    if id < s.kitties.len() && s.owners[id as int] != buyer {
        let i: int = id as int;
        let seller = s.owners[i];
        let k = s.kitties[i];
        let price = k.price;
        if k.for_sale && price != 0 && price <= bid && seller_can_be_paid(s, buyer, seller, price)
            && s.funds.transfer_done(buyer, seller, price).can_reserve(buyer, s.deposit) {
            let s2 = buy_tr(s, buyer, id, bid).0;
            lemma_owner_reserve_covers_deposit(s, i);
            assert forall|a: u64| (#[trigger] s2.funds.reserved[a]) == s2.deposit * count_owned(
                s2.owners,
                a,
            ) by {
                lemma_count_owned_update(s.owners, i, buyer, a);
                if a == buyer {
                    assert(s.deposit * (count_owned(s.owners, a) + 1nat) == s.deposit
                        * count_owned(s.owners, a) + s.deposit) by (nonlinear_arith);
                } else if a == seller {
                    assert(count_owned(s.owners, a) >= 1) by {
                        lemma_count_owned_at_least_one(s.owners, i, a);
                    }
                    assert(s.deposit * (count_owned(s.owners, a) - 1nat) == s.deposit
                        * count_owned(s.owners, a) - s.deposit) by (nonlinear_arith)
                        requires
                            count_owned(s.owners, a) >= 1,
                    ;
                }
            }
            assert forall|j: int|
                0 <= j < s2.kitties.len() && (#[trigger] s2.kitties[j]).for_sale implies s2.ask.contains(
                j as u32,
            ) by {
                assert(s.kitties[j].for_sale);
            }
        }
    }
}

/// One request to the ledger.
pub enum Op {
    /// Mint a fresh asset for `who` with the drawn genome.
    Create { who: u64, dna: Seq<u8> },
    /// Move ownership of `id` from `from` to `to`.
    Transfer { from: u64, to: u64, id: u32 },
    /// Derive a child of the two parents for `who` under the drawn selector.
    Breed { who: u64, parent_a: u32, parent_b: u32, selector: Seq<u8> },
    /// List `id` at `price`.
    Sale { who: u64, id: u32, price: u128 },
    /// Buy `id` for at most `bid`.
    Buy { buyer: u64, id: u32, bid: u128 },
}

impl Op {
    /// Drawn genomes and selectors are 16 bytes.
    pub open spec fn valid(self) -> bool {
        match self {
            Op::Create { dna, .. } => dna.len() == 16,
            Op::Breed { selector, .. } => selector.len() == 16,
            _ => true,
        }
    }
}

/// Apply one request to the ledger.
pub open spec fn step(s: State, op: Op) -> (State, Result<Event, Error>) {
    match op {
        Op::Create { who, dna } => create_tr(s, who, dna),
        Op::Transfer { from, to, id } => transfer_tr(s, from, to, id),
        Op::Breed { who, parent_a, parent_b, selector } => breed_tr(
            s,
            who,
            parent_a,
            parent_b,
            selector,
        ),
        Op::Sale { who, id, price } => sale_tr(s, who, id, price),
        Op::Buy { buyer, id, bid } => buy_tr(s, buyer, id, bid),
    }
}

/// Apply a whole sequence of requests, first one first.
pub open spec fn run(s: State, ops: Seq<Op>) -> State
    decreases ops.len(),
{
    if ops.len() == 0 {
        s
    } else {
        run(step(s, ops[0]).0, ops.drop_first())
    }
}

} // verus!
