//! The ledger's laws: properties that relate whole operations, proved once
//! and for all over the model of [`crate::state`].
//!
//! Because every executable operation is proved to behave exactly as its
//! model transition, each law here carries over to the executable ledger.

use vstd::prelude::*;
use crate::errors::Error;
use crate::events::Event;
use crate::state::{
    breed_tr, buy_tr, create_tr, lemma_ask_insert_props, lemma_breed_wf, lemma_buy_wf,
    lemma_create_wf, lemma_owner_reserve_covers_deposit, lemma_sale_wf, lemma_transfer_wf, run,
    sale_tr, step, transfer_tr, Op, State,
};

verus! {

/// Every single operation preserves the ledger invariants: unique ids, one
/// owner per asset, positive price whenever listed, a sound ask index, and
/// reserves exactly matching the deposits for the assets held.
pub proof fn lemma_step_preserves_invariants(s: State, op: Op)
    requires
        s.wf(),
        op.valid(),
    ensures
        step(s, op).0.wf(),
{
    match op {
        Op::Create { who, dna } => lemma_create_wf(s, who, dna),
        Op::Transfer { from, to, id } => lemma_transfer_wf(s, from, to, id),
        Op::Breed { who, parent_a, parent_b, selector } => lemma_breed_wf(
            s,
            who,
            parent_a,
            parent_b,
            selector,
        ),
        Op::Sale { who, id, price } => lemma_sale_wf(s, who, id, price),
        Op::Buy { buyer, id, bid } => lemma_buy_wf(s, buyer, id, bid),
    }
}

/// Hence along any sequence of operations, started in a well-formed ledger,
/// the invariants hold at every point.
pub proof fn lemma_run_preserves_invariants(s: State, ops: Seq<Op>)
    requires
        s.wf(),
        forall|i: int| 0 <= i < ops.len() ==> (#[trigger] ops[i]).valid(),
    ensures
        run(s, ops).wf(),
    decreases ops.len(),
{
    if ops.len() > 0 {
        lemma_step_preserves_invariants(s, ops[0]);
        let rest = ops.drop_first();
        assert(forall|i: int| 0 <= i < rest.len() ==> (#[trigger] rest[i]) == ops[i + 1]);
        lemma_run_preserves_invariants(step(s, ops[0]).0, rest);
    }
}

/// Failure atomicity: an operation that reports an error leaves the ledger
/// exactly as it was — no map, no balance, no index has moved.
pub proof fn lemma_failed_step_changes_nothing(s: State, op: Op)
    ensures
        step(s, op).1 is Err ==> step(s, op).0 == s,
{
}

/// Assets are permanent: no operation deletes an asset, reuses an id, or
/// rewrites an existing asset's identity or genome; the registry only ever
/// grows at the end.
pub proof fn lemma_assets_are_permanent(s: State, op: Op)
    ensures
        step(s, op).0.kitties.len() >= s.kitties.len(),
        forall|i: int|
            0 <= i < s.kitties.len() ==> (#[trigger] step(s, op).0.kitties[i]).id == s.kitties[i].id
                && step(s, op).0.kitties[i].dna == s.kitties[i].dna,
{
}

/// A freshly created asset can be handed straight on: `create` for `caller`
/// followed at once by `transfer` of the new asset to `to` leaves the asset
/// owned by `to`, and the deposit has moved entirely from `caller` to `to`:
/// `caller`'s balances are exactly as before the two operations, while `to`
/// carries one deposit more.
pub proof fn lemma_create_then_transfer(s: State, caller: u64, to: u64, dna: Seq<u8>)
    requires
        s.wf(),
        dna.len() == 16,
        create_tr(s, caller, dna).1 is Ok,
        transfer_tr(create_tr(s, caller, dna).0, caller, to, s.next_id() as u32).1 is Ok,
    ensures
        ({
            let s1 = create_tr(s, caller, dna).0;
            let s2 = transfer_tr(s1, caller, to, s.next_id() as u32).0;
            &&& s2.owners[s.next_id() as int] == to
            &&& s2.funds.free[caller] == s.funds.free[caller]
            &&& s2.funds.reserved[caller] == s.funds.reserved[caller]
            &&& s2.funds.free[to] == s.funds.free[to] - s.deposit
            &&& s2.funds.reserved[to] == s.funds.reserved[to] + s.deposit
        }),
{
}

/// `breed` with the same asset as both parents always fails with
/// `SameParentIndex` — whether or not that asset exists — and changes
/// nothing.
pub proof fn lemma_breed_same_parent(s: State, who: u64, parent: u32, selector: Seq<u8>)
    ensures
        breed_tr(s, who, parent, parent, selector).0 == s,
        breed_tr(s, who, parent, parent, selector).1 == Err::<Event, Error>(
            Error::SameParentIndex,
        ),
{
}

/// `buy` on an asset that is not listed always fails with `NotForSale`, and
/// all state — ownership, deposits, balances — is exactly as before.
pub proof fn lemma_buy_not_for_sale(s: State, buyer: u64, id: u32, bid: u128)
    requires
        id < s.kitties.len(),
        s.owners[id as int] != buyer,
        !s.kitties[id as int].for_sale,
    ensures
        buy_tr(s, buyer, id, bid).0 == s,
        buy_tr(s, buyer, id, bid).1 == Err::<Event, Error>(Error::NotForSale),
{
}

/// Round trip: `sale(seller, id, price)` followed by `buy(other, id, price)`
/// leaves the asset owned by `other` and no longer for sale; the seller's
/// free balance grows by the price plus the released deposit, and the buyer
/// pays the price and carries the deposit instead.
pub proof fn lemma_sale_then_buy(s: State, seller: u64, other: u64, id: u32, price: u128)
    requires
        s.wf(),
        sale_tr(s, seller, id, price).1 is Ok,
        buy_tr(sale_tr(s, seller, id, price).0, other, id, price).1 is Ok,
    ensures
        ({
            let s1 = sale_tr(s, seller, id, price).0;
            let s2 = buy_tr(s1, other, id, price).0;
            &&& s2.owners[id as int] == other
            &&& !s2.kitties[id as int].for_sale
            &&& s2.funds.free[seller] == s.funds.free[seller] + price + s.deposit
            &&& s2.funds.reserved[seller] == s.funds.reserved[seller] - s.deposit
            &&& s2.funds.free[other] == s.funds.free[other] - price - s.deposit
            &&& s2.funds.reserved[other] == s.funds.reserved[other] + s.deposit
        }),
{
    lemma_sale_wf(s, seller, id, price);
    let s1 = sale_tr(s, seller, id, price).0;
    lemma_owner_reserve_covers_deposit(s1, id as int);
}

/// Listing an asset twice at the same price is idempotent: the second call
/// reports the same success and changes no observable state at all.
pub proof fn lemma_sale_idempotent(s: State, who: u64, id: u32, price: u128)
    requires
        s.wf(),
        sale_tr(s, who, id, price).1 is Ok,
    ensures
        sale_tr(sale_tr(s, who, id, price).0, who, id, price).0 == sale_tr(s, who, id, price).0,
        sale_tr(sale_tr(s, who, id, price).0, who, id, price).1 == sale_tr(s, who, id, price).1,
{
    let s1 = sale_tr(s, who, id, price).0;
    lemma_ask_insert_props(s.ask, id);
    lemma_sale_wf(s, who, id, price);
    assert(s1.ask.contains(id));
    let s2 = sale_tr(s1, who, id, price).0;
    assert(s2.kitties =~= s1.kitties);
    assert(s2 =~= s1);
}

} // verus!
