//! Buying and selling components: the rules that decide whether a grid
//! command goes through and what it does to the money.

use vstd::prelude::*;
use crate::engine::resource_store::{ResourceStore, TickDeltas};
use crate::engine::simulation::{SimView, Simulation};
use crate::model::component::ComponentKind;
use crate::model::grid::GridCoord;
use crate::units::{clamp_i64, max_int, max_of, sat_sub};

verus! {

/// The store after paying `amount`: the money drops, not below zero, and
/// the whole amount is taken off the money delta. An amount that is not
/// positive costs nothing.
pub open spec fn spec_spend_money(store: ResourceStore, amount: i64) -> ResourceStore {
    if amount <= 0 {
        store
    } else {
        ResourceStore {
            money: max_int(clamp_i64(store.money - amount) as int, 0) as i64,
            tick_deltas: TickDeltas {
                money: clamp_i64(store.tick_deltas.money - amount),
                ..store.tick_deltas
            },
            ..store
        }
    }
}

/// Takes the price of a purchase out of the money.
pub fn spend_money(sim: &mut Simulation, amount: i64)
    ensures
        final(sim)@ == (SimView {
            resources: spec_spend_money(old(sim)@.resources, amount),
            ..old(sim)@
        }),
{
    if amount <= 0 {
        return ;
    }
    let mut store = *sim.resources();
    store.money = max_of(sat_sub(store.money, amount), 0);
    store.tick_deltas.money = sat_sub(store.tick_deltas.money, amount);
    sim.set_resources(store);
}

/// Whether a purchase at `coord` for `cost` goes through: the coordinate
/// is valid, the cell is empty and the money covers the cost.
pub open spec fn can_buy(sim: SimView, coord: GridCoord, cost: i64) -> bool {
    sim.grid.contains(coord) && sim.grid.cell_at(coord) is None && sim.resources.money >= cost
}

/// The simulation after a purchase that goes through: the component is
/// placed and then paid for.
pub open spec fn bought(sim: SimView, coord: GridCoord, kind: ComponentKind, cost: i64) -> SimView {
    let placed = sim.placed(coord, kind);
    SimView { resources: spec_spend_money(placed.resources, cost), ..placed }
}

/// Buys a component for an empty cell. Returns whether the purchase went
/// through; one that did not changes nothing.
pub fn buy_component(sim: &mut Simulation, coord: GridCoord, kind: ComponentKind, cost: i64) -> (done:
    bool)
    ensures
        done == can_buy(old(sim)@, coord, cost),
        done ==> final(sim)@ == bought(old(sim)@, coord, kind, cost),
        !done ==> final(sim)@ == old(sim)@,
{
    if sim.grid().get(coord).is_some() {
        return false;
    }
    if sim.resources().money < cost {
        return false;
    }
    match sim.place_component(coord, kind) {
        Ok(()) => {
            spend_money(sim, cost);
            true
        },
        Err(_) => false,
    }
}

/// Whether a sale at `coord` goes through: a component sits there.
pub open spec fn can_sell(sim: SimView, coord: GridCoord) -> bool {
    sim.grid.cell_at(coord) is Some
}

/// The simulation after a sale that goes through: the component is
/// removed and the refund is added to the money.
pub open spec fn sold_off(sim: SimView, coord: GridCoord, refund: i64) -> SimView {
    let removed = sim.removed(coord);
    SimView { resources: removed.resources.spec_add_money(refund), ..removed }
}

/// Sells the component in a cell for a refund. Returns whether the sale
/// went through; one that did not changes nothing.
pub fn sell_component(sim: &mut Simulation, coord: GridCoord, refund: i64) -> (done: bool)
    ensures
        done == can_sell(old(sim)@, coord),
        done ==> final(sim)@ == sold_off(old(sim)@, coord, refund),
        !done ==> final(sim)@ == old(sim)@,
{
    if sim.grid().get(coord).is_none() {
        return false;
    }
    match sim.remove_component(coord) {
        Ok(()) => {
            let mut store = *sim.resources();
            store.add_money(refund);
            sim.set_resources(store);
            true
        },
        Err(_) => false,
    }
}

} // verus!
