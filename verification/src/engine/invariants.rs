//! What holds of every tick: the state after it is a function of the state
//! before it, the layout stays, the stores stay in range, and fuel wears
//! out on schedule.

use vstd::prelude::*;
use crate::engine::coolant::{spec_coolant_components, spec_coolant_store};
use crate::engine::durability::{durability_drain, spec_drain_durability, worn};
use crate::engine::generation::{spec_generate_components, spec_generate_store};
use crate::engine::hull::{lemma_exchange_frame, spec_exchange_with_hull, Plant};
use crate::engine::layout::{
    adjacency,
    east_of,
    lemma_index_of,
    north_of,
    same_layout,
    south_of,
    table_fits,
    west_of,
    Neighbors,
};
use crate::engine::resource_store::ResourceStore;
use crate::engine::pulses::spec_distribute_pulses;
use crate::engine::simulation::{lemma_capacity_bonus_nonneg, next_count, reaction, SimView};
use crate::model::component::PlacedComponent;
use crate::units::{clamp_i64, max_int, UNIT};

verus! {

/// The state after `n` ticks.
pub open spec fn ticks(sim: SimView, n: nat) -> SimView
    decreases n,
{
    if n == 0 {
        sim
    } else {
        ticks(sim, (n - 1) as nat).ticked()
    }
}

/// Two simulations in the same state are in the same state after every
/// number of ticks: a tick reads nothing but the state.
pub proof fn lemma_ticks_are_deterministic(a: SimView, b: SimView, n: nat)
    requires
        a == b,
    ensures
        ticks(a, n) == ticks(b, n),
{
}

/// The neighbour table of a list points into that list.
pub proof fn lemma_adjacency_fits(components: Seq<PlacedComponent>, width: usize, height: usize)
    requires
        components.len() <= usize::MAX,
    ensures
        table_fits(adjacency(components, width, height), components.len()),
{
    let table = adjacency(components, width, height);
    assert forall|i: int| 0 <= i < table.len() implies (#[trigger] table[i]).within(
        components.len(),
    ) by {
        let coord = components[i].coord;
        if west_of(coord) is Some {
            lemma_index_of(components, west_of(coord)->0);
        }
        if east_of(coord, width) is Some {
            lemma_index_of(components, east_of(coord, width)->0);
        }
        if south_of(coord) is Some {
            lemma_index_of(components, south_of(coord)->0);
        }
        if north_of(coord, height) is Some {
            lemma_index_of(components, north_of(coord, height)->0);
        }
    }
}

/// What a component keeps from the durability phase to the end of the
/// tick: everything but heat, last power and last heat.
pub open spec fn wear_kept(a: Seq<PlacedComponent>, b: Seq<PlacedComponent>) -> bool {
    &&& a.len() == b.len()
    &&& forall|i: int|
        0 <= i < a.len() ==> #[trigger] b[i] == (PlacedComponent {
            heat: b[i].heat,
            last_power: b[i].last_power,
            last_heat: b[i].last_heat,
            ..a[i]
        })
}

/// The neighbour phases keep the layout of the list and a well-formed
/// store well-formed, and each component leaves them with the durability
/// and the depleted flag that the durability phase gave it.
pub proof fn lemma_reaction_frame(
    components: Seq<PlacedComponent>,
    store: ResourceStore,
    table: Seq<Neighbors>,
    base_power: i64,
    base_heat: i64,
)
    requires
        table_fits(table, components.len()),
    ensures
        ({
            let after = reaction(components, store, table, base_power, base_heat);
            let pulsed = spec_distribute_pulses(components, table);
            &&& same_layout(components, after.components)
            &&& wear_kept(spec_drain_durability(pulsed, table), after.components)
            &&& forall|i: int|
                0 <= i < components.len() && (#[trigger] spec_drain_durability(
                    pulsed,
                    table,
                )[i]).depleted ==> after.components[i] == spec_drain_durability(pulsed, table)[i]
            &&& store.wf() ==> after.store.wf()
        }),
{
    reveal(reaction);
    let pulsed = spec_distribute_pulses(components, table);
    let worn = spec_drain_durability(pulsed, table);
    let generated = Plant {
        components: spec_generate_components(worn, table),
        store: spec_generate_store(worn, table, store, base_power, base_heat),
    };
    let cooled = Plant {
        components: spec_coolant_components(generated.components, table),
        store: spec_coolant_store(generated.components, table, generated.store),
    };
    lemma_exchange_frame(cooled, table);
    let exchanged = spec_exchange_with_hull(cooled, table);
    assert forall|i: int| 0 <= i < worn.len() implies #[trigger] exchanged.components[i] == (
    PlacedComponent {
        heat: exchanged.components[i].heat,
        last_power: exchanged.components[i].last_power,
        last_heat: exchanged.components[i].last_heat,
        ..worn[i]
    }) by {
        assert(exchanged.components[i] == (PlacedComponent {
            heat: exchanged.components[i].heat,
            ..cooled.components[i]
        }));
    }
    assert forall|i: int| 0 <= i < components.len() implies (#[trigger] components[i]).coord
        == exchanged.components[i].coord && components[i].kind == exchanged.components[i].kind
        && components[i].id == exchanged.components[i].id && components[i].placed_at_tick
        == exchanged.components[i].placed_at_tick by {
        assert(exchanged.components[i] == (PlacedComponent {
            heat: exchanged.components[i].heat,
            last_power: exchanged.components[i].last_power,
            last_heat: exchanged.components[i].last_heat,
            ..worn[i]
        }));
    }
    assert forall|i: int| 0 <= i < components.len() && (#[trigger] worn[i]).depleted implies exchanged.components[i]
        == worn[i] by {
        assert(generated.components[i] == worn[i]);
        assert(cooled.components[i] == generated.components[i]);
        assert(exchanged.components[i] == cooled.components[i]);
    }
    if store.wf() {
        lemma_generate_store_wf(worn, table, store, base_power, base_heat);
        assert(cooled.store.wf());
    }
}

proof fn lemma_generate_store_wf(
    components: Seq<PlacedComponent>,
    table: Seq<Neighbors>,
    store: ResourceStore,
    base_power: i64,
    base_heat: i64,
)
    requires
        store.wf(),
    ensures
        spec_generate_store(components, table, store, base_power, base_heat).wf(),
{
}

/// The closing steps keep a well-formed store well-formed and leave the
/// power within the capacity.
pub proof fn lemma_settled_in_range(
    store: ResourceStore,
    sell_rate: i64,
    passive_rate: i64,
    max_heat: i64,
    max_power: i64,
)
    requires
        max_power >= 0,
    ensures
        SimView::settled(store, sell_rate, passive_rate, max_heat, max_power).power <= max_power,
        SimView::settled(store, sell_rate, passive_rate, max_heat, max_power).heat >= 0,
        store.wf() ==> SimView::settled(store, sell_rate, passive_rate, max_heat, max_power).wf(),
{
}

/// Recomputing the capacities gives capacities that are not negative,
/// leaves the power within its capacity and keeps a well-formed store
/// well-formed.
pub proof fn lemma_recomputed_in_range(sim: SimView)
    ensures
        sim.recomputed().max_power_capacity >= 0,
        sim.recomputed().max_heat_capacity >= 0,
        sim.recomputed().resources.power <= sim.recomputed().max_power_capacity,
        sim.recomputed().resources.heat >= 0,
        sim.resources.wf() ==> sim.recomputed().resources.wf(),
{
    lemma_capacity_bonus_nonneg(sim.components, sim.components.len());
}

/// A tick leaves the grid, the knobs, the pause flag and the layout of the
/// component list alone; a paused tick changes nothing but the deltas; a
/// running tick advances the counter, and each component ends the tick with
/// the durability and the depleted flag that the durability phase gave it.
pub proof fn lemma_tick_frame(sim: SimView)
    requires
        sim.components.len() <= usize::MAX,
    ensures
        ({
            let after = sim.ticked();
            let table = adjacency(sim.components, sim.grid.width, sim.grid.height);
            let pulsed = spec_distribute_pulses(sim.components, table);
            &&& same_layout(sim.components, after.components)
            &&& after.grid == sim.grid
            &&& after.paused == sim.paused
            &&& after.next_component_id == sim.next_component_id
            &&& after.base_power_generation_per_tick == sim.base_power_generation_per_tick
            &&& after.base_heat_generation_per_tick == sim.base_heat_generation_per_tick
            &&& after.auto_sell_rate_per_tick == sim.auto_sell_rate_per_tick
            &&& after.passive_heat_dissipation_per_tick == sim.passive_heat_dissipation_per_tick
            &&& after.base_power_capacity == sim.base_power_capacity
            &&& after.base_heat_capacity == sim.base_heat_capacity
            &&& sim.paused ==> after == (SimView {
                resources: sim.resources.spec_begin_tick(),
                ..sim
            })
            &&& !sim.paused ==> after.tick_index == next_count(sim.tick_index)
            &&& !sim.paused ==> wear_kept(spec_drain_durability(pulsed, table), after.components)
            &&& !sim.paused ==> forall|i: int|
                0 <= i < sim.components.len() && (#[trigger] spec_drain_durability(
                    pulsed,
                    table,
                )[i]).depleted ==> after.components[i] == spec_drain_durability(pulsed, table)[i]
        }),
{
    if !sim.paused {
        let begun = SimView { resources: sim.resources.spec_begin_tick(), ..sim };
        let ready = (SimView { tick_index: next_count(sim.tick_index), ..begun }).recomputed();
        let table = adjacency(ready.components, ready.grid.width, ready.grid.height);
        lemma_adjacency_fits(sim.components, sim.grid.width, sim.grid.height);
        lemma_reaction_frame(
            ready.components,
            ready.resources,
            table,
            ready.base_power_generation_per_tick,
            ready.base_heat_generation_per_tick,
        );
    }
}

/// Any number of ticks leaves grid, knobs, pause flag and layout alone.
pub proof fn lemma_ticks_frame(sim: SimView, n: nat)
    requires
        sim.components.len() <= usize::MAX,
    ensures
        same_layout(sim.components, ticks(sim, n).components),
        ticks(sim, n).grid == sim.grid,
        ticks(sim, n).paused == sim.paused,
        ticks(sim, n).next_component_id == sim.next_component_id,
    decreases n,
{
    if n > 0 {
        lemma_ticks_frame(sim, (n - 1) as nat);
        lemma_tick_frame(ticks(sim, (n - 1) as nat));
    }
}

/// After every tick of a simulation whose store is well-formed, the hull's
/// power lies between zero and the power capacity and the hull's heat is
/// not negative, and the store is well-formed again. A paused tick moves
/// nothing, so there the power must have been within the capacity before.
pub proof fn lemma_tick_keeps_stores_in_range(sim: SimView)
    requires
        sim.components.len() <= usize::MAX,
        sim.resources.wf(),
        sim.paused ==> sim.resources.power <= sim.max_power_capacity,
    ensures
        sim.ticked().resources.wf(),
        0 <= sim.ticked().resources.power <= sim.ticked().max_power_capacity,
        sim.ticked().resources.heat >= 0,
        !sim.paused ==> sim.ticked().max_heat_capacity >= 0,
{
    if !sim.paused {
        let begun = SimView { resources: sim.resources.spec_begin_tick(), ..sim };
        let counted = SimView { tick_index: next_count(sim.tick_index), ..begun };
        let ready = counted.recomputed();
        lemma_recomputed_in_range(counted);
        let table = adjacency(ready.components, ready.grid.width, ready.grid.height);
        lemma_adjacency_fits(sim.components, sim.grid.width, sim.grid.height);
        lemma_reaction_frame(
            ready.components,
            ready.resources,
            table,
            ready.base_power_generation_per_tick,
            ready.base_heat_generation_per_tick,
        );
        let reacted = reaction(
            ready.components,
            ready.resources,
            table,
            ready.base_power_generation_per_tick,
            ready.base_heat_generation_per_tick,
        );
        lemma_settled_in_range(
            reacted.store,
            ready.auto_sell_rate_per_tick,
            ready.passive_heat_dissipation_per_tick,
            ready.max_heat_capacity,
            ready.max_power_capacity,
        );
    }
}

/// The durability phase takes one unit from an active fuel cell, whatever
/// stands next to it.
pub proof fn lemma_fuel_drain(components: Seq<PlacedComponent>, table: Seq<Neighbors>, i: int)
    requires
        components[i].kind is Fuel,
    ensures
        durability_drain(components, table, i) == (if components[i].depleted {
            0int
        } else {
            UNIT as int
        }),
{
    components[i].kind.lemma_stats_within_limits();
    components[i].lemma_fuel_is_the_fuel_kind();
}

/// One running tick takes one unit of durability from an active fuel cell,
/// whatever stands next to it, and depletes it when nothing is left; a
/// depleted one stays as it is.
pub proof fn lemma_fuel_wears_one_unit(sim: SimView, i: int)
    requires
        sim.components.len() <= usize::MAX,
        0 <= i < sim.components.len(),
        !sim.paused,
        sim.components[i].kind is Fuel,
    ensures
        ({
            let before = sim.components[i];
            let after = sim.ticked().components[i];
            let left = max_int(clamp_i64(before.durability - UNIT) as int, 0);
            &&& after.kind == before.kind
            &&& before.depleted ==> after.depleted && after.durability == before.durability
            &&& !before.depleted ==> after.durability == left && (after.depleted <==> left <= 0)
        }),
{
    lemma_tick_frame(sim);
    let table = adjacency(sim.components, sim.grid.width, sim.grid.height);
    let pulsed = spec_distribute_pulses(sim.components, table);
    let worn_list = spec_drain_durability(pulsed, table);
    let after = sim.ticked().components;
    assert(after[i] == (PlacedComponent {
        heat: after[i].heat,
        last_power: after[i].last_power,
        last_heat: after[i].last_heat,
        ..worn_list[i]
    }));
    assert(pulsed[i].kind == sim.components[i].kind);
    assert(pulsed[i].depleted == sim.components[i].depleted);
    assert(pulsed[i].durability == sim.components[i].durability);
    lemma_fuel_drain(pulsed, table, i);
    assert(worn_list[i] == worn(pulsed[i], durability_drain(pulsed, table, i)));
}

/// A running simulation depletes an active fuel cell that holds `D`
/// millionths of durability exactly at the first tick `n` with
/// `n * UNIT >= D`: no earlier and no later. A cell with `D` whole units is
/// thus depleted after `D` ticks and not after `D - 1`.
pub proof fn lemma_fuel_depletes_on_schedule(sim: SimView, i: int, n: nat)
    requires
        sim.components.len() <= usize::MAX,
        0 <= i < sim.components.len(),
        !sim.paused,
        sim.components[i].kind is Fuel,
        !sim.components[i].depleted,
        sim.components[i].durability > 0,
    ensures
        ticks(sim, n).components[i].depleted <==> n * UNIT >= sim.components[i].durability,
        ticks(sim, n).components[i].durability == max_int(
            sim.components[i].durability - n * UNIT,
            0,
        ),
    decreases n,
{
    if n > 0 {
        let m = (n - 1) as nat;
        lemma_fuel_depletes_on_schedule(sim, i, m);
        lemma_ticks_frame(sim, m);
        let before = ticks(sim, m);
        assert(before.components[i].kind == sim.components[i].kind);
        lemma_fuel_wears_one_unit(before, i);
        assert(n * UNIT == m * UNIT + UNIT) by (nonlinear_arith)
            requires
                n == m + 1,
        ;
        assert(m * UNIT >= 0) by (nonlinear_arith)
            requires
                m >= 0,
        ;
    }
}

/// A depleted component is inert: a tick changes nothing of it but the
/// count of the pulses that reach its cell.
pub proof fn lemma_depleted_stays_inert(sim: SimView, i: int)
    requires
        sim.components.len() <= usize::MAX,
        0 <= i < sim.components.len(),
        sim.components[i].depleted,
    ensures
        sim.ticked().components[i] == (PlacedComponent {
            pulse_count: sim.ticked().components[i].pulse_count,
            ..sim.components[i]
        }),
{
    lemma_tick_frame(sim);
    if !sim.paused {
        let table = adjacency(sim.components, sim.grid.width, sim.grid.height);
        let pulsed = spec_distribute_pulses(sim.components, table);
        let worn_list = spec_drain_durability(pulsed, table);
        assert(pulsed[i].depleted);
        assert(worn_list[i] == worn(pulsed[i], durability_drain(pulsed, table, i)));
        assert(worn_list[i].depleted);
    }
}

/// Durability never grows and never drops below zero. A component that a
/// tick depletes ends the tick without durability, pulses, power or heat
/// output, and no tick brings a depleted component back.
pub proof fn lemma_durability_never_grows(sim: SimView, i: int)
    requires
        sim.components.len() <= usize::MAX,
        0 <= i < sim.components.len(),
        sim.components[i].durability >= 0,
    ensures
        ({
            let before = sim.components[i];
            let after = sim.ticked().components[i];
            &&& 0 <= after.durability <= before.durability
            &&& before.depleted ==> after.depleted
            &&& after.depleted && !before.depleted ==> after.durability == 0 && after.pulse_count
                == 0 && after.last_power == 0 && after.last_heat == 0
        }),
{
    lemma_tick_frame(sim);
    if !sim.paused {
        let table = adjacency(sim.components, sim.grid.width, sim.grid.height);
        let pulsed = spec_distribute_pulses(sim.components, table);
        let worn_list = spec_drain_durability(pulsed, table);
        let after = sim.ticked().components;
        assert(after[i] == (PlacedComponent {
            heat: after[i].heat,
            last_power: after[i].last_power,
            last_heat: after[i].last_heat,
            ..worn_list[i]
        }));
        assert(pulsed[i].durability == sim.components[i].durability);
        assert(pulsed[i].depleted == sim.components[i].depleted);
        assert(worn_list[i] == worn(pulsed[i], durability_drain(pulsed, table, i)));
        if worn_list[i].depleted {
            assert(after[i] == worn_list[i]);
        }
    }
}

} // verus!
