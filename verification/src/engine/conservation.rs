//! Heat is moved, not made or lost. What fuel produces arrives in a buffer
//! or in the hull; what coolant moves leaves one buffer for another or for
//! the hull; what the hull exchange takes from the hull arrives in a buffer
//! or returns; and only self-venting lets heat leave the reactor.

use vstd::prelude::*;
use crate::engine::buffer::{absorber_count, absorbs, heated, returned, spilled_heat};
use crate::engine::coolant::{
    diffusion_overflow,
    diffusion_spill,
    drawn_from,
    given_to,
    heat_delta,
    spec_coolant_components,
    transfer,
};
use crate::engine::generation::{
    direct_heat,
    generated,
    heat_of,
    pending_heat,
    power_of,
    released_heat,
    share_from,
    share_of,
    spec_generate_components,
};
use crate::engine::hull::{
    inlet_pass,
    inlet_pull,
    inlet_step,
    lemma_self_vented_total_nonneg,
    outlet_pass,
    outlet_push,
    outlet_pushes,
    outlet_step,
    self_vent_pass,
    self_vented_total,
    spec_exchange_with_hull,
    vent_pass,
    vent_step,
    Plant,
};
use crate::engine::consistency::lemma_neighbours_are_mutual;
use crate::engine::invariants::lemma_adjacency_fits;
use crate::engine::layout::{adjacency, distinct_coords, table_fits, Neighbors};
use crate::engine::sums::{
    into_slot,
    lemma_sum_add,
    lemma_sum_nonneg,
    lemma_sum_over_mutual_slots,
    lemma_sum_same,
    lemma_sum_sub,
    slots_are_mutual,
    sum_to,
    through_slot,
};
use crate::model::component::PlacedComponent;
use crate::units::{max_int, min_int};

verus! {

/// Heat held in the buffers of the first `n` components together.
pub open spec fn buffer_total(components: Seq<PlacedComponent>, n: nat) -> int
    decreases n,
{
    if n == 0 {
        0
    } else {
        buffer_total(components, (n - 1) as nat) + components[n - 1].heat
    }
}

/// A buffer holds no less than nothing and no more than its capacity.
pub open spec fn buffer_in_range(c: PlacedComponent) -> bool {
    0 <= c.heat <= c.spec_stats().heat_capacity
}

/// Every buffer of the list is in range.
pub open spec fn buffers_in_range(components: Seq<PlacedComponent>) -> bool {
    forall|i: int| 0 <= i < components.len() ==> buffer_in_range(#[trigger] components[i])
}

/// Heat held by hull and buffers together.
pub open spec fn held(plant: Plant) -> int {
    plant.store.heat + buffer_total(plant.components, plant.components.len())
}

/// The hull's heat is not negative, every buffer is in range, and all the
/// heat together fits the range of a quantity.
pub open spec fn steady(plant: Plant) -> bool {
    &&& plant.store.heat >= 0
    &&& buffers_in_range(plant.components)
    &&& held(plant) <= i64::MAX
}

/// Buffers in range hold no negative total, and none holds more than all
/// together.
pub proof fn lemma_total_bounds(components: Seq<PlacedComponent>, n: nat)
    requires
        n <= components.len(),
        buffers_in_range(components),
    ensures
        buffer_total(components, n) >= 0,
        forall|i: int| 0 <= i < n ==> (#[trigger] components[i]).heat <= buffer_total(components, n),
    decreases n,
{
    if n > 0 {
        lemma_total_bounds(components, (n - 1) as nat);
        assert(buffer_in_range(components[n - 1]));
        assert forall|i: int| 0 <= i < n implies (#[trigger] components[i]).heat <= buffer_total(
            components,
            n,
        ) by {
            if i < n - 1 {
                assert(components[i].heat <= buffer_total(components, (n - 1) as nat));
            }
        }
    }
}

/// Changing one component changes the total by the change of its heat.
pub proof fn lemma_total_after_update(
    components: Seq<PlacedComponent>,
    j: int,
    changed: PlacedComponent,
    n: nat,
)
    requires
        0 <= j < components.len(),
        n <= components.len(),
    ensures
        buffer_total(components.update(j, changed), n) == buffer_total(components, n) + (if j < n {
            changed.heat - components[j].heat
        } else {
            0
        }),
    decreases n,
{
    if n > 0 {
        lemma_total_after_update(components, j, changed, (n - 1) as nat);
    }
}

/// Pushing heat into a buffer loses none of it: what the buffer holds
/// afterwards and what does not fit add up to what it held and what was
/// pushed, and the buffer stays in range.
pub proof fn lemma_push_keeps_heat(c: PlacedComponent, amount: i64)
    requires
        buffer_in_range(c),
        amount >= 0,
        c.heat + amount <= i64::MAX,
    ensures
        heated(c, amount).heat + spilled_heat(c, amount) == c.heat + amount,
        0 <= spilled_heat(c, amount) <= amount,
        buffer_in_range(heated(c, amount)),
        heated(c, amount).heat >= c.heat,
{
    c.kind.lemma_stats_within_limits();
}

/// One vent's turn keeps the heat of hull and buffers together.
pub proof fn lemma_vent_step_conserves(plant: Plant, s: int)
    requires
        0 <= s < plant.components.len(),
        steady(plant),
    ensures
        steady(vent_step(plant, s)),
        held(vent_step(plant, s)) == held(plant),
        vent_step(plant, s).components.len() == plant.components.len(),
{
    let n = plant.components.len();
    let c = plant.components[s];
    let rate = c.spec_stats().reactor_vent_rate;
    let transfer = min_int(plant.store.heat as int, rate as int) as i64;
    lemma_total_bounds(plant.components, n);
    if !(c.depleted || !(c.kind is Vent) || rate <= 0 || transfer <= 0) {
        assert(buffer_in_range(c));
        lemma_push_keeps_heat(c, transfer);
        lemma_total_after_update(plant.components, s, heated(c, transfer), n);
        let after = vent_step(plant, s);
        assert forall|i: int| 0 <= i < after.components.len() implies buffer_in_range(
            #[trigger] after.components[i],
        ) by {
            if i != s {
                assert(buffer_in_range(plant.components[i]));
            }
        }
    }
}

/// The vent pass keeps the heat of hull and buffers together.
pub proof fn lemma_vent_pass_conserves(plant: Plant, n: nat)
    requires
        n <= plant.components.len(),
        steady(plant),
    ensures
        steady(vent_pass(plant, n)),
        held(vent_pass(plant, n)) == held(plant),
        vent_pass(plant, n).components.len() == plant.components.len(),
    decreases n,
{
    if n > 0 {
        lemma_vent_pass_conserves(plant, (n - 1) as nat);
        lemma_vent_step_conserves(vent_pass(plant, (n - 1) as nat), n - 1);
    }
}

/// One pull of an inlet keeps the heat of hull and buffers together.
pub proof fn lemma_inlet_pull_conserves(plant: Plant, slot: Option<usize>, rate: i64)
    requires
        slot is Some ==> slot->0 < plant.components.len(),
        steady(plant),
    ensures
        steady(inlet_pull(plant, slot, rate)),
        held(inlet_pull(plant, slot, rate)) == held(plant),
        inlet_pull(plant, slot, rate).components.len() == plant.components.len(),
{
    let n = plant.components.len();
    lemma_total_bounds(plant.components, n);
    if slot is Some {
        let j = slot->0 as int;
        let t = plant.components[j];
        let pulled = min_int(t.heat as int, rate as int) as i64;
        assert(buffer_in_range(t));
        if !(t.depleted || t.heat <= 0 || pulled <= 0) {
            let drained = PlacedComponent { heat: (t.heat - pulled) as i64, ..t };
            lemma_total_after_update(plant.components, j, drained, n);
            let after = inlet_pull(plant, slot, rate);
            assert forall|i: int| 0 <= i < after.components.len() implies buffer_in_range(
                #[trigger] after.components[i],
            ) by {
                if i != j {
                    assert(buffer_in_range(plant.components[i]));
                }
            }
        }
    }
}

/// One inlet's turn keeps the heat of hull and buffers together.
pub proof fn lemma_inlet_step_conserves(plant: Plant, adjacent: Seq<Neighbors>, s: int)
    requires
        0 <= s < plant.components.len(),
        table_fits(adjacent, plant.components.len()),
        steady(plant),
    ensures
        steady(inlet_step(plant, adjacent, s)),
        held(inlet_step(plant, adjacent, s)) == held(plant),
        inlet_step(plant, adjacent, s).components.len() == plant.components.len(),
{
    let around = adjacent[s];
    assert(around.within(plant.components.len()));
    let rate = plant.components[s].spec_stats().reactor_vent_rate;
    lemma_inlet_pull_conserves(plant, around.west, rate);
    let west = inlet_pull(plant, around.west, rate);
    lemma_inlet_pull_conserves(west, around.east, rate);
    let east = inlet_pull(west, around.east, rate);
    lemma_inlet_pull_conserves(east, around.south, rate);
    let south = inlet_pull(east, around.south, rate);
    lemma_inlet_pull_conserves(south, around.north, rate);
}

/// The inlet pass keeps the heat of hull and buffers together.
pub proof fn lemma_inlet_pass_conserves(plant: Plant, adjacent: Seq<Neighbors>, n: nat)
    requires
        n <= plant.components.len(),
        table_fits(adjacent, plant.components.len()),
        steady(plant),
    ensures
        steady(inlet_pass(plant, adjacent, n)),
        held(inlet_pass(plant, adjacent, n)) == held(plant),
        inlet_pass(plant, adjacent, n).components.len() == plant.components.len(),
    decreases n,
{
    if n > 0 {
        lemma_inlet_pass_conserves(plant, adjacent, (n - 1) as nat);
        lemma_inlet_step_conserves(inlet_pass(plant, adjacent, (n - 1) as nat), adjacent, n - 1);
    }
}

/// One push of an outlet adds the share to what hull and buffers hold
/// together, if it is made, and nothing otherwise.
pub proof fn lemma_outlet_push_adds_share(
    plant: Plant,
    slot: Option<usize>,
    able: bool,
    share: i64,
)
    requires
        slot is Some ==> slot->0 < plant.components.len(),
        plant.store.heat >= 0,
        buffers_in_range(plant.components),
        share >= 0,
        able && slot is Some ==> held(plant) + share <= i64::MAX,
    ensures
        outlet_push(plant, slot, able, share).store.heat >= 0,
        buffers_in_range(outlet_push(plant, slot, able, share).components),
        outlet_push(plant, slot, able, share).components.len() == plant.components.len(),
        held(outlet_push(plant, slot, able, share)) == held(plant) + (if able && slot is Some {
            share as int
        } else {
            0
        }),
{
    let n = plant.components.len();
    lemma_total_bounds(plant.components, n);
    if able && slot is Some {
        let j = slot->0 as int;
        let c = plant.components[j];
        assert(buffer_in_range(c));
        lemma_push_keeps_heat(c, share);
        lemma_total_after_update(plant.components, j, heated(c, share), n);
        let after = outlet_push(plant, slot, able, share);
        assert forall|i: int| 0 <= i < after.components.len() implies buffer_in_range(
            #[trigger] after.components[i],
        ) by {
            if i != j {
                assert(buffer_in_range(plant.components[i]));
            }
        }
    }
}

/// What one push adds: the share if the neighbour can take heat.
pub open spec fn pushed_share(components: Seq<PlacedComponent>, slot: Option<usize>, share: i64)
    -> int {
    if absorbs(components, slot) {
        share as int
    } else {
        0
    }
}

/// The pushes of one outlet add one share for every neighbour that can take
/// heat to what hull and buffers hold together.
pub proof fn lemma_outlet_pushes_add_shares(plant: Plant, around: Neighbors, share: i64)
    requires
        around.within(plant.components.len()),
        plant.store.heat >= 0,
        buffers_in_range(plant.components),
        share >= 0,
        held(plant) + share * absorber_count(plant.components, around) <= i64::MAX,
    ensures
        outlet_pushes(plant, around, share).store.heat >= 0,
        buffers_in_range(outlet_pushes(plant, around, share).components),
        outlet_pushes(plant, around, share).components.len() == plant.components.len(),
        held(outlet_pushes(plant, around, share)) == held(plant) + share * absorber_count(
            plant.components,
            around,
        ),
{
    let cs = plant.components;
    let w = pushed_share(cs, around.west, share);
    let e = pushed_share(cs, around.east, share);
    let so = pushed_share(cs, around.south, share);
    let no = pushed_share(cs, around.north, share);
    let count = absorber_count(cs, around);
    assert(share * count == w + e + so + no) by {
        let a: int = if absorbs(cs, around.west) { 1 } else { 0 };
        let b: int = if absorbs(cs, around.east) { 1 } else { 0 };
        let c: int = if absorbs(cs, around.south) { 1 } else { 0 };
        let d: int = if absorbs(cs, around.north) { 1 } else { 0 };
        assert(share * (a + b + c + d) == share * a + share * b + share * c + share * d)
            by (nonlinear_arith);
        assert(share * a == w && share * b == e && share * c == so && share * d == no);
    }
    lemma_outlet_push_adds_share(plant, around.west, absorbs(cs, around.west), share);
    let west = outlet_push(plant, around.west, absorbs(cs, around.west), share);
    lemma_outlet_push_adds_share(west, around.east, absorbs(cs, around.east), share);
    let east = outlet_push(west, around.east, absorbs(cs, around.east), share);
    lemma_outlet_push_adds_share(east, around.south, absorbs(cs, around.south), share);
    let south = outlet_push(east, around.south, absorbs(cs, around.south), share);
    lemma_outlet_push_adds_share(south, around.north, absorbs(cs, around.north), share);
}

/// One outlet's turn keeps the heat of hull and buffers together: what it
/// takes from the hull arrives in a buffer or returns to the hull.
pub proof fn lemma_outlet_step_conserves(plant: Plant, adjacent: Seq<Neighbors>, s: int)
    requires
        0 <= s < plant.components.len(),
        table_fits(adjacent, plant.components.len()),
        steady(plant),
    ensures
        steady(outlet_step(plant, adjacent, s)),
        held(outlet_step(plant, adjacent, s)) == held(plant),
        outlet_step(plant, adjacent, s).components.len() == plant.components.len(),
{
    let n = plant.components.len();
    let around = adjacent[s];
    assert(around.within(n));
    let c = plant.components[s];
    let rate = c.spec_stats().reactor_vent_rate;
    let count = absorber_count(plant.components, around);
    let total = min_int(plant.store.heat as int, rate * count) as i64;
    lemma_total_bounds(plant.components, n);
    if !(c.depleted || !(c.kind is Outlet) || rate <= 0 || plant.store.heat <= 0 || count == 0
        || total <= 0) {
        c.kind.lemma_stats_within_limits();
        assert(0 <= rate * count <= 400_000_000_000) by (nonlinear_arith)
            requires
                0 <= rate <= 100_000_000_000,
                0 <= count <= 4,
        ;
        let share = (total as int / count) as i64;
        assert(0 <= share * count <= total && share >= 0) by (nonlinear_arith)
            requires
                share == total as int / count,
                total > 0,
                count > 0,
        ;
        let start = Plant {
            components: plant.components,
            store: plant.store.spec_add_heat((-total) as i64),
        };
        assert(start.store.heat == plant.store.heat - total);
        lemma_outlet_pushes_add_shares(start, around, share);
        let pushed = outlet_pushes(start, around, share);
        lemma_total_bounds(pushed.components, n);
        let left_over = (total - share * count) as i64;
        let after = outlet_step(plant, adjacent, s);
        assert(after.components == pushed.components);
        assert(after.store == returned(pushed.store, left_over));
        assert(after.store.heat == pushed.store.heat + left_over);
    }
}

/// The outlet pass keeps the heat of hull and buffers together.
pub proof fn lemma_outlet_pass_conserves(plant: Plant, adjacent: Seq<Neighbors>, n: nat)
    requires
        n <= plant.components.len(),
        table_fits(adjacent, plant.components.len()),
        steady(plant),
    ensures
        steady(outlet_pass(plant, adjacent, n)),
        held(outlet_pass(plant, adjacent, n)) == held(plant),
        outlet_pass(plant, adjacent, n).components.len() == plant.components.len(),
    decreases n,
{
    if n > 0 {
        lemma_outlet_pass_conserves(plant, adjacent, (n - 1) as nat);
        lemma_outlet_step_conserves(outlet_pass(plant, adjacent, (n - 1) as nat), adjacent, n - 1);
    }
}

/// Self-venting takes out of the buffers exactly what is vented.
pub proof fn lemma_self_vent_totals(plant: Plant, n: nat)
    requires
        n <= plant.components.len(),
        buffers_in_range(plant.components),
    ensures
        buffer_total(self_vent_pass(plant).components, n) == buffer_total(plant.components, n)
            - self_vented_total(plant.components, n),
    decreases n,
{
    if n > 0 {
        lemma_self_vent_totals(plant, (n - 1) as nat);
        assert(buffer_in_range(plant.components[n - 1]));
    }
}

/// Over one hull exchange, the heat of hull and buffers together changes
/// only by what the components vent from their own buffers: what vents,
/// inlets and outlets move is neither made nor lost. The hull's heat stays
/// non-negative and every buffer within its capacity.
///
/// This is so where the hull's heat is not negative, every buffer is in
/// range and all heat together fits the range of a quantity.
pub proof fn lemma_exchange_conserves_heat(plant: Plant, adjacent: Seq<Neighbors>)
    requires
        table_fits(adjacent, plant.components.len()),
        steady(plant),
    ensures
        ({
            let n = plant.components.len();
            let fed = outlet_pass(inlet_pass(vent_pass(plant, n), adjacent, n), adjacent, n);
            let after = spec_exchange_with_hull(plant, adjacent);
            &&& held(after) + self_vented_total(fed.components, n) == held(plant)
            &&& self_vented_total(fed.components, n) >= 0
            &&& steady(after)
        }),
{
    let n = plant.components.len();
    lemma_vent_pass_conserves(plant, n);
    let vented = vent_pass(plant, n);
    lemma_inlet_pass_conserves(vented, adjacent, n);
    let drained = inlet_pass(vented, adjacent, n);
    lemma_outlet_pass_conserves(drained, adjacent, n);
    let fed = outlet_pass(drained, adjacent, n);
    let after = self_vent_pass(fed);
    lemma_self_vent_totals(fed, n);
    lemma_self_vented_total_nonneg(fed.components, n);
    assert(after.store.heat == fed.store.heat);
    assert forall|i: int| 0 <= i < after.components.len() implies buffer_in_range(
        #[trigger] after.components[i],
    ) by {
        assert(buffer_in_range(fed.components[i]));
    }
    lemma_total_bounds(after.components, n);
}

/// What a fuel cell produces is shared out whole: the shares of the
/// neighbours that can take heat and what goes straight to the hull add up
/// to the heat produced.
pub proof fn lemma_produced_heat_is_shared_out(
    components: Seq<PlacedComponent>,
    around: Neighbors,
    c: PlacedComponent,
)
    ensures
        direct_heat(components, around, c) + share_of(components, around, c) * absorber_count(
            components,
            around,
        ) == heat_of(c),
        0 <= direct_heat(components, around, c) <= heat_of(c),
        absorber_count(components, around) == 0 ==> direct_heat(components, around, c) == heat_of(
            c,
        ),
{
    let count = absorber_count(components, around);
    let heat = heat_of(c);
    let share = share_of(components, around, c);
    assert(heat >= 0) by {
        c.kind.lemma_stats_within_limits();
        assert(c.pulse_count * c.pulse_count * c.spec_stats().heat_per_pulse >= 0)
            by (nonlinear_arith)
            requires
                c.pulse_count >= 0,
                c.spec_stats().heat_per_pulse >= 0,
        ;
    }
    if count > 0 {
        assert(0 <= share * count <= heat) by (nonlinear_arith)
            requires
                share == heat as int / count,
                heat >= 0,
                count > 0,
        ;
    } else {
        assert(share * count == 0) by (nonlinear_arith)
            requires
                share == 0,
        ;
    }
}

/// What one component draws from another in the coolant phase is what the
/// other gives to it.
pub proof fn lemma_drawn_is_given(components: Seq<PlacedComponent>, i: int, j: int)
    requires
        0 <= i < components.len(),
        0 <= j < components.len() <= usize::MAX,
    ensures
        drawn_from(components, i, Some(j as usize)) == given_to(components, j, Some(i as usize)),
{
}

/// The neighbour table of a list in which being a neighbour is mutual:
/// west answers east, and south answers north.
pub open spec fn table_is_mutual(table: Seq<Neighbors>) -> bool {
    &&& table.len() <= usize::MAX
    &&& table_fits(table, table.len())
    &&& forall|i: int, j: int|
        0 <= i < table.len() && 0 <= j < table.len() ==> ((#[trigger] table[i]).west == Some(
            j as usize,
        ) <==> (#[trigger] table[j]).east == Some(i as usize))
    &&& forall|i: int, j: int|
        0 <= i < table.len() && 0 <= j < table.len() ==> ((#[trigger] table[i]).south == Some(
            j as usize,
        ) <==> (#[trigger] table[j]).north == Some(i as usize))
}

/// The neighbour table of components at distinct coordinates within the
/// width and height is mutual.
pub proof fn lemma_adjacency_is_mutual(
    components: Seq<PlacedComponent>,
    width: usize,
    height: usize,
)
    requires
        components.len() <= usize::MAX,
        distinct_coords(components),
        forall|k: int|
            0 <= k < components.len() ==> (#[trigger] components[k]).coord.x < width
                && components[k].coord.y < height,
    ensures
        table_is_mutual(adjacency(components, width, height)),
{
    let table = adjacency(components, width, height);
    lemma_adjacency_fits(components, width, height);
    assert forall|i: int, j: int| 0 <= i < table.len() && 0 <= j < table.len() implies ((
    #[trigger] table[i]).west == Some(j as usize) <==> (#[trigger] table[j]).east == Some(
        i as usize,
    )) by {
        lemma_neighbours_are_mutual(components, width, height, i, j);
    }
    assert forall|i: int, j: int| 0 <= i < table.len() && 0 <= j < table.len() implies ((
    #[trigger] table[i]).south == Some(j as usize) <==> (#[trigger] table[j]).north == Some(
        i as usize,
    )) by {
        lemma_neighbours_are_mutual(components, width, height, i, j);
    }
}

/// The four lists of slots of a mutual table point at each other in pairs.
pub proof fn lemma_slots_of_mutual_table(table: Seq<Neighbors>)
    requires
        table_is_mutual(table),
    ensures
        slots_are_mutual(west_slots(table), east_slots(table)),
        slots_are_mutual(east_slots(table), west_slots(table)),
        slots_are_mutual(south_slots(table), north_slots(table)),
        slots_are_mutual(north_slots(table), south_slots(table)),
{
    let n = table.len();
    assert forall|j: int| 0 <= j < n implies (#[trigger] table[j]).within(n) by {}
    assert forall|j: int, s: int| 0 <= j < n && 0 <= s < n implies (
    #[trigger] west_slots(table)[j] == Some(s as usize) <==> #[trigger] east_slots(table)[s]
        == Some(j as usize)) by {
        assert(table[j].west == Some(s as usize) <==> table[s].east == Some(j as usize));
    }
    assert forall|j: int, s: int| 0 <= j < n && 0 <= s < n implies (
    #[trigger] east_slots(table)[j] == Some(s as usize) <==> #[trigger] west_slots(table)[s]
        == Some(j as usize)) by {
        assert(table[s].west == Some(j as usize) <==> table[j].east == Some(s as usize));
    }
    assert forall|j: int, s: int| 0 <= j < n && 0 <= s < n implies (
    #[trigger] south_slots(table)[j] == Some(s as usize) <==> #[trigger] north_slots(table)[s]
        == Some(j as usize)) by {
        assert(table[j].south == Some(s as usize) <==> table[s].north == Some(j as usize));
    }
    assert forall|j: int, s: int| 0 <= j < n && 0 <= s < n implies (
    #[trigger] north_slots(table)[j] == Some(s as usize) <==> #[trigger] south_slots(table)[s]
        == Some(j as usize)) by {
        assert(table[s].south == Some(j as usize) <==> table[j].north == Some(s as usize));
    }
    assert forall|j: int| 0 <= j < n && (#[trigger] west_slots(table)[j]) is Some implies west_slots(
        table,
    )[j]->0 < n by {
        assert(table[j].within(n));
    }
    assert forall|j: int| 0 <= j < n && (#[trigger] east_slots(table)[j]) is Some implies east_slots(
        table,
    )[j]->0 < n by {
        assert(table[j].within(n));
    }
    assert forall|j: int| 0 <= j < n && (#[trigger] south_slots(table)[j]) is Some implies south_slots(
        table,
    )[j]->0 < n by {
        assert(table[j].within(n));
    }
    assert forall|j: int| 0 <= j < n && (#[trigger] north_slots(table)[j]) is Some implies north_slots(
        table,
    )[j]->0 < n by {
        assert(table[j].within(n));
    }
}

/// The slots to the west of every component.
pub open spec fn west_slots(table: Seq<Neighbors>) -> Seq<Option<usize>> {
    Seq::new(table.len(), |i: int| table[i].west)
}

/// The slots to the east of every component.
pub open spec fn east_slots(table: Seq<Neighbors>) -> Seq<Option<usize>> {
    Seq::new(table.len(), |i: int| table[i].east)
}

/// The slots to the south of every component.
pub open spec fn south_slots(table: Seq<Neighbors>) -> Seq<Option<usize>> {
    Seq::new(table.len(), |i: int| table[i].south)
}

/// The slots to the north of every component.
pub open spec fn north_slots(table: Seq<Neighbors>) -> Seq<Option<usize>> {
    Seq::new(table.len(), |i: int| table[i].north)
}

/// What component `j` receives from its four neighbours, where `h(j, s)` is
/// what `j` receives from `s`.
pub open spec fn received_around(table: Seq<Neighbors>, j: int, h: spec_fn(int, int) -> int)
    -> int {
    through_slot(table[j].west, j, h) + through_slot(table[j].east, j, h) + through_slot(
        table[j].south,
        j,
        h,
    ) + through_slot(table[j].north, j, h)
}

/// What component `s` gives to its four neighbours, where `h(j, s)` is what
/// `j` receives from `s`.
pub open spec fn given_around(table: Seq<Neighbors>, s: int, h: spec_fn(int, int) -> int) -> int {
    into_slot(table[s].west, s, h) + into_slot(table[s].east, s, h) + into_slot(
        table[s].south,
        s,
        h,
    ) + into_slot(table[s].north, s, h)
}

/// In a mutual table, all that the components receive from their neighbours
/// is all that the components give to theirs.
#[verifier::rlimit(50)]
pub proof fn lemma_received_is_given(table: Seq<Neighbors>, h: spec_fn(int, int) -> int)
    requires
        table_is_mutual(table),
    ensures
        sum_to(table.len(), |j: int| received_around(table, j, h)) == sum_to(
            table.len(),
            |s: int| given_around(table, s, h),
        ),
{
    let n = table.len();
    let w = west_slots(table);
    let e = east_slots(table);
    let so = south_slots(table);
    let no = north_slots(table);
    lemma_slots_of_mutual_table(table);
    lemma_sum_over_mutual_slots(w, e, h);
    lemma_sum_over_mutual_slots(e, w, h);
    lemma_sum_over_mutual_slots(so, no, h);
    lemma_sum_over_mutual_slots(no, so, h);
    let from_west = |j: int| through_slot(w[j], j, h);
    let from_east = |j: int| through_slot(e[j], j, h);
    let from_south = |j: int| through_slot(so[j], j, h);
    let from_north = |j: int| through_slot(no[j], j, h);
    let to_west = |s: int| into_slot(w[s], s, h);
    let to_east = |s: int| into_slot(e[s], s, h);
    let to_south = |s: int| into_slot(so[s], s, h);
    let to_north = |s: int| into_slot(no[s], s, h);
    assert(sum_to(n, from_west) == sum_to(n, to_east));
    assert(sum_to(n, from_east) == sum_to(n, to_west));
    assert(sum_to(n, from_south) == sum_to(n, to_north));
    assert(sum_to(n, from_north) == sum_to(n, to_south));
    let from_we = |j: int| from_west(j) + from_east(j);
    let from_sn = |j: int| from_south(j) + from_north(j);
    let to_we = |s: int| to_west(s) + to_east(s);
    let to_sn = |s: int| to_south(s) + to_north(s);
    lemma_sum_add(n, from_west, from_east);
    lemma_sum_add(n, from_south, from_north);
    lemma_sum_add(n, to_west, to_east);
    lemma_sum_add(n, to_south, to_north);
    lemma_sum_same(n, from_we, |k: int| from_west(k) + from_east(k));
    lemma_sum_same(n, from_sn, |k: int| from_south(k) + from_north(k));
    lemma_sum_same(n, to_we, |k: int| to_west(k) + to_east(k));
    lemma_sum_same(n, to_sn, |k: int| to_south(k) + to_north(k));
    lemma_sum_add(n, from_we, from_sn);
    lemma_sum_add(n, to_we, to_sn);
    let received = |j: int| received_around(table, j, h);
    let given = |s: int| given_around(table, s, h);
    assert forall|k: int| 0 <= k < n implies #[trigger] received(k) == from_we(k) + from_sn(k) by {}
    assert forall|k: int| 0 <= k < n implies #[trigger] given(k) == to_we(k) + to_sn(k) by {}
    lemma_sum_same(n, received, |k: int| from_we(k) + from_sn(k));
    lemma_sum_same(n, given, |k: int| to_we(k) + to_sn(k));
}

/// The heat in the buffers as a sum over the positions of the list.
pub proof fn lemma_buffer_total_is_sum(components: Seq<PlacedComponent>, n: nat)
    ensures
        buffer_total(components, n) == sum_to(n, |i: int| components[i].heat as int),
    decreases n,
{
    if n > 0 {
        lemma_buffer_total_is_sum(components, (n - 1) as nat);
    }
}

/// What the buffers cannot hold in the coolant phase as a sum over the
/// positions of the list.
pub proof fn lemma_diffusion_overflow_is_sum(
    components: Seq<PlacedComponent>,
    table: Seq<Neighbors>,
    n: nat,
)
    ensures
        diffusion_overflow(components, table, n) == sum_to(
            n,
            |i: int| diffusion_spill(components, table, i) as int,
        ),
    decreases n,
{
    if n > 0 {
        lemma_diffusion_overflow_is_sum(components, table, (n - 1) as nat);
    }
}

/// No component draws more from a neighbour than a quarter of what the
/// neighbour holds more, and none draws a negative amount.
pub proof fn lemma_transfer_bounds(source: PlacedComponent, neighbor: PlacedComponent)
    requires
        source.heat >= 0,
    ensures
        0 <= transfer(source, neighbor),
        4 * transfer(source, neighbor) <= max_int(neighbor.heat - source.heat, 0),
{
}

/// What a component holds and draws is no more than the hottest buffer
/// holds, and what it gives is no more than it holds.
pub proof fn lemma_flows_fit(components: Seq<PlacedComponent>, table: Seq<Neighbors>, i: int)
    requires
        table_fits(table, components.len()),
        buffers_in_range(components),
        0 <= i < components.len(),
    ensures
        ({
            let h = |j: int, s: int| transfer(components[j], components[s]);
            &&& 0 <= received_around(table, i, h)
            &&& 0 <= given_around(table, i, h) <= components[i].heat
            &&& components[i].heat + received_around(table, i, h) <= max_int(
                components[i].heat as int,
                buffer_total(components, components.len()),
            )
            &&& heat_delta(components, table, i) == received_around(table, i, h) - given_around(
                table,
                i,
                h,
            )
        }),
{
    let n = components.len();
    let around = table[i];
    assert(around.within(n));
    lemma_total_bounds(components, n);
    assert(buffer_in_range(components[i]));
    if around.west is Some {
        let k = around.west->0 as int;
        assert(buffer_in_range(components[k]));
        lemma_transfer_bounds(components[i], components[k]);
        lemma_transfer_bounds(components[k], components[i]);
    }
    if around.east is Some {
        let k = around.east->0 as int;
        assert(buffer_in_range(components[k]));
        lemma_transfer_bounds(components[i], components[k]);
        lemma_transfer_bounds(components[k], components[i]);
    }
    if around.south is Some {
        let k = around.south->0 as int;
        assert(buffer_in_range(components[k]));
        lemma_transfer_bounds(components[i], components[k]);
        lemma_transfer_bounds(components[k], components[i]);
    }
    if around.north is Some {
        let k = around.north->0 as int;
        assert(buffer_in_range(components[k]));
        lemma_transfer_bounds(components[i], components[k]);
        lemma_transfer_bounds(components[k], components[i]);
    }
}

/// The coolant phase moves heat between buffers and loses none: what the
/// buffers hold afterwards and what they could not hold, which goes to the
/// hull, add up to what the buffers held before.
///
/// This is so where being a neighbour is mutual, every buffer is in range
/// and all buffer heat together fits the range of a quantity.
#[verifier::rlimit(50)]
pub proof fn lemma_coolant_conserves_heat(components: Seq<PlacedComponent>, table: Seq<Neighbors>)
    requires
        table_is_mutual(table),
        table.len() == components.len(),
        buffers_in_range(components),
        buffer_total(components, components.len()) <= i64::MAX,
    ensures
        buffer_total(spec_coolant_components(components, table), components.len())
            + diffusion_overflow(components, table, components.len()) == buffer_total(
            components,
            components.len(),
        ),
        diffusion_overflow(components, table, components.len()) >= 0,
        buffers_in_range(spec_coolant_components(components, table)),
{
    let n = components.len();
    let after = spec_coolant_components(components, table);
    let h = |j: int, s: int| transfer(components[j], components[s]);
    let drawn = |j: int| received_around(table, j, h);
    let given = |s: int| given_around(table, s, h);
    let before_heat = |i: int| components[i].heat as int;
    let after_heat = |i: int| after[i].heat as int;
    let spill = |i: int| diffusion_spill(components, table, i) as int;
    let kept = |i: int| after_heat(i) + spill(i);
    let net = |i: int| drawn(i) - given(i);
    let moved = |i: int| before_heat(i) + net(i);
    lemma_received_is_given(table, h);
    lemma_total_bounds(components, n);
    assert forall|i: int| 0 <= i < n implies #[trigger] kept(i) == moved(i) && spill(i) >= 0
        && buffer_in_range(after[i]) by {
        lemma_flows_fit(components, table, i);
        let c = components[i];
        let delta = heat_delta(components, table, i);
        assert(buffer_in_range(c));
        assert(c.heat <= buffer_total(components, n));
        if delta >= 0 {
            lemma_push_keeps_heat(c, delta as i64);
        }
    }
    assert forall|i: int| 0 <= i < n implies #[trigger] spill(i) >= 0 by {
        assert(kept(i) == moved(i));
    }
    assert forall|i: int| 0 <= i < n implies buffer_in_range(#[trigger] after[i]) by {
        assert(kept(i) == moved(i));
    }
    lemma_buffer_total_is_sum(components, n);
    lemma_buffer_total_is_sum(after, n);
    lemma_diffusion_overflow_is_sum(components, table, n);
    lemma_sum_add(n, after_heat, spill);
    lemma_sum_same(n, kept, |k: int| after_heat(k) + spill(k));
    lemma_sum_same(n, kept, moved);
    lemma_sum_add(n, before_heat, net);
    lemma_sum_same(n, moved, |k: int| before_heat(k) + net(k));
    lemma_sum_sub(n, drawn, given);
    lemma_sum_same(n, net, |k: int| drawn(k) - given(k));
    lemma_sum_nonneg(n, spill);
    lemma_sum_same(n, after_heat, |i: int| after[i].heat as int);
    lemma_sum_same(n, before_heat, |i: int| components[i].heat as int);
    lemma_sum_same(n, spill, |i: int| diffusion_spill(components, table, i) as int);
}

/// Heat that the first `n` components produce together in a tick.
pub open spec fn produced_heat(components: Seq<PlacedComponent>, n: nat) -> int
    decreases n,
{
    if n == 0 {
        0
    } else {
        produced_heat(components, (n - 1) as nat) + heat_of(components[n - 1])
    }
}

/// The heat produced as a sum over the positions of the list.
pub proof fn lemma_produced_heat_is_sum(components: Seq<PlacedComponent>, n: nat)
    ensures
        produced_heat(components, n) == sum_to(n, |i: int| heat_of(components[i]) as int),
    decreases n,
{
    if n > 0 {
        lemma_produced_heat_is_sum(components, (n - 1) as nat);
    }
}

/// The heat released to the hull as a sum over the positions of the list.
pub proof fn lemma_released_heat_is_sum(
    components: Seq<PlacedComponent>,
    table: Seq<Neighbors>,
    n: nat,
)
    ensures
        released_heat(components, table, n) == sum_to(
            n,
            |i: int|
                direct_heat(components, table[i], components[i]) + spilled_heat(
                    components[i],
                    pending_heat(components, table, i),
                ),
        ),
    decreases n,
{
    if n > 0 {
        lemma_released_heat_is_sum(components, table, (n - 1) as nat);
    }
}

/// What a component receives of the heat of a neighbour: that neighbour's
/// share, if the component can take heat.
pub open spec fn share_between(components: Seq<PlacedComponent>, table: Seq<Neighbors>) -> spec_fn(
    int,
    int,
) -> int {
    |j: int, s: int|
        if absorbs(components, Some(j as usize)) {
            share_of(components, table[s], components[s]) as int
        } else {
            0
        }
}

/// What arrives at a component and what leaves one, in terms of shares:
/// what arrives is the sum of the neighbours' shares, and what leaves is
/// one share for every neighbour that can take heat.
pub proof fn lemma_shares_around(components: Seq<PlacedComponent>, table: Seq<Neighbors>, i: int)
    requires
        table_fits(table, components.len()),
        components.len() <= usize::MAX,
        0 <= i < components.len(),
    ensures
        ({
            let h = share_between(components, table);
            let c = components[i];
            &&& received_around(table, i, h) == (if !c.depleted && c.spec_stats().heat_capacity
                > 0 {
                share_from(components, table, table[i].west) + share_from(
                    components,
                    table,
                    table[i].east,
                ) + share_from(components, table, table[i].south) + share_from(
                    components,
                    table,
                    table[i].north,
                )
            } else {
                0
            })
            &&& given_around(table, i, h) == share_of(components, table[i], c) * absorber_count(
                components,
                table[i],
            )
            &&& received_around(table, i, h) >= 0
            &&& 0 <= given_around(table, i, h) <= heat_of(c)
        }),
{
    let h = share_between(components, table);
    let c = components[i];
    let around = table[i];
    assert(around.within(components.len()));
    let share = share_of(components, around, c);
    let count = absorber_count(components, around);
    let a: int = if absorbs(components, around.west) { 1 } else { 0 };
    let b: int = if absorbs(components, around.east) { 1 } else { 0 };
    let d: int = if absorbs(components, around.south) { 1 } else { 0 };
    let e: int = if absorbs(components, around.north) { 1 } else { 0 };
    assert(share * (a + b + d + e) == share * a + share * b + share * d + share * e)
        by (nonlinear_arith);
    assert(into_slot(around.west, i, h) == share * a);
    assert(into_slot(around.east, i, h) == share * b);
    assert(into_slot(around.south, i, h) == share * d);
    assert(into_slot(around.north, i, h) == share * e);
    lemma_produced_heat_is_shared_out(components, around, c);
    lemma_share_nonneg(components, table, around.west);
    lemma_share_nonneg(components, table, around.east);
    lemma_share_nonneg(components, table, around.south);
    lemma_share_nonneg(components, table, around.north);
    assert(share >= 0) by {
        lemma_share_nonneg(components, table, Some(i as usize));
    }
    assert(share * count >= 0) by (nonlinear_arith)
        requires
            share >= 0,
            count >= 0,
    ;
}

/// No share is negative.
pub proof fn lemma_share_nonneg(
    components: Seq<PlacedComponent>,
    table: Seq<Neighbors>,
    slot: Option<usize>,
)
    ensures
        share_from(components, table, slot) >= 0,
{
    if slot is Some {
        let s = slot->0 as int;
        lemma_produced_heat_is_shared_out(components, table[s], components[s]);
        let count = absorber_count(components, table[s]);
        let heat = heat_of(components[s]);
        if count > 0 {
            assert(heat as int / count >= 0) by (nonlinear_arith)
                requires
                    heat >= 0,
                    count > 0,
            ;
        }
    }
}

/// What arrives at each component of the shares of its neighbours.
pub open spec fn arriving_at(components: Seq<PlacedComponent>, table: Seq<Neighbors>) -> spec_fn(
    int,
) -> int {
    |j: int| received_around(table, j, share_between(components, table))
}

/// What goes straight to the hull of what each component produces.
pub open spec fn straight_from(components: Seq<PlacedComponent>, table: Seq<Neighbors>) -> spec_fn(
    int,
) -> int {
    |i: int| direct_heat(components, table[i], components[i]) as int
}

/// What reaches the hull on account of each component.
pub open spec fn released_at(components: Seq<PlacedComponent>, table: Seq<Neighbors>) -> spec_fn(
    int,
) -> int {
    |i: int|
        direct_heat(components, table[i], components[i]) + spilled_heat(
            components[i],
            pending_heat(components, table, i),
        )
}

/// What each component produces.
pub open spec fn produced_by(components: Seq<PlacedComponent>) -> spec_fn(int) -> int {
    |i: int| heat_of(components[i]) as int
}

/// What each component holds.
pub open spec fn heat_in(components: Seq<PlacedComponent>) -> spec_fn(int) -> int {
    |i: int| components[i].heat as int
}

/// All that is produced is what goes straight to the hull and what arrives
/// at the neighbours; none of these amounts is negative.
#[verifier::rlimit(50)]
pub proof fn lemma_shares_add_up(components: Seq<PlacedComponent>, table: Seq<Neighbors>)
    requires
        table_is_mutual(table),
        table.len() == components.len(),
    ensures
        sum_to(components.len(), produced_by(components)) == sum_to(
            components.len(),
            straight_from(components, table),
        ) + sum_to(components.len(), arriving_at(components, table)),
        sum_to(components.len(), straight_from(components, table)) >= 0,
        sum_to(components.len(), arriving_at(components, table)) >= 0,
        forall|i: int|
            0 <= i < components.len() ==> 0 <= #[trigger] arriving_at(components, table)(i)
                <= sum_to(components.len(), arriving_at(components, table)),
{
    let n = components.len();
    let h = share_between(components, table);
    let arriving = arriving_at(components, table);
    let direct = straight_from(components, table);
    let produced = produced_by(components);
    let leaving = |s: int| given_around(table, s, h);
    let shared = |i: int| direct(i) + leaving(i);
    lemma_received_is_given(table, h);
    lemma_sum_same(n, arriving, |j: int| received_around(table, j, h));
    assert forall|i: int| 0 <= i < n implies #[trigger] arriving(i) >= 0 by {
        lemma_shares_around(components, table, i);
    }
    assert forall|i: int| 0 <= i < n implies #[trigger] direct(i) >= 0 by {
        lemma_produced_heat_is_shared_out(components, table[i], components[i]);
    }
    assert forall|i: int| 0 <= i < n implies #[trigger] produced(i) == shared(i) by {
        lemma_shares_around(components, table, i);
        lemma_produced_heat_is_shared_out(components, table[i], components[i]);
    }
    lemma_sum_nonneg(n, arriving);
    lemma_sum_nonneg(n, direct);
    lemma_sum_add(n, direct, leaving);
    lemma_sum_same(n, shared, |k: int| direct(k) + leaving(k));
    lemma_sum_same(n, produced, shared);
}

/// The heat that arrives at one component is in its buffer afterwards or
/// released to the hull.
pub proof fn lemma_generated_keeps_heat(
    components: Seq<PlacedComponent>,
    table: Seq<Neighbors>,
    i: int,
)
    requires
        table_fits(table, components.len()),
        components.len() <= usize::MAX,
        0 <= i < components.len(),
        buffer_in_range(components[i]),
        components[i].heat + arriving_at(components, table)(i) <= i64::MAX,
    ensures
        generated(components, table, i).heat + released_at(components, table)(i) == components[i].heat
            + arriving_at(components, table)(i) + straight_from(components, table)(i),
        released_at(components, table)(i) >= 0,
        buffer_in_range(generated(components, table, i)),
{
    lemma_shares_around(components, table, i);
    lemma_produced_heat_is_shared_out(components, table[i], components[i]);
    let c = components[i];
    let pending = pending_heat(components, table, i);
    assert(pending == arriving_at(components, table)(i));
    let recorded = if !c.depleted && c.spec_stats().energy_per_pulse > 0 {
        PlacedComponent {
            last_power: power_of(components, table[i], c),
            last_heat: heat_of(c),
            ..c
        }
    } else {
        c
    };
    assert(buffer_in_range(recorded));
    lemma_push_keeps_heat(recorded, pending);
    assert(spilled_heat(recorded, pending) == spilled_heat(c, pending));
    assert(generated(components, table, i) == heated(recorded, pending));
}

/// Generation makes no heat but what the fuel cells produce and loses
/// none: what the buffers hold afterwards and what is released to the hull
/// add up to what the buffers held before and what was produced.
///
/// This is so where being a neighbour is mutual, every buffer is in range
/// and all the heat together fits the range of a quantity.
#[verifier::rlimit(50)]
pub proof fn lemma_generation_conserves_heat(
    components: Seq<PlacedComponent>,
    table: Seq<Neighbors>,
)
    requires
        table_is_mutual(table),
        table.len() == components.len(),
        buffers_in_range(components),
        buffer_total(components, components.len()) + produced_heat(components, components.len())
            <= i64::MAX,
    ensures
        buffer_total(spec_generate_components(components, table), components.len())
            + released_heat(components, table, components.len()) == buffer_total(
            components,
            components.len(),
        ) + produced_heat(components, components.len()),
        released_heat(components, table, components.len()) >= 0,
        buffers_in_range(spec_generate_components(components, table)),
{
    let n = components.len();
    let after = spec_generate_components(components, table);
    let arriving = arriving_at(components, table);
    let direct = straight_from(components, table);
    let released = released_at(components, table);
    let before_heat = heat_in(components);
    let after_heat = heat_in(after);
    let kept = |i: int| after_heat(i) + released(i);
    let gained = |i: int| arriving(i) + direct(i);
    let moved = |i: int| before_heat(i) + gained(i);
    lemma_shares_add_up(components, table);
    lemma_total_bounds(components, n);
    lemma_buffer_total_is_sum(components, n);
    lemma_buffer_total_is_sum(after, n);
    lemma_produced_heat_is_sum(components, n);
    lemma_released_heat_is_sum(components, table, n);
    assert forall|i: int| 0 <= i < n implies #[trigger] kept(i) == moved(i) by {
        assert(buffer_in_range(components[i]));
        assert(arriving(i) <= sum_to(n, arriving));
        lemma_generated_keeps_heat(components, table, i);
    }
    assert forall|i: int| 0 <= i < n implies #[trigger] released(i) >= 0 by {
        assert(buffer_in_range(components[i]));
        assert(arriving(i) <= sum_to(n, arriving));
        lemma_generated_keeps_heat(components, table, i);
    }
    assert forall|i: int| 0 <= i < n implies buffer_in_range(#[trigger] after[i]) by {
        assert(buffer_in_range(components[i]));
        assert(arriving(i) <= sum_to(n, arriving));
        lemma_generated_keeps_heat(components, table, i);
    }
    lemma_sum_add(n, after_heat, released);
    lemma_sum_same(n, kept, |k: int| after_heat(k) + released(k));
    lemma_sum_same(n, kept, moved);
    lemma_sum_add(n, arriving, direct);
    lemma_sum_same(n, gained, |k: int| arriving(k) + direct(k));
    lemma_sum_add(n, before_heat, gained);
    lemma_sum_same(n, moved, |k: int| before_heat(k) + gained(k));
    lemma_sum_nonneg(n, released);
    lemma_sum_same(n, after_heat, |i: int| after[i].heat as int);
    lemma_sum_same(n, before_heat, |i: int| components[i].heat as int);
    lemma_sum_same(n, produced_by(components), |i: int| heat_of(components[i]) as int);
    lemma_sum_same(
        n,
        released,
        |i: int|
            direct_heat(components, table[i], components[i]) + spilled_heat(
                components[i],
                pending_heat(components, table, i),
            ),
    );
}

} // verus!
