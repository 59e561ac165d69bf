//! Heat exchange between the hull and the component buffers: vents pull,
//! inlets drain their neighbours, outlets feed theirs, and every component
//! vents what its own rate allows.

use vstd::prelude::*;
use crate::engine::buffer::{
    absorber_count,
    absorbs,
    add_heat_to_component,
    can_absorb,
    count_absorbers,
    heat_only,
    heated,
    hull_heat_only,
    returned,
    spilled_heat,
};
use crate::engine::layout::{table_fits, Neighbors};
use crate::engine::resource_store::ResourceStore;
use crate::model::component::{ComponentKind, PlacedComponent};
use crate::units::{clamp_i64, lemma_clamp_add_nonneg, min_int, min_of, sat_add};

verus! {

/// The part of the simulation that the heat phases work on.
pub struct Plant {
    pub components: Seq<PlacedComponent>,
    pub store: ResourceStore,
}

/// One vent's turn: an active vent with a positive rate moves
/// `min(hull heat, rate)` from the hull into its own buffer; what the buffer
/// cannot hold returns to the hull.
pub open spec fn vent_step(plant: Plant, s: int) -> Plant {
    let c = plant.components[s];
    let rate = c.spec_stats().reactor_vent_rate;
    let transfer = min_int(plant.store.heat as int, rate as int) as i64;
    if c.depleted || !(c.kind is Vent) || rate <= 0 || transfer <= 0 {
        plant
    } else {
        Plant {
            components: plant.components.update(s, heated(c, transfer)),
            store: returned(
                plant.store.spec_add_heat((-transfer) as i64),
                spilled_heat(c, transfer),
            ),
        }
    }
}

/// The plant after the first `n` components had their turn as vents, in
/// list order.
pub open spec fn vent_pass(plant: Plant, n: nat) -> Plant
    decreases n,
{
    if n == 0 {
        plant
    } else {
        vent_step(vent_pass(plant, (n - 1) as nat), n - 1)
    }
}

/// An inlet pulls `min(buffer heat, rate)` out of one neighbour's buffer
/// into the hull, if that neighbour is active and holds heat.
pub open spec fn inlet_pull(plant: Plant, slot: Option<usize>, rate: i64) -> Plant {
    match slot {
        Some(j) => {
            let t = plant.components[j as int];
            let pulled = min_int(t.heat as int, rate as int) as i64;
            if t.depleted || t.heat <= 0 || pulled <= 0 {
                plant
            } else {
                Plant {
                    components: plant.components.update(
                        j as int,
                        PlacedComponent { heat: (t.heat - pulled) as i64, ..t },
                    ),
                    store: plant.store.spec_add_heat(pulled),
                }
            }
        },
        None => plant,
    }
}

/// One inlet's turn: an active inlet with a positive rate pulls from its
/// west, east, south and north neighbour, in that order.
pub open spec fn inlet_step(plant: Plant, adjacent: Seq<Neighbors>, s: int) -> Plant {
    let c = plant.components[s];
    let rate = c.spec_stats().reactor_vent_rate;
    if c.depleted || !(c.kind is Inlet) || rate <= 0 {
        plant
    } else {
        inlet_pull(
            inlet_pull(
                inlet_pull(inlet_pull(plant, adjacent[s].west, rate), adjacent[s].east, rate),
                adjacent[s].south,
                rate,
            ),
            adjacent[s].north,
            rate,
        )
    }
}

/// The plant after the first `n` components had their turn as inlets.
pub open spec fn inlet_pass(plant: Plant, adjacent: Seq<Neighbors>, n: nat) -> Plant
    decreases n,
{
    if n == 0 {
        plant
    } else {
        inlet_step(inlet_pass(plant, adjacent, (n - 1) as nat), adjacent, n - 1)
    }
}

/// An outlet pushes `share` into one neighbour's buffer if that neighbour
/// was found able to take heat; what does not fit returns to the hull.
pub open spec fn outlet_push(plant: Plant, slot: Option<usize>, able: bool, share: i64) -> Plant {
    if able && slot is Some {
        let j = slot->0 as int;
        Plant {
            components: plant.components.update(j, heated(plant.components[j], share)),
            store: returned(plant.store, spilled_heat(plant.components[j], share)),
        }
    } else {
        plant
    }
}

/// The plant after an outlet pushed `share` into each of the neighbours
/// that could take heat before the first push: west, east, south, north.
pub open spec fn outlet_pushes(plant: Plant, around: Neighbors, share: i64) -> Plant {
    outlet_push(
        outlet_push(
            outlet_push(
                outlet_push(plant, around.west, absorbs(plant.components, around.west), share),
                around.east,
                absorbs(plant.components, around.east),
                share,
            ),
            around.south,
            absorbs(plant.components, around.south),
            share,
        ),
        around.north,
        absorbs(plant.components, around.north),
        share,
    )
}

/// One outlet's turn: an active outlet with a positive rate, while the hull
/// holds heat, takes `min(hull heat, rate * absorbers)` out of the hull and
/// pushes an equal share of it, in whole millionths, into each neighbour
/// that can take heat. What the shares leave over of the amount taken
/// returns to the hull, as does what a buffer cannot hold.
pub open spec fn outlet_step(plant: Plant, adjacent: Seq<Neighbors>, s: int) -> Plant {
    let c = plant.components[s];
    let rate = c.spec_stats().reactor_vent_rate;
    let around = adjacent[s];
    let count = absorber_count(plant.components, around);
    let total = min_int(plant.store.heat as int, rate * count) as i64;
    if c.depleted || !(c.kind is Outlet) || rate <= 0 || plant.store.heat <= 0 || count == 0
        || total <= 0 {
        plant
    } else {
        let share = (total as int / count) as i64;
        let start = Plant {
            components: plant.components,
            store: plant.store.spec_add_heat((-total) as i64),
        };
        let pushed = outlet_pushes(start, around, share);
        Plant {
            components: pushed.components,
            store: returned(pushed.store, (total - share * count) as i64),
        }
    }
}

/// The plant after the first `n` components had their turn as outlets.
pub open spec fn outlet_pass(plant: Plant, adjacent: Seq<Neighbors>, n: nat) -> Plant
    decreases n,
{
    if n == 0 {
        plant
    } else {
        outlet_step(outlet_pass(plant, adjacent, (n - 1) as nat), adjacent, n - 1)
    }
}

/// What a component vents from its own buffer to the environment: up to its
/// self-vent rate, if it is active and holds heat.
pub open spec fn self_vented(c: PlacedComponent) -> i64 {
    let rate = c.spec_stats().self_vent_rate;
    if c.depleted || rate <= 0 || c.heat <= 0 {
        0
    } else {
        min_int(c.heat as int, rate as int) as i64
    }
}

/// Heat vented to the environment by the first `n` components together.
pub open spec fn self_vented_total(components: Seq<PlacedComponent>, n: nat) -> int
    decreases n,
{
    if n == 0 {
        0
    } else {
        self_vented_total(components, (n - 1) as nat) + self_vented(components[n - 1])
    }
}

/// The plant after every component vented its own buffer. The vented heat
/// counts as dissipated; it does not pass through the hull.
pub open spec fn self_vent_pass(plant: Plant) -> Plant {
    let total = clamp_i64(self_vented_total(plant.components, plant.components.len()));
    Plant {
        components: Seq::new(
            plant.components.len(),
            |i: int|
                PlacedComponent {
                    heat: (plant.components[i].heat - self_vented(plant.components[i])) as i64,
                    ..plant.components[i]
                },
        ),
        store: if total > 0 {
            ResourceStore {
                total_heat_dissipated: clamp_i64(plant.store.total_heat_dissipated + total),
                heat_dissipated_this_game: clamp_i64(plant.store.heat_dissipated_this_game + total),
                ..plant.store
            }
        } else {
            plant.store
        },
    }
}

/// The whole hull exchange: vents, then inlets, then outlets, then
/// self-venting, each pass over the components in list order.
pub open spec fn spec_exchange_with_hull(plant: Plant, adjacent: Seq<Neighbors>) -> Plant {
    let n = plant.components.len();
    self_vent_pass(
        outlet_pass(inlet_pass(vent_pass(plant, n), adjacent, n), adjacent, n),
    )
}

fn is_vent(kind: ComponentKind) -> (b: bool)
    ensures
        b == (kind is Vent),
{
    match kind {
        ComponentKind::Vent { .. } => true,
        _ => false,
    }
}

fn is_inlet(kind: ComponentKind) -> (b: bool)
    ensures
        b == (kind is Inlet),
{
    match kind {
        ComponentKind::Inlet { .. } => true,
        _ => false,
    }
}

fn is_outlet(kind: ComponentKind) -> (b: bool)
    ensures
        b == (kind is Outlet),
{
    match kind {
        ComponentKind::Outlet { .. } => true,
        _ => false,
    }
}

fn pull_from(
    components: &mut Vec<PlacedComponent>,
    store: &mut ResourceStore,
    slot: Option<usize>,
    rate: i64,
)
    requires
        slot is Some ==> slot->0 < old(components)@.len(),
    ensures
        (Plant { components: final(components)@, store: *final(store) }) == inlet_pull(
            Plant { components: old(components)@, store: *old(store) },
            slot,
            rate,
        ),
        final(components)@.len() == old(components)@.len(),
{
    if let Some(j) = slot {
        let t = components[j];
        if !t.depleted && t.heat > 0 {
            let pulled: i64 = min_of(t.heat, rate);
            if pulled > 0 {
                let mut drained = t;
                drained.heat = t.heat - pulled;
                components[j] = drained;
                store.add_heat(pulled);
            }
        }
    }
}

fn push_into(
    components: &mut Vec<PlacedComponent>,
    store: &mut ResourceStore,
    slot: Option<usize>,
    able: bool,
    share: i64,
)
    requires
        slot is Some ==> slot->0 < old(components)@.len(),
    ensures
        (Plant { components: final(components)@, store: *final(store) }) == outlet_push(
            Plant { components: old(components)@, store: *old(store) },
            slot,
            able,
            share,
        ),
        final(components)@.len() == old(components)@.len(),
{
    if able {
        if let Some(j) = slot {
            let mut target = components[j];
            let overflow = add_heat_to_component(&mut target, share);
            components[j] = target;
            if overflow > 0 {
                store.add_heat(overflow);
            }
        }
    }
}

fn vent_turn(components: &mut Vec<PlacedComponent>, store: &mut ResourceStore, s: usize)
    requires
        s < old(components)@.len(),
    ensures
        (Plant { components: final(components)@, store: *final(store) }) == vent_step(
            Plant { components: old(components)@, store: *old(store) },
            s as int,
        ),
        final(components)@.len() == old(components)@.len(),
{
    let c = components[s];
    let rate: i64 = c.stats().reactor_vent_rate;
    if !c.depleted && is_vent(c.kind) && rate > 0 {
        let transfer: i64 = min_of(store.heat, rate);
        if transfer > 0 {
            store.add_heat(-transfer);
            let mut target = c;
            let overflow = add_heat_to_component(&mut target, transfer);
            components[s] = target;
            if overflow > 0 {
                store.add_heat(overflow);
            }
        }
    }
}

fn inlet_turn(
    components: &mut Vec<PlacedComponent>,
    store: &mut ResourceStore,
    adjacent: &Vec<Neighbors>,
    s: usize,
)
    requires
        s < old(components)@.len(),
        table_fits(adjacent@, old(components)@.len()),
    ensures
        (Plant { components: final(components)@, store: *final(store) }) == inlet_step(
            Plant { components: old(components)@, store: *old(store) },
            adjacent@,
            s as int,
        ),
        final(components)@.len() == old(components)@.len(),
{
    let c = components[s];
    let rate: i64 = c.stats().reactor_vent_rate;
    if !c.depleted && is_inlet(c.kind) && rate > 0 {
        let around = adjacent[s];
        assert(around.within(components@.len()));
        pull_from(components, store, around.west, rate);
        pull_from(components, store, around.east, rate);
        pull_from(components, store, around.south, rate);
        pull_from(components, store, around.north, rate);
    }
}

fn outlet_turn(
    components: &mut Vec<PlacedComponent>,
    store: &mut ResourceStore,
    adjacent: &Vec<Neighbors>,
    s: usize,
)
    requires
        s < old(components)@.len(),
        table_fits(adjacent@, old(components)@.len()),
    ensures
        (Plant { components: final(components)@, store: *final(store) }) == outlet_step(
            Plant { components: old(components)@, store: *old(store) },
            adjacent@,
            s as int,
        ),
        final(components)@.len() == old(components)@.len(),
{
    let c = components[s];
    let rate: i64 = c.stats().reactor_vent_rate;
    if !c.depleted && is_outlet(c.kind) && rate > 0 && store.heat > 0 {
        let around = adjacent[s];
        assert(around.within(components@.len()));
        let west: bool = can_absorb(components, around.west);
        let east: bool = can_absorb(components, around.east);
        let south: bool = can_absorb(components, around.south);
        let north: bool = can_absorb(components, around.north);
        let count: i64 = count_absorbers(components, around);
        if count > 0 {
            assert(0 <= rate * count <= 400_000_000_000) by (nonlinear_arith)
                requires
                    0 <= rate <= 100_000_000_000,
                    0 <= count <= 4,
            ;
            let total: i64 = min_of(store.heat, rate * count);
            if total > 0 {
                store.add_heat(-total);
                let share: i64 = total / count;
                assert(0 <= share * count <= total) by (nonlinear_arith)
                    requires
                        share == total / count,
                        total > 0,
                        count > 0,
                ;
                push_into(components, store, around.west, west, share);
                push_into(components, store, around.east, east, share);
                push_into(components, store, around.south, south, share);
                push_into(components, store, around.north, north, share);
                let left_over: i64 = total - share * count;
                if left_over > 0 {
                    store.add_heat(left_over);
                }
            }
        }
    }
}

fn self_vent(components: &mut Vec<PlacedComponent>, store: &mut ResourceStore)
    ensures
        (Plant { components: final(components)@, store: *final(store) }) == self_vent_pass(
            Plant { components: old(components)@, store: *old(store) },
        ),
        final(components)@.len() == old(components)@.len(),
{
    let n: usize = components.len();
    let ghost fed = Plant { components: components@, store: *store };
    let mut total: i64 = 0;
    let mut s: usize = 0;
    while s < n
        invariant
            s <= n,
            components@.len() == n,
            fed.components.len() == n,
            *store == fed.store,
            total == clamp_i64(self_vented_total(fed.components, s as nat)),
            self_vented_total(fed.components, s as nat) >= 0,
            forall|i: int|
                0 <= i < s ==> #[trigger] components@[i] == (PlacedComponent {
                    heat: (fed.components[i].heat - self_vented(fed.components[i])) as i64,
                    ..fed.components[i]
                }),
            forall|i: int| s <= i < n ==> #[trigger] components@[i] == fed.components[i],
        decreases n - s,
    {
        let c = components[s];
        let rate: i64 = c.stats().self_vent_rate;
        if !c.depleted && rate > 0 && c.heat > 0 {
            let vented: i64 = min_of(c.heat, rate);
            let mut cooled = c;
            cooled.heat = c.heat - vented;
            components[s] = cooled;
            proof {
                lemma_clamp_add_nonneg(self_vented_total(fed.components, s as nat), vented as int);
            }
            total = sat_add(total, vented);
        }
        s = s + 1;
    }
    if total > 0 {
        store.total_heat_dissipated = sat_add(store.total_heat_dissipated, total);
        store.heat_dissipated_this_game = sat_add(store.heat_dissipated_this_game, total);
    }
    assert(components@ =~= self_vent_pass(fed).components);
}

/// Runs the four hull exchange passes in order.
pub fn exchange_with_hull(
    components: &mut Vec<PlacedComponent>,
    store: &mut ResourceStore,
    adjacent: &Vec<Neighbors>,
)
    requires
        table_fits(adjacent@, old(components)@.len()),
    ensures
        (Plant { components: final(components)@, store: *final(store) }) == spec_exchange_with_hull(
            Plant { components: old(components)@, store: *old(store) },
            adjacent@,
        ),
        final(components)@.len() == old(components)@.len(),
{
    let n: usize = components.len();
    let ghost start = Plant { components: components@, store: *store };
    let mut s: usize = 0;
    while s < n
        invariant
            s <= n,
            components@.len() == n,
            (Plant { components: components@, store: *store }) == vent_pass(start, s as nat),
        decreases n - s,
    {
        vent_turn(components, store, s);
        s = s + 1;
    }
    let ghost vented = Plant { components: components@, store: *store };
    s = 0;
    while s < n
        invariant
            s <= n,
            components@.len() == n,
            table_fits(adjacent@, n as nat),
            (Plant { components: components@, store: *store }) == inlet_pass(
                vented,
                adjacent@,
                s as nat,
            ),
        decreases n - s,
    {
        inlet_turn(components, store, adjacent, s);
        s = s + 1;
    }
    let ghost drained = Plant { components: components@, store: *store };
    s = 0;
    while s < n
        invariant
            s <= n,
            components@.len() == n,
            table_fits(adjacent@, n as nat),
            (Plant { components: components@, store: *store }) == outlet_pass(
                drained,
                adjacent@,
                s as nat,
            ),
        decreases n - s,
    {
        outlet_turn(components, store, adjacent, s);
        s = s + 1;
    }
    self_vent(components, store);
}

/// A chain of heat-only changes is a heat-only change.
pub proof fn lemma_heat_only_chain(a: Plant, b: Plant, c: Plant)
    requires
        heat_only(a.components, b.components),
        hull_heat_only(a.store, b.store),
        heat_only(b.components, c.components),
        hull_heat_only(b.store, c.store),
    ensures
        heat_only(a.components, c.components),
        hull_heat_only(a.store, c.store),
{
    assert forall|i: int| 0 <= i < a.components.len() implies #[trigger] c.components[i] == (
    PlacedComponent { heat: c.components[i].heat, ..a.components[i] }) by {
        assert(b.components[i] == (PlacedComponent {
            heat: b.components[i].heat,
            ..a.components[i]
        }));
        assert(c.components[i] == (PlacedComponent {
            heat: c.components[i].heat,
            ..b.components[i]
        }));
    }
    assert forall|i: int|
        0 <= i < a.components.len() && a.components[i].depleted implies #[trigger] c.components[i]
        == a.components[i] by {
        assert(b.components[i] == a.components[i]);
        assert(c.components[i] == b.components[i]);
    }
}

/// One vent's turn changes buffer heat and hull heat, nothing else.
pub proof fn lemma_vent_step_frame(plant: Plant, s: int)
    requires
        0 <= s < plant.components.len(),
    ensures
        heat_only(plant.components, vent_step(plant, s).components),
        hull_heat_only(plant.store, vent_step(plant, s).store),
{
}

/// The vent pass changes buffer heat and hull heat, nothing else.
pub proof fn lemma_vent_pass_frame(plant: Plant, n: nat)
    requires
        n <= plant.components.len(),
    ensures
        heat_only(plant.components, vent_pass(plant, n).components),
        hull_heat_only(plant.store, vent_pass(plant, n).store),
    decreases n,
{
    if n > 0 {
        let before = vent_pass(plant, (n - 1) as nat);
        lemma_vent_pass_frame(plant, (n - 1) as nat);
        lemma_vent_step_frame(before, n - 1);
        lemma_heat_only_chain(plant, before, vent_step(before, n - 1));
    }
}

/// One pull of an inlet changes buffer heat and hull heat, nothing else.
pub proof fn lemma_inlet_pull_frame(plant: Plant, slot: Option<usize>, rate: i64)
    requires
        slot is Some ==> slot->0 < plant.components.len(),
    ensures
        heat_only(plant.components, inlet_pull(plant, slot, rate).components),
        hull_heat_only(plant.store, inlet_pull(plant, slot, rate).store),
{
}

/// One inlet's turn changes buffer heat and hull heat, nothing else.
pub proof fn lemma_inlet_step_frame(plant: Plant, adjacent: Seq<Neighbors>, s: int)
    requires
        0 <= s < plant.components.len(),
        table_fits(adjacent, plant.components.len()),
    ensures
        heat_only(plant.components, inlet_step(plant, adjacent, s).components),
        hull_heat_only(plant.store, inlet_step(plant, adjacent, s).store),
{
    let around = adjacent[s];
    assert(around.within(plant.components.len()));
    let rate = plant.components[s].spec_stats().reactor_vent_rate;
    let west = inlet_pull(plant, around.west, rate);
    lemma_inlet_pull_frame(plant, around.west, rate);
    let east = inlet_pull(west, around.east, rate);
    lemma_inlet_pull_frame(west, around.east, rate);
    lemma_heat_only_chain(plant, west, east);
    let south = inlet_pull(east, around.south, rate);
    lemma_inlet_pull_frame(east, around.south, rate);
    lemma_heat_only_chain(plant, east, south);
    let north = inlet_pull(south, around.north, rate);
    lemma_inlet_pull_frame(south, around.north, rate);
    lemma_heat_only_chain(plant, south, north);
}

/// The inlet pass changes buffer heat and hull heat, nothing else.
pub proof fn lemma_inlet_pass_frame(plant: Plant, adjacent: Seq<Neighbors>, n: nat)
    requires
        n <= plant.components.len(),
        table_fits(adjacent, plant.components.len()),
    ensures
        heat_only(plant.components, inlet_pass(plant, adjacent, n).components),
        hull_heat_only(plant.store, inlet_pass(plant, adjacent, n).store),
    decreases n,
{
    if n > 0 {
        let before = inlet_pass(plant, adjacent, (n - 1) as nat);
        lemma_inlet_pass_frame(plant, adjacent, (n - 1) as nat);
        lemma_inlet_step_frame(before, adjacent, n - 1);
        lemma_heat_only_chain(plant, before, inlet_step(before, adjacent, n - 1));
    }
}

/// One push of an outlet into a neighbour that is not depleted changes
/// buffer heat and hull heat, nothing else.
pub proof fn lemma_outlet_push_frame(plant: Plant, slot: Option<usize>, able: bool, share: i64)
    requires
        slot is Some ==> slot->0 < plant.components.len(),
        able && slot is Some ==> !plant.components[slot->0 as int].depleted,
    ensures
        heat_only(plant.components, outlet_push(plant, slot, able, share).components),
        hull_heat_only(plant.store, outlet_push(plant, slot, able, share).store),
{
}

/// Pushes change no flag: what could take heat before is not depleted
/// after.
proof fn lemma_heat_only_keeps_absorbers(
    a: Seq<PlacedComponent>,
    b: Seq<PlacedComponent>,
    slot: Option<usize>,
)
    requires
        heat_only(a, b),
        slot is Some ==> slot->0 < a.len(),
    ensures
        absorbs(a, slot) && slot is Some ==> !b[slot->0 as int].depleted,
{
    if slot is Some {
        let k = slot->0 as int;
        assert(b[k] == (PlacedComponent { heat: b[k].heat, ..a[k] }));
    }
}

/// The pushes of one outlet change buffer heat and hull heat, nothing
/// else.
pub proof fn lemma_outlet_pushes_frame(plant: Plant, around: Neighbors, share: i64)
    requires
        around.within(plant.components.len()),
    ensures
        heat_only(plant.components, outlet_pushes(plant, around, share).components),
        hull_heat_only(plant.store, outlet_pushes(plant, around, share).store),
{
    let able_west = absorbs(plant.components, around.west);
    let able_east = absorbs(plant.components, around.east);
    let able_south = absorbs(plant.components, around.south);
    let able_north = absorbs(plant.components, around.north);
    lemma_outlet_push_frame(plant, around.west, able_west, share);
    let west = outlet_push(plant, around.west, able_west, share);
    lemma_heat_only_keeps_absorbers(plant.components, west.components, around.east);
    lemma_outlet_push_frame(west, around.east, able_east, share);
    let east = outlet_push(west, around.east, able_east, share);
    lemma_heat_only_chain(plant, west, east);
    lemma_heat_only_keeps_absorbers(plant.components, east.components, around.south);
    lemma_outlet_push_frame(east, around.south, able_south, share);
    let south = outlet_push(east, around.south, able_south, share);
    lemma_heat_only_chain(plant, east, south);
    lemma_heat_only_keeps_absorbers(plant.components, south.components, around.north);
    lemma_outlet_push_frame(south, around.north, able_north, share);
    let north = outlet_push(south, around.north, able_north, share);
    lemma_heat_only_chain(plant, south, north);
}

/// One outlet's turn changes buffer heat and hull heat, nothing else.
pub proof fn lemma_outlet_step_frame(plant: Plant, adjacent: Seq<Neighbors>, s: int)
    requires
        0 <= s < plant.components.len(),
        table_fits(adjacent, plant.components.len()),
    ensures
        heat_only(plant.components, outlet_step(plant, adjacent, s).components),
        hull_heat_only(plant.store, outlet_step(plant, adjacent, s).store),
{
    let around = adjacent[s];
    assert(around.within(plant.components.len()));
    let c = plant.components[s];
    let rate = c.spec_stats().reactor_vent_rate;
    let count = absorber_count(plant.components, around);
    let total = min_int(plant.store.heat as int, rate * count) as i64;
    if !(c.depleted || !(c.kind is Outlet) || rate <= 0 || plant.store.heat <= 0 || count == 0
        || total <= 0) {
        let share = (total as int / count) as i64;
        let start = Plant {
            components: plant.components,
            store: plant.store.spec_add_heat((-total) as i64),
        };
        assert(heat_only(plant.components, start.components));
        lemma_outlet_pushes_frame(start, around, share);
        let pushed = outlet_pushes(start, around, share);
        lemma_heat_only_chain(plant, start, pushed);
        let settled = Plant {
            components: pushed.components,
            store: returned(pushed.store, (total - share * count) as i64),
        };
        assert(heat_only(pushed.components, settled.components));
        lemma_heat_only_chain(plant, pushed, settled);
    }
}

/// The outlet pass changes buffer heat and hull heat, nothing else.
pub proof fn lemma_outlet_pass_frame(plant: Plant, adjacent: Seq<Neighbors>, n: nat)
    requires
        n <= plant.components.len(),
        table_fits(adjacent, plant.components.len()),
    ensures
        heat_only(plant.components, outlet_pass(plant, adjacent, n).components),
        hull_heat_only(plant.store, outlet_pass(plant, adjacent, n).store),
    decreases n,
{
    if n > 0 {
        let before = outlet_pass(plant, adjacent, (n - 1) as nat);
        lemma_outlet_pass_frame(plant, adjacent, (n - 1) as nat);
        lemma_outlet_step_frame(before, adjacent, n - 1);
        lemma_heat_only_chain(plant, before, outlet_step(before, adjacent, n - 1));
    }
}

/// No component vents a negative amount.
pub proof fn lemma_self_vented_total_nonneg(components: Seq<PlacedComponent>, n: nat)
    ensures
        self_vented_total(components, n) >= 0,
    decreases n,
{
    if n > 0 {
        lemma_self_vented_total_nonneg(components, (n - 1) as nat);
    }
}

/// Self-venting changes buffer heat and the dissipation totals, nothing
/// else.
pub proof fn lemma_self_vent_frame(plant: Plant)
    ensures
        heat_only(plant.components, self_vent_pass(plant).components),
        hull_heat_only(plant.store, self_vent_pass(plant).store),
{
    lemma_self_vented_total_nonneg(plant.components, plant.components.len());
}

/// The whole hull exchange changes buffer heat and hull heat, nothing
/// else, and leaves depleted components as they are.
pub proof fn lemma_exchange_frame(plant: Plant, adjacent: Seq<Neighbors>)
    requires
        table_fits(adjacent, plant.components.len()),
    ensures
        heat_only(plant.components, spec_exchange_with_hull(plant, adjacent).components),
        hull_heat_only(plant.store, spec_exchange_with_hull(plant, adjacent).store),
{
    let n = plant.components.len();
    let vented = vent_pass(plant, n);
    lemma_vent_pass_frame(plant, n);
    let drained = inlet_pass(vented, adjacent, n);
    lemma_inlet_pass_frame(vented, adjacent, n);
    lemma_heat_only_chain(plant, vented, drained);
    let fed = outlet_pass(drained, adjacent, n);
    lemma_outlet_pass_frame(drained, adjacent, n);
    lemma_heat_only_chain(plant, drained, fed);
    lemma_self_vent_frame(fed);
    lemma_heat_only_chain(plant, fed, self_vent_pass(fed));
}

} // verus!
