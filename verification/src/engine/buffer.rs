//! The heat buffers of the components, and what the heat phases share:
//! filling a buffer, returning what does not fit, and telling which
//! neighbours can take heat.

use vstd::prelude::*;
use crate::engine::layout::Neighbors;
use crate::engine::resource_store::{ResourceStore, TickDeltas};
use crate::model::component::PlacedComponent;
use crate::units::{clamp_i64, sat_add};

verus! {

/// Heat that a component holds after `amount` is pushed into it: nothing
/// changes for an amount that is not positive or a component without
/// capacity, else the buffer fills up to its capacity.
pub open spec fn stored_heat(component: PlacedComponent, amount: i64) -> i64 {
    let capacity = component.spec_stats().heat_capacity;
    let target = clamp_i64(component.heat + amount);
    if amount <= 0 || capacity <= 0 {
        component.heat
    } else if target <= capacity {
        target
    } else {
        capacity
    }
}

/// Heat that does not fit when `amount` is pushed into a component: all of
/// it for a component without capacity, else what exceeds the capacity.
pub open spec fn spilled_heat(component: PlacedComponent, amount: i64) -> i64 {
    let capacity = component.spec_stats().heat_capacity;
    let target = clamp_i64(component.heat + amount);
    if amount <= 0 {
        0
    } else if capacity <= 0 {
        amount
    } else if target <= capacity {
        0
    } else {
        (target - capacity) as i64
    }
}

/// The component with `amount` of heat pushed into its buffer.
pub open spec fn heated(component: PlacedComponent, amount: i64) -> PlacedComponent {
    PlacedComponent { heat: stored_heat(component, amount), ..component }
}

/// Pushes heat into a component's buffer and returns what did not fit.
pub fn add_heat_to_component(component: &mut PlacedComponent, amount: i64) -> (overflow: i64)
    ensures
        *final(component) == heated(*old(component), amount),
        overflow == spilled_heat(*old(component), amount),
        overflow >= 0,
{
    if amount <= 0 {
        return 0;
    }
    let capacity: i64 = component.stats().heat_capacity;
    if capacity <= 0 {
        return amount;
    }
    let target: i64 = sat_add(component.heat, amount);
    if target <= capacity {
        component.heat = target;
        return 0;
    }
    component.heat = capacity;
    target - capacity
}

/// The store after `overflow` came back from a buffer that was full.
pub open spec fn returned(store: ResourceStore, overflow: i64) -> ResourceStore {
    if overflow > 0 {
        store.spec_add_heat(overflow)
    } else {
        store
    }
}

/// Two lists hold the same components except for the heat in the buffers
/// of the active ones.
pub open spec fn heat_only(a: Seq<PlacedComponent>, b: Seq<PlacedComponent>) -> bool {
    &&& a.len() == b.len()
    &&& forall|i: int|
        0 <= i < a.len() ==> #[trigger] b[i] == (PlacedComponent { heat: b[i].heat, ..a[i] })
    &&& forall|i: int| 0 <= i < a.len() && a[i].depleted ==> #[trigger] b[i] == a[i]
}

/// Two stores agree on everything but the hull's heat and its bookkeeping,
/// and the second is well-formed if the first is.
pub open spec fn hull_heat_only(a: ResourceStore, b: ResourceStore) -> bool {
    &&& b == (ResourceStore {
        heat: b.heat,
        total_heat_dissipated: b.total_heat_dissipated,
        heat_dissipated_this_game: b.heat_dissipated_this_game,
        tick_deltas: TickDeltas { heat: b.tick_deltas.heat, ..a.tick_deltas },
        ..a
    })
    &&& a.wf() ==> b.wf()
}

/// Whether the neighbour in a slot can take heat: it is there, active and
/// has a heat capacity.
pub open spec fn absorbs(components: Seq<PlacedComponent>, slot: Option<usize>) -> bool {
    match slot {
        Some(j) => !components[j as int].depleted && components[j as int].spec_stats().heat_capacity
            > 0,
        None => false,
    }
}

/// How many of the four neighbours can take heat.
pub open spec fn absorber_count(components: Seq<PlacedComponent>, around: Neighbors) -> int {
    (if absorbs(components, around.west) { 1int } else { 0 }) + (if absorbs(
        components,
        around.east,
    ) { 1int } else { 0 }) + (if absorbs(components, around.south) { 1int } else { 0 }) + (
    if absorbs(components, around.north) { 1int } else { 0 })
}

/// Whether the neighbour in a slot can take heat.
pub fn can_absorb(components: &Vec<PlacedComponent>, slot: Option<usize>) -> (b: bool)
    requires
        slot is Some ==> slot->0 < components@.len(),
    ensures
        b == absorbs(components@, slot),
{
    match slot {
        Some(j) => !components[j].depleted && components[j].stats().heat_capacity > 0,
        None => false,
    }
}

/// Counts the neighbours that can take heat.
pub fn count_absorbers(components: &Vec<PlacedComponent>, around: Neighbors) -> (count: i64)
    requires
        around.within(components@.len()),
    ensures
        count == absorber_count(components@, around),
        0 <= count <= 4,
{
    let mut count: i64 = 0;
    if can_absorb(components, around.west) {
        count = count + 1;
    }
    if can_absorb(components, around.east) {
        count = count + 1;
    }
    if can_absorb(components, around.south) {
        count = count + 1;
    }
    if can_absorb(components, around.north) {
        count = count + 1;
    }
    count
}

} // verus!
