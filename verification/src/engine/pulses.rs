//! Pulse distribution: every active fuel cell pulses its own cell and the
//! four cells next to it.

use vstd::prelude::*;
use crate::engine::layout::{table_fits, Neighbors};
use crate::model::component::PlacedComponent;

verus! {

/// Pulses that a component sends to its own cell and to each neighbour:
/// its `pulses_produced`, at least one, if it is active fuel.
pub open spec fn emission(c: PlacedComponent) -> int {
    if !c.depleted && c.spec_stats().energy_per_pulse > 0 {
        if c.spec_stats().pulses_produced >= 1 {
            c.spec_stats().pulses_produced as int
        } else {
            1
        }
    } else {
        0
    }
}

/// Pulses that arrive from the neighbour in a slot.
pub open spec fn emission_from(components: Seq<PlacedComponent>, slot: Option<usize>) -> int {
    match slot {
        Some(j) => emission(components[j as int]),
        None => 0,
    }
}

/// Pulses that reach component `i` this tick: from itself and from its four
/// neighbours, counted afresh and capped at the largest `u32`.
pub open spec fn pulses_received(components: Seq<PlacedComponent>, adjacent: Seq<Neighbors>, i: int)
    -> u32 {
    let around = adjacent[i];
    let total = emission(components[i]) + emission_from(components, around.west) + emission_from(
        components,
        around.east,
    ) + emission_from(components, around.south) + emission_from(components, around.north);
    if total > u32::MAX {
        u32::MAX
    } else {
        total as u32
    }
}

/// The components with this tick's pulse counts.
pub open spec fn spec_distribute_pulses(components: Seq<PlacedComponent>, adjacent: Seq<Neighbors>)
    -> Seq<PlacedComponent> {
    Seq::new(
        components.len(),
        |i: int|
            PlacedComponent {
                pulse_count: pulses_received(components, adjacent, i),
                ..components[i]
            },
    )
}

fn emitted(c: PlacedComponent) -> (pulses: u64)
    ensures
        pulses == emission(c),
        pulses <= 4,
{
    let stats = c.stats();
    if !c.depleted && stats.energy_per_pulse > 0 {
        if stats.pulses_produced >= 1 {
            stats.pulses_produced as u64
        } else {
            1
        }
    } else {
        0
    }
}

fn emitted_from(components: &Vec<PlacedComponent>, slot: Option<usize>) -> (pulses: u64)
    requires
        slot is Some ==> slot->0 < components@.len(),
    ensures
        pulses == emission_from(components@, slot),
        pulses <= 4,
{
    match slot {
        Some(j) => emitted(components[j]),
        None => 0,
    }
}

/// Recomputes every component's pulse count from scratch.
pub fn distribute_pulses(components: &mut Vec<PlacedComponent>, adjacent: &Vec<Neighbors>)
    requires
        table_fits(adjacent@, old(components)@.len()),
    ensures
        final(components)@ == spec_distribute_pulses(old(components)@, adjacent@),
{
    let n: usize = components.len();
    let mut next: Vec<PlacedComponent> = Vec::new();
    let mut i: usize = 0;
    while i < n
        invariant
            i <= n,
            n == components@.len(),
            components@ == old(components)@,
            table_fits(adjacent@, n as nat),
            next@.len() == i,
            forall|k: int|
                0 <= k < i ==> #[trigger] next@[k] == (PlacedComponent {
                    pulse_count: pulses_received(components@, adjacent@, k),
                    ..components@[k]
                }),
        decreases n - i,
    {
        let c = components[i];
        let around = adjacent[i];
        assert(around.within(n as nat));
        let total: u64 = emitted(c) + emitted_from(components, around.west) + emitted_from(
            components,
            around.east,
        ) + emitted_from(components, around.south) + emitted_from(components, around.north);
        let mut updated = c;
        updated.pulse_count = total as u32;
        next.push(updated);
        i = i + 1;
    }
    assert(next@ =~= spec_distribute_pulses(components@, adjacent@));
    *components = next;
}

} // verus!
