//! Durability drain: fuel wears by the tick, reflectors by the pulses of
//! the fuel next to them.

use vstd::prelude::*;
use crate::engine::layout::{table_fits, Neighbors};
use crate::model::component::PlacedComponent;
use crate::units::{clamp_i64, max_int, max_of, sat_sub, UNIT};

verus! {

/// Wear that the neighbour in a slot causes to a reflector: its pulse count
/// in whole units, if it is there, active and fuel.
pub open spec fn fuel_pulses_from(components: Seq<PlacedComponent>, slot: Option<usize>) -> int {
    match slot {
        Some(j) => {
            let n = components[j as int];
            if !n.depleted && n.spec_is_fuel() {
                n.pulse_count * UNIT
            } else {
                0
            }
        },
        None => 0,
    }
}

/// Durability that component `i` loses this tick. Only an active component
/// with a positive maximum durability wears: fuel by one unit, a reflector
/// by the summed pulse counts of the active fuel next to it.
pub open spec fn durability_drain(
    components: Seq<PlacedComponent>,
    adjacent: Seq<Neighbors>,
    i: int,
) -> int {
    let c = components[i];
    let stats = c.spec_stats();
    let around = adjacent[i];
    if c.depleted || stats.max_durability <= 0 {
        0
    } else if stats.energy_per_pulse > 0 {
        UNIT as int
    } else if stats.reflector_bonus_pct > 0 {
        fuel_pulses_from(components, around.west) + fuel_pulses_from(components, around.east)
            + fuel_pulses_from(components, around.south) + fuel_pulses_from(
            components,
            around.north,
        )
    } else {
        0
    }
}

/// A component after losing `drain` durability: unchanged for no drain,
/// else the durability drops, not below zero, and a component that reaches
/// zero is depleted and forgets its pulses, power and heat.
pub open spec fn worn(c: PlacedComponent, drain: int) -> PlacedComponent {
    let left = max_int(clamp_i64(c.durability - drain) as int, 0) as i64;
    if drain <= 0 {
        c
    } else if left <= 0 {
        PlacedComponent {
            durability: left,
            depleted: true,
            pulse_count: 0,
            last_power: 0,
            last_heat: 0,
            ..c
        }
    } else {
        PlacedComponent { durability: left, ..c }
    }
}

/// The components after the durability drain, each taken on the state from
/// before the phase.
pub open spec fn spec_drain_durability(components: Seq<PlacedComponent>, adjacent: Seq<Neighbors>)
    -> Seq<PlacedComponent> {
    Seq::new(
        components.len(),
        |i: int| worn(components[i], durability_drain(components, adjacent, i)),
    )
}

fn wear_from(components: &Vec<PlacedComponent>, slot: Option<usize>) -> (wear: i64)
    requires
        slot is Some ==> slot->0 < components@.len(),
    ensures
        wear == fuel_pulses_from(components@, slot),
        0 <= wear <= 4294967295 * 1_000_000,
{
    match slot {
        Some(j) => {
            let n = components[j];
            if !n.depleted && n.is_fuel() {
                assert(0 <= n.pulse_count * 1_000_000 <= 4294967295 * 1_000_000) by (nonlinear_arith)
                    requires
                        0 <= n.pulse_count <= 4294967295,
                ;
                (n.pulse_count as i64) * UNIT
            } else {
                0
            }
        },
        None => 0,
    }
}

/// Wears every active component that has durability and depletes those
/// that run out.
pub fn drain_durability(components: &mut Vec<PlacedComponent>, adjacent: &Vec<Neighbors>)
    requires
        table_fits(adjacent@, old(components)@.len()),
    ensures
        final(components)@ == spec_drain_durability(old(components)@, adjacent@),
{
    let n: usize = components.len();
    let mut next: Vec<PlacedComponent> = Vec::new();
    let mut i: usize = 0;
    while i < n
        invariant
            i <= n,
            n == components@.len(),
            components@ == old(components)@,
            table_fits(adjacent@, n as nat),
            next@.len() == i,
            forall|k: int|
                0 <= k < i ==> #[trigger] next@[k] == worn(
                    components@[k],
                    durability_drain(components@, adjacent@, k),
                ),
        decreases n - i,
    {
        let c = components[i];
        let stats = c.stats();
        let around = adjacent[i];
        assert(around.within(n as nat));
        let mut drain: i64 = 0;
        if !c.depleted && stats.max_durability > 0 {
            if stats.energy_per_pulse > 0 {
                drain = UNIT;
            } else if stats.reflector_bonus_pct > 0 {
                drain = wear_from(components, around.west) + wear_from(components, around.east)
                    + wear_from(components, around.south) + wear_from(components, around.north);
            }
        }
        let mut updated = c;
        if drain > 0 {
            updated.durability = max_of(sat_sub(c.durability, drain), 0);
            if updated.durability <= 0 {
                updated.depleted = true;
                updated.pulse_count = 0;
                updated.last_power = 0;
                updated.last_heat = 0;
            }
        }
        next.push(updated);
        i = i + 1;
    }
    assert(next@ =~= spec_drain_durability(components@, adjacent@));
    *components = next;
}

} // verus!
