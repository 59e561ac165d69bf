//! Coolant diffusion: heat flows from hotter neighbours into components
//! that absorb it.

use vstd::prelude::*;
use crate::engine::buffer::{add_heat_to_component, heated, returned, spilled_heat};
use crate::engine::layout::{table_fits, Neighbors};
use crate::engine::resource_store::ResourceStore;
use crate::model::component::PlacedComponent;
use crate::units::{clamp_i64, lemma_clamp_add_nonneg, min_int, min_of, narrow, sat_add};

verus! {

/// A component absorbs from its neighbours when it is active and has both
/// an absorb rate and a heat capacity.
pub open spec fn cools(c: PlacedComponent) -> bool {
    !c.depleted && c.spec_stats().coolant_absorb_rate > 0 && c.spec_stats().heat_capacity > 0
}

/// Heat that flows from `neighbor` into `source` in one tick: nothing unless
/// `source` absorbs and `neighbor` is active and strictly hotter, else
/// `min(0.25 * (neighbor heat - source heat), absorb rate, neighbor heat)`.
pub open spec fn transfer(source: PlacedComponent, neighbor: PlacedComponent) -> int {
    let quarter = (neighbor.heat - source.heat) / 4;
    let amount = min_int(
        min_int(quarter, source.spec_stats().coolant_absorb_rate as int),
        neighbor.heat as int,
    );
    if !cools(source) || neighbor.depleted || neighbor.heat <= source.heat || neighbor.heat <= 0
        || amount <= 0 {
        0
    } else {
        amount
    }
}

/// What component `i` draws from the neighbour in a slot.
pub open spec fn drawn_from(components: Seq<PlacedComponent>, i: int, slot: Option<usize>) -> int {
    match slot {
        Some(j) => transfer(components[i], components[j as int]),
        None => 0,
    }
}

/// What component `i` gives to the neighbour in a slot.
pub open spec fn given_to(components: Seq<PlacedComponent>, i: int, slot: Option<usize>) -> int {
    match slot {
        Some(j) => transfer(components[j as int], components[i]),
        None => 0,
    }
}

/// Net heat that component `i` gains in the phase: what it draws from its
/// four neighbours less what they draw from it, every pair taken on the
/// heat values from before the phase.
pub open spec fn heat_delta(components: Seq<PlacedComponent>, adjacent: Seq<Neighbors>, i: int)
    -> int {
    let around = adjacent[i];
    drawn_from(components, i, around.west) + drawn_from(components, i, around.east) + drawn_from(
        components,
        i,
        around.south,
    ) + drawn_from(components, i, around.north) - given_to(components, i, around.west) - given_to(
        components,
        i,
        around.east,
    ) - given_to(components, i, around.south) - given_to(components, i, around.north)
}

/// Component `i` after diffusion: a net loss leaves its buffer (not below
/// empty), a net gain fills it up to its capacity.
pub open spec fn diffused(components: Seq<PlacedComponent>, adjacent: Seq<Neighbors>, i: int)
    -> PlacedComponent {
    let c = components[i];
    let delta = heat_delta(components, adjacent, i);
    if delta < 0 {
        PlacedComponent { heat: (c.heat - min_int(-delta, c.heat as int)) as i64, ..c }
    } else {
        heated(c, clamp_i64(delta))
    }
}

/// What component `i` cannot hold of its net gain.
pub open spec fn diffusion_spill(
    components: Seq<PlacedComponent>,
    adjacent: Seq<Neighbors>,
    i: int,
) -> i64 {
    let delta = heat_delta(components, adjacent, i);
    if delta > 0 {
        spilled_heat(components[i], clamp_i64(delta))
    } else {
        0
    }
}

/// What the first `n` components together cannot hold of their gains.
pub open spec fn diffusion_overflow(
    components: Seq<PlacedComponent>,
    adjacent: Seq<Neighbors>,
    n: nat,
) -> int
    decreases n,
{
    if n == 0 {
        0
    } else {
        diffusion_overflow(components, adjacent, (n - 1) as nat) + diffusion_spill(
            components,
            adjacent,
            n - 1,
        )
    }
}

/// The components after diffusion.
pub open spec fn spec_coolant_components(
    components: Seq<PlacedComponent>,
    adjacent: Seq<Neighbors>,
) -> Seq<PlacedComponent> {
    Seq::new(components.len(), |i: int| diffused(components, adjacent, i))
}

/// The store after diffusion: what the buffers could not hold goes to the
/// hull.
pub open spec fn spec_coolant_store(
    components: Seq<PlacedComponent>,
    adjacent: Seq<Neighbors>,
    store: ResourceStore,
) -> ResourceStore {
    returned(store, clamp_i64(diffusion_overflow(components, adjacent, components.len())))
}

fn flow(source: PlacedComponent, neighbor: PlacedComponent) -> (amount: i64)
    ensures
        amount == transfer(source, neighbor),
        amount >= 0,
        amount > 0 ==> neighbor.heat >= amount,
{
    let stats = source.stats();
    if source.depleted || stats.coolant_absorb_rate <= 0 || stats.heat_capacity <= 0 {
        return 0;
    }
    if neighbor.depleted || neighbor.heat <= source.heat || neighbor.heat <= 0 {
        return 0;
    }
    let quarter: i128 = (neighbor.heat as i128 - source.heat as i128) / 4;
    let capped: i128 = if quarter < stats.coolant_absorb_rate as i128 {
        quarter
    } else {
        stats.coolant_absorb_rate as i128
    };
    let amount: i64 = min_of(capped as i64, neighbor.heat);
    if amount <= 0 {
        0
    } else {
        amount
    }
}

fn draw(components: &Vec<PlacedComponent>, i: usize, slot: Option<usize>) -> (amount: i64)
    requires
        i < components@.len(),
        slot is Some ==> slot->0 < components@.len(),
    ensures
        amount == drawn_from(components@, i as int, slot),
        amount >= 0,
{
    match slot {
        Some(j) => flow(components[i], components[j]),
        None => 0,
    }
}

fn give(components: &Vec<PlacedComponent>, i: usize, slot: Option<usize>) -> (amount: i64)
    requires
        i < components@.len(),
        slot is Some ==> slot->0 < components@.len(),
    ensures
        amount == given_to(components@, i as int, slot),
        amount >= 0,
        amount > 0 ==> components@[i as int].heat >= amount,
{
    match slot {
        Some(j) => flow(components[j], components[i]),
        None => 0,
    }
}

/// Moves heat from hotter neighbours into absorbing components and sends
/// what does not fit to the hull.
pub fn apply_coolant_effects(
    components: &mut Vec<PlacedComponent>,
    store: &mut ResourceStore,
    adjacent: &Vec<Neighbors>,
)
    requires
        table_fits(adjacent@, old(components)@.len()),
    ensures
        final(components)@ == spec_coolant_components(old(components)@, adjacent@),
        *final(store) == spec_coolant_store(old(components)@, adjacent@, *old(store)),
{
    let n: usize = components.len();
    let mut next: Vec<PlacedComponent> = Vec::new();
    let mut overflow: i64 = 0;
    let mut i: usize = 0;
    while i < n
        invariant
            i <= n,
            n == components@.len(),
            components@ == old(components)@,
            table_fits(adjacent@, n as nat),
            next@.len() == i,
            forall|k: int| 0 <= k < i ==> #[trigger] next@[k] == diffused(components@, adjacent@, k),
            diffusion_overflow(components@, adjacent@, i as nat) >= 0,
            overflow == clamp_i64(diffusion_overflow(components@, adjacent@, i as nat)),
        decreases n - i,
    {
        let c = components[i];
        let around = adjacent[i];
        assert(around.within(n as nat));
        let gained: i128 = draw(components, i, around.west) as i128 + draw(
            components,
            i,
            around.east,
        ) as i128 + draw(components, i, around.south) as i128 + draw(
            components,
            i,
            around.north,
        ) as i128;
        let lost: i128 = give(components, i, around.west) as i128 + give(
            components,
            i,
            around.east,
        ) as i128 + give(components, i, around.south) as i128 + give(
            components,
            i,
            around.north,
        ) as i128;
        let delta: i128 = gained - lost;
        let mut updated = c;
        let mut spill: i64 = 0;
        if delta < 0 {
            let removed: i64 = if -delta < c.heat as i128 {
                (-delta) as i64
            } else {
                c.heat
            };
            updated.heat = c.heat - removed;
        } else {
            spill = add_heat_to_component(&mut updated, narrow(delta));
        }
        next.push(updated);
        proof {
            lemma_clamp_add_nonneg(
                diffusion_overflow(components@, adjacent@, i as nat),
                spill as int,
            );
        }
        overflow = sat_add(overflow, spill);
        i = i + 1;
    }
    assert(next@ =~= spec_coolant_components(components@, adjacent@));
    *components = next;
    if overflow > 0 {
        store.add_heat(overflow);
    }
}

} // verus!
