//! Power and heat generation: every pulsing fuel cell yields power to the
//! hull and heat to the neighbours that can take it.

use vstd::prelude::*;
use crate::engine::buffer::{
    absorber_count,
    add_heat_to_component,
    count_absorbers,
    heated,
    spilled_heat,
};
use crate::engine::layout::{table_fits, Neighbors};
use crate::engine::resource_store::ResourceStore;
use crate::model::component::{PlacedComponent, STAT_LIMIT};
use crate::units::{clamp_i64, lemma_clamp_add_nonneg, narrow, sat_add, UNIT};

verus! {

/// A component produces this tick when it is active fuel that was pulsed.
pub open spec fn emits(c: PlacedComponent) -> bool {
    !c.depleted && c.spec_stats().energy_per_pulse > 0 && c.pulse_count > 0
}

/// The bonus that the neighbour in a slot grants: its reflector bonus if it
/// is there, active and a reflector.
pub open spec fn bonus_from(components: Seq<PlacedComponent>, slot: Option<usize>) -> int {
    match slot {
        Some(j) => {
            let n = components[j as int];
            if !n.depleted && n.spec_stats().reflector_bonus_pct > 0 {
                n.spec_stats().reflector_bonus_pct as int
            } else {
                0
            }
        },
        None => 0,
    }
}

/// One plus the bonuses of the reflecting neighbours, in millionths.
pub open spec fn reflector_multiplier(components: Seq<PlacedComponent>, around: Neighbors) -> int {
    UNIT + bonus_from(components, around.west) + bonus_from(components, around.east) + bonus_from(
        components,
        around.south,
    ) + bonus_from(components, around.north)
}

/// Power of a component this tick:
/// `pulse_count * energy_per_pulse * reflector_multiplier`.
pub open spec fn power_of(components: Seq<PlacedComponent>, around: Neighbors, c: PlacedComponent)
    -> i64 {
    if emits(c) {
        clamp_i64(
            (c.pulse_count * c.spec_stats().energy_per_pulse * reflector_multiplier(
                components,
                around,
            )) / (UNIT as int),
        )
    } else {
        0
    }
}

/// Heat of a component this tick: `pulse_count² * heat_per_pulse`.
pub open spec fn heat_of(c: PlacedComponent) -> i64 {
    if emits(c) {
        clamp_i64(c.pulse_count * c.pulse_count * c.spec_stats().heat_per_pulse)
    } else {
        0
    }
}

/// What each absorbing neighbour gets of a component's heat: an equal
/// share, in whole millionths.
pub open spec fn share_of(components: Seq<PlacedComponent>, around: Neighbors, c: PlacedComponent)
    -> i64 {
    let count = absorber_count(components, around);
    if count > 0 {
        (heat_of(c) as int / count) as i64
    } else {
        0
    }
}

/// What goes straight to the hull of a component's heat: what the shares
/// of the absorbing neighbours leave over, which is all of it when no
/// neighbour can take heat.
pub open spec fn direct_heat(
    components: Seq<PlacedComponent>,
    around: Neighbors,
    c: PlacedComponent,
) -> i64 {
    (heat_of(c) - share_of(components, around, c) * absorber_count(components, around)) as i64
}

/// The share that arrives from the neighbour in a slot.
pub open spec fn share_from(
    components: Seq<PlacedComponent>,
    adjacent: Seq<Neighbors>,
    slot: Option<usize>,
) -> int {
    match slot {
        Some(s) => share_of(components, adjacent[s as int], components[s as int]) as int,
        None => 0,
    }
}

/// Heat that arrives at component `i` from its four neighbours; only an
/// active component with a heat capacity receives any.
pub open spec fn pending_heat(components: Seq<PlacedComponent>, adjacent: Seq<Neighbors>, i: int)
    -> i64 {
    let c = components[i];
    let around = adjacent[i];
    if !c.depleted && c.spec_stats().heat_capacity > 0 {
        clamp_i64(
            share_from(components, adjacent, around.west) + share_from(
                components,
                adjacent,
                around.east,
            ) + share_from(components, adjacent, around.south) + share_from(
                components,
                adjacent,
                around.north,
            ),
        )
    } else {
        0
    }
}

/// Component `i` after generation: active fuel records this tick's power and
/// heat (zero without pulses), and the arriving heat fills the buffer.
pub open spec fn generated(components: Seq<PlacedComponent>, adjacent: Seq<Neighbors>, i: int)
    -> PlacedComponent {
    let c = components[i];
    let recorded = if !c.depleted && c.spec_stats().energy_per_pulse > 0 {
        PlacedComponent {
            last_power: power_of(components, adjacent[i], c),
            last_heat: heat_of(c),
            ..c
        }
    } else {
        c
    };
    heated(recorded, pending_heat(components, adjacent, i))
}

/// Power produced by the first `n` components together.
pub open spec fn produced_power(
    components: Seq<PlacedComponent>,
    adjacent: Seq<Neighbors>,
    n: nat,
) -> int
    decreases n,
{
    if n == 0 {
        0
    } else {
        produced_power(components, adjacent, (n - 1) as nat) + power_of(
            components,
            adjacent[n - 1],
            components[n - 1],
        )
    }
}

/// Heat that reaches the hull from the first `n` components: what the
/// shares of their absorbing neighbours leave over of what they produce,
/// and what their own buffers cannot hold of the heat arriving at them.
pub open spec fn released_heat(
    components: Seq<PlacedComponent>,
    adjacent: Seq<Neighbors>,
    n: nat,
) -> int
    decreases n,
{
    if n == 0 {
        0
    } else {
        released_heat(components, adjacent, (n - 1) as nat) + direct_heat(
            components,
            adjacent[n - 1],
            components[n - 1],
        ) + spilled_heat(components[n - 1], pending_heat(components, adjacent, n - 1))
    }
}

/// The components after generation.
pub open spec fn spec_generate_components(
    components: Seq<PlacedComponent>,
    adjacent: Seq<Neighbors>,
) -> Seq<PlacedComponent> {
    Seq::new(components.len(), |i: int| generated(components, adjacent, i))
}

/// The store after generation: the base power generation plus all power
/// produced is added to the hull's power, and the base heat generation plus
/// all heat released is added to the hull's heat.
pub open spec fn spec_generate_store(
    components: Seq<PlacedComponent>,
    adjacent: Seq<Neighbors>,
    store: ResourceStore,
    base_power: i64,
    base_heat: i64,
) -> ResourceStore {
    let n = components.len();
    let power = clamp_i64(base_power + clamp_i64(produced_power(components, adjacent, n)));
    let heat = clamp_i64(base_heat + clamp_i64(released_heat(components, adjacent, n)));
    store.spec_add_power(power).spec_add_heat(heat)
}

fn bonus_of(components: &Vec<PlacedComponent>, slot: Option<usize>) -> (bonus: i64)
    requires
        slot is Some ==> slot->0 < components@.len(),
    ensures
        bonus == bonus_from(components@, slot),
        0 <= bonus <= STAT_LIMIT,
{
    match slot {
        Some(j) => {
            let pct: i64 = components[j].stats().reflector_bonus_pct;
            if !components[j].depleted && pct > 0 {
                pct
            } else {
                0
            }
        },
        None => 0,
    }
}

fn power_produced(components: &Vec<PlacedComponent>, around: Neighbors, c: PlacedComponent) -> (power:
    i64)
    requires
        around.within(components@.len()),
    ensures
        power == power_of(components@, around, c),
        power >= 0,
{
    let stats = c.stats();
    if c.depleted || stats.energy_per_pulse <= 0 || c.pulse_count == 0 {
        return 0;
    }
    let multiplier: i64 = UNIT + bonus_of(components, around.west) + bonus_of(
        components,
        around.east,
    ) + bonus_of(components, around.south) + bonus_of(components, around.north);
    let pulses: i128 = c.pulse_count as i128;
    let energy: i128 = stats.energy_per_pulse as i128;
    assert(0 <= pulses * energy <= 4294967295 * 100_000_000_000) by (nonlinear_arith)
        requires
            0 <= pulses <= 4294967295,
            0 <= energy <= 100_000_000_000,
    ;
    let yield_per_unit: i128 = pulses * energy;
    assert(0 <= yield_per_unit * (multiplier as i128) <= 4294967295 * 100_000_000_000
        * 400_001_000_000) by (nonlinear_arith)
        requires
            0 <= yield_per_unit <= 4294967295 * 100_000_000_000,
            0 <= multiplier <= 400_001_000_000,
    ;
    narrow(yield_per_unit * (multiplier as i128) / (UNIT as i128))
}

fn heat_produced(c: PlacedComponent) -> (heat: i64)
    ensures
        heat == heat_of(c),
        heat >= 0,
{
    let stats = c.stats();
    if c.depleted || stats.energy_per_pulse <= 0 || c.pulse_count == 0 {
        return 0;
    }
    let pulses: i128 = c.pulse_count as i128;
    assert(0 <= pulses * pulses <= 4294967295 * 4294967295) by (nonlinear_arith)
        requires
            0 <= pulses <= 4294967295,
    ;
    let squared: i128 = pulses * pulses;
    assert(0 <= squared * (stats.heat_per_pulse as i128) <= 4294967295 * 4294967295
        * 100_000_000_000) by (nonlinear_arith)
        requires
            0 <= squared <= 4294967295 * 4294967295,
            0 <= stats.heat_per_pulse <= 100_000_000_000,
    ;
    narrow(squared * (stats.heat_per_pulse as i128))
}

fn heat_share(components: &Vec<PlacedComponent>, adjacent: &Vec<Neighbors>, slot: Option<usize>) -> (share:
    i64)
    requires
        table_fits(adjacent@, components@.len()),
        slot is Some ==> slot->0 < components@.len(),
    ensures
        share == share_from(components@, adjacent@, slot),
        share >= 0,
{
    match slot {
        Some(s) => {
            let count: i64 = count_absorbers(components, adjacent[s]);
            if count > 0 {
                heat_produced(components[s]) / count
            } else {
                0
            }
        },
        None => 0,
    }
}

/// Lets every pulsing fuel cell produce, routes the heat and books the
/// totals on the hull.
pub fn generate_power_and_heat(
    components: &mut Vec<PlacedComponent>,
    store: &mut ResourceStore,
    adjacent: &Vec<Neighbors>,
    base_power: i64,
    base_heat: i64,
)
    requires
        table_fits(adjacent@, old(components)@.len()),
    ensures
        final(components)@ == spec_generate_components(old(components)@, adjacent@),
        *final(store) == spec_generate_store(
            old(components)@,
            adjacent@,
            *old(store),
            base_power,
            base_heat,
        ),
{
    let n: usize = components.len();
    let mut next: Vec<PlacedComponent> = Vec::new();
    let mut power: i64 = 0;
    let mut released: i64 = 0;
    let mut i: usize = 0;
    while i < n
        invariant
            i <= n,
            n == components@.len(),
            components@ == old(components)@,
            table_fits(adjacent@, n as nat),
            next@.len() == i,
            forall|k: int| 0 <= k < i ==> #[trigger] next@[k] == generated(components@, adjacent@, k),
            produced_power(components@, adjacent@, i as nat) >= 0,
            released_heat(components@, adjacent@, i as nat) >= 0,
            power == clamp_i64(produced_power(components@, adjacent@, i as nat)),
            released == clamp_i64(released_heat(components@, adjacent@, i as nat)),
        decreases n - i,
    {
        let c = components[i];
        let stats = c.stats();
        let around = adjacent[i];
        assert(around.within(n as nat));
        let mut updated = c;
        let own_power: i64 = power_produced(components, around, c);
        let own_heat: i64 = heat_produced(c);
        if !c.depleted && stats.energy_per_pulse > 0 {
            updated.last_power = own_power;
            updated.last_heat = own_heat;
        }
        let takers: i64 = count_absorbers(components, around);
        let own_share: i64 = if takers > 0 {
            own_heat / takers
        } else {
            0
        };
        assert(0 <= own_share * takers <= own_heat) by (nonlinear_arith)
            requires
                own_heat >= 0,
                0 <= takers <= 4,
                own_share == (if takers > 0 {
                    own_heat as int / takers as int
                } else {
                    0
                }),
        ;
        let direct: i64 = own_heat - own_share * takers;
        let pending: i64 = if !c.depleted && stats.heat_capacity > 0 {
            let west: i64 = heat_share(components, adjacent, around.west);
            let east: i64 = heat_share(components, adjacent, around.east);
            let south: i64 = heat_share(components, adjacent, around.south);
            let north: i64 = heat_share(components, adjacent, around.north);
            narrow(west as i128 + east as i128 + south as i128 + north as i128)
        } else {
            0
        };
        let overflow: i64 = add_heat_to_component(&mut updated, pending);
        next.push(updated);
        proof {
            lemma_clamp_add_nonneg(
                produced_power(components@, adjacent@, i as nat),
                own_power as int,
            );
            lemma_clamp_add_nonneg(released_heat(components@, adjacent@, i as nat), direct as int);
            lemma_clamp_add_nonneg(
                released_heat(components@, adjacent@, i as nat) + direct,
                overflow as int,
            );
        }
        power = sat_add(power, own_power);
        released = sat_add(sat_add(released, direct), overflow);
        i = i + 1;
    }
    assert(next@ =~= spec_generate_components(components@, adjacent@));
    *components = next;
    store.add_power(sat_add(base_power, power));
    store.add_heat(sat_add(base_heat, released));
}

} // verus!
