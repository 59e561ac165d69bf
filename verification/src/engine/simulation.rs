//! The simulation: grid, placed components and resource store, with
//! placement, removal and the ordered tick.

use vstd::prelude::*;
use crate::engine::coolant::{apply_coolant_effects, spec_coolant_components, spec_coolant_store};
use crate::engine::durability::{drain_durability, spec_drain_durability};
use crate::engine::generation::{
    generate_power_and_heat,
    spec_generate_components,
    spec_generate_store,
};
use crate::engine::hull::{exchange_with_hull, spec_exchange_with_hull, Plant};
use crate::engine::layout::{adjacency, component_index_map, index_of, position_of, Neighbors};
use crate::engine::pulses::{distribute_pulses, spec_distribute_pulses};
use crate::engine::resource_store::ResourceStore;
use crate::model::component::{ComponentKind, PlacedComponent};
use crate::model::grid::{GridCell, GridCoord, GridError, GridView, ReactorGrid};
use crate::units::{clamp_i64, lemma_clamp_add_nonneg, max_int, max_of, sat_add, sat_sub};

verus! {

/// The reactor: one store, one grid and the list of placed components.
/// Rates and capacities are in millionths of a unit.
#[derive(Debug, PartialEq)]
pub struct Simulation {
    pub resources: ResourceStore,
    pub grid: ReactorGrid,
    /// The placed components, in the order of their placement.
    pub components: Vec<PlacedComponent>,
    /// A paused simulation does not advance.
    pub paused: bool,
    /// The number of ticks that have run.
    pub tick_index: u64,
    /// Power that the hull gains every tick besides what fuel produces.
    pub base_power_generation_per_tick: i64,
    /// Heat that the hull gains every tick besides what fuel produces.
    pub base_heat_generation_per_tick: i64,
    /// Power that is sold for money every tick.
    pub auto_sell_rate_per_tick: i64,
    /// Heat that the hull sheds every tick.
    pub passive_heat_dissipation_per_tick: i64,
    /// Power capacity of the bare hull.
    pub base_power_capacity: i64,
    /// Heat capacity of the bare hull.
    pub base_heat_capacity: i64,
    /// Power capacity with what the active components add.
    pub max_power_capacity: i64,
    /// Heat capacity with what the active components add.
    pub max_heat_capacity: i64,
    /// The id that the next placement gets.
    next_component_id: u64,
}

/// Mathematical content of a simulation.
pub struct SimView {
    pub resources: ResourceStore,
    pub grid: GridView,
    pub components: Seq<PlacedComponent>,
    pub paused: bool,
    pub tick_index: u64,
    pub base_power_generation_per_tick: i64,
    pub base_heat_generation_per_tick: i64,
    pub auto_sell_rate_per_tick: i64,
    pub passive_heat_dissipation_per_tick: i64,
    pub base_power_capacity: i64,
    pub base_heat_capacity: i64,
    pub max_power_capacity: i64,
    pub max_heat_capacity: i64,
    pub next_component_id: u64,
}

impl View for Simulation {
    type V = SimView;

    closed spec fn view(&self) -> SimView {
        SimView {
            resources: self.resources,
            grid: self.grid@,
            components: self.components@,
            paused: self.paused,
            tick_index: self.tick_index,
            base_power_generation_per_tick: self.base_power_generation_per_tick,
            base_heat_generation_per_tick: self.base_heat_generation_per_tick,
            auto_sell_rate_per_tick: self.auto_sell_rate_per_tick,
            passive_heat_dissipation_per_tick: self.passive_heat_dissipation_per_tick,
            base_power_capacity: self.base_power_capacity,
            base_heat_capacity: self.base_heat_capacity,
            max_power_capacity: self.max_power_capacity,
            max_heat_capacity: self.max_heat_capacity,
            next_component_id: self.next_component_id,
        }
    }
}

/// The list without the components at `coord`, order kept.
pub open spec fn without_coord(components: Seq<PlacedComponent>, coord: GridCoord) -> Seq<
    PlacedComponent,
>
    decreases components.len(),
{
    if components.len() == 0 {
        components
    } else {
        let rest = without_coord(components.drop_last(), coord);
        if components.last().coord == coord {
            rest
        } else {
            rest.push(components.last())
        }
    }
}

/// The first component at a coordinate.
pub open spec fn spec_component_at(components: Seq<PlacedComponent>, coord: GridCoord) -> Option<
    PlacedComponent,
> {
    match index_of(components, coord) {
        Some(i) => Some(components[i as int]),
        None => None,
    }
}

/// Capacity that the active ones among the first `n` components add to the
/// hull's power store.
pub open spec fn power_capacity_bonus(components: Seq<PlacedComponent>, n: nat) -> int
    decreases n,
{
    if n == 0 {
        0
    } else {
        power_capacity_bonus(components, (n - 1) as nat) + (if components[n - 1].depleted {
            0int
        } else {
            components[n - 1].spec_stats().reactor_power_capacity_increase as int
        })
    }
}

/// Capacity that the active ones among the first `n` components add to the
/// hull's heat store.
pub open spec fn heat_capacity_bonus(components: Seq<PlacedComponent>, n: nat) -> int
    decreases n,
{
    if n == 0 {
        0
    } else {
        heat_capacity_bonus(components, (n - 1) as nat) + (if components[n - 1].depleted {
            0int
        } else {
            components[n - 1].spec_stats().reactor_heat_capacity_increase as int
        })
    }
}

/// The capacity bonuses are never negative.
pub proof fn lemma_capacity_bonus_nonneg(components: Seq<PlacedComponent>, n: nat)
    requires
        n <= components.len(),
    ensures
        power_capacity_bonus(components, n) >= 0,
        heat_capacity_bonus(components, n) >= 0,
    decreases n,
{
    if n > 0 {
        lemma_capacity_bonus_nonneg(components, (n - 1) as nat);
        components[n - 1].kind.lemma_stats_within_limits();
    }
}

/// The store cut back to the capacities: power above the capacity is
/// drained and lost, heat is floored at zero.
pub open spec fn clamped_store(store: ResourceStore, max_power: i64) -> ResourceStore {
    let drained = if store.power > max_power {
        store.spec_drain_power(clamp_i64(store.power - max_power))
    } else {
        store
    };
    ResourceStore { heat: max_int(drained.heat as int, 0) as i64, ..drained }
}

/// The next value of a counter that stops at the largest `u64`.
pub open spec fn next_count(n: u64) -> u64 {
    if n < u64::MAX {
        (n + 1) as u64
    } else {
        n
    }
}

impl SimView {
    /// The state with both capacities recomputed from the base capacities
    /// (floored at zero) and what the active components add, and the store
    /// cut back to them.
    pub open spec fn recomputed(self) -> SimView {
        let n = self.components.len();
        let max_power = clamp_i64(
            max_int(self.base_power_capacity as int, 0) + power_capacity_bonus(self.components, n),
        );
        let max_heat = clamp_i64(
            max_int(self.base_heat_capacity as int, 0) + heat_capacity_bonus(self.components, n),
        );
        SimView {
            max_power_capacity: max_power,
            max_heat_capacity: max_heat,
            resources: clamped_store(self.resources, max_power),
            ..self
        }
    }

    /// The state after placing `kind` at a valid `coord`: any component
    /// there leaves the list, a fresh one with the next id joins its end,
    /// the grid cell records kind, id and tick, and the capacities are
    /// recomputed.
    pub open spec fn placed(self, coord: GridCoord, kind: ComponentKind) -> SimView {
        let id = self.next_component_id;
        (SimView {
            components: without_coord(self.components, coord).push(
                PlacedComponent::spec_new_with_metadata(kind, coord, id, self.tick_index),
            ),
            grid: self.grid.with_cell(
                coord,
                GridCell { kind, component_id: id, placed_tick: self.tick_index },
            ),
            next_component_id: next_count(id),
            ..self
        }).recomputed()
    }

    /// The state after removing whatever sits at a valid `coord`.
    pub open spec fn removed(self, coord: GridCoord) -> SimView {
        (SimView {
            components: without_coord(self.components, coord),
            grid: self.grid.without_cell(coord),
            ..self
        }).recomputed()
    }

    /// The state with no component left on the grid; nothing else changes.
    pub open spec fn emptied(self) -> SimView {
        SimView {
            components: Seq::<PlacedComponent>::empty(),
            grid: GridView { cells: Map::<GridCoord, GridCell>::empty(), ..self.grid },
            ..self
        }
    }

    /// The store after the passive sale: up to the auto-sell rate of power
    /// leaves the hull and becomes money.
    pub open spec fn sold(store: ResourceStore, rate: i64) -> ResourceStore {
        let amount = max_int(rate as int, 0) as i64;
        let sold = ResourceStore::taken(store.power, amount);
        let drained = store.spec_drain_power(amount);
        if sold > 0 {
            drained.spec_add_money(sold)
        } else {
            drained
        }
    }

    /// The rate at which the hull loses heat this tick: the passive rate,
    /// plus `0.05 * (heat - capacity)` while the heat exceeds the capacity.
    pub open spec fn dissipation_rate(store: ResourceStore, rate: i64, max_heat: i64) -> i64 {
        let passive = max_int(rate as int, 0);
        if store.heat > max_heat {
            clamp_i64(passive + (store.heat - max_heat) / 20)
        } else {
            passive as i64
        }
    }

    /// The store after the closing steps of a running tick: passive sale,
    /// passive dissipation and the final clamp.
    pub open spec fn settled(
        store: ResourceStore,
        sell_rate: i64,
        passive_rate: i64,
        max_heat: i64,
        max_power: i64,
    ) -> ResourceStore {
        let sold = Self::sold(store, sell_rate);
        let dissipated = sold.spec_dissipate_heat(
            Self::dissipation_rate(sold, passive_rate, max_heat),
        );
        clamped_store(dissipated, max_power)
    }

    /// One tick. The deltas are reset; a paused simulation changes in
    /// nothing else. Otherwise the tick counter advances and the phases run
    /// in their fixed order: capacities, pulses, durability, generation,
    /// coolant, hull exchange, passive sale, passive dissipation, final
    /// clamp.
    pub open spec fn ticked(self) -> SimView {
        let begun = SimView { resources: self.resources.spec_begin_tick(), ..self };
        if self.paused {
            begun
        } else {
            let ready = (SimView { tick_index: next_count(self.tick_index), ..begun }).recomputed();
            let reacted = reaction(
                ready.components,
                ready.resources,
                adjacency(ready.components, ready.grid.width, ready.grid.height),
                ready.base_power_generation_per_tick,
                ready.base_heat_generation_per_tick,
            );
            SimView {
                components: reacted.components,
                resources: Self::settled(
                    reacted.store,
                    ready.auto_sell_rate_per_tick,
                    ready.passive_heat_dissipation_per_tick,
                    ready.max_heat_capacity,
                    ready.max_power_capacity,
                ),
                ..ready
            }
        }
    }
}

/// The neighbour phases of a running tick in their fixed order: pulses,
/// durability, generation, coolant, hull exchange.
#[verifier::opaque]
pub open spec fn reaction(
    components: Seq<PlacedComponent>,
    store: ResourceStore,
    table: Seq<Neighbors>,
    base_power: i64,
    base_heat: i64,
) -> Plant {
    let pulsed = spec_distribute_pulses(components, table);
    let worn = spec_drain_durability(pulsed, table);
    let generated = Plant {
        components: spec_generate_components(worn, table),
        store: spec_generate_store(worn, table, store, base_power, base_heat),
    };
    let cooled = Plant {
        components: spec_coolant_components(generated.components, table),
        store: spec_coolant_store(generated.components, table, generated.store),
    };
    spec_exchange_with_hull(cooled, table)
}

impl Clone for Simulation {
    /// An independent simulation in the same state.
    fn clone(&self) -> (copy: Self)
        ensures
            copy@ == self@,
    {
        let n: usize = self.components.len();
        let mut components: Vec<PlacedComponent> = Vec::new();
        let mut i: usize = 0;
        while i < n
            invariant
                i <= n,
                n == self.components@.len(),
                components@ == self.components@.take(i as int),
            decreases n - i,
        {
            components.push(self.components[i]);
            i = i + 1;
            assert(components@ =~= self.components@.take(i as int));
        }
        assert(self.components@.take(n as int) =~= self.components@);
        Simulation {
            resources: self.resources,
            grid: self.grid.clone(),
            components,
            paused: self.paused,
            tick_index: self.tick_index,
            base_power_generation_per_tick: self.base_power_generation_per_tick,
            base_heat_generation_per_tick: self.base_heat_generation_per_tick,
            auto_sell_rate_per_tick: self.auto_sell_rate_per_tick,
            passive_heat_dissipation_per_tick: self.passive_heat_dissipation_per_tick,
            base_power_capacity: self.base_power_capacity,
            base_heat_capacity: self.base_heat_capacity,
            max_power_capacity: self.max_power_capacity,
            max_heat_capacity: self.max_heat_capacity,
            next_component_id: self.next_component_id,
        }
    }
}

impl Default for Simulation {
    fn default() -> (sim: Self)
        ensures
            sim@ == Simulation::spec_new(19, 16, 1),
    {
        assert(19int * 16int * 1int == 304) by (nonlinear_arith);
        assert(ReactorGrid::spec_cell_count(19, 16, 1) == 19int * 16int * 1int);
        Simulation::new(19, 16, 1)
    }
}

impl Simulation {
    /// An empty, running simulation at tick zero with a power capacity of
    /// 100 units and a heat capacity of 1000 units.
    pub open spec fn spec_new(width: usize, height: usize, layers: usize) -> SimView {
        SimView {
            resources: ResourceStore::spec_empty(),
            grid: GridView {
                width: if width >= 1 {
                    width
                } else {
                    1
                },
                height: if height >= 1 {
                    height
                } else {
                    1
                },
                layers: if layers >= 1 {
                    layers
                } else {
                    1
                },
                cells: Map::<GridCoord, GridCell>::empty(),
            },
            components: Seq::<PlacedComponent>::empty(),
            paused: false,
            tick_index: 0,
            base_power_generation_per_tick: 0,
            base_heat_generation_per_tick: 0,
            auto_sell_rate_per_tick: 0,
            passive_heat_dissipation_per_tick: 0,
            base_power_capacity: 100_000_000,
            base_heat_capacity: 1_000_000_000,
            max_power_capacity: 100_000_000,
            max_heat_capacity: 1_000_000_000,
            next_component_id: 1,
        }
    }

    pub fn new(width: usize, height: usize, layers: usize) -> (sim: Self)
        requires
            ReactorGrid::spec_cell_count(width, height, layers) <= usize::MAX,
        ensures
            sim@ == Self::spec_new(width, height, layers),
    {
        let base_power_capacity: i64 = 100_000_000;
        let base_heat_capacity: i64 = 1_000_000_000;
        let sim = Simulation {
            resources: ResourceStore::default(),
            grid: ReactorGrid::new(width, height, layers),
            components: Vec::new(),
            paused: false,
            tick_index: 0,
            base_power_generation_per_tick: 0,
            base_heat_generation_per_tick: 0,
            auto_sell_rate_per_tick: 0,
            passive_heat_dissipation_per_tick: 0,
            base_power_capacity,
            base_heat_capacity,
            max_power_capacity: base_power_capacity,
            max_heat_capacity: base_heat_capacity,
            next_component_id: 1,
        };
        assert(sim@.components =~= Seq::<PlacedComponent>::empty());
        sim
    }

    /// Places a component. An invalid coordinate is refused and changes
    /// nothing; on a valid one the placement replaces any occupant.
    pub fn place_component(&mut self, coord: GridCoord, kind: ComponentKind) -> (r: Result<
        (),
        GridError,
    >)
        ensures
            old(self)@.grid.contains(coord) ==> r == Ok::<(), GridError>(()) && final(self)@ == old(
                self,
            )@.placed(coord, kind),
            !old(self)@.grid.contains(coord) ==> r == Err::<(), GridError>(
                GridError::OutOfBounds(coord),
            ) && final(self)@ == old(self)@,
    {
        if !self.grid.in_bounds(coord) {
            return Err(GridError::OutOfBounds(coord));
        }
        self.remove_at(coord);
        let id: u64 = self.next_component_id;
        self.next_component_id = if id < u64::MAX {
            id + 1
        } else {
            id
        };
        let tick: u64 = self.tick_index;
        let placed = self.grid.place(coord, GridCell { kind, component_id: id, placed_tick: tick });
        self.components.push(PlacedComponent::new_with_metadata(kind, coord, id, tick));
        self.prepare_multipliers();
        placed
    }

    /// Removes whatever sits at a coordinate. An invalid coordinate is
    /// refused and changes nothing; an empty valid cell is no error.
    pub fn remove_component(&mut self, coord: GridCoord) -> (r: Result<(), GridError>)
        ensures
            old(self)@.grid.contains(coord) ==> r == Ok::<(), GridError>(()) && final(self)@ == old(
                self,
            )@.removed(coord),
            !old(self)@.grid.contains(coord) ==> r == Err::<(), GridError>(
                GridError::OutOfBounds(coord),
            ) && final(self)@ == old(self)@,
    {
        match self.grid.clear(coord) {
            Ok(()) => {
                self.remove_at(coord);
                self.prepare_multipliers();
                Ok(())
            },
            Err(e) => Err(e),
        }
    }

    /// The id that the next placement gets. Ids only rise, so this one is
    /// above every id that was handed out.
    pub fn next_component_id(&self) -> (id: u64)
        ensures
            id == self@.next_component_id,
    {
        self.next_component_id
    }

    /// The resource store.
    pub fn resources(&self) -> (store: &ResourceStore)
        ensures
            *store == self@.resources,
    {
        &self.resources
    }

    /// Puts a resource store in the place of the present one.
    pub fn set_resources(&mut self, store: ResourceStore)
        ensures
            final(self)@ == (SimView { resources: store, ..old(self)@ }),
    {
        self.resources = store;
    }

    /// The grid.
    pub fn grid(&self) -> (grid: &ReactorGrid)
        ensures
            grid@ == self@.grid,
    {
        &self.grid
    }

    /// The placed components, in the order of their placement.
    pub fn components(&self) -> (components: &Vec<PlacedComponent>)
        ensures
            components@ == self@.components,
    {
        &self.components
    }

    /// Puts a component in the place of the one at a position of the list.
    pub fn set_component(&mut self, index: usize, component: PlacedComponent)
        requires
            index < old(self)@.components.len(),
        ensures
            final(self)@ == (SimView {
                components: old(self)@.components.update(index as int, component),
                ..old(self)@
            }),
    {
        self.components[index] = component;
    }

    /// Whether the simulation is paused.
    pub fn paused(&self) -> (paused: bool)
        ensures
            paused == self@.paused,
    {
        self.paused
    }

    /// The number of ticks that have run.
    pub fn tick_index(&self) -> (ticks: u64)
        ensures
            ticks == self@.tick_index,
    {
        self.tick_index
    }

    /// Sets the tick counter and the pause flag.
    pub fn set_clock(&mut self, tick_index: u64, paused: bool)
        ensures
            final(self)@ == (SimView { tick_index, paused, ..old(self)@ }),
    {
        self.tick_index = tick_index;
        self.paused = paused;
    }

    /// Removes every component and empties the grid.
    pub fn clear_all_components(&mut self)
        ensures
            final(self)@ == old(self)@.emptied(),
    {
        self.grid.clear_all();
        self.components = Vec::new();
        assert(self.components@ =~= Seq::<PlacedComponent>::empty());
    }

    /// The component at a coordinate, if there is one.
    pub fn component_at(&self, coord: GridCoord) -> (found: Option<&PlacedComponent>)
        ensures
            match found {
                Some(c) => spec_component_at(self@.components, coord) == Some(*c),
                None => spec_component_at(self@.components, coord) is None,
            },
    {
        match position_of(&self.components, coord) {
            Some(i) => Some(&self.components[i]),
            None => None,
        }
    }

    /// The component at a coordinate, for changing its state in place.
    pub fn component_at_mut(&mut self, coord: GridCoord) -> (found: Option<&mut PlacedComponent>)
        ensures
            match found {
                Some(c) => index_of(old(self)@.components, coord) is Some && *c == old(
                    self,
                )@.components[index_of(old(self)@.components, coord)->0 as int] && final(self)@
                    == (SimView {
                    components: old(self)@.components.update(
                        index_of(old(self)@.components, coord)->0 as int,
                        *final(c),
                    ),
                    ..old(self)@
                }),
                None => index_of(old(self)@.components, coord) is None && final(self)@ == old(
                    self,
                )@,
            },
    {
        match position_of(&self.components, coord) {
            Some(i) => Some(&mut self.components[i]),
            None => None,
        }
    }

    /// Advances the simulation by one tick.
    pub fn tick(&mut self)
        ensures
            final(self)@ == old(self)@.ticked(),
    {
        proof {
            reveal(reaction);
        }
        self.resources.begin_tick();
        if self.paused {
            return ;
        }
        self.tick_index = if self.tick_index < u64::MAX {
            self.tick_index + 1
        } else {
            self.tick_index
        };
        self.prepare_multipliers();
        let adjacent = component_index_map(&self.components, self.grid.width(), self.grid.height());
        let base_power: i64 = self.base_power_generation_per_tick;
        let base_heat: i64 = self.base_heat_generation_per_tick;
        distribute_pulses(&mut self.components, &adjacent);
        drain_durability(&mut self.components, &adjacent);
        generate_power_and_heat(
            &mut self.components,
            &mut self.resources,
            &adjacent,
            base_power,
            base_heat,
        );
        apply_coolant_effects(&mut self.components, &mut self.resources, &adjacent);
        exchange_with_hull(&mut self.components, &mut self.resources, &adjacent);
        self.passive_sell_power();
        self.passive_dissipate_heat();
        self.clamp_stores_to_capacity();
    }

    fn remove_at(&mut self, coord: GridCoord)
        ensures
            final(self)@ == (SimView {
                components: without_coord(old(self)@.components, coord),
                ..old(self)@
            }),
    {
        let n: usize = self.components.len();
        let mut kept: Vec<PlacedComponent> = Vec::new();
        let mut i: usize = 0;
        while i < n
            invariant
                i <= n,
                n == self.components@.len(),
                *self == *old(self),
                kept@ == without_coord(self.components@.take(i as int), coord),
            decreases n - i,
        {
            assert(self.components@.take(i + 1).drop_last() =~= self.components@.take(i as int));
            if self.components[i].coord != coord {
                kept.push(self.components[i]);
            }
            i = i + 1;
        }
        assert(self.components@.take(n as int) =~= self.components@);
        self.components = kept;
    }

    fn prepare_multipliers(&mut self)
        ensures
            final(self)@ == old(self)@.recomputed(),
    {
        let n: usize = self.components.len();
        let mut power_cap: i64 = max_of(self.base_power_capacity, 0);
        let mut heat_cap: i64 = max_of(self.base_heat_capacity, 0);
        let mut i: usize = 0;
        while i < n
            invariant
                i <= n,
                n == self.components@.len(),
                *self == *old(self),
                power_capacity_bonus(self.components@, i as nat) >= 0,
                heat_capacity_bonus(self.components@, i as nat) >= 0,
                power_cap == clamp_i64(
                    max_int(self.base_power_capacity as int, 0) + power_capacity_bonus(
                        self.components@,
                        i as nat,
                    ),
                ),
                heat_cap == clamp_i64(
                    max_int(self.base_heat_capacity as int, 0) + heat_capacity_bonus(
                        self.components@,
                        i as nat,
                    ),
                ),
            decreases n - i,
        {
            if !self.components[i].depleted {
                let stats = self.components[i].stats();
                proof {
                    lemma_clamp_add_nonneg(
                        max_int(self.base_power_capacity as int, 0) + power_capacity_bonus(
                            self.components@,
                            i as nat,
                        ),
                        stats.reactor_power_capacity_increase as int,
                    );
                    lemma_clamp_add_nonneg(
                        max_int(self.base_heat_capacity as int, 0) + heat_capacity_bonus(
                            self.components@,
                            i as nat,
                        ),
                        stats.reactor_heat_capacity_increase as int,
                    );
                }
                power_cap = sat_add(power_cap, stats.reactor_power_capacity_increase);
                heat_cap = sat_add(heat_cap, stats.reactor_heat_capacity_increase);
            }
            i = i + 1;
        }
        self.max_power_capacity = max_of(power_cap, 0);
        self.max_heat_capacity = max_of(heat_cap, 0);
        self.clamp_stores_to_capacity();
    }

    fn passive_sell_power(&mut self)
        ensures
            final(self)@ == (SimView {
                resources: SimView::sold(old(self)@.resources, old(self)@.auto_sell_rate_per_tick),
                ..old(self)@
            }),
    {
        let sold: i64 = self.resources.drain_power(max_of(self.auto_sell_rate_per_tick, 0));
        if sold > 0 {
            self.resources.add_money(sold);
        }
    }

    fn passive_dissipate_heat(&mut self)
        ensures
            final(self)@ == (SimView {
                resources: old(self)@.resources.spec_dissipate_heat(
                    SimView::dissipation_rate(
                        old(self)@.resources,
                        old(self)@.passive_heat_dissipation_per_tick,
                        old(self)@.max_heat_capacity,
                    ),
                ),
                ..old(self)@
            }),
    {
        let mut vent_rate: i64 = max_of(self.passive_heat_dissipation_per_tick, 0);
        if self.resources.heat > self.max_heat_capacity {
            let excess: i128 = self.resources.heat as i128 - self.max_heat_capacity as i128;
            vent_rate = crate::units::narrow(vent_rate as i128 + excess / 20);
        }
        self.resources.dissipate_heat(vent_rate);
    }

    fn clamp_stores_to_capacity(&mut self)
        ensures
            final(self)@ == (SimView {
                resources: clamped_store(old(self)@.resources, old(self)@.max_power_capacity),
                ..old(self)@
            }),
    {
        if self.resources.power > self.max_power_capacity {
            let overflow: i64 = sat_sub(self.resources.power, self.max_power_capacity);
            self.resources.drain_power(overflow);
        }
        self.resources.heat = max_of(self.resources.heat, 0);
    }
}

} // verus!
