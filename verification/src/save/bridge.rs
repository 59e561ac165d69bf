//! Projection of a simulation onto a save record, and restoration from one.

use vstd::prelude::*;
use crate::engine::resource_store::{ResourceStore, TickDeltas};
use crate::engine::simulation::{SimView, Simulation};
use crate::model::component::{ComponentKind, PlacedComponent};
use crate::model::grid::{GridCoord, GridError};
use crate::save::model::{SaveComponent, SaveData, SaveEntry, SaveRecord, SaveStore};
use crate::units::{max_int, max_of};

verus! {

/// Why a save record could not be applied.
#[derive(Debug, Clone, Copy, PartialEq, Eq, Structural)]
pub enum ApplyError {
    /// The grid refused a placement at a coordinate that it holds.
    Placement(GridError),
}

/// The saved form of a component.
pub open spec fn entry_of(c: PlacedComponent) -> SaveEntry {
    SaveEntry {
        name: c.kind.spec_canonical_name(),
        heat: c.heat,
        durability: c.durability,
        depleted: c.depleted,
        x: c.coord.x as i32,
        y: c.coord.y as i32,
        z: c.coord.z as i32,
    }
}

/// The saved forms of a list of components, in the same order.
pub open spec fn entries_of(components: Seq<PlacedComponent>) -> Seq<SaveEntry> {
    Seq::new(components.len(), |i: int| entry_of(components[i]))
}

/// A list ordered by coordinate with one more component put in its place:
/// behind every component that does not come after it.
pub open spec fn inserted(sorted: Seq<PlacedComponent>, c: PlacedComponent) -> Seq<
    PlacedComponent,
>
    decreases sorted.len(),
{
    if sorted.len() > 0 && c.coord.spec_precedes(sorted.last().coord) {
        inserted(sorted.drop_last(), c).push(sorted.last())
    } else {
        sorted.push(c)
    }
}

/// The components ordered by (z, y, x); components at the same coordinate
/// keep their order.
pub open spec fn sorted_by_coord(components: Seq<PlacedComponent>) -> Seq<PlacedComponent>
    decreases components.len(),
{
    if components.len() == 0 {
        components
    } else {
        inserted(sorted_by_coord(components.drop_last()), components.last())
    }
}

/// The saved economy totals of a store.
pub open spec fn saved_store(store: ResourceStore) -> SaveStore {
    SaveStore {
        money: store.money,
        total_money: store.total_money,
        money_earned_this_game: store.money_earned_this_game,
        power: store.power,
        total_power_produced: store.total_power_produced,
        power_produced_this_game: store.power_produced_this_game,
        heat: store.heat,
        total_heat_dissipated: store.total_heat_dissipated,
        heat_dissipated_this_game: store.heat_dissipated_this_game,
        exotic_particles: store.exotic_particles,
        total_exotic_particles: store.total_exotic_particles,
    }
}

/// The record of a simulation: version 1, the totals, pause flag and tick
/// counter, the given slot and page, placeholders for what the simulation
/// does not hold, and the components ordered by (z, y, x).
pub open spec fn spec_save_record(sim: SimView, selected_component_index: i32, shop_page: i32)
    -> SaveRecord {
    SaveRecord {
        version: 1,
        store: saved_store(sim.resources),
        upgrade_levels: Seq::<u32>::empty(),
        reactor_heat: sim.resources.heat,
        stored_power: sim.resources.power,
        depleted_protium_count: 0,
        paused: sim.paused,
        replace_mode: true,
        total_ticks: sim.tick_index,
        prestige_level: 0,
        shop_page,
        selected_component_index,
        components: entries_of(sorted_by_coord(sim.components)),
    }
}

/// Insertion puts the component where a scan from the back stops.
proof fn lemma_inserted_at(sorted: Seq<PlacedComponent>, c: PlacedComponent, p: int)
    requires
        0 <= p <= sorted.len(),
        forall|k: int| p <= k < sorted.len() ==> c.coord.spec_precedes((#[trigger] sorted[k]).coord),
        p == 0 || !c.coord.spec_precedes(sorted[p - 1].coord),
    ensures
        inserted(sorted, c) == sorted.insert(p, c),
    decreases sorted.len() - p,
{
    if p < sorted.len() {
        lemma_inserted_at(sorted.drop_last(), c, p);
        assert(sorted.drop_last().insert(p, c).push(sorted.last()) =~= sorted.insert(p, c));
    } else {
        assert(sorted.push(c) =~= sorted.insert(p, c));
    }
}

/// Orders the components by (z, y, x).
pub fn sort_by_coord(components: &Vec<PlacedComponent>) -> (sorted: Vec<PlacedComponent>)
    ensures
        sorted@ == sorted_by_coord(components@),
{
    let n: usize = components.len();
    let mut sorted: Vec<PlacedComponent> = Vec::new();
    let mut i: usize = 0;
    while i < n
        invariant
            i <= n,
            n == components@.len(),
            sorted@ == sorted_by_coord(components@.take(i as int)),
            sorted@.len() == i,
        decreases n - i,
    {
        let c = components[i];
        let mut p: usize = sorted.len();
        while p > 0 && c.coord.precedes(sorted[p - 1].coord)
            invariant
                p <= sorted@.len(),
                forall|k: int|
                    p <= k < sorted@.len() ==> c.coord.spec_precedes((#[trigger] sorted@[k]).coord),
            decreases p,
        {
            p = p - 1;
        }
        proof {
            lemma_inserted_at(sorted@, c, p as int);
            assert(components@.take(i + 1).drop_last() =~= components@.take(i as int));
        }
        sorted.insert(p, c);
        i = i + 1;
    }
    assert(components@.take(n as int) =~= components@);
    sorted
}

/// Projects a simulation onto a save record.
pub fn save_data_from_simulation(sim: &Simulation, selected_component_index: i32, shop_page: i32)
    -> (data: SaveData)
    ensures
        data@ == spec_save_record(sim@, selected_component_index, shop_page),
{
    let store = sim.resources();
    let sorted = sort_by_coord(sim.components());
    let n: usize = sorted.len();
    let mut components: Vec<SaveComponent> = Vec::new();
    let mut i: usize = 0;
    while i < n
        invariant
            i <= n,
            n == sorted@.len(),
            components@.len() == i,
            forall|k: int| 0 <= k < i ==> (#[trigger] components@[k])@ == entry_of(sorted@[k]),
        decreases n - i,
    {
        let c = sorted[i];
        components.push(
            SaveComponent {
                name: c.kind.canonical_name(),
                heat: c.heat,
                durability: c.durability,
                depleted: c.depleted,
                x: #[verifier::truncate]
                (c.coord.x as i32),
                y: #[verifier::truncate]
                (c.coord.y as i32),
                z: #[verifier::truncate]
                (c.coord.z as i32),
            },
        );
        i = i + 1;
    }
    let data = SaveData {
        version: 1,
        store: SaveStore {
            money: store.money,
            total_money: store.total_money,
            money_earned_this_game: store.money_earned_this_game,
            power: store.power,
            total_power_produced: store.total_power_produced,
            power_produced_this_game: store.power_produced_this_game,
            heat: store.heat,
            total_heat_dissipated: store.total_heat_dissipated,
            heat_dissipated_this_game: store.heat_dissipated_this_game,
            exotic_particles: store.exotic_particles,
            total_exotic_particles: store.total_exotic_particles,
        },
        upgrade_levels: Vec::new(),
        reactor_heat: store.heat,
        stored_power: store.power,
        depleted_protium_count: 0,
        paused: sim.paused(),
        replace_mode: true,
        total_ticks: sim.tick_index(),
        prestige_level: 0,
        shop_page,
        selected_component_index,
        components,
    };
    assert(data@.components =~= entries_of(sorted_by_coord(sim@.components)));
    assert(data@.upgrade_levels =~= Seq::<u32>::empty());
    data
}

/// A store with the saved totals and the given deltas.
pub open spec fn restored_store(saved: SaveStore, deltas: TickDeltas) -> ResourceStore {
    ResourceStore {
        money: saved.money,
        total_money: saved.total_money,
        money_earned_this_game: saved.money_earned_this_game,
        power: saved.power,
        total_power_produced: saved.total_power_produced,
        power_produced_this_game: saved.power_produced_this_game,
        heat: saved.heat,
        total_heat_dissipated: saved.total_heat_dissipated,
        heat_dissipated_this_game: saved.heat_dissipated_this_game,
        exotic_particles: saved.exotic_particles,
        total_exotic_particles: saved.total_exotic_particles,
        tick_deltas: deltas,
    }
}

/// The coordinate and kind that an entry places, if it places anything: an
/// entry with a negative coordinate, an unknown name or a coordinate outside
/// the grid places nothing.
pub open spec fn placement_of(sim: SimView, entry: SaveEntry) -> Option<(GridCoord, ComponentKind)> {
    let coord = GridCoord { z: entry.z as usize, y: entry.y as usize, x: entry.x as usize };
    if entry.x < 0 || entry.y < 0 || entry.z < 0 {
        None
    } else if ComponentKind::spec_from_name(entry.name) is None {
        None
    } else if !sim.grid.contains(coord) {
        None
    } else {
        Some((coord, ComponentKind::spec_from_name(entry.name)->0))
    }
}

/// A freshly placed component with the saved state written over it: heat
/// and durability floored at zero, and depleted if the entry says so or no
/// durability is left.
pub open spec fn overwritten(fresh: PlacedComponent, entry: SaveEntry) -> PlacedComponent {
    let durability = max_int(entry.durability as int, 0) as i64;
    let depleted = entry.depleted || durability <= 0;
    PlacedComponent {
        heat: max_int(entry.heat as int, 0) as i64,
        durability,
        depleted,
        pulse_count: if depleted {
            0
        } else {
            fresh.pulse_count
        },
        last_power: if depleted {
            0
        } else {
            fresh.last_power
        },
        last_heat: if depleted {
            0
        } else {
            fresh.last_heat
        },
        ..fresh
    }
}

/// The simulation after one entry was replayed: an entry that places
/// nothing changes nothing; any other goes through the normal placement and
/// then has its saved state written over the new component.
pub open spec fn replayed_entry(sim: SimView, entry: SaveEntry) -> SimView {
    match placement_of(sim, entry) {
        Some((coord, kind)) => {
            let placed = sim.placed(coord, kind);
            let last = placed.components.len() - 1;
            SimView {
                components: placed.components.update(
                    last,
                    overwritten(placed.components[last], entry),
                ),
                ..placed
            }
        },
        None => sim,
    }
}

/// The simulation after the first `n` entries were replayed in order.
pub open spec fn replayed(sim: SimView, entries: Seq<SaveEntry>, n: nat) -> SimView
    decreases n,
{
    if n == 0 {
        sim
    } else {
        replayed_entry(replayed(sim, entries, (n - 1) as nat), entries[n - 1])
    }
}

/// Where the replay of a record starts: the record's totals, tick counter
/// and pause flag taken over as they are, grid and list emptied.
pub open spec fn replay_start(sim: SimView, record: SaveRecord) -> SimView {
    (SimView {
        resources: restored_store(record.store, sim.resources.tick_deltas),
        tick_index: record.total_ticks,
        paused: record.paused,
        ..sim
    }).emptied()
}

/// The simulation after a record was applied: totals, tick counter and
/// pause flag are taken over as they are, grid and list are emptied, and
/// the entries are replayed in order.
pub open spec fn spec_apply_save(sim: SimView, record: SaveRecord) -> SimView {
    replayed(replay_start(sim, record), record.components, record.components.len())
}

/// Restores a simulation from a save record. Entries that cannot be placed
/// are skipped, so every record can be applied.
pub fn apply_save_data(sim: &mut Simulation, save: &SaveData) -> (r: Result<(), ApplyError>)
    ensures
        r == Ok::<(), ApplyError>(()),
        final(sim)@ == spec_apply_save(old(sim)@, save@),
{
    let deltas = sim.resources().tick_deltas;
    sim.set_resources(
        ResourceStore {
            money: save.store.money,
            total_money: save.store.total_money,
            money_earned_this_game: save.store.money_earned_this_game,
            power: save.store.power,
            total_power_produced: save.store.total_power_produced,
            power_produced_this_game: save.store.power_produced_this_game,
            heat: save.store.heat,
            total_heat_dissipated: save.store.total_heat_dissipated,
            heat_dissipated_this_game: save.store.heat_dissipated_this_game,
            exotic_particles: save.store.exotic_particles,
            total_exotic_particles: save.store.total_exotic_particles,
            tick_deltas: deltas,
        },
    );
    sim.set_clock(save.total_ticks, save.paused);
    sim.clear_all_components();
    let ghost start = sim@;
    let n: usize = save.components.len();
    let mut i: usize = 0;
    while i < n
        invariant
            i <= n,
            n == save.components@.len(),
            save@.components.len() == n,
            sim@ == replayed(start, save@.components, i as nat),
        decreases n - i,
    {
        let entry = &save.components[i];
        assert(save@.components[i as int] == entry@);
        i = i + 1;
        if entry.x < 0 || entry.y < 0 || entry.z < 0 {
            continue ;
        }
        let kind = match ComponentKind::from_name(entry.name.as_str()) {
            Some(kind) => kind,
            None => {
                continue ;
            },
        };
        let coord = GridCoord::new(entry.x as usize, entry.y as usize, entry.z as usize);
        if !sim.grid().in_bounds(coord) {
            continue ;
        }
        match sim.place_component(coord, kind) {
            Ok(()) => {},
            Err(e) => {
                return Err(ApplyError::Placement(e));
            },
        }
        let last: usize = sim.components().len() - 1;
        let mut component = sim.components()[last];
        component.heat = max_of(entry.heat, 0);
        component.durability = max_of(entry.durability, 0);
        component.depleted = entry.depleted || component.durability <= 0;
        if component.depleted {
            component.pulse_count = 0;
            component.last_power = 0;
            component.last_heat = 0;
        }
        sim.set_component(last, component);
    }
    Ok(())
}

} // verus!
