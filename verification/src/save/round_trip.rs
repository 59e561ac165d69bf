//! Saving a simulation and applying the record gives the simulation back.

use vstd::prelude::*;
use crate::engine::consistency::{
    lemma_component_at_push,
    lemma_placement_replaces,
    lemma_push_keeps_distinct,
    lemma_same_layout_keeps_consistent,
    lemma_without_coord,
};
use crate::engine::layout::{
    distinct_coords,
    index_of,
    lemma_index_of,
    lemma_index_of_same_coords,
};
use crate::engine::simulation::{
    lemma_capacity_bonus_nonneg,
    spec_component_at,
    SimView,
};
use crate::model::component::PlacedComponent;
use crate::model::grid::GridCoord;
use crate::save::bridge::{
    entries_of,
    entry_of,
    inserted,
    overwritten,
    placement_of,
    replayed,
    replay_start,
    replayed_entry,
    saved_store,
    sorted_by_coord,
    spec_apply_save,
    spec_save_record,
};
use crate::save::model::{SaveEntry, SaveRecord};
use crate::units::max_int;

verus! {

/// A list is in (z, y, x) order: no component comes before an earlier one.
pub open spec fn ordered_by_coord(components: Seq<PlacedComponent>) -> bool {
    forall|i: int, j: int|
        0 <= i < j < components.len() ==> !(#[trigger] components[j]).coord.spec_precedes(
            (#[trigger] components[i]).coord,
        )
}

/// Putting a component into an ordered list keeps the list ordered, adds
/// exactly that component, and changes no lookup but the one at its own
/// coordinate.
pub proof fn lemma_inserted(sorted: Seq<PlacedComponent>, c: PlacedComponent)
    requires
        sorted.len() < usize::MAX,
    ensures
        inserted(sorted, c).len() == sorted.len() + 1,
        ordered_by_coord(sorted) ==> ordered_by_coord(inserted(sorted, c)),
        forall|j: int|
            0 <= j < inserted(sorted, c).len() ==> #[trigger] inserted(sorted, c)[j] == c || exists|
                i: int,
            |
                0 <= i < sorted.len() && sorted[i] == inserted(sorted, c)[j],
        index_of(sorted, c.coord) is None ==> forall|at: GridCoord|
            #[trigger] spec_component_at(inserted(sorted, c), at) == (if at == c.coord {
                Some(c)
            } else {
                spec_component_at(sorted, at)
            }),
        distinct_coords(sorted) && index_of(sorted, c.coord) is None ==> distinct_coords(
            inserted(sorted, c),
        ),
    decreases sorted.len(),
{
    let result = inserted(sorted, c);
    lemma_index_of(sorted, c.coord);
    if sorted.len() > 0 && c.coord.spec_precedes(sorted.last().coord) {
        let front = sorted.drop_last();
        let last = sorted.last();
        let inner = inserted(front, c);
        lemma_inserted(front, c);
        lemma_index_of(front, c.coord);
        assert(sorted =~= front.push(last));
        assert forall|i: int| 0 <= i < front.len() implies front[i] == sorted[i] by {}
        assert forall|j: int| 0 <= j < result.len() implies #[trigger] result[j] == c || exists|
            i: int,
        |
            0 <= i < sorted.len() && sorted[i] == result[j] by {
            if j < inner.len() {
                if inner[j] != c {
                    let i = choose|i: int| 0 <= i < front.len() && front[i] == inner[j];
                    assert(sorted[i] == result[j]);
                }
            } else {
                assert(sorted[sorted.len() - 1] == result[j]);
            }
        }
        if ordered_by_coord(sorted) {
            assert(ordered_by_coord(front)) by {
                assert forall|i: int, j: int| 0 <= i < j < front.len() implies !(
                #[trigger] front[j]).coord.spec_precedes((#[trigger] front[i]).coord) by {
                    assert(!sorted[j].coord.spec_precedes(sorted[i].coord));
                }
            }
            assert forall|i: int, j: int| 0 <= i < j < result.len() implies !(
            #[trigger] result[j]).coord.spec_precedes((#[trigger] result[i]).coord) by {
                if j < inner.len() {
                    assert(!inner[j].coord.spec_precedes(inner[i].coord));
                } else {
                    if inner[i] != c {
                        let k = choose|k: int| 0 <= k < front.len() && front[k] == inner[i];
                        assert(!sorted[sorted.len() - 1].coord.spec_precedes(sorted[k].coord));
                    }
                }
            }
        }
        if index_of(sorted, c.coord) is None {
            assert(index_of(front, c.coord) is None);
            assert forall|at: GridCoord| #[trigger]
                spec_component_at(result, at) == (if at == c.coord {
                    Some(c)
                } else {
                    spec_component_at(sorted, at)
                }) by {
                lemma_component_at_push(inner, last, at);
                lemma_component_at_push(front, last, at);
                assert(spec_component_at(inner, at) == (if at == c.coord {
                    Some(c)
                } else {
                    spec_component_at(front, at)
                }));
            }
            if distinct_coords(sorted) {
                assert(distinct_coords(front)) by {
                    assert forall|i: int, j: int| 0 <= i < j < front.len() implies (
                    #[trigger] front[i]).coord != (#[trigger] front[j]).coord by {
                        assert(sorted[i].coord != sorted[j].coord);
                    }
                }
                assert forall|j: int| 0 <= j < inner.len() implies (#[trigger] inner[j]).coord
                    != last.coord by {
                    if inner[j] != c {
                        let k = choose|k: int| 0 <= k < front.len() && front[k] == inner[j];
                        assert(sorted[k].coord != sorted[sorted.len() - 1].coord);
                    } else {
                        assert(sorted[sorted.len() - 1].coord != c.coord);
                    }
                }
                lemma_push_keeps_distinct(inner, last);
            }
        }
    } else {
        assert forall|j: int| 0 <= j < result.len() implies #[trigger] result[j] == c || exists|
            i: int,
        |
            0 <= i < sorted.len() && sorted[i] == result[j] by {
            if j < sorted.len() {
                assert(sorted[j] == result[j]);
            }
        }
        if ordered_by_coord(sorted) {
            assert forall|i: int, j: int| 0 <= i < j < result.len() implies !(
            #[trigger] result[j]).coord.spec_precedes((#[trigger] result[i]).coord) by {
                if j < sorted.len() {
                    assert(!sorted[j].coord.spec_precedes(sorted[i].coord));
                } else if sorted.len() > 0 {
                    assert(!c.coord.spec_precedes(sorted[sorted.len() - 1].coord));
                    if i < sorted.len() - 1 {
                        assert(!sorted[sorted.len() - 1].coord.spec_precedes(sorted[i].coord));
                    }
                }
            }
        }
        if index_of(sorted, c.coord) is None {
            assert forall|at: GridCoord| #[trigger]
                spec_component_at(result, at) == (if at == c.coord {
                    Some(c)
                } else {
                    spec_component_at(sorted, at)
                }) by {
                lemma_component_at_push(sorted, c, at);
                lemma_index_of(sorted, at);
            }
            if distinct_coords(sorted) {
                lemma_push_keeps_distinct(sorted, c);
            }
        }
    }
}

/// Ordering a list by coordinate gives an ordered list of the same
/// components; where no two components share a coordinate, every lookup
/// finds what it found before.
pub proof fn lemma_sorted_by_coord(components: Seq<PlacedComponent>)
    requires
        components.len() <= usize::MAX,
    ensures
        sorted_by_coord(components).len() == components.len(),
        ordered_by_coord(sorted_by_coord(components)),
        forall|j: int|
            0 <= j < components.len() ==> exists|i: int|
                0 <= i < components.len() && components[i] == #[trigger] sorted_by_coord(
                    components,
                )[j],
        distinct_coords(components) ==> distinct_coords(sorted_by_coord(components)),
        distinct_coords(components) ==> forall|at: GridCoord|
            #[trigger] spec_component_at(sorted_by_coord(components), at) == spec_component_at(
                components,
                at,
            ),
    decreases components.len(),
{
    if components.len() > 0 {
        let front = components.drop_last();
        let last = components.last();
        let inner = sorted_by_coord(front);
        let result = sorted_by_coord(components);
        lemma_sorted_by_coord(front);
        lemma_inserted(inner, last);
        assert(components =~= front.push(last));
        assert forall|i: int| 0 <= i < front.len() implies front[i] == components[i] by {}
        assert forall|j: int| 0 <= j < components.len() implies exists|i: int|
            0 <= i < components.len() && components[i] == #[trigger] result[j] by {
            if result[j] == last {
                assert(components[components.len() - 1] == result[j]);
            } else {
                let k = choose|k: int| 0 <= k < inner.len() && inner[k] == result[j];
                let i = choose|i: int| 0 <= i < front.len() && front[i] == inner[k];
                assert(components[i] == result[j]);
            }
        }
        if distinct_coords(components) {
            assert(distinct_coords(front)) by {
                assert forall|i: int, j: int| 0 <= i < j < front.len() implies (
                #[trigger] front[i]).coord != (#[trigger] front[j]).coord by {
                    assert(components[i].coord != components[j].coord);
                }
            }
            lemma_index_of(front, last.coord);
            assert(index_of(front, last.coord) is None) by {
                if index_of(front, last.coord) is Some {
                    let i = index_of(front, last.coord)->0 as int;
                    assert(components[i].coord != components[components.len() - 1].coord);
                }
            }
            assert(spec_component_at(inner, last.coord) == spec_component_at(front, last.coord));
            assert(index_of(inner, last.coord) is None);
            assert forall|at: GridCoord| #[trigger]
                spec_component_at(result, at) == spec_component_at(components, at) by {
                lemma_component_at_push(front, last, at);
                assert(spec_component_at(result, at) == (if at == last.coord {
                    Some(last)
                } else {
                    spec_component_at(inner, at)
                }));
                assert(spec_component_at(inner, at) == spec_component_at(front, at));
                lemma_index_of(front, at);
            }
        }
    }
}

/// A component whose state a record can carry: heat and durability are not
/// negative, and a component without durability left is depleted.
pub open spec fn restorable(c: PlacedComponent) -> bool {
    c.heat >= 0 && c.durability >= 0 && (c.depleted || c.durability > 0)
}

/// Two components agree on coordinate, kind, heat, durability and depleted
/// flag.
pub open spec fn same_state(a: PlacedComponent, b: PlacedComponent) -> bool {
    a.coord == b.coord && a.kind == b.kind && a.heat == b.heat && a.durability == b.durability
        && a.depleted == b.depleted
}

/// A coordinate whose components all fit in an `i32`.
pub open spec fn fits_record(coord: GridCoord) -> bool {
    coord.x <= i32::MAX && coord.y <= i32::MAX && coord.z <= i32::MAX
}

/// What replaying entries leaves alone: the grid's dimensions, the store,
/// the tick counter, the pause flag and the knobs.
pub open spec fn replay_kept(before: SimView, after: SimView) -> bool {
    &&& after.grid.width == before.grid.width
    &&& after.grid.height == before.grid.height
    &&& after.grid.layers == before.grid.layers
    &&& after.resources == before.resources
    &&& after.tick_index == before.tick_index
    &&& after.paused == before.paused
    &&& after.base_power_generation_per_tick == before.base_power_generation_per_tick
    &&& after.base_heat_generation_per_tick == before.base_heat_generation_per_tick
    &&& after.auto_sell_rate_per_tick == before.auto_sell_rate_per_tick
    &&& after.passive_heat_dissipation_per_tick == before.passive_heat_dissipation_per_tick
    &&& after.base_power_capacity == before.base_power_capacity
    &&& after.base_heat_capacity == before.base_heat_capacity
}

/// Replaying the saved form of a restorable component at a free, valid
/// coordinate adds a component in the same state at the end of the list
/// and changes nothing else, provided the hull's power fits the capacity
/// that the placement leaves and its heat is not negative.
pub proof fn lemma_replay_step(sim: SimView, c: PlacedComponent)
    requires
        sim.consistent(),
        sim.components.len() < usize::MAX,
        sim.grid.contains(c.coord),
        fits_record(c.coord),
        restorable(c),
        index_of(sim.components, c.coord) is None,
        sim.resources.power <= replayed_entry(sim, entry_of(c)).max_power_capacity,
        sim.resources.heat >= 0,
    ensures
        ({
            let after = replayed_entry(sim, entry_of(c));
            &&& after.components.len() == sim.components.len() + 1
            &&& after.components.drop_last() == sim.components
            &&& same_state(c, after.components.last())
            &&& after.consistent()
            &&& replay_kept(sim, after)
        }),
{
    let entry = entry_of(c);
    c.kind.lemma_name_round_trip();
    assert(placement_of(sim, entry) == Some((c.coord, c.kind)));
    let placed = sim.placed(c.coord, c.kind);
    lemma_without_coord(sim.components, c.coord);
    lemma_placement_replaces(sim, c.coord, c.kind);
    let last = placed.components.len() - 1;
    let fresh = placed.components[last];
    let written = overwritten(fresh, entry);
    let after = replayed_entry(sim, entry);
    assert(after.components == placed.components.update(last, written));
    assert(after.components.drop_last() =~= sim.components);
    assert(after.max_power_capacity == placed.max_power_capacity);
    assert(placed.resources == sim.resources);
    assert forall|i: int| 0 <= i < placed.components.len() implies (
    #[trigger] placed.components[i]).coord == after.components[i].coord && placed.components[i].kind
        == after.components[i].kind && placed.components[i].id == after.components[i].id
        && placed.components[i].placed_at_tick == after.components[i].placed_at_tick by {}
    lemma_same_layout_keeps_consistent(placed, after.components);
    assert(after == (SimView { components: after.components, ..placed }));
}

/// The hull's power fits the power capacity after each of the first `n`
/// steps of a replay, so no step drains any of it.
pub open spec fn power_fits_replay(start: SimView, entries: Seq<SaveEntry>, n: nat) -> bool {
    forall|k: nat|
        1 <= k <= n ==> start.resources.power <= (#[trigger] replayed(
            start,
            entries,
            k,
        )).max_power_capacity
}

/// Where a replay starts from and what it replays: an empty, consistent
/// simulation, and restorable components at distinct valid coordinates
/// that fit a record; unless there is nothing to replay, the hull's heat is
/// not negative and its power fits the capacity at every step.
pub open spec fn replay_ready(start: SimView, sorted: Seq<PlacedComponent>) -> bool {
    &&& start.consistent()
    &&& start.components.len() == 0
    &&& sorted.len() < usize::MAX
    &&& distinct_coords(sorted)
    &&& forall|j: int|
        0 <= j < sorted.len() ==> restorable(#[trigger] sorted[j]) && start.grid.contains(
            sorted[j].coord,
        ) && fits_record(sorted[j].coord)
    &&& sorted.len() > 0 ==> start.resources.heat >= 0
    &&& power_fits_replay(start, entries_of(sorted), sorted.len())
}

/// Replaying the saved forms of the first `k` components gives a list of
/// `k` components in the same states and order, in a consistent simulation
/// whose store, counter and flag are untouched.
pub proof fn lemma_replay(start: SimView, sorted: Seq<PlacedComponent>, k: nat)
    requires
        replay_ready(start, sorted),
        k <= sorted.len(),
    ensures
        ({
            let after = replayed(start, entries_of(sorted), k);
            &&& after.components.len() == k
            &&& forall|j: int| 0 <= j < k ==> same_state(sorted[j], #[trigger] after.components[j])
            &&& after.consistent()
            &&& replay_kept(start, after)
        }),
    decreases k,
{
    if k > 0 {
        let m = (k - 1) as nat;
        lemma_replay(start, sorted, m);
        let before = replayed(start, entries_of(sorted), m);
        let c = sorted[k - 1];
        assert(entries_of(sorted)[k - 1] == entry_of(c));
        assert(restorable(c) && start.grid.contains(c.coord) && fits_record(c.coord));
        lemma_index_of(before.components, c.coord);
        if index_of(before.components, c.coord) is Some {
            let i = index_of(before.components, c.coord)->0 as int;
            assert(same_state(sorted[i], before.components[i]));
            assert(sorted[i].coord != sorted[k - 1].coord);
        }
        let after = replayed(start, entries_of(sorted), k);
        assert(after == replayed_entry(before, entry_of(c)));
        assert(start.resources.power <= after.max_power_capacity);
        lemma_replay_step(before, c);
        assert forall|j: int| 0 <= j < k implies same_state(
            sorted[j],
            #[trigger] after.components[j],
        ) by {
            if j < k - 1 {
                assert(after.components.drop_last()[j] == after.components[j]);
                assert(same_state(sorted[j], before.components[j]));
            } else {
                assert(after.components.last() == after.components[j]);
            }
        }
    }
}

/// Saving a simulation and applying the record to another reproduces the
/// resource totals, the tick counter, the pause flag and, at every
/// coordinate, the component's kind, heat, durability and depleted flag.
///
/// This holds where a record can carry the state and the target can take
/// it: no two components share a coordinate, every component is
/// restorable, and its coordinate fits an `i32` and lies in the target's
/// grid; and, unless there is no component, the hull's heat is not
/// negative and its power fits the target's power capacity at every step
/// of the replay.
pub proof fn lemma_save_round_trip(
    sim: SimView,
    target: SimView,
    selected_component_index: i32,
    shop_page: i32,
)
    requires
        sim.components.len() < usize::MAX,
        distinct_coords(sim.components),
        target.grid.wf(),
        forall|i: int|
            0 <= i < sim.components.len() ==> restorable(#[trigger] sim.components[i])
                && target.grid.contains(sim.components[i].coord) && fits_record(
                sim.components[i].coord,
            ),
        sim.components.len() > 0 ==> sim.resources.heat >= 0,
        power_fits_replay(
            replay_start(target, spec_save_record(sim, selected_component_index, shop_page)),
            spec_save_record(sim, selected_component_index, shop_page).components,
            sim.components.len(),
        ),
    ensures
        ({
            let back = spec_apply_save(
                target,
                spec_save_record(sim, selected_component_index, shop_page),
            );
            &&& saved_store(back.resources) == saved_store(sim.resources)
            &&& back.tick_index == sim.tick_index
            &&& back.paused == sim.paused
            &&& back.components.len() == sim.components.len()
            &&& back.consistent()
            &&& forall|at: GridCoord|
                match (
                    #[trigger] spec_component_at(back.components, at),
                    spec_component_at(sim.components, at),
                ) {
                    (Some(b), Some(a)) => same_state(a, b),
                    (None, None) => true,
                    _ => false,
                }
        }),
{
    let record = spec_save_record(sim, selected_component_index, shop_page);
    let sorted = sorted_by_coord(sim.components);
    let start = replay_start(target, record);
    lemma_sorted_by_coord(sim.components);
    assert forall|j: int| 0 <= j < sorted.len() implies restorable(#[trigger] sorted[j])
        && start.grid.contains(sorted[j].coord) && fits_record(sorted[j].coord) by {
        let i = choose|i: int| 0 <= i < sim.components.len() && sim.components[i] == sorted[j];
        assert(restorable(sim.components[i]));
    }
    assert(record.components == entries_of(sorted));
    assert(entries_of(sorted).len() == sorted.len());
    assert(replay_ready(start, sorted));
    lemma_replay(start, sorted, sorted.len());
    let back = spec_apply_save(target, record);
    assert(back == replayed(start, entries_of(sorted), sorted.len()));
    assert forall|at: GridCoord|
        match (
            #[trigger] spec_component_at(back.components, at),
            spec_component_at(sim.components, at),
        ) {
            (Some(b), Some(a)) => same_state(a, b),
            (None, None) => true,
            _ => false,
        } by {
        assert forall|j: int| 0 <= j < sorted.len() implies (#[trigger] back.components[j]).coord
            == sorted[j].coord by {
            assert(same_state(sorted[j], back.components[j]));
        }
        lemma_index_of_same_coords(back.components, sorted, at);
        lemma_index_of(sorted, at);
        assert(spec_component_at(sorted, at) == spec_component_at(sim.components, at));
        if index_of(sorted, at) is Some {
            let i = index_of(sorted, at)->0 as int;
            assert(same_state(sorted[i], back.components[i]));
        }
    }
}

/// Every step of a replay that places a component leaves a power capacity
/// of at least the base capacity.
pub proof fn lemma_replayed_entry_covers_base(sim: SimView, entry: SaveEntry)
    requires
        placement_of(sim, entry) is Some,
    ensures
        replayed_entry(sim, entry).max_power_capacity >= max_int(
            sim.base_power_capacity as int,
            0,
        ),
        replayed_entry(sim, entry).base_power_capacity == sim.base_power_capacity,
{
    let (coord, kind) = placement_of(sim, entry)->0;
    let placed = sim.placed(coord, kind);
    lemma_capacity_bonus_nonneg(placed.components, placed.components.len());
}

/// A hull whose power fits the base power capacity keeps all of it through
/// the replay of its own record.
pub proof fn lemma_power_within_base_fits_replay(
    sim: SimView,
    target: SimView,
    selected_component_index: i32,
    shop_page: i32,
)
    requires
        sim.components.len() < usize::MAX,
        distinct_coords(sim.components),
        target.grid.wf(),
        forall|i: int|
            0 <= i < sim.components.len() ==> target.grid.contains(
                (#[trigger] sim.components[i]).coord,
            ) && fits_record(sim.components[i].coord),
        sim.resources.power <= max_int(target.base_power_capacity as int, 0),
    ensures
        power_fits_replay(
            replay_start(target, spec_save_record(sim, selected_component_index, shop_page)),
            spec_save_record(sim, selected_component_index, shop_page).components,
            sim.components.len(),
        ),
{
    let record = spec_save_record(sim, selected_component_index, shop_page);
    let sorted = sorted_by_coord(sim.components);
    let start = replay_start(target, record);
    lemma_sorted_by_coord(sim.components);
    assert(record.components == entries_of(sorted));
    assert forall|k: nat| 1 <= k <= sim.components.len() implies start.resources.power <= (
    #[trigger] replayed(start, record.components, k)).max_power_capacity by {
        let before = replayed(start, record.components, (k - 1) as nat);
        lemma_replayed_is_consistent(start, record.components, (k - 1) as nat);
        let c = sorted[k - 1];
        let i = choose|i: int| 0 <= i < sim.components.len() && sim.components[i] == c;
        assert(target.grid.contains(sim.components[i].coord) && fits_record(
            sim.components[i].coord,
        ));
        assert(record.components[k - 1] == entry_of(c));
        c.kind.lemma_name_round_trip();
        assert(placement_of(before, entry_of(c)) == Some((c.coord, c.kind)));
        lemma_replayed_entry_covers_base(before, entry_of(c));
    }
}

/// Replaying any entries keeps grid and list in agreement and the grid's
/// size as it was.
pub proof fn lemma_replayed_is_consistent(start: SimView, entries: Seq<SaveEntry>, n: nat)
    requires
        start.consistent(),
        start.components.len() + n <= usize::MAX,
        n <= entries.len(),
    ensures
        replayed(start, entries, n).consistent(),
        replayed(start, entries, n).components.len() <= start.components.len() + n,
        replayed(start, entries, n).grid.width == start.grid.width,
        replayed(start, entries, n).grid.height == start.grid.height,
        replayed(start, entries, n).grid.layers == start.grid.layers,
        replayed(start, entries, n).tick_index == start.tick_index,
        replayed(start, entries, n).paused == start.paused,
        replayed(start, entries, n).base_power_capacity == start.base_power_capacity,
    decreases n,
{
    if n > 0 {
        lemma_replayed_is_consistent(start, entries, (n - 1) as nat);
        let before = replayed(start, entries, (n - 1) as nat);
        let entry = entries[n - 1];
        match placement_of(before, entry) {
            Some((coord, kind)) => {
                let placed = before.placed(coord, kind);
                lemma_without_coord(before.components, coord);
                lemma_placement_replaces(before, coord, kind);
                let last = placed.components.len() - 1;
                let after = replayed_entry(before, entry);
                assert(after.components == placed.components.update(
                    last,
                    overwritten(placed.components[last], entry),
                ));
                assert forall|i: int| 0 <= i < placed.components.len() implies (
                #[trigger] placed.components[i]).coord == after.components[i].coord
                    && placed.components[i].kind == after.components[i].kind
                    && placed.components[i].id == after.components[i].id
                    && placed.components[i].placed_at_tick == after.components[i].placed_at_tick by {}
                lemma_same_layout_keeps_consistent(placed, after.components);
                assert(after == (SimView { components: after.components, ..placed }));
            },
            None => {},
        }
    }
}

/// Applying any record gives a simulation whose grid and list agree, with
/// the record's tick counter and pause flag; a record without components
/// gives exactly its totals.
pub proof fn lemma_apply_is_consistent(sim: SimView, record: SaveRecord)
    requires
        sim.grid.wf(),
        record.components.len() <= usize::MAX,
    ensures
        spec_apply_save(sim, record).consistent(),
        spec_apply_save(sim, record).tick_index == record.total_ticks,
        spec_apply_save(sim, record).paused == record.paused,
        record.components.len() == 0 ==> saved_store(spec_apply_save(sim, record).resources)
            == record.store,
{
    lemma_replayed_is_consistent(
        replay_start(sim, record),
        record.components,
        record.components.len(),
    );
}

} // verus!
