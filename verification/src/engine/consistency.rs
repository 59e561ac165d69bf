//! Grid and component list describe the same reactor: what placement,
//! removal and ticks keep true of them.

use vstd::prelude::*;
use crate::engine::invariants::lemma_tick_frame;
use crate::engine::layout::{
    adjacency,
    distinct_coords,
    east_of,
    index_of,
    lemma_index_of,
    lemma_index_of_same_layout,
    north_of,
    same_layout,
    south_of,
    west_of,
};
use crate::engine::simulation::{spec_component_at, without_coord, SimView, Simulation};
use crate::model::component::{ComponentKind, PlacedComponent};
use crate::model::grid::{GridCell, GridCoord};

verus! {

/// What the grid records about a placed component.
pub open spec fn cell_of(component: PlacedComponent) -> GridCell {
    GridCell {
        kind: component.kind,
        component_id: component.id,
        placed_tick: component.placed_at_tick,
    }
}

/// How many components of the list sit at a coordinate.
pub open spec fn count_at(components: Seq<PlacedComponent>, coord: GridCoord) -> nat
    decreases components.len(),
{
    if components.len() == 0 {
        0
    } else {
        count_at(components.drop_last(), coord) + (if components.last().coord == coord {
            1nat
        } else {
            0nat
        })
    }
}

impl SimView {
    /// Grid and list agree: no two components share a coordinate, and a
    /// cell of the grid is occupied exactly when a component sits there,
    /// with that component's kind, id and placement tick.
    pub open spec fn consistent(self) -> bool {
        &&& self.components.len() <= usize::MAX
        &&& self.grid.wf()
        &&& distinct_coords(self.components)
        &&& forall|c: GridCoord|
            #[trigger] self.grid.cell_at(c) == (match spec_component_at(self.components, c) {
                Some(p) => Some(cell_of(p)),
                None => None,
            })
    }

    /// Every id in use is below the id that the next placement gets.
    pub open spec fn ids_below_next(self) -> bool {
        forall|i: int|
            0 <= i < self.components.len() ==> (#[trigger] self.components[i]).id
                < self.next_component_id
    }
}

/// Lookup in a list with one more component at its end.
pub proof fn lemma_component_at_push(
    components: Seq<PlacedComponent>,
    added: PlacedComponent,
    coord: GridCoord,
)
    requires
        components.len() < usize::MAX,
    ensures
        spec_component_at(components.push(added), coord) == (match spec_component_at(
            components,
            coord,
        ) {
            Some(p) => Some(p),
            None => if added.coord == coord {
                Some(added)
            } else {
                None
            },
        }),
{
    let longer = components.push(added);
    assert(longer.drop_last() =~= components);
    assert(longer.last() == added);
    lemma_index_of(components, coord);
}

/// A coordinate where lookup finds nothing holds no component.
pub proof fn lemma_count_of_absent(components: Seq<PlacedComponent>, coord: GridCoord)
    requires
        forall|j: int| 0 <= j < components.len() ==> (#[trigger] components[j]).coord != coord,
    ensures
        count_at(components, coord) == 0,
    decreases components.len(),
{
    if components.len() > 0 {
        assert forall|j: int| 0 <= j < components.len() - 1 implies (
        #[trigger] components.drop_last()[j]).coord != coord by {
            assert(components.drop_last()[j] == components[j]);
        }
        lemma_count_of_absent(components.drop_last(), coord);
        assert(components.last() == components[components.len() - 1]);
    }
}

/// Taking the components at a coordinate out of a list leaves none there,
/// leaves every other coordinate as it was, and keeps coordinates distinct.
pub proof fn lemma_without_coord(components: Seq<PlacedComponent>, coord: GridCoord)
    requires
        components.len() <= usize::MAX,
    ensures
        without_coord(components, coord).len() <= components.len(),
        forall|j: int|
            0 <= j < without_coord(components, coord).len() ==> (#[trigger] without_coord(
                components,
                coord,
            )[j]).coord != coord,
        forall|j: int|
            0 <= j < without_coord(components, coord).len() ==> exists|i: int|
                0 <= i < components.len() && components[i] == #[trigger] without_coord(
                    components,
                    coord,
                )[j],
        forall|c: GridCoord|
            #[trigger] spec_component_at(without_coord(components, coord), c) == (if c == coord {
                None
            } else {
                spec_component_at(components, c)
            }),
        distinct_coords(components) ==> distinct_coords(without_coord(components, coord)),
        index_of(components, coord) is None ==> without_coord(components, coord) == components,
    decreases components.len(),
{
    if components.len() > 0 {
        let front = components.drop_last();
        let last = components.last();
        let rest = without_coord(front, coord);
        let result = without_coord(components, coord);
        lemma_without_coord(front, coord);
        assert forall|i: int| 0 <= i < front.len() implies front[i] == components[i] by {}
        assert(last == components[components.len() - 1]);
        assert forall|j: int| 0 <= j < result.len() implies exists|i: int|
            0 <= i < components.len() && components[i] == #[trigger] result[j] by {
            if j < rest.len() {
                let i = choose|i: int| 0 <= i < front.len() && front[i] == rest[j];
                assert(components[i] == result[j]);
            } else {
                assert(components[components.len() - 1] == result[j]);
            }
        }
        assert forall|c: GridCoord| #[trigger]
            spec_component_at(result, c) == (if c == coord {
                None
            } else {
                spec_component_at(components, c)
            }) by {
            assert(components =~= front.push(last));
            lemma_component_at_push(front, last, c);
            if last.coord != coord {
                lemma_component_at_push(rest, last, c);
            }
        }
        if distinct_coords(components) {
            assert(distinct_coords(front)) by {
                assert forall|i: int, j: int| 0 <= i < j < front.len() implies (
                #[trigger] front[i]).coord != (#[trigger] front[j]).coord by {
                    assert(components[i].coord != components[j].coord);
                }
            }
            if last.coord != coord {
                assert forall|i: int, j: int| 0 <= i < j < result.len() implies (
                #[trigger] result[i]).coord != (#[trigger] result[j]).coord by {
                    if j == rest.len() {
                        let k = choose|k: int| 0 <= k < front.len() && front[k] == rest[i];
                        assert(components[k].coord != components[components.len() - 1].coord);
                    } else {
                        assert(rest[i].coord != rest[j].coord);
                    }
                }
            }
        }
        if index_of(components, coord) is None {
            lemma_index_of(components, coord);
            assert(index_of(front, coord) is None);
            assert(result =~= components);
        }
    }
}

/// A component that joins a list at a free coordinate keeps coordinates
/// distinct.
pub proof fn lemma_push_keeps_distinct(components: Seq<PlacedComponent>, added: PlacedComponent)
    requires
        distinct_coords(components),
        forall|j: int| 0 <= j < components.len() ==> (#[trigger] components[j]).coord != added.coord,
    ensures
        distinct_coords(components.push(added)),
{
    let longer = components.push(added);
    assert forall|i: int, j: int| 0 <= i < j < longer.len() implies (#[trigger] longer[i]).coord
        != (#[trigger] longer[j]).coord by {
        if j < components.len() {
            assert(components[i].coord != components[j].coord);
        } else {
            assert(components[i].coord != added.coord);
        }
    }
}

/// A new simulation is consistent.
pub proof fn lemma_new_is_consistent(width: usize, height: usize, layers: usize)
    ensures
        Simulation::spec_new(width, height, layers).consistent(),
        Simulation::spec_new(width, height, layers).ids_below_next(),
{
}

/// Placing at a valid coordinate replaces the occupant: exactly one
/// component sits there afterwards, a fresh one of the new kind with full
/// durability and no heat, under an id that the grid cell records too and
/// that no component had before; every other coordinate keeps what it had,
/// and grid and list still agree.
pub proof fn lemma_placement_replaces(sim: SimView, coord: GridCoord, kind: ComponentKind)
    requires
        sim.consistent(),
        sim.components.len() < usize::MAX,
        sim.grid.contains(coord),
    ensures
        ({
            let after = sim.placed(coord, kind);
            let fresh = PlacedComponent::spec_new_with_metadata(
                kind,
                coord,
                sim.next_component_id,
                sim.tick_index,
            );
            &&& after.consistent()
            &&& count_at(after.components, coord) == 1
            &&& spec_component_at(after.components, coord) == Some(fresh)
            &&& after.components.last() == fresh
            &&& after.grid.cell_at(coord) == Some(cell_of(fresh))
            &&& forall|c: GridCoord|
                c != coord ==> #[trigger] spec_component_at(after.components, c)
                    == spec_component_at(sim.components, c)
            &&& sim.ids_below_next() ==> (forall|i: int|
                0 <= i < sim.components.len() ==> (#[trigger] sim.components[i]).id != fresh.id)
            &&& sim.ids_below_next() && sim.next_component_id < u64::MAX
                ==> after.ids_below_next()
        }),
{
    let after = sim.placed(coord, kind);
    let fresh = PlacedComponent::spec_new_with_metadata(
        kind,
        coord,
        sim.next_component_id,
        sim.tick_index,
    );
    let kept = without_coord(sim.components, coord);
    lemma_without_coord(sim.components, coord);
    assert(after.components == kept.push(fresh));
    lemma_push_keeps_distinct(kept, fresh);
    lemma_count_of_absent(kept, coord);
    assert(kept.push(fresh).drop_last() =~= kept);
    assert forall|c: GridCoord| #[trigger]
        after.grid.cell_at(c) == (match spec_component_at(after.components, c) {
            Some(p) => Some(cell_of(p)),
            None => None,
        }) by {
        lemma_component_at_push(kept, fresh, c);
        assert(spec_component_at(kept, c) == (if c == coord {
            None
        } else {
            spec_component_at(sim.components, c)
        }));
        assert(sim.grid.cell_at(c) == (match spec_component_at(sim.components, c) {
            Some(p) => Some(cell_of(p)),
            None => None,
        }));
    }
    assert forall|c: GridCoord| c != coord implies #[trigger] spec_component_at(
        after.components,
        c,
    ) == spec_component_at(sim.components, c) by {
        lemma_component_at_push(kept, fresh, c);
        assert(spec_component_at(kept, c) == (if c == coord {
            None
        } else {
            spec_component_at(sim.components, c)
        }));
    }
    lemma_component_at_push(kept, fresh, coord);
    assert(spec_component_at(kept, coord) == (if coord == coord {
        None
    } else {
        spec_component_at(sim.components, coord)
    }));
    if sim.ids_below_next() && sim.next_component_id < u64::MAX {
        assert forall|i: int| 0 <= i < after.components.len() implies (
        #[trigger] after.components[i]).id < after.next_component_id by {
            if i < kept.len() {
                let k = choose|k: int| 0 <= k < sim.components.len() && sim.components[k] == kept[i];
                assert(sim.components[k].id < sim.next_component_id);
            }
        }
    }
}

/// Removing at a valid coordinate empties it in grid and list, leaves every
/// other coordinate as it was, and grid and list still agree.
pub proof fn lemma_removal_empties(sim: SimView, coord: GridCoord)
    requires
        sim.consistent(),
        sim.grid.contains(coord),
    ensures
        ({
            let after = sim.removed(coord);
            &&& after.consistent()
            &&& spec_component_at(after.components, coord) is None
            &&& after.grid.cell_at(coord) is None
            &&& forall|c: GridCoord|
                c != coord ==> #[trigger] spec_component_at(after.components, c)
                    == spec_component_at(sim.components, c)
            &&& sim.ids_below_next() ==> after.ids_below_next()
        }),
{
    let after = sim.removed(coord);
    let kept = without_coord(sim.components, coord);
    lemma_without_coord(sim.components, coord);
    assert forall|c: GridCoord| #[trigger]
        after.grid.cell_at(c) == (match spec_component_at(after.components, c) {
            Some(p) => Some(cell_of(p)),
            None => None,
        }) by {
        assert(spec_component_at(kept, c) == (if c == coord {
            None
        } else {
            spec_component_at(sim.components, c)
        }));
        assert(sim.grid.cell_at(c) == (match spec_component_at(sim.components, c) {
            Some(p) => Some(cell_of(p)),
            None => None,
        }));
    }
    assert(spec_component_at(kept, coord) == (if coord == coord {
        None
    } else {
        spec_component_at(sim.components, coord)
    }));
    assert forall|c: GridCoord| c != coord implies #[trigger] spec_component_at(
        after.components,
        c,
    ) == spec_component_at(sim.components, c) by {
        assert(spec_component_at(kept, c) == (if c == coord {
            None
        } else {
            spec_component_at(sim.components, c)
        }));
    }
    if sim.ids_below_next() {
        assert forall|i: int| 0 <= i < after.components.len() implies (
        #[trigger] after.components[i]).id < after.next_component_id by {
            let k = choose|k: int| 0 <= k < sim.components.len() && sim.components[k] == kept[i];
            assert(sim.components[k].id < sim.next_component_id);
        }
    }
}

/// Emptying a simulation whose grid is well-formed leaves grid and list in
/// agreement.
pub proof fn lemma_emptied_is_consistent(sim: SimView)
    requires
        sim.grid.wf(),
    ensures
        sim.emptied().consistent(),
        sim.emptied().ids_below_next(),
{
}

/// Two lists with the same layout keep grid and list in agreement alike.
pub proof fn lemma_same_layout_keeps_consistent(sim: SimView, components: Seq<PlacedComponent>)
    requires
        sim.consistent(),
        same_layout(sim.components, components),
    ensures
        (SimView { components, ..sim }).consistent(),
        sim.ids_below_next() ==> (SimView { components, ..sim }).ids_below_next(),
{
    let after = SimView { components, ..sim };
    assert forall|i: int, j: int| 0 <= i < j < components.len() implies (
    #[trigger] components[i]).coord != (#[trigger] components[j]).coord by {
        assert(sim.components[i].coord != sim.components[j].coord);
    }
    assert forall|c: GridCoord| #[trigger]
        after.grid.cell_at(c) == (match spec_component_at(components, c) {
            Some(p) => Some(cell_of(p)),
            None => None,
        }) by {
        lemma_index_of_same_layout(sim.components, components, c);
        lemma_index_of(sim.components, c);
        assert(sim.grid.cell_at(c) == (match spec_component_at(sim.components, c) {
            Some(p) => Some(cell_of(p)),
            None => None,
        }));
        if index_of(components, c) is Some {
            let i = index_of(components, c)->0 as int;
            assert(sim.components[i].coord == components[i].coord);
        }
    }
    if sim.ids_below_next() {
        assert forall|i: int| 0 <= i < components.len() implies (#[trigger] components[i]).id
            < after.next_component_id by {
            assert(sim.components[i].id == components[i].id);
        }
    }
}

/// A tick keeps grid and list in agreement.
pub proof fn lemma_tick_keeps_consistent(sim: SimView)
    requires
        sim.consistent(),
    ensures
        sim.ticked().consistent(),
        sim.ids_below_next() ==> sim.ticked().ids_below_next(),
{
    lemma_tick_frame(sim);
    lemma_same_layout_keeps_consistent(sim, sim.ticked().components);
    let moved = SimView { components: sim.ticked().components, ..sim };
    assert(moved.grid == sim.ticked().grid);
    assert(moved.components == sim.ticked().components);
    assert(moved.next_component_id == sim.ticked().next_component_id);
}

/// In a list of components at distinct coordinates within the width and
/// height, being a neighbour is mutual: a component finds another to its
/// west exactly when that one finds it to its east, and likewise to the
/// south and north. So what a component receives from its neighbours is
/// what its neighbours send to theirs.
pub proof fn lemma_neighbours_are_mutual(
    components: Seq<PlacedComponent>,
    width: usize,
    height: usize,
    i: int,
    j: int,
)
    requires
        components.len() <= usize::MAX,
        distinct_coords(components),
        forall|k: int|
            0 <= k < components.len() ==> (#[trigger] components[k]).coord.x < width
                && components[k].coord.y < height,
        0 <= i < components.len(),
        0 <= j < components.len(),
    ensures
        adjacency(components, width, height)[i].west == Some(j as usize) <==> adjacency(
            components,
            width,
            height,
        )[j].east == Some(i as usize),
        adjacency(components, width, height)[i].south == Some(j as usize) <==> adjacency(
            components,
            width,
            height,
        )[j].north == Some(i as usize),
{
    let a = components[i].coord;
    let b = components[j].coord;
    lemma_found_is_at(components, i);
    lemma_found_is_at(components, j);
    if west_of(a) is Some {
        lemma_index_of(components, west_of(a)->0);
    }
    if east_of(b, width) is Some {
        lemma_index_of(components, east_of(b, width)->0);
    }
    if south_of(a) is Some {
        lemma_index_of(components, south_of(a)->0);
    }
    if north_of(b, height) is Some {
        lemma_index_of(components, north_of(b, height)->0);
    }
    assert(components[i].coord.x < width && components[i].coord.y < height);
    assert(components[j].coord.x < width && components[j].coord.y < height);
    if b == (GridCoord { x: (a.x - 1) as usize, ..a }) && a.x > 0 {
        assert(a == (GridCoord { x: (b.x + 1) as usize, ..b }));
    }
    if a == (GridCoord { x: (b.x + 1) as usize, ..b }) && b.x + 1 < width {
        assert(b == (GridCoord { x: (a.x - 1) as usize, ..a }));
    }
    if b == (GridCoord { y: (a.y - 1) as usize, ..a }) && a.y > 0 {
        assert(a == (GridCoord { y: (b.y + 1) as usize, ..b }));
    }
    if a == (GridCoord { y: (b.y + 1) as usize, ..b }) && b.y + 1 < height {
        assert(b == (GridCoord { y: (a.y - 1) as usize, ..a }));
    }
}

/// Where coordinates are distinct, lookup at a component's coordinate
/// finds that component.
pub proof fn lemma_found_is_at(components: Seq<PlacedComponent>, i: int)
    requires
        components.len() <= usize::MAX,
        distinct_coords(components),
        0 <= i < components.len(),
    ensures
        index_of(components, components[i].coord) == Some(i as usize),
{
    lemma_index_of(components, components[i].coord);
    match index_of(components, components[i].coord) {
        Some(k) => {
            if (k as int) < i {
                assert(components[k as int].coord != components[i].coord);
            }
        },
        None => {
            assert(components[i].coord != components[i].coord);
        },
    }
}

} // verus!
