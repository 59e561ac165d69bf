//! Where the placed components sit: lookup by coordinate and the four
//! axis-aligned neighbours of a cell.

use vstd::prelude::*;
use crate::model::component::PlacedComponent;
use crate::model::grid::GridCoord;

verus! {

/// Index of the first component of the list that sits at `coord`.
pub open spec fn index_of(components: Seq<PlacedComponent>, coord: GridCoord) -> Option<usize>
    decreases components.len(),
{
    if components.len() == 0 {
        None
    } else {
        match index_of(components.drop_last(), coord) {
            Some(i) => Some(i),
            None => if components.last().coord == coord {
                Some((components.len() - 1) as usize)
            } else {
                None
            },
        }
    }
}

/// No two components of the list share a coordinate.
pub open spec fn distinct_coords(components: Seq<PlacedComponent>) -> bool {
    forall|i: int, j: int|
        0 <= i < j < components.len() ==> (#[trigger] components[i]).coord != (
        #[trigger] components[j]).coord
}

/// Two lists of the same length hold their components at the same
/// coordinates and of the same kinds.
pub open spec fn same_layout(a: Seq<PlacedComponent>, b: Seq<PlacedComponent>) -> bool {
    &&& a.len() == b.len()
    &&& forall|i: int|
        0 <= i < a.len() ==> (#[trigger] a[i]).coord == b[i].coord && a[i].kind == b[i].kind
            && a[i].id == b[i].id && a[i].placed_at_tick == b[i].placed_at_tick
}

/// `index_of` finds the first match, and nothing when there is none.
pub proof fn lemma_index_of(components: Seq<PlacedComponent>, coord: GridCoord)
    requires
        components.len() <= usize::MAX,
    ensures
        match index_of(components, coord) {
            Some(i) => i < components.len() && components[i as int].coord == coord && forall|
                j: int,
            |
                0 <= j < i ==> (#[trigger] components[j]).coord != coord,
            None => forall|j: int|
                0 <= j < components.len() ==> (#[trigger] components[j]).coord != coord,
        },
    decreases components.len(),
{
    if components.len() > 0 {
        let front = components.drop_last();
        lemma_index_of(front, coord);
        assert forall|j: int| 0 <= j < front.len() implies front[j] == components[j] by {}
        match index_of(front, coord) {
            Some(i) => {
                assert(front[i as int] == components[i as int]);
            },
            None => {
                assert forall|j: int| 0 <= j < components.len() - 1 implies (
                #[trigger] components[j]).coord != coord by {
                    assert(front[j] == components[j]);
                }
            },
        }
    }
}

/// The first component at a coordinate is what `index_of` returns.
pub proof fn lemma_index_of_first(components: Seq<PlacedComponent>, coord: GridCoord, i: int)
    requires
        components.len() <= usize::MAX,
        0 <= i < components.len(),
        components[i].coord == coord,
        forall|j: int| 0 <= j < i ==> (#[trigger] components[j]).coord != coord,
    ensures
        index_of(components, coord) == Some(i as usize),
{
    lemma_index_of(components, coord);
    match index_of(components, coord) {
        Some(k) => {
            if (k as int) < i {
                assert(components[k as int].coord != coord);
            }
            if i < k as int {
                assert(components[i].coord != coord);
            }
        },
        None => {
            assert(components[i].coord != coord);
        },
    }
}

/// Two lists of the same length hold their components at the same
/// coordinates.
pub open spec fn same_coords(a: Seq<PlacedComponent>, b: Seq<PlacedComponent>) -> bool {
    &&& a.len() == b.len()
    &&& forall|i: int| 0 <= i < a.len() ==> (#[trigger] a[i]).coord == b[i].coord
}

/// Lookup depends on the coordinates alone.
pub proof fn lemma_index_of_same_coords(
    a: Seq<PlacedComponent>,
    b: Seq<PlacedComponent>,
    coord: GridCoord,
)
    requires
        same_coords(a, b),
    ensures
        index_of(a, coord) == index_of(b, coord),
    decreases a.len(),
{
    if a.len() > 0 {
        assert forall|i: int| 0 <= i < a.len() - 1 implies (#[trigger] a.drop_last()[i]).coord
            == b.drop_last()[i].coord by {
            assert(a.drop_last()[i] == a[i]);
            assert(b.drop_last()[i] == b[i]);
        }
        lemma_index_of_same_coords(a.drop_last(), b.drop_last(), coord);
        assert(a.last() == a[a.len() - 1]);
        assert(b.last() == b[b.len() - 1]);
    }
}

/// Lookup is the same in two lists of the same layout.
pub proof fn lemma_index_of_same_layout(
    a: Seq<PlacedComponent>,
    b: Seq<PlacedComponent>,
    coord: GridCoord,
)
    requires
        same_layout(a, b),
    ensures
        index_of(a, coord) == index_of(b, coord),
{
    lemma_index_of_same_coords(a, b, coord);
}

/// The components found on the four cells next to a cell; `None` where the
/// cell lies outside the grid or is empty.
#[derive(Debug, Clone, Copy, PartialEq, Eq, Structural)]
pub struct Neighbors {
    pub west: Option<usize>,
    pub east: Option<usize>,
    pub south: Option<usize>,
    pub north: Option<usize>,
}

impl Neighbors {
    /// Every neighbour found is an index below `len`.
    pub open spec fn within(self, len: nat) -> bool {
        &&& self.west is Some ==> self.west->0 < len
        &&& self.east is Some ==> self.east->0 < len
        &&& self.south is Some ==> self.south->0 < len
        &&& self.north is Some ==> self.north->0 < len
    }
}

/// The cell to the west, unless `coord` lies on the western edge.
pub open spec fn west_of(coord: GridCoord) -> Option<GridCoord> {
    if coord.x > 0 {
        Some(GridCoord { x: (coord.x - 1) as usize, ..coord })
    } else {
        None
    }
}

/// The cell to the east, unless it would lie beyond the width.
pub open spec fn east_of(coord: GridCoord, width: usize) -> Option<GridCoord> {
    if coord.x + 1 < width {
        Some(GridCoord { x: (coord.x + 1) as usize, ..coord })
    } else {
        None
    }
}

/// The cell to the south, unless `coord` lies on the southern edge.
pub open spec fn south_of(coord: GridCoord) -> Option<GridCoord> {
    if coord.y > 0 {
        Some(GridCoord { y: (coord.y - 1) as usize, ..coord })
    } else {
        None
    }
}

/// The cell to the north, unless it would lie beyond the height.
pub open spec fn north_of(coord: GridCoord, height: usize) -> Option<GridCoord> {
    if coord.y + 1 < height {
        Some(GridCoord { y: (coord.y + 1) as usize, ..coord })
    } else {
        None
    }
}

/// The cells next to `coord` on its own layer, in the order west, east,
/// south, north.
pub open spec fn spec_cardinal_neighbors(coord: GridCoord, width: usize, height: usize) -> Seq<
    GridCoord,
> {
    let west = match west_of(coord) {
        Some(c) => seq![c],
        None => Seq::<GridCoord>::empty(),
    };
    let east = match east_of(coord, width) {
        Some(c) => seq![c],
        None => Seq::<GridCoord>::empty(),
    };
    let south = match south_of(coord) {
        Some(c) => seq![c],
        None => Seq::<GridCoord>::empty(),
    };
    let north = match north_of(coord, height) {
        Some(c) => seq![c],
        None => Seq::<GridCoord>::empty(),
    };
    west + east + south + north
}

/// Lists the cells next to `coord` on its own layer.
pub fn cardinal_neighbors_for(coord: GridCoord, width: usize, height: usize) -> (cells: Vec<
    GridCoord,
>)
    ensures
        cells@ == spec_cardinal_neighbors(coord, width, height),
{
    let mut cells: Vec<GridCoord> = Vec::new();
    if coord.x > 0 {
        cells.push(GridCoord { x: coord.x - 1, ..coord });
    }
    if width > 0 && coord.x < width - 1 {
        cells.push(GridCoord { x: coord.x + 1, ..coord });
    }
    if coord.y > 0 {
        cells.push(GridCoord { y: coord.y - 1, ..coord });
    }
    if height > 0 && coord.y < height - 1 {
        cells.push(GridCoord { y: coord.y + 1, ..coord });
    }
    assert(cells@ =~= spec_cardinal_neighbors(coord, width, height));
    cells
}

/// The component found at an optional cell.
pub open spec fn occupant(components: Seq<PlacedComponent>, cell: Option<GridCoord>) -> Option<
    usize,
> {
    match cell {
        Some(c) => index_of(components, c),
        None => None,
    }
}

/// The components found on the four cells next to `coord`.
pub open spec fn spec_neighbors_of(
    components: Seq<PlacedComponent>,
    coord: GridCoord,
    width: usize,
    height: usize,
) -> Neighbors {
    Neighbors {
        west: occupant(components, west_of(coord)),
        east: occupant(components, east_of(coord, width)),
        south: occupant(components, south_of(coord)),
        north: occupant(components, north_of(coord, height)),
    }
}

/// For each component of the list, the components next to it.
pub open spec fn adjacency(components: Seq<PlacedComponent>, width: usize, height: usize) -> Seq<
    Neighbors,
> {
    Seq::new(
        components.len(),
        |i: int| spec_neighbors_of(components, components[i].coord, width, height),
    )
}

/// Every entry of the neighbour table points into the component list.
pub open spec fn table_fits(adjacent: Seq<Neighbors>, len: nat) -> bool {
    &&& adjacent.len() == len
    &&& forall|i: int| 0 <= i < adjacent.len() ==> (#[trigger] adjacent[i]).within(len)
}

/// Finds the first component at a coordinate.
pub fn position_of(components: &Vec<PlacedComponent>, coord: GridCoord) -> (found: Option<usize>)
    ensures
        found == index_of(components@, coord),
        found is Some ==> found->0 < components.len(),
{
    let mut i: usize = 0;
    while i < components.len()
        invariant
            i <= components.len(),
            forall|j: int| 0 <= j < i ==> (#[trigger] components@[j]).coord != coord,
        decreases components.len() - i,
    {
        if components[i].coord == coord {
            proof {
                lemma_index_of_first(components@, coord, i as int);
            }
            return Some(i);
        }
        i = i + 1;
    }
    proof {
        lemma_index_of(components@, coord);
    }
    None
}

/// Finds the components on the four cells next to `coord`.
pub fn neighbors_of(
    components: &Vec<PlacedComponent>,
    coord: GridCoord,
    width: usize,
    height: usize,
) -> (found: Neighbors)
    ensures
        found == spec_neighbors_of(components@, coord, width, height),
        found.within(components@.len()),
{
    let west = if coord.x > 0 {
        position_of(components, GridCoord { x: coord.x - 1, ..coord })
    } else {
        None
    };
    let east = if width > 0 && coord.x < width - 1 {
        position_of(components, GridCoord { x: coord.x + 1, ..coord })
    } else {
        None
    };
    let south = if coord.y > 0 {
        position_of(components, GridCoord { y: coord.y - 1, ..coord })
    } else {
        None
    };
    let north = if height > 0 && coord.y < height - 1 {
        position_of(components, GridCoord { y: coord.y + 1, ..coord })
    } else {
        None
    };
    Neighbors { west, east, south, north }
}

/// Finds the neighbours of every component of the list.
pub fn component_index_map(components: &Vec<PlacedComponent>, width: usize, height: usize) -> (map:
    Vec<Neighbors>)
    ensures
        map@ == adjacency(components@, width, height),
        forall|i: int| 0 <= i < map@.len() ==> (#[trigger] map@[i]).within(components@.len()),
{
    let mut map: Vec<Neighbors> = Vec::new();
    let mut i: usize = 0;
    while i < components.len()
        invariant
            i <= components.len(),
            map@.len() == i,
            forall|j: int|
                0 <= j < i ==> #[trigger] map@[j] == spec_neighbors_of(
                    components@,
                    components@[j].coord,
                    width,
                    height,
                ),
            forall|j: int| 0 <= j < i ==> (#[trigger] map@[j]).within(components@.len()),
        decreases components.len() - i,
    {
        map.push(neighbors_of(components, components[i].coord, width, height));
        i = i + 1;
    }
    assert(map@ =~= adjacency(components@, width, height));
    map
}

} // verus!
