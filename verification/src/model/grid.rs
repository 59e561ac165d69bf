//! The occupancy grid: a dense, fixed-size spatial index of placed cells.

use vstd::prelude::*;
use crate::model::component::ComponentKind;

verus! {

/// A cell position. Coordinates order by layer, then row, then column.
#[derive(Debug, Clone, Copy, PartialEq, Eq, Hash, PartialOrd, Ord, Structural)]
pub struct GridCoord {
    pub z: usize,
    pub y: usize,
    pub x: usize,
}

impl GridCoord {
    pub fn new(x: usize, y: usize, z: usize) -> (c: Self)
        ensures
            c == (GridCoord { z, y, x }),
    {
        GridCoord { z, y, x }
    }

    /// Strict order by layer, then row, then column.
    pub open spec fn spec_precedes(self, other: GridCoord) -> bool {
        self.z < other.z || (self.z == other.z && (self.y < other.y || (self.y == other.y && self.x
            < other.x)))
    }

    /// Whether `self` comes strictly before `other` in (z, y, x) order.
    pub fn precedes(self, other: GridCoord) -> (b: bool)
        ensures
            b == self.spec_precedes(other),
    {
        self.z < other.z || (self.z == other.z && (self.y < other.y || (self.y == other.y && self.x
            < other.x)))
    }
}

/// What the grid records about an occupied cell.
#[derive(Debug, Clone, Copy, PartialEq, Eq, Structural)]
pub struct GridCell {
    pub kind: ComponentKind,
    pub component_id: u64,
    pub placed_tick: u64,
}

#[derive(Debug, Clone, Copy, PartialEq, Eq, Structural)]
pub enum GridError {
    /// The coordinate lies outside the grid.
    OutOfBounds(GridCoord),
}

/// Mathematical content of a grid: its dimensions and the occupied cells.
pub struct GridView {
    pub width: usize,
    pub height: usize,
    pub layers: usize,
    pub cells: Map<GridCoord, GridCell>,
}

impl GridView {
    /// A coordinate is valid iff each component is below its dimension.
    pub open spec fn contains(self, coord: GridCoord) -> bool {
        coord.x < self.width && coord.y < self.height && coord.z < self.layers
    }

    /// The occupant of a cell; `None` for an empty or invalid coordinate.
    pub open spec fn cell_at(self, coord: GridCoord) -> Option<GridCell> {
        if self.cells.dom().contains(coord) {
            Some(self.cells[coord])
        } else {
            None
        }
    }

    /// The same grid with one cell occupied.
    pub open spec fn with_cell(self, coord: GridCoord, cell: GridCell) -> GridView {
        GridView { cells: self.cells.insert(coord, cell), ..self }
    }

    /// The same grid with one cell emptied.
    pub open spec fn without_cell(self, coord: GridCoord) -> GridView {
        GridView { cells: self.cells.remove(coord), ..self }
    }

    /// Every dimension is at least one and only valid coordinates are
    /// occupied.
    pub open spec fn wf(self) -> bool {
        &&& self.width >= 1
        &&& self.height >= 1
        &&& self.layers >= 1
        &&& forall|c: GridCoord| #[trigger] self.cells.dom().contains(c) ==> self.contains(c)
    }
}

/// A fixed-size three-dimensional array of optional cells.
#[derive(Debug, PartialEq, Eq)]
pub struct ReactorGrid {
    width: usize,
    height: usize,
    layers: usize,
    cells: Vec<Option<GridCell>>,
}

/// Position of a coordinate in the dense cell array.
pub open spec fn linear_index(width: int, height: int, coord: GridCoord) -> int {
    (coord.z * height + coord.y) * width + coord.x
}

/// Valid coordinates map to distinct positions below the cell count.
pub proof fn lemma_linear_index(width: int, height: int, layers: int, a: GridCoord, b: GridCoord)
    requires
        a.x < width,
        a.y < height,
        a.z < layers,
        b.x < width,
        b.y < height,
        b.z < layers,
    ensures
        0 <= linear_index(width, height, a) < width * height * layers,
        linear_index(width, height, a) == linear_index(width, height, b) ==> a == b,
{
    let ra = a.z * height + a.y;
    let rb = b.z * height + b.y;
    assert(0 <= ra < layers * height) by (nonlinear_arith)
        requires
            ra == a.z * height + a.y,
            0 <= a.y < height,
            0 <= a.z < layers,
    ;
    assert(0 <= ra * width + a.x < width * height * layers) by (nonlinear_arith)
        requires
            0 <= ra < layers * height,
            0 <= a.x < width,
    ;
    if linear_index(width, height, a) == linear_index(width, height, b) {
        assert(ra == rb && a.x == b.x) by (nonlinear_arith)
            requires
                ra * width + a.x == rb * width + b.x,
                0 <= a.x < width,
                0 <= b.x < width,
        ;
        assert(a.z == b.z && a.y == b.y) by (nonlinear_arith)
            requires
                a.z * height + a.y == b.z * height + b.y,
                0 <= a.y < height,
                0 <= b.y < height,
        ;
    }
}

impl View for ReactorGrid {
    type V = GridView;

    closed spec fn view(&self) -> GridView {
        GridView {
            width: self.width,
            height: self.height,
            layers: self.layers,
            cells: Map::new(
                |c: GridCoord|
                    c.x < self.width && c.y < self.height && c.z < self.layers && self.slot(
                        c,
                    ) is Some,
                |c: GridCoord| self.slot(c)->0,
            ),
        }
    }
}

impl Clone for ReactorGrid {
    fn clone(&self) -> (copy: Self)
        ensures
            copy@ == self@,
    {
        proof {
            use_type_invariant(self);
        }
        let count: usize = self.cells.len();
        let mut cells: Vec<Option<GridCell>> = Vec::new();
        let mut done: usize = 0;
        while done < count
            invariant
                done <= count,
                count == self.cells.len(),
                cells@ == self.cells@.subrange(0, done as int),
            decreases count - done,
        {
            cells.push(self.cells[done]);
            done = done + 1;
            assert(cells@ =~= self.cells@.subrange(0, done as int));
        }
        assert(cells@ =~= self.cells@);
        let copy = ReactorGrid { width: self.width, height: self.height, layers: self.layers, cells };
        assert(copy@.cells =~= self@.cells);
        copy
    }
}

impl ReactorGrid {
    #[verifier::type_invariant]
    spec fn inv(self) -> bool {
        &&& self.width >= 1
        &&& self.height >= 1
        &&& self.layers >= 1
        &&& self.cells.len() == self.width * self.height * self.layers
    }

    spec fn slot(self, coord: GridCoord) -> Option<GridCell> {
        self.cells@[linear_index(self.width as int, self.height as int, coord)]
    }

    /// The cell count that a grid of these dimensions needs, each dimension
    /// raised to at least one.
    pub open spec fn spec_cell_count(width: usize, height: usize, layers: usize) -> int {
        (if width >= 1 { width as int } else { 1 }) * (if height >= 1 { height as int } else { 1 })
            * (if layers >= 1 { layers as int } else { 1 })
    }

    /// Whether a grid of these dimensions can be made: whether its cell
    /// count fits in a `usize`.
    pub fn cell_count_fits(width: usize, height: usize, layers: usize) -> (fits: bool)
        ensures
            fits == (Self::spec_cell_count(width, height, layers) <= usize::MAX),
    {
        let width: usize = if width >= 1 { width } else { 1 };
        let height: usize = if height >= 1 { height } else { 1 };
        let layers: usize = if layers >= 1 { layers } else { 1 };
        assert(width * height <= width * height * layers) by (nonlinear_arith)
            requires
                width >= 1,
                height >= 1,
                layers >= 1,
        ;
        match width.checked_mul(height) {
            Some(row_cells) => row_cells.checked_mul(layers).is_some(),
            None => false,
        }
    }

    /// An empty grid. Dimensions below one are raised to one.
    pub fn new(width: usize, height: usize, layers: usize) -> (grid: Self)
        requires
            Self::spec_cell_count(width, height, layers) <= usize::MAX,
        ensures
            grid@.width == (if width >= 1 { width } else { 1 }),
            grid@.height == (if height >= 1 { height } else { 1 }),
            grid@.layers == (if layers >= 1 { layers } else { 1 }),
            grid@.cells == Map::<GridCoord, GridCell>::empty(),
            grid@.wf(),
    {
        let width: usize = if width >= 1 { width } else { 1 };
        let height: usize = if height >= 1 { height } else { 1 };
        let layers: usize = if layers >= 1 { layers } else { 1 };
        assert(width * height <= width * height * layers) by (nonlinear_arith)
            requires
                width >= 1,
                height >= 1,
                layers >= 1,
        ;
        let count: usize = width * height * layers;
        let mut cells: Vec<Option<GridCell>> = Vec::new();
        let mut filled: usize = 0;
        while filled < count
            invariant
                filled <= count,
                cells.len() == filled,
                forall|i: int| 0 <= i < filled ==> cells@[i] is None,
            decreases count - filled,
        {
            cells.push(None);
            filled = filled + 1;
        }
        let grid = ReactorGrid { width, height, layers, cells };
        proof {
            assert forall|c: GridCoord| !(#[trigger] grid@.cells.dom().contains(c)) by {
                if c.x < width && c.y < height && c.z < layers {
                    lemma_linear_index(width as int, height as int, layers as int, c, c);
                }
            }
            assert(grid@.cells =~= Map::<GridCoord, GridCell>::empty());
        }
        grid
    }

    pub fn width(&self) -> (w: usize)
        ensures
            w == self@.width,
            w >= 1,
    {
        proof {
            use_type_invariant(self);
        }
        self.width
    }

    pub fn height(&self) -> (h: usize)
        ensures
            h == self@.height,
            h >= 1,
    {
        proof {
            use_type_invariant(self);
        }
        self.height
    }

    pub fn layers(&self) -> (l: usize)
        ensures
            l == self@.layers,
            l >= 1,
    {
        proof {
            use_type_invariant(self);
        }
        self.layers
    }

    /// Whether the coordinate is valid: strictly below each dimension.
    pub fn in_bounds(&self, coord: GridCoord) -> (b: bool)
        ensures
            b == self@.contains(coord),
            self@.wf(),
    {
        proof {
            use_type_invariant(self);
        }
        coord.x < self.width && coord.y < self.height && coord.z < self.layers
    }

    /// The kind at a coordinate; `None` for an empty or invalid one.
    pub fn get(&self, coord: GridCoord) -> (kind: Option<ComponentKind>)
        ensures
            kind == (match self@.cell_at(coord) {
                Some(cell) => Some(cell.kind),
                None => None,
            }),
            self@.wf(),
    {
        match self.get_cell(coord) {
            Some(cell) => Some(cell.kind),
            None => None,
        }
    }

    /// The cell at a coordinate; `None` for an empty or invalid one.
    pub fn get_cell(&self, coord: GridCoord) -> (cell: Option<GridCell>)
        ensures
            cell == self@.cell_at(coord),
            self@.wf(),
    {
        match self.index(coord) {
            Some(index) => self.cells[index],
            None => None,
        }
    }

    /// Occupies the cell with a bare kind, or empties it.
    pub fn set(&mut self, coord: GridCoord, kind: Option<ComponentKind>) -> (r: Result<
        (),
        GridError,
    >)
        ensures
            old(self)@.contains(coord) ==> r == Ok::<(), GridError>(()),
            !old(self)@.contains(coord) ==> r == Err::<(), GridError>(GridError::OutOfBounds(coord))
                && final(self)@ == old(self)@,
            old(self)@.contains(coord) ==> final(self)@ == (match kind {
                Some(k) => old(self)@.with_cell(
                    coord,
                    GridCell { kind: k, component_id: 0, placed_tick: 0 },
                ),
                None => old(self)@.without_cell(coord),
            }),
            final(self)@.wf(),
    {
        match kind {
            Some(k) => self.place(coord, GridCell { kind: k, component_id: 0, placed_tick: 0 }),
            None => self.clear(coord),
        }
    }

    /// Occupies the cell, overwriting any occupant.
    pub fn place(&mut self, coord: GridCoord, cell: GridCell) -> (r: Result<(), GridError>)
        ensures
            old(self)@.contains(coord) ==> r == Ok::<(), GridError>(()) && final(self)@ == old(
                self,
            )@.with_cell(coord, cell),
            !old(self)@.contains(coord) ==> r == Err::<(), GridError>(GridError::OutOfBounds(coord))
                && final(self)@ == old(self)@,
            final(self)@.wf(),
    {
        proof {
            use_type_invariant(&*self);
        }
        match self.index(coord) {
            Some(index) => {
                self.cells[index] = Some(cell);
                proof {
                    self.lemma_slot_update(*old(self), coord, Some(cell));
                    assert(self@.cells =~= old(self)@.cells.insert(coord, cell));
                }
                Ok(())
            },
            None => Err(GridError::OutOfBounds(coord)),
        }
    }

    /// Empties the cell; an already empty one stays empty.
    pub fn clear(&mut self, coord: GridCoord) -> (r: Result<(), GridError>)
        ensures
            old(self)@.contains(coord) ==> r == Ok::<(), GridError>(()) && final(self)@ == old(
                self,
            )@.without_cell(coord),
            !old(self)@.contains(coord) ==> r == Err::<(), GridError>(GridError::OutOfBounds(coord))
                && final(self)@ == old(self)@,
            final(self)@.wf(),
    {
        proof {
            use_type_invariant(&*self);
        }
        match self.index(coord) {
            Some(index) => {
                self.cells[index] = None;
                proof {
                    self.lemma_slot_update(*old(self), coord, None);
                    assert(self@.cells =~= old(self)@.cells.remove(coord));
                }
                Ok(())
            },
            None => Err(GridError::OutOfBounds(coord)),
        }
    }

    /// Empties every cell.
    pub fn clear_all(&mut self)
        ensures
            final(self)@.width == old(self)@.width,
            final(self)@.height == old(self)@.height,
            final(self)@.layers == old(self)@.layers,
            final(self)@.cells == Map::<GridCoord, GridCell>::empty(),
            final(self)@.wf(),
    {
        proof {
            use_type_invariant(&*self);
        }
        let count: usize = self.cells.len();
        let mut done: usize = 0;
        while done < count
            invariant
                done <= count,
                count == self.cells.len(),
                self.width == old(self).width,
                self.height == old(self).height,
                self.layers == old(self).layers,
                self.inv(),
                forall|i: int| 0 <= i < done ==> self.cells@[i] is None,
            decreases count - done,
        {
            self.cells[done] = None;
            done = done + 1;
        }
        proof {
            assert forall|c: GridCoord| !(#[trigger] self@.cells.dom().contains(c)) by {
                if c.x < self.width && c.y < self.height && c.z < self.layers {
                    lemma_linear_index(
                        self.width as int,
                        self.height as int,
                        self.layers as int,
                        c,
                        c,
                    );
                }
            }
            assert(self@.cells =~= Map::<GridCoord, GridCell>::empty());
        }
    }

    proof fn lemma_slot_update(self, before: ReactorGrid, coord: GridCoord, value: Option<GridCell>)
        requires
            before.inv(),
            before.width == self.width,
            before.height == self.height,
            before.layers == self.layers,
            coord.x < self.width,
            coord.y < self.height,
            coord.z < self.layers,
            self.cells@ == before.cells@.update(
                linear_index(self.width as int, self.height as int, coord),
                value,
            ),
        ensures
            self.slot(coord) == value,
            forall|c: GridCoord|
                c.x < self.width && c.y < self.height && c.z < self.layers && c != coord
                    ==> #[trigger] self.slot(c) == before.slot(c),
    {
        lemma_linear_index(
            self.width as int,
            self.height as int,
            self.layers as int,
            coord,
            coord,
        );
        assert forall|c: GridCoord|
            c.x < self.width && c.y < self.height && c.z < self.layers && c != coord implies #[trigger] self.slot(
            c,
        ) == before.slot(c) by {
            lemma_linear_index(
                self.width as int,
                self.height as int,
                self.layers as int,
                c,
                coord,
            );
        }
    }

    fn index(&self, coord: GridCoord) -> (i: Option<usize>)
        ensures
            self@.contains(coord) ==> i is Some && i->0 == linear_index(
                self.width as int,
                self.height as int,
                coord,
            ) && i->0 < self.cells.len(),
            !self@.contains(coord) ==> i is None,
            self.inv(),
            self@.wf(),
    {
        proof {
            use_type_invariant(self);
        }
        if !self.in_bounds(coord) {
            return None;
        }
        proof {
            lemma_linear_index(
                self.width as int,
                self.height as int,
                self.layers as int,
                coord,
                coord,
            );
            assert(coord.z * self.height + coord.y < self.layers * self.height) by (nonlinear_arith)
                requires
                    coord.y < self.height,
                    coord.z < self.layers,
            ;
            assert(self.layers * self.height <= self.width * self.height * self.layers)
                by (nonlinear_arith)
                requires
                    self.width >= 1,
                    self.height >= 1,
                    self.layers >= 1,
            ;
            assert(coord.z * self.height <= coord.z * self.height + coord.y);
        }
        Some((coord.z * self.height + coord.y) * self.width + coord.x)
    }
}

} // verus!
