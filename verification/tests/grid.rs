use reactor_sim::{ComponentKind, FuelKind, GridCell, GridCoord, GridError, ReactorGrid};

fn cell(kind: ComponentKind, id: u64, tick: u64) -> GridCell {
    GridCell {
        kind,
        component_id: id,
        placed_tick: tick,
    }
}

#[test]
fn dimensions_below_one_are_raised_to_one() {
    let grid = ReactorGrid::new(0, 0, 0);
    assert_eq!((grid.width(), grid.height(), grid.layers()), (1, 1, 1));
    assert!(grid.in_bounds(GridCoord::new(0, 0, 0)));
    assert!(!grid.in_bounds(GridCoord::new(1, 0, 0)));
    assert!(!grid.in_bounds(GridCoord::new(0, 1, 0)));
    assert!(!grid.in_bounds(GridCoord::new(0, 0, 1)));
}

#[test]
fn bounds_are_strict_on_every_axis() {
    let grid = ReactorGrid::new(4, 3, 2);
    assert!(grid.in_bounds(GridCoord::new(3, 2, 1)));
    assert!(!grid.in_bounds(GridCoord::new(4, 2, 1)));
    assert!(!grid.in_bounds(GridCoord::new(3, 3, 1)));
    assert!(!grid.in_bounds(GridCoord::new(3, 2, 2)));
    assert!(!grid.in_bounds(GridCoord::new(usize::MAX, 0, 0)));
}

#[test]
fn a_new_grid_is_empty() {
    let grid = ReactorGrid::new(3, 3, 2);
    for z in 0..2 {
        for y in 0..3 {
            for x in 0..3 {
                assert_eq!(grid.get_cell(GridCoord::new(x, y, z)), None);
            }
        }
    }
}

#[test]
fn place_overwrites_and_clear_empties() {
    let mut grid = ReactorGrid::new(3, 3, 1);
    let at = GridCoord::new(1, 2, 0);
    let first = cell(ComponentKind::Clock, 7, 3);
    let second = cell(ComponentKind::Vent { tier: 4 }, 8, 5);

    assert_eq!(grid.place(at, first), Ok(()));
    assert_eq!(grid.get_cell(at), Some(first));
    assert_eq!(grid.get(at), Some(ComponentKind::Clock));

    assert_eq!(grid.place(at, second), Ok(()));
    assert_eq!(grid.get_cell(at), Some(second));

    assert_eq!(grid.clear(at), Ok(()));
    assert_eq!(grid.get_cell(at), None);
    assert_eq!(grid.get(at), None);
    assert_eq!(grid.clear(at), Ok(()));
    assert_eq!(grid.get_cell(at), None);
}

#[test]
fn cells_do_not_alias() {
    let mut grid = ReactorGrid::new(3, 4, 2);
    let mut id = 0;
    for z in 0..2 {
        for y in 0..4 {
            for x in 0..3 {
                id += 1;
                grid.place(GridCoord::new(x, y, z), cell(ComponentKind::Clock, id, 0))
                    .unwrap();
            }
        }
    }
    let mut expected = 0;
    for z in 0..2 {
        for y in 0..4 {
            for x in 0..3 {
                expected += 1;
                let found = grid.get_cell(GridCoord::new(x, y, z)).unwrap();
                assert_eq!(found.component_id, expected);
            }
        }
    }
    grid.clear(GridCoord::new(1, 2, 0)).unwrap();
    assert!(grid.get_cell(GridCoord::new(2, 1, 0)).is_some());
    assert!(grid.get_cell(GridCoord::new(1, 2, 1)).is_some());
    assert!(grid.get_cell(GridCoord::new(1, 2, 0)).is_none());
}

#[test]
fn out_of_range_coordinates_are_refused_and_read_as_empty() {
    let mut grid = ReactorGrid::new(2, 2, 1);
    let outside = GridCoord::new(2, 0, 0);
    let inside = GridCoord::new(1, 1, 0);
    grid.place(inside, cell(ComponentKind::GenericHeat, 1, 0))
        .unwrap();

    assert_eq!(
        grid.place(outside, cell(ComponentKind::Clock, 2, 0)),
        Err(GridError::OutOfBounds(outside))
    );
    assert_eq!(grid.clear(outside), Err(GridError::OutOfBounds(outside)));
    assert_eq!(
        grid.set(outside, Some(ComponentKind::Clock)),
        Err(GridError::OutOfBounds(outside))
    );
    assert_eq!(grid.set(outside, None), Err(GridError::OutOfBounds(outside)));
    assert_eq!(grid.get(outside), None);
    assert_eq!(grid.get_cell(outside), None);
    assert_eq!(grid.get(inside), Some(ComponentKind::GenericHeat));
}

#[test]
fn set_places_a_bare_kind_or_clears() {
    let mut grid = ReactorGrid::new(2, 2, 1);
    let at = GridCoord::new(0, 1, 0);
    assert_eq!(grid.set(at, Some(ComponentKind::Fuel(FuelKind::Kymium))), Ok(()));
    assert_eq!(
        grid.get_cell(at),
        Some(cell(ComponentKind::Fuel(FuelKind::Kymium), 0, 0))
    );
    assert_eq!(grid.set(at, None), Ok(()));
    assert_eq!(grid.get_cell(at), None);
}

#[test]
fn clear_all_empties_every_cell() {
    let mut grid = ReactorGrid::new(2, 2, 2);
    grid.place(GridCoord::new(0, 0, 0), cell(ComponentKind::Clock, 1, 0))
        .unwrap();
    grid.place(GridCoord::new(1, 1, 1), cell(ComponentKind::Clock, 2, 0))
        .unwrap();
    grid.clear_all();
    assert_eq!(grid.get_cell(GridCoord::new(0, 0, 0)), None);
    assert_eq!(grid.get_cell(GridCoord::new(1, 1, 1)), None);
    assert_eq!((grid.width(), grid.height(), grid.layers()), (2, 2, 2));
}

#[test]
fn a_cloned_grid_is_equal_and_independent() {
    let mut grid = ReactorGrid::new(2, 2, 1);
    grid.place(GridCoord::new(1, 0, 0), cell(ComponentKind::Clock, 1, 0))
        .unwrap();
    let copy = grid.clone();
    assert_eq!(copy, grid);
    grid.clear(GridCoord::new(1, 0, 0)).unwrap();
    assert_ne!(copy, grid);
    assert!(copy.get(GridCoord::new(1, 0, 0)).is_some());
}

#[test]
fn coordinates_order_by_layer_then_row_then_column() {
    let a = GridCoord::new(5, 0, 0);
    let b = GridCoord::new(0, 1, 0);
    let c = GridCoord::new(0, 0, 1);
    assert!(a.precedes(b));
    assert!(b.precedes(c));
    assert!(a.precedes(c));
    assert!(!b.precedes(a));
    assert!(!a.precedes(a));
    assert!(GridCoord::new(1, 2, 3).precedes(GridCoord::new(2, 2, 3)));

    let mut coords = vec![c, b, a, GridCoord::new(1, 1, 0)];
    coords.sort();
    assert_eq!(coords, vec![a, b, GridCoord::new(1, 1, 0), c]);
    for pair in coords.windows(2) {
        assert!(pair[0].precedes(pair[1]));
        assert!(pair[0] < pair[1]);
    }
}

#[test]
fn new_sets_the_named_components() {
    let at = GridCoord::new(1, 2, 3);
    assert_eq!((at.x, at.y, at.z), (1, 2, 3));
    assert_eq!(at, GridCoord { x: 1, y: 2, z: 3 });
}

#[test]
fn the_cell_count_must_fit_the_address_space() {
    assert!(ReactorGrid::cell_count_fits(19, 16, 1));
    assert!(ReactorGrid::cell_count_fits(0, 0, 0));
    assert!(ReactorGrid::cell_count_fits(usize::MAX, 1, 0));
    assert!(!ReactorGrid::cell_count_fits(usize::MAX, 2, 1));
    assert!(!ReactorGrid::cell_count_fits(usize::MAX / 2 + 1, 1, 2));
    assert!(!ReactorGrid::cell_count_fits(1 << (usize::BITS / 2), 1 << (usize::BITS / 2), 1));
    assert!(ReactorGrid::cell_count_fits(1 << (usize::BITS / 2), (1 << (usize::BITS / 2)) - 1, 1));
}
