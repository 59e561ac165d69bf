use reactor_sim::{
    buy_component, color_from_name, sell_component, spend_money, CatalogEntry, ComponentCatalog, ComponentKind,
    ComponentSpec, FuelKind, GridCoord, SelectionState, Simulation,
};

const UNIT: i64 = 1_000_000;

fn entry(name: &str, field_index: u32, cost: i64) -> CatalogEntry {
    CatalogEntry {
        name: name.to_string(),
        field_index,
        cost,
    }
}

fn sample() -> ComponentCatalog {
    ComponentCatalog::from_definitions(&vec![
        entry("Reflector1", 4, 50 * UNIT),
        entry("Fuel1-1", 0, 24 * UNIT),
        entry("Strange", 1, 7 * UNIT),
        entry("Vent1", 2, 14 * UNIT),
        entry(" Plating2 ", 2, -3 * UNIT),
        entry("Vent2", 1, 40 * UNIT),
        entry("Vent1", 9, 15 * UNIT),
    ])
}

#[test]
fn the_built_in_catalog_offers_fuel_vent_and_coolant() {
    let catalog = ComponentCatalog::default();
    assert_eq!(catalog.len(), 3);
    assert_eq!(
        catalog.all_specs(),
        &vec![
            ComponentSpec {
                index: 0,
                name: "Fuel1-1".to_string(),
                kind: ComponentKind::Fuel(FuelKind::Uranium),
                cost: 24 * UNIT,
            },
            ComponentSpec {
                index: 1,
                name: "Vent1".to_string(),
                kind: ComponentKind::Vent { tier: 1 },
                cost: 14 * UNIT,
            },
            ComponentSpec {
                index: 2,
                name: "Coolant1".to_string(),
                kind: ComponentKind::Coolant { tier: 1 },
                cost: 18 * UNIT,
            },
        ]
    );
    let empty = ComponentCatalog::from_definitions(&Vec::new());
    assert_eq!(empty.all_specs(), catalog.all_specs());
    let unknown = ComponentCatalog::from_definitions(&vec![entry("Strange", 0, UNIT)]);
    assert_eq!(unknown.all_specs(), catalog.all_specs());
}

#[test]
fn definitions_are_listed_by_position() {
    let catalog = sample();
    let listed: Vec<(usize, &str, ComponentKind, i64)> = catalog
        .all_specs()
        .iter()
        .map(|spec| (spec.index, spec.name.as_str(), spec.kind, spec.cost))
        .collect();
    assert_eq!(
        listed,
        vec![
            (0, "Fuel1-1", ComponentKind::Fuel(FuelKind::Uranium), 24 * UNIT),
            (1, "Vent2", ComponentKind::Vent { tier: 2 }, 40 * UNIT),
            (2, "Vent1", ComponentKind::Vent { tier: 1 }, 14 * UNIT),
            (2, " Plating2 ", ComponentKind::Plating { tier: 2 }, 0),
            (4, "Reflector1", ComponentKind::Reflector { tier: 1 }, 50 * UNIT),
            (9, "Vent1", ComponentKind::Vent { tier: 1 }, 15 * UNIT),
        ]
    );
    assert_eq!(catalog.len(), 6);
}

#[test]
fn the_selection_stays_within_the_catalog() {
    let catalog = sample();
    let mut selection = SelectionState::default();
    assert_eq!(selection.index, 0);
    assert_eq!(catalog.selected(&selection).unwrap().name, "Fuel1-1");

    catalog.set_selection_index(&mut selection, 4);
    assert_eq!(selection.index, 4);
    assert_eq!(catalog.selected(&selection).unwrap().name, "Reflector1");
    catalog.set_selection_index(&mut selection, 6);
    assert_eq!(selection.index, 5);
    catalog.set_selection_index(&mut selection, usize::MAX);
    assert_eq!(selection.index, 5);

    selection.index = 6;
    assert!(catalog.selected(&selection).is_none());
}

#[test]
fn stepping_goes_round_the_catalog() {
    let catalog = sample();
    let mut selection = SelectionState { index: 5 };
    catalog.step_selection(&mut selection, 1);
    assert_eq!(selection.index, 0);
    catalog.step_selection(&mut selection, -1);
    assert_eq!(selection.index, 5);
    catalog.step_selection(&mut selection, -13);
    assert_eq!(selection.index, 4);
    catalog.step_selection(&mut selection, 0);
    assert_eq!(selection.index, 4);
    catalog.step_selection(&mut selection, 20);
    assert_eq!(selection.index, 0);
    catalog.step_selection(&mut selection, isize::MIN);
    assert_eq!(selection.index, (isize::MIN).rem_euclid(6) as usize);
    selection.index = 3;
    catalog.step_selection(&mut selection, isize::MAX);
    assert_eq!(selection.index, ((3i128 + isize::MAX as i128) % 6) as usize);
    selection.index = usize::MAX;
    catalog.step_selection(&mut selection, -1);
    assert_eq!(selection.index, ((usize::MAX as u128 - 1) % 6) as usize);
}

#[test]
fn offers_are_found_by_kind_and_refund_a_share_of_their_cost() {
    let catalog = sample();
    let vent = catalog.spec_for_kind(ComponentKind::Vent { tier: 1 }).unwrap();
    assert_eq!((vent.index, vent.cost), (2, 14 * UNIT));
    assert!(catalog.spec_for_kind(ComponentKind::Clock).is_none());

    let fuel = ComponentKind::Fuel(FuelKind::Uranium);
    assert_eq!(catalog.sell_value(fuel, 500_000), 12 * UNIT);
    assert_eq!(catalog.sell_value(fuel, 333_333), 7_999_992);
    assert_eq!(catalog.sell_value(fuel, 0), 0);
    assert_eq!(catalog.sell_value(fuel, -UNIT), 0);
    assert_eq!(catalog.sell_value(fuel, UNIT), 24 * UNIT);
    assert_eq!(catalog.sell_value(fuel, 7 * UNIT), 24 * UNIT);
    assert_eq!(catalog.sell_value(ComponentKind::Clock, 500_000), 0);
    assert_eq!(catalog.sell_value(ComponentKind::Plating { tier: 2 }, UNIT), 0);
}

#[test]
fn a_purchase_needs_an_empty_valid_cell_and_enough_money() {
    let mut sim = Simulation::new(3, 3, 1);
    let at = GridCoord::new(1, 1, 0);
    let fuel = ComponentKind::Fuel(FuelKind::Uranium);
    sim.resources.money = 30 * UNIT;

    let before = sim.clone();
    assert!(!buy_component(&mut sim, at, fuel, 30 * UNIT + 1));
    assert!(!buy_component(&mut sim, GridCoord::new(3, 0, 0), fuel, UNIT));
    assert_eq!(sim, before);

    assert!(buy_component(&mut sim, at, fuel, 24 * UNIT));
    assert_eq!(sim.resources.money, 6 * UNIT);
    assert_eq!(sim.resources.tick_deltas.money, -24 * UNIT);
    assert_eq!(sim.resources.total_money, 0);
    assert_eq!(sim.component_at(at).unwrap().kind, fuel);
    assert_eq!(sim.grid.get(at), Some(fuel));

    let bought = sim.clone();
    assert!(!buy_component(&mut sim, at, ComponentKind::Clock, UNIT));
    assert_eq!(sim, bought);

    assert!(buy_component(&mut sim, GridCoord::new(0, 0, 0), ComponentKind::Clock, 6 * UNIT));
    assert_eq!(sim.resources.money, 0);
    assert!(buy_component(&mut sim, GridCoord::new(2, 0, 0), ComponentKind::Clock, 0));
    assert!(buy_component(&mut sim, GridCoord::new(2, 2, 0), ComponentKind::Clock, -UNIT));
    assert_eq!(sim.resources.money, 0);
    assert_eq!(sim.components.len(), 4);
}

#[test]
fn a_sale_needs_a_component_and_refunds() {
    let mut sim = Simulation::new(3, 3, 1);
    let at = GridCoord::new(1, 1, 0);
    sim.place_component(at, ComponentKind::Capacitor { tier: 1 })
        .unwrap();
    let before = sim.clone();
    assert!(!sell_component(&mut sim, GridCoord::new(0, 0, 0), UNIT));
    assert!(!sell_component(&mut sim, GridCoord::new(9, 9, 9), UNIT));
    assert_eq!(sim, before);

    assert!(sell_component(&mut sim, at, 12 * UNIT));
    assert!(sim.component_at(at).is_none());
    assert!(sim.grid.get(at).is_none());
    assert_eq!(sim.resources.money, 12 * UNIT);
    assert_eq!(sim.resources.total_money, 12 * UNIT);
    assert_eq!(sim.resources.tick_deltas.money, 12 * UNIT);
    assert_eq!(sim.max_power_capacity, 100 * UNIT);
    assert!(!sell_component(&mut sim, at, 12 * UNIT));
}

#[test]
fn spending_stops_at_an_empty_purse() {
    let mut sim = Simulation::new(1, 1, 1);
    sim.resources.money = 5 * UNIT;
    spend_money(&mut sim, 0);
    spend_money(&mut sim, -UNIT);
    assert_eq!(sim.resources.money, 5 * UNIT);
    assert_eq!(sim.resources.tick_deltas.money, 0);
    spend_money(&mut sim, 2 * UNIT);
    assert_eq!(sim.resources.money, 3 * UNIT);
    spend_money(&mut sim, 4 * UNIT);
    assert_eq!(sim.resources.money, 0);
    assert_eq!(sim.resources.tick_deltas.money, -6 * UNIT);
}

#[test]
fn sprite_names_hash_to_colour_channels() {
    assert_eq!(color_from_name(""), (0xc5, 0x9d, 0x1c));
    assert_eq!(color_from_name("a"), (0x2c, 0x29, 0x0c));
    for name in ["Fuel1-1", "vent_tier_2", "Plating", "\u{e9}t\u{e9}", "x".repeat(300).as_str()] {
        let mut hash = 2166136261u32;
        for byte in name.as_bytes() {
            hash ^= u32::from(*byte);
            hash = hash.wrapping_mul(16777619);
        }
        assert_eq!(
            color_from_name(name),
            (hash as u8, (hash >> 8) as u8, (hash >> 16) as u8),
            "{name:?}"
        );
    }
}
