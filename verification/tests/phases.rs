use reactor_sim::engine::buffer::{add_heat_to_component, can_absorb, count_absorbers};
use reactor_sim::engine::coolant::apply_coolant_effects;
use reactor_sim::engine::durability::drain_durability;
use reactor_sim::engine::generation::generate_power_and_heat;
use reactor_sim::engine::hull::exchange_with_hull;
use reactor_sim::engine::layout::component_index_map;
use reactor_sim::engine::pulses::distribute_pulses;
use reactor_sim::units::{max_of, min_of, narrow, sat_add, sat_sub, UNIT};
use reactor_sim::{ComponentKind, FuelKind, GridCoord, PlacedComponent, ResourceStore};

fn at(x: usize, y: usize) -> GridCoord {
    GridCoord::new(x, y, 0)
}

fn part(kind: ComponentKind, x: usize, y: usize) -> PlacedComponent {
    PlacedComponent::new(kind, at(x, y))
}

#[test]
fn quantities_stop_at_the_ends_of_their_range() {
    assert_eq!(UNIT, 1_000_000);
    assert_eq!(sat_add(2, 3), 5);
    assert_eq!(sat_add(i64::MAX, 1), i64::MAX);
    assert_eq!(sat_add(i64::MIN, -1), i64::MIN);
    assert_eq!(sat_add(i64::MAX, i64::MIN), -1);
    assert_eq!(sat_sub(2, 3), -1);
    assert_eq!(sat_sub(i64::MIN, 1), i64::MIN);
    assert_eq!(sat_sub(0, i64::MIN), i64::MAX);
    assert_eq!(narrow(i128::MAX), i64::MAX);
    assert_eq!(narrow(i128::MIN), i64::MIN);
    assert_eq!(narrow(-7), -7);
    assert_eq!(max_of(-1, 4), 4);
    assert_eq!(min_of(-1, 4), -1);
}

#[test]
fn a_buffer_fills_up_to_its_capacity() {
    let mut vent = part(ComponentKind::Vent { tier: 1 }, 0, 0);
    assert_eq!(add_heat_to_component(&mut vent, 0), 0);
    assert_eq!(add_heat_to_component(&mut vent, -5), 0);
    assert_eq!(vent.heat, 0);
    assert_eq!(add_heat_to_component(&mut vent, 12 * UNIT), 0);
    assert_eq!(vent.heat, 12 * UNIT);
    assert_eq!(add_heat_to_component(&mut vent, 8 * UNIT), 0);
    assert_eq!(vent.heat, 20 * UNIT);
    assert_eq!(add_heat_to_component(&mut vent, 3 * UNIT), 3 * UNIT);
    assert_eq!(vent.heat, 20 * UNIT);
    assert_eq!(add_heat_to_component(&mut vent, i64::MAX), i64::MAX - 20 * UNIT);

    let mut clock = part(ComponentKind::Clock, 0, 0);
    assert_eq!(add_heat_to_component(&mut clock, 3 * UNIT), 3 * UNIT);
    assert_eq!(clock.heat, 0);
}

#[test]
fn pulse_counts_are_recomputed_from_scratch() {
    let mut components = vec![
        part(ComponentKind::Fuel(FuelKind::Uranium), 1, 1),
        part(ComponentKind::Vent { tier: 1 }, 0, 1),
        part(ComponentKind::Fuel(FuelKind::Plutonium), 1, 0),
        part(ComponentKind::Clock, 2, 2),
    ];
    for component in components.iter_mut() {
        component.pulse_count = 77;
    }
    components[2].depleted = true;
    let table = component_index_map(&components, 3, 3);

    distribute_pulses(&mut components, &table);

    let counts: Vec<u32> = components.iter().map(|c| c.pulse_count).collect();
    assert_eq!(counts, vec![1, 1, 1, 0]);
    assert!(components[2].depleted);
    assert_eq!(components[0].durability, 120 * UNIT);
}

#[test]
fn durability_is_taken_on_the_state_before_the_phase() {
    let mut components = vec![
        part(ComponentKind::Fuel(FuelKind::Uranium), 0, 0),
        part(ComponentKind::Reflector { tier: 1 }, 1, 0),
        part(ComponentKind::Fuel(FuelKind::Uranium), 2, 0),
        part(ComponentKind::Vent { tier: 1 }, 1, 1),
    ];
    components[0].durability = UNIT;
    components[0].pulse_count = 3;
    components[0].last_power = 9;
    components[0].last_heat = 9;
    components[2].durability = 1;
    components[2].pulse_count = 4;
    components[3].pulse_count = 5;
    let table = component_index_map(&components, 3, 3);

    drain_durability(&mut components, &table);

    assert!(components[0].depleted);
    assert_eq!(
        (
            components[0].durability,
            components[0].pulse_count,
            components[0].last_power,
            components[0].last_heat
        ),
        (0, 0, 0, 0)
    );
    assert!(components[2].depleted);
    assert_eq!(components[2].durability, 0);
    assert_eq!(components[1].durability, 93 * UNIT);
    assert!(!components[1].depleted);
    assert_eq!(components[3].durability, 0);
    assert!(!components[3].depleted);
    assert_eq!(components[3].pulse_count, 5);
}

#[test]
fn generation_books_power_and_heat_on_the_store() {
    let mut components = vec![
        part(ComponentKind::Fuel(FuelKind::Thorium), 1, 1),
        part(ComponentKind::Reflector { tier: 2 }, 0, 1),
        part(ComponentKind::Fuel(FuelKind::Uranium), 2, 2),
    ];
    components[0].pulse_count = 3;
    components[2].pulse_count = 0;
    components[2].last_power = 5;
    components[2].last_heat = 5;
    components[1].last_power = 6;
    let table = component_index_map(&components, 3, 3);
    let mut store = ResourceStore::default();
    store.heat = 10 * UNIT;

    generate_power_and_heat(&mut components, &mut store, &table, 500_000, -2 * UNIT);

    assert_eq!(components[0].last_power, 7_920_000);
    assert_eq!(components[0].last_heat, 21_600_000);
    assert_eq!((components[2].last_power, components[2].last_heat), (0, 0));
    assert_eq!(components[1].last_power, 6);
    assert_eq!(store.power, 8_420_000);
    assert_eq!(store.total_power_produced, 8_420_000);
    assert_eq!(store.heat, 29_600_000);
    assert_eq!(store.tick_deltas.heat, 19_600_000);
}

#[test]
fn coolant_moves_heat_between_buffers_only() {
    let mut components = vec![
        part(ComponentKind::Coolant { tier: 2 }, 1, 1),
        part(ComponentKind::Vent { tier: 1 }, 0, 1),
        part(ComponentKind::Vent { tier: 1 }, 2, 1),
        part(ComponentKind::Vent { tier: 1 }, 1, 0),
    ];
    components[0].heat = UNIT;
    components[1].heat = 20 * UNIT;
    components[2].heat = 3 * UNIT;
    components[3].heat = 20 * UNIT;
    components[3].depleted = true;
    let table = component_index_map(&components, 3, 3);
    let mut store = ResourceStore::default();

    apply_coolant_effects(&mut components, &mut store, &table);

    let heats: Vec<i64> = components.iter().map(|c| c.heat).collect();
    assert_eq!(heats, vec![3_000_000, 18_500_000, 2_500_000, 20_000_000]);
    assert_eq!(store, ResourceStore::default());
}

#[test]
fn the_exchange_runs_its_passes_in_order() {
    let mut components = vec![
        part(ComponentKind::Vent { tier: 1 }, 0, 0),
        part(ComponentKind::Inlet { tier: 1 }, 1, 0),
        part(ComponentKind::Outlet { tier: 1 }, 0, 1),
    ];
    let table = component_index_map(&components, 2, 2);
    let mut store = ResourceStore::default();
    store.heat = 5 * UNIT;

    exchange_with_hull(&mut components, &mut store, &table);

    assert_eq!(components[0].heat, 0);
    assert_eq!(components[1].heat, 0);
    assert_eq!(components[2].heat, 0);
    assert_eq!(store.heat, 4_200_000);
    assert_eq!(store.total_heat_dissipated, 600_000 + 800_000 + 800_000);
    assert_eq!(store.heat_dissipated_this_game, 2_200_000);
    assert_eq!(store.tick_deltas.heat, -800_000);

    assert!(can_absorb(&components, Some(0)));
    assert!(!can_absorb(&components, None));
    components[0].depleted = true;
    assert!(!can_absorb(&components, Some(0)));
    assert_eq!(count_absorbers(&components, table[0]), 2);
    assert_eq!(count_absorbers(&components, table[1]), 0);
}

#[test]
fn the_exchange_moves_heat_without_losing_any() {
    let mut components = vec![
        part(ComponentKind::Outlet { tier: 1 }, 1, 1),
        part(ComponentKind::Capacitor { tier: 1 }, 0, 1),
        part(ComponentKind::Capacitor { tier: 1 }, 2, 1),
        part(ComponentKind::Capacitor { tier: 1 }, 1, 0),
    ];
    let table = component_index_map(&components, 3, 3);
    let mut store = ResourceStore::default();
    store.heat = UNIT;

    exchange_with_hull(&mut components, &mut store, &table);

    let heats: Vec<i64> = components.iter().map(|c| c.heat).collect();
    assert_eq!(heats, vec![0, 333_333, 333_333, 333_333]);
    assert_eq!(store.heat, 1);
    assert_eq!(store.heat + heats.iter().sum::<i64>(), UNIT);
    assert_eq!(store.tick_deltas.heat, -999_999);

    let mut crowded = vec![
        part(ComponentKind::Outlet { tier: 3 }, 1, 1),
        part(ComponentKind::Vent { tier: 1 }, 0, 1),
        part(ComponentKind::Inlet { tier: 2 }, 2, 1),
        part(ComponentKind::Capacitor { tier: 1 }, 1, 0),
        part(ComponentKind::GenericHeat, 1, 2),
        part(ComponentKind::Outlet { tier: 1 }, 2, 2),
    ];
    crowded[1].heat = 19_999_999;
    crowded[3].heat = 7;
    crowded[4].heat = 9_999_990;
    let table = component_index_map(&crowded, 3, 3);
    let mut hull = ResourceStore::default();
    hull.heat = 5_000_003;
    let held_before: i64 = crowded.iter().map(|c| c.heat).sum();
    let vented_before = hull.total_heat_dissipated;

    exchange_with_hull(&mut crowded, &mut hull, &table);

    let held_after: i64 = crowded.iter().map(|c| c.heat).sum();
    let self_vented = 1_200_000 + 500_000;
    assert_eq!(hull.heat + held_after + self_vented, 5_000_003 + held_before);
    assert!(hull.total_heat_dissipated - vented_before >= self_vented);
}
