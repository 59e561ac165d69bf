use reactor_sim::{
    apply_save_data, export_to_base64, import_from_base64, payload_text,
    save_data_from_simulation, CodecError, ComponentKind, FuelKind, GridCoord, SaveComponent,
    SaveData, SaveStore, Simulation,
};

fn units(value: f64) -> i64 {
    (value * 1_000_000.0).round() as i64
}

fn whole(raw: i64) -> f64 {
    raw as f64 / 1_000_000.0
}

const SAMPLE_JSON: &str = "{\"version\":1,\"store\":{\"money\":1234.5,\"total_money\":3456.7,\"money_earned_this_game\":2222.2,\"power\":111.0,\"total_power_produced\":999.9,\"power_produced_this_game\":888.8,\"heat\":12.3,\"total_heat_dissipated\":45.6,\"heat_dissipated_this_game\":7.8,\"exotic_particles\":3.0,\"total_exotic_particles\":10.0},\"upgrade_levels\":[1,0,2,4],\"reactor_heat\":12.0,\"stored_power\":77.0,\"depleted_protium_count\":5,\"paused\":true,\"replace_mode\":false,\"total_ticks\":42,\"prestige_level\":2,\"shop_page\":1,\"selected_component_index\":7,\"components\":[{\"name\":\"Fuel1-1\",\"heat\":1.5,\"durability\":13.0,\"depleted\":false,\"x\":2,\"y\":3,\"z\":0},{\"name\":\"Vent1\",\"heat\":0.1,\"durability\":0.0,\"depleted\":false,\"x\":1,\"y\":0,\"z\":0}]}";

fn sample_save() -> SaveData {
    SaveData {
        version: 1,
        store: SaveStore {
            money: units(1234.5),
            total_money: units(3456.7),
            money_earned_this_game: units(2222.2),
            power: units(111.0),
            total_power_produced: units(999.9),
            power_produced_this_game: units(888.8),
            heat: units(12.3),
            total_heat_dissipated: units(45.6),
            heat_dissipated_this_game: units(7.8),
            exotic_particles: units(3.0),
            total_exotic_particles: units(10.0),
        },
        upgrade_levels: vec![1, 0, 2, 4],
        reactor_heat: units(12.0),
        stored_power: units(77.0),
        depleted_protium_count: 5,
        paused: true,
        replace_mode: false,
        total_ticks: 42,
        prestige_level: 2,
        shop_page: 1,
        selected_component_index: 7,
        components: vec![
            SaveComponent {
                name: "Fuel1-1".to_string(),
                heat: units(1.5),
                durability: units(13.0),
                depleted: false,
                x: 2,
                y: 3,
                z: 0,
            },
            SaveComponent {
                name: "Vent1".to_string(),
                heat: units(0.1),
                durability: units(0.0),
                depleted: false,
                x: 1,
                y: 0,
                z: 0,
            },
        ],
    }
}

#[test]
fn save_base64_round_trip() {
    let exported = SAMPLE_JSON;
    let encoded = export_to_base64(exported).expect("save should export to base64");
    let restored = import_from_base64(&encoded).expect("save should import from base64");

    assert_eq!(restored, exported);
}

#[test]
fn simulation_bridge_round_trip() {
    let mut sim = Simulation::default();
    sim.resources.money = units(222.0);
    sim.resources.power = units(10.0);
    sim.resources.heat = units(4.5);
    sim.place_component(
        GridCoord::new(2, 3, 0),
        ComponentKind::Fuel(FuelKind::Uranium),
    )
    .expect("should place component");
    if let Some(component) = sim.component_at_mut(GridCoord::new(2, 3, 0)) {
        component.heat = units(3.25);
        component.durability = units(77.0);
    }

    let save = save_data_from_simulation(&sim, 4, 1);
    let mut restored = Simulation::default();
    apply_save_data(&mut restored, &save).expect("save apply should succeed");

    assert_eq!(restored.resources.money, units(222.0));
    assert_eq!(restored.resources.power, units(10.0));
    assert_eq!(restored.resources.heat, units(4.5));
    let component = restored
        .component_at(GridCoord::new(2, 3, 0))
        .expect("component should exist");
    assert_eq!(component.kind, ComponentKind::Fuel(FuelKind::Uranium));
    assert!((whole(component.heat) - 3.25).abs() <= f64::EPSILON);
    assert!((whole(component.durability) - 77.0).abs() <= f64::EPSILON);
}

#[test]
fn export_gives_standard_padded_base64() {
    assert_eq!(export_to_base64("hello").unwrap(), "aGVsbG8=");
    assert_eq!(export_to_base64("").unwrap(), "");
    assert_eq!(export_to_base64("{\"a\":1}").unwrap(), "eyJhIjoxfQ==");
}

#[test]
fn import_ignores_surrounding_white_space() {
    assert_eq!(import_from_base64("  aGVsbG8=\n").unwrap(), "hello");
    assert_eq!(import_from_base64("\u{a0}aGVsbG8=\t").unwrap(), "hello");
}

#[test]
fn import_reports_bad_base64_and_bad_utf8() {
    assert_eq!(import_from_base64("not base64!"), Err(CodecError::InvalidBase64));
    assert_eq!(import_from_base64("aGVsbG8"), Err(CodecError::InvalidBase64));
    assert_eq!(import_from_base64("/w=="), Err(CodecError::NotUtf8));
}

#[test]
fn payload_text_reads_utf8_only() {
    assert_eq!(payload_text(None), Err(CodecError::InvalidBase64));
    assert_eq!(payload_text(Some(vec![0xff])), Err(CodecError::NotUtf8));
    assert_eq!(payload_text(Some(vec![0x68, 0x69])), Ok("hi".to_string()));
    assert_eq!(payload_text(Some(vec![0xc3, 0xa9])), Ok("\u{e9}".to_string()));
}

#[test]
fn save_record_lists_components_by_layer_row_column() {
    let mut sim = Simulation::new(4, 4, 2);
    sim.place_component(GridCoord::new(3, 1, 0), ComponentKind::Vent { tier: 1 })
        .unwrap();
    sim.place_component(GridCoord::new(0, 0, 1), ComponentKind::Clock)
        .unwrap();
    sim.place_component(GridCoord::new(1, 1, 0), ComponentKind::Plating { tier: 3 })
        .unwrap();
    sim.place_component(GridCoord::new(2, 0, 0), ComponentKind::Fuel(FuelKind::Stavrium))
        .unwrap();
    sim.paused = true;

    let save = save_data_from_simulation(&sim, -1, 2);

    let listed: Vec<(String, i32, i32, i32)> = save
        .components
        .iter()
        .map(|c| (c.name.clone(), c.x, c.y, c.z))
        .collect();
    assert_eq!(
        listed,
        vec![
            ("Fuel11-1".to_string(), 2, 0, 0),
            ("Plate3".to_string(), 1, 1, 0),
            ("Vent1".to_string(), 3, 1, 0),
            ("Clock".to_string(), 0, 0, 1),
        ]
    );
    assert_eq!(save.version, 1);
    assert!(save.paused);
    assert!(save.replace_mode);
    assert_eq!(save.shop_page, 2);
    assert_eq!(save.selected_component_index, -1);
    assert_eq!(save.upgrade_levels, Vec::<u32>::new());
}

#[test]
fn applying_a_record_skips_what_it_cannot_place() {
    let mut save = sample_save();
    save.components.push(SaveComponent {
        name: "Vent1".to_string(),
        heat: 0,
        durability: 0,
        depleted: false,
        x: -1,
        y: 0,
        z: 0,
    });
    save.components.push(SaveComponent {
        name: "Mystery9".to_string(),
        heat: 0,
        durability: 0,
        depleted: false,
        x: 0,
        y: 0,
        z: 0,
    });
    save.components.push(SaveComponent {
        name: "Coolant1".to_string(),
        heat: 0,
        durability: 0,
        depleted: false,
        x: 19,
        y: 0,
        z: 0,
    });
    save.components.push(SaveComponent {
        name: " Reflector2 ".to_string(),
        heat: units(-4.0),
        durability: units(150.0),
        depleted: false,
        x: 5,
        y: 5,
        z: 0,
    });
    let mut sim = Simulation::default();
    sim.place_component(GridCoord::new(7, 7, 0), ComponentKind::Clock)
        .unwrap();

    assert_eq!(apply_save_data(&mut sim, &save), Ok(()));

    assert_eq!(sim.components.len(), 3);
    assert!(sim.component_at(GridCoord::new(7, 7, 0)).is_none());
    assert!(sim.grid.get(GridCoord::new(7, 7, 0)).is_none());
    assert_eq!(sim.tick_index, 42);
    assert!(sim.paused);
    assert_eq!(sim.resources.money, units(1234.5));
    assert_eq!(sim.resources.total_exotic_particles, units(10.0));
    let fuel = sim.component_at(GridCoord::new(2, 3, 0)).unwrap();
    assert_eq!(fuel.durability, units(13.0));
    assert_eq!(fuel.heat, units(1.5));
    assert!(!fuel.depleted);
    let vent = sim.component_at(GridCoord::new(1, 0, 0)).unwrap();
    assert_eq!(vent.durability, 0);
    assert!(vent.depleted);
    let reflector = sim.component_at(GridCoord::new(5, 5, 0)).unwrap();
    assert_eq!(reflector.kind, ComponentKind::Reflector { tier: 2 });
    assert_eq!(reflector.heat, 0);
    assert_eq!(reflector.durability, units(150.0));
    assert_eq!(
        sim.grid.get(GridCoord::new(5, 5, 0)),
        Some(ComponentKind::Reflector { tier: 2 })
    );
}

#[test]
fn default_record_is_empty_version_one() {
    let save = SaveData::default();
    assert_eq!(save.version, 1);
    assert_eq!(save.selected_component_index, -1);
    assert!(save.replace_mode);
    assert!(!save.paused);
    assert!(save.components.is_empty());
    assert_eq!(save.store, SaveStore::default());
    assert_eq!(SaveComponent::default().name, "");
}

#[test]
fn a_saved_simulation_comes_back_from_its_record() {
    let mut sim = Simulation::new(6, 5, 2);
    sim.place_component(GridCoord::new(4, 1, 1), ComponentKind::Fuel(FuelKind::Protium))
        .unwrap();
    sim.place_component(GridCoord::new(0, 3, 0), ComponentKind::Reflector { tier: 2 })
        .unwrap();
    sim.place_component(GridCoord::new(5, 4, 1), ComponentKind::Fuel(FuelKind::Uranium))
        .unwrap();
    sim.place_component(GridCoord::new(1, 3, 0), ComponentKind::Fuel(FuelKind::Thorium))
        .unwrap();
    sim.auto_sell_rate_per_tick = units(0.5);
    for _ in 0..7 {
        sim.tick();
    }
    if let Some(spent) = sim.component_at_mut(GridCoord::new(5, 4, 1)) {
        spent.durability = 0;
        spent.depleted = true;
        spent.heat = units(2.5);
    }
    sim.paused = true;
    sim.resources.exotic_particles = units(3.0);
    assert!(sim.resources.power <= units(100.0));

    let save = save_data_from_simulation(&sim, 2, 0);
    let mut restored = Simulation::new(6, 5, 2);
    restored
        .place_component(GridCoord::new(0, 0, 0), ComponentKind::Clock)
        .unwrap();
    apply_save_data(&mut restored, &save).unwrap();

    assert_eq!(restored.tick_index, 7);
    assert!(restored.paused);
    assert_eq!(
        SaveStore {
            money: restored.resources.money,
            total_money: restored.resources.total_money,
            money_earned_this_game: restored.resources.money_earned_this_game,
            power: restored.resources.power,
            total_power_produced: restored.resources.total_power_produced,
            power_produced_this_game: restored.resources.power_produced_this_game,
            heat: restored.resources.heat,
            total_heat_dissipated: restored.resources.total_heat_dissipated,
            heat_dissipated_this_game: restored.resources.heat_dissipated_this_game,
            exotic_particles: restored.resources.exotic_particles,
            total_exotic_particles: restored.resources.total_exotic_particles,
        },
        save.store
    );
    assert_eq!(restored.resources.money, sim.resources.money);
    assert_eq!(restored.resources.total_heat_dissipated, sim.resources.total_heat_dissipated);
    assert_eq!(restored.components.len(), sim.components.len());
    for z in 0..2 {
        for y in 0..5 {
            for x in 0..6 {
                let at = GridCoord::new(x, y, z);
                let before = sim.component_at(at);
                let after = restored.component_at(at);
                assert_eq!(before.is_some(), after.is_some());
                if let (Some(before), Some(after)) = (before, after) {
                    assert_eq!(
                        (before.kind, before.heat, before.durability, before.depleted),
                        (after.kind, after.heat, after.durability, after.depleted)
                    );
                    assert_eq!(restored.grid.get(at), Some(before.kind));
                }
            }
        }
    }
    assert_eq!(save_data_from_simulation(&restored, 2, 0), save);
}
