use reactor_sim::{
    parse_tier_component, ComponentCategory, ComponentKind, ComponentStats, FuelKind, GridCoord,
    PlacedComponent,
};

const FUELS: [FuelKind; 11] = [
    FuelKind::Uranium,
    FuelKind::Plutonium,
    FuelKind::Thorium,
    FuelKind::Seaborgium,
    FuelKind::Dolorium,
    FuelKind::Nefastium,
    FuelKind::Protium,
    FuelKind::Monastium,
    FuelKind::Kymium,
    FuelKind::Discurrium,
    FuelKind::Stavrium,
];

fn tiered(tier: u8) -> Vec<ComponentKind> {
    vec![
        ComponentKind::Vent { tier },
        ComponentKind::Coolant { tier },
        ComponentKind::Capacitor { tier },
        ComponentKind::Reflector { tier },
        ComponentKind::Plating { tier },
        ComponentKind::Inlet { tier },
        ComponentKind::Outlet { tier },
        ComponentKind::Exchanger { tier },
    ]
}

#[test]
fn fuel_names_count_the_grades() {
    let names: Vec<&str> = FUELS.iter().map(|fuel| fuel.canonical_name()).collect();
    assert_eq!(
        names,
        vec![
            "Fuel1-1", "Fuel2-1", "Fuel3-1", "Fuel4-1", "Fuel5-1", "Fuel6-1", "Fuel7-1",
            "Fuel8-1", "Fuel9-1", "Fuel10-1", "Fuel11-1"
        ]
    );
}

#[test]
fn kind_names_are_family_and_tier() {
    assert_eq!(ComponentKind::Vent { tier: 1 }.canonical_name(), "Vent1");
    assert_eq!(ComponentKind::Coolant { tier: 12 }.canonical_name(), "Coolant12");
    assert_eq!(ComponentKind::Capacitor { tier: 255 }.canonical_name(), "Capacitor255");
    assert_eq!(ComponentKind::Reflector { tier: 100 }.canonical_name(), "Reflector100");
    assert_eq!(ComponentKind::Plating { tier: 3 }.canonical_name(), "Plate3");
    assert_eq!(ComponentKind::Inlet { tier: 0 }.canonical_name(), "Inlet0");
    assert_eq!(ComponentKind::Outlet { tier: 10 }.canonical_name(), "Outlet10");
    assert_eq!(ComponentKind::Exchanger { tier: 109 }.canonical_name(), "Exchanger109");
    assert_eq!(ComponentKind::Clock.canonical_name(), "Clock");
    assert_eq!(ComponentKind::GenericHeat.canonical_name(), "GenericHeat");
    assert_eq!(ComponentKind::GenericPower.canonical_name(), "GenericPower");
    assert_eq!(ComponentKind::GenericInfinity.canonical_name(), "GenericInfinity");
    assert_eq!(
        ComponentKind::Fuel(FuelKind::Discurrium).canonical_name(),
        "Fuel10-1"
    );
}

#[test]
fn every_canonical_name_reads_back() {
    for fuel in FUELS {
        assert_eq!(FuelKind::from_name(fuel.canonical_name()), Some(fuel));
        let kind = ComponentKind::Fuel(fuel);
        assert_eq!(ComponentKind::from_name(&kind.canonical_name()), Some(kind));
    }
    for tier in 0..=255u8 {
        for kind in tiered(tier) {
            assert_eq!(ComponentKind::from_name(&kind.canonical_name()), Some(kind));
        }
    }
    for kind in [
        ComponentKind::Clock,
        ComponentKind::GenericHeat,
        ComponentKind::GenericPower,
        ComponentKind::GenericInfinity,
    ] {
        assert_eq!(ComponentKind::from_name(&kind.canonical_name()), Some(kind));
    }
}

#[test]
fn names_are_trimmed_and_numbers_read_as_the_standard_library_reads_them() {
    assert_eq!(
        ComponentKind::from_name("  Vent1\t\n"),
        Some(ComponentKind::Vent { tier: 1 })
    );
    assert_eq!(
        ComponentKind::from_name("\u{a0}\u{3000}Clock\u{2003}"),
        Some(ComponentKind::Clock)
    );
    assert_eq!(
        ComponentKind::from_name("Vent+7"),
        Some(ComponentKind::Vent { tier: 7 })
    );
    assert_eq!(
        ComponentKind::from_name("Vent007"),
        Some(ComponentKind::Vent { tier: 7 })
    );
    assert_eq!(
        ComponentKind::from_name("Vent0000000000000000000000255"),
        Some(ComponentKind::Vent { tier: 255 })
    );
    assert_eq!(
        ComponentKind::from_name("Plating9"),
        Some(ComponentKind::Plating { tier: 9 })
    );
    assert_eq!(
        ComponentKind::from_name("Plate9"),
        Some(ComponentKind::Plating { tier: 9 })
    );
    for text in ["Vent+7", "Vent007", "255", "+0", "0", "256", "+", "", "-1", "1 ", "١"] {
        let digits = text.strip_prefix("Vent").unwrap_or(text);
        assert_eq!(
            parse_tier_component(&format!("Vent{digits}"), "Vent"),
            digits.parse::<u8>().ok(),
            "{digits:?}"
        );
    }
}

#[test]
fn unknown_names_stand_for_nothing() {
    for name in [
        "",
        "   ",
        "Vent",
        "Vent256",
        "Vent-1",
        "Vent1x",
        "Vent 1",
        "Vent++1",
        "vent1",
        "clock",
        "Clock1",
        "Clocks",
        "GenericHeat2",
        "Generic",
        "Mystery9",
        "Fuel",
        "Fuel0-1",
        "Fuel12-1",
        "Fuel-1",
        "Fuelx",
        "1",
        "Vent١",
    ] {
        assert_eq!(ComponentKind::from_name(name), None, "{name:?}");
    }
}

#[test]
fn fuel_names_end_at_the_first_dash() {
    assert_eq!(FuelKind::from_name("Fuel3"), Some(FuelKind::Thorium));
    assert_eq!(FuelKind::from_name("Fuel3-1"), Some(FuelKind::Thorium));
    assert_eq!(FuelKind::from_name("Fuel3-anything-1"), Some(FuelKind::Thorium));
    assert_eq!(FuelKind::from_name("Fuel+11-"), Some(FuelKind::Stavrium));
    assert_eq!(FuelKind::from_name("Fuel011"), Some(FuelKind::Stavrium));
    assert_eq!(FuelKind::from_name(" Fuel3-1"), None);
    assert_eq!(FuelKind::from_name("Fuel3 -1"), None);
    assert_eq!(FuelKind::from_name("Fuel12"), None);
    assert_eq!(FuelKind::from_name("Fuel0"), None);
    assert_eq!(FuelKind::from_name("Fuel256-1"), None);
    assert_eq!(FuelKind::from_name("fuel1-1"), None);
    assert_eq!(FuelKind::from_name("Vent1"), None);
    assert_eq!(
        ComponentKind::from_name(" Fuel3-9 "),
        Some(ComponentKind::Fuel(FuelKind::Thorium))
    );
}

#[test]
fn tiers_follow_their_prefix() {
    assert_eq!(parse_tier_component("Vent12", "Vent"), Some(12));
    assert_eq!(parse_tier_component("Vent12", "Coolant"), None);
    assert_eq!(parse_tier_component("Vent", "Vent"), None);
    assert_eq!(parse_tier_component("Ven", "Vent"), None);
    assert_eq!(parse_tier_component("12", ""), Some(12));
    assert_eq!(parse_tier_component(" Vent12", "Vent"), None);
    assert_eq!(parse_tier_component("Vent300", "Vent"), None);
}

#[test]
fn categories_drop_grade_and_tier() {
    assert_eq!(
        ComponentKind::Fuel(FuelKind::Protium).category(),
        ComponentCategory::Fuel
    );
    assert_eq!(ComponentKind::Vent { tier: 3 }.category(), ComponentCategory::Vent);
    assert_eq!(
        ComponentKind::Coolant { tier: 3 }.category(),
        ComponentCategory::Coolant
    );
    assert_eq!(
        ComponentKind::Capacitor { tier: 3 }.category(),
        ComponentCategory::Capacitor
    );
    assert_eq!(
        ComponentKind::Reflector { tier: 3 }.category(),
        ComponentCategory::Reflector
    );
    assert_eq!(
        ComponentKind::Plating { tier: 3 }.category(),
        ComponentCategory::Plating
    );
    assert_eq!(ComponentKind::Inlet { tier: 3 }.category(), ComponentCategory::Inlet);
    assert_eq!(
        ComponentKind::Outlet { tier: 3 }.category(),
        ComponentCategory::Outlet
    );
    assert_eq!(
        ComponentKind::Exchanger { tier: 3 }.category(),
        ComponentCategory::Exchanger
    );
    assert_eq!(ComponentKind::Clock.category(), ComponentCategory::Clock);
    assert_eq!(
        ComponentKind::GenericHeat.category(),
        ComponentCategory::GenericHeat
    );
    assert_eq!(
        ComponentKind::GenericPower.category(),
        ComponentCategory::GenericPower
    );
    assert_eq!(
        ComponentKind::GenericInfinity.category(),
        ComponentCategory::GenericInfinity
    );
}

#[test]
fn fuel_statistics_follow_the_table() {
    let table: [(i64, i64, i64, u32); 11] = [
        (1_000_000, 1_000_000, 120_000_000, 1),
        (1_500_000, 1_600_000, 180_000_000, 1),
        (2_200_000, 2_400_000, 240_000_000, 1),
        (3_500_000, 3_800_000, 300_000_000, 1),
        (5_000_000, 5_500_000, 360_000_000, 1),
        (8_000_000, 8_800_000, 420_000_000, 1),
        (9_000_000, 9_000_000, 500_000_000, 1),
        (12_000_000, 10_000_000, 600_000_000, 1),
        (16_000_000, 16_000_000, 700_000_000, 1),
        (24_000_000, 26_000_000, 800_000_000, 4),
        (32_000_000, 34_000_000, 900_000_000, 1),
    ];
    for (fuel, (energy, heat, durability, pulses)) in FUELS.iter().zip(table) {
        let expected = ComponentStats {
            energy_per_pulse: energy,
            heat_per_pulse: heat,
            pulses_produced: pulses,
            max_durability: durability,
            ..ComponentStats::zero()
        };
        assert_eq!(fuel.stats(), expected);
        assert_eq!(ComponentKind::Fuel(*fuel).stats(), expected);
    }
}

#[test]
fn tiered_statistics_scale_with_the_tier() {
    let zero = ComponentStats::zero();
    for tier in [0u8, 1, 2, 7, 255] {
        let t = i64::from(tier);
        assert_eq!(
            ComponentKind::Vent { tier }.stats(),
            ComponentStats {
                heat_capacity: 20_000_000 * t,
                self_vent_rate: 1_200_000 * t,
                reactor_vent_rate: 600_000 * t,
                ..zero
            }
        );
        assert_eq!(
            ComponentKind::Coolant { tier }.stats(),
            ComponentStats {
                heat_capacity: 45_000_000 * t,
                coolant_absorb_rate: 750_000 * t,
                reactor_heat_capacity_increase: 120_000_000 * t,
                ..zero
            }
        );
        assert_eq!(
            ComponentKind::Capacitor { tier }.stats(),
            ComponentStats {
                heat_capacity: 30_000_000 * t,
                reactor_power_capacity_increase: 60_000_000 * t,
                ..zero
            }
        );
        assert_eq!(
            ComponentKind::Reflector { tier }.stats(),
            ComponentStats {
                max_durability: 100_000_000 * t,
                reflector_bonus_pct: 100_000 * t,
                ..zero
            }
        );
        assert_eq!(
            ComponentKind::Plating { tier }.stats(),
            ComponentStats {
                reactor_heat_capacity_increase: 250_000_000 * t,
                ..zero
            }
        );
        assert_eq!(
            ComponentKind::Inlet { tier }.stats(),
            ComponentStats {
                heat_capacity: 10_000_000 * t,
                reactor_vent_rate: 800_000 * t,
                ..zero
            }
        );
        assert_eq!(
            ComponentKind::Outlet { tier }.stats(),
            ComponentKind::Inlet { tier }.stats()
        );
        assert_eq!(
            ComponentKind::Exchanger { tier }.stats(),
            ComponentStats {
                heat_capacity: 15_000_000 * t,
                coolant_absorb_rate: 600_000 * t,
                ..zero
            }
        );
    }
}

#[test]
fn parts_without_tiers_have_fixed_statistics() {
    let zero = ComponentStats::zero();
    assert_eq!(ComponentKind::Clock.stats(), zero);
    assert_eq!(ComponentKind::GenericInfinity.stats(), zero);
    assert_eq!(
        ComponentKind::GenericHeat.stats(),
        ComponentStats {
            heat_capacity: 10_000_000,
            self_vent_rate: 500_000,
            ..zero
        }
    );
    assert_eq!(
        ComponentKind::GenericPower.stats(),
        ComponentStats {
            reactor_power_capacity_increase: 25_000_000,
            ..zero
        }
    );
    assert_eq!(zero.pulses_produced, 0);
    assert_eq!(zero.energy_per_pulse, 0);
}

#[test]
fn a_new_component_is_fresh() {
    let at = GridCoord::new(1, 2, 0);
    let fuel = PlacedComponent::new(ComponentKind::Fuel(FuelKind::Thorium), at);
    assert_eq!(
        fuel,
        PlacedComponent {
            id: 0,
            kind: ComponentKind::Fuel(FuelKind::Thorium),
            coord: at,
            placed_at_tick: 0,
            heat: 0,
            durability: 240_000_000,
            last_power: 0,
            last_heat: 0,
            pulse_count: 0,
            depleted: false,
        }
    );
    assert!(fuel.is_fuel());
    assert!(fuel.is_active());
    assert_eq!(fuel.stats(), FuelKind::Thorium.stats());

    let vent = PlacedComponent::new_with_metadata(ComponentKind::Vent { tier: 2 }, at, 9, 41);
    assert_eq!((vent.id, vent.placed_at_tick, vent.durability), (9, 41, 0));
    assert!(!vent.is_fuel());
    let mut spent = vent;
    spent.depleted = true;
    assert!(!spent.is_active());
}
