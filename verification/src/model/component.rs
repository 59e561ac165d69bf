//! Component kinds and the static statistics each kind is placed with.

use vstd::prelude::*;
use crate::model::grid::GridCoord;

verus! {

/// The fuel grades, weakest first.
#[derive(Debug, Clone, Copy, PartialEq, Eq, Hash, Structural)]
pub enum FuelKind {
    Uranium,
    Plutonium,
    Thorium,
    Seaborgium,
    Dolorium,
    Nefastium,
    Protium,
    Monastium,
    Kymium,
    Discurrium,
    Stavrium,
}

/// A component kind without its grade or tier.
#[derive(Debug, Clone, Copy, PartialEq, Eq, Hash, Structural)]
pub enum ComponentCategory {
    Fuel,
    Vent,
    Coolant,
    Capacitor,
    Reflector,
    Plating,
    Inlet,
    Outlet,
    Exchanger,
    Clock,
    GenericHeat,
    GenericPower,
    GenericInfinity,
}

/// Everything that can be placed on the grid.
#[derive(Debug, Clone, Copy, PartialEq, Eq, Hash, Structural)]
pub enum ComponentKind {
    Fuel(FuelKind),
    Vent { tier: u8 },
    Coolant { tier: u8 },
    Capacitor { tier: u8 },
    Reflector { tier: u8 },
    Plating { tier: u8 },
    Inlet { tier: u8 },
    Outlet { tier: u8 },
    Exchanger { tier: u8 },
    Clock,
    GenericHeat,
    GenericPower,
    GenericInfinity,
}

/// Static statistics of a kind. All quantities are in millionths of a unit;
/// `reflector_bonus_pct` is a fraction of one (100_000 stands for +10%).
#[derive(Debug, Clone, Copy, PartialEq, Eq, Structural)]
pub struct ComponentStats {
    pub energy_per_pulse: i64,
    pub heat_per_pulse: i64,
    pub pulses_produced: u32,
    pub max_durability: i64,
    pub heat_capacity: i64,
    pub self_vent_rate: i64,
    pub reactor_vent_rate: i64,
    pub coolant_absorb_rate: i64,
    pub reflector_bonus_pct: i64,
    pub reactor_power_capacity_increase: i64,
    pub reactor_heat_capacity_increase: i64,
}

/// No built-in statistic exceeds this many millionths.
pub const STAT_LIMIT: i64 = 100_000_000_000;

impl ComponentStats {
    /// Statistics of a component that does nothing.
    pub open spec fn spec_zero() -> ComponentStats {
        ComponentStats {
            energy_per_pulse: 0,
            heat_per_pulse: 0,
            pulses_produced: 0,
            max_durability: 0,
            heat_capacity: 0,
            self_vent_rate: 0,
            reactor_vent_rate: 0,
            coolant_absorb_rate: 0,
            reflector_bonus_pct: 0,
            reactor_power_capacity_increase: 0,
            reactor_heat_capacity_increase: 0,
        }
    }

    pub fn zero() -> (s: Self)
        ensures
            s == Self::spec_zero(),
    {
        ComponentStats {
            energy_per_pulse: 0,
            heat_per_pulse: 0,
            pulses_produced: 0,
            max_durability: 0,
            heat_capacity: 0,
            self_vent_rate: 0,
            reactor_vent_rate: 0,
            coolant_absorb_rate: 0,
            reflector_bonus_pct: 0,
            reactor_power_capacity_increase: 0,
            reactor_heat_capacity_increase: 0,
        }
    }

    /// Every quantity lies between zero and `STAT_LIMIT`, and at most four
    /// pulses are produced.
    pub open spec fn within_limits(self) -> bool {
        &&& 0 <= self.energy_per_pulse <= STAT_LIMIT
        &&& 0 <= self.heat_per_pulse <= STAT_LIMIT
        &&& self.pulses_produced <= 4
        &&& 0 <= self.max_durability <= STAT_LIMIT
        &&& 0 <= self.heat_capacity <= STAT_LIMIT
        &&& 0 <= self.self_vent_rate <= STAT_LIMIT
        &&& 0 <= self.reactor_vent_rate <= STAT_LIMIT
        &&& 0 <= self.coolant_absorb_rate <= STAT_LIMIT
        &&& 0 <= self.reflector_bonus_pct <= STAT_LIMIT
        &&& 0 <= self.reactor_power_capacity_increase <= STAT_LIMIT
        &&& 0 <= self.reactor_heat_capacity_increase <= STAT_LIMIT
    }
}

/// A per-tier coefficient scaled by the tier.
pub open spec fn per_tier(coefficient: int, tier: u8) -> i64 {
    (coefficient * tier) as i64
}

fn scale(coefficient: i64, tier: u8) -> (r: i64)
    requires
        0 <= coefficient <= 250_000_000,
    ensures
        r == per_tier(coefficient as int, tier),
        0 <= r <= 63_750_000_000,
{
    assert(0 <= coefficient * tier <= 250_000_000 * 255) by (nonlinear_arith)
        requires
            0 <= coefficient <= 250_000_000,
            0 <= tier <= 255,
    ;
    coefficient * (tier as i64)
}

impl FuelKind {
    /// Position of the grade in the fuel ladder, starting at one.
    pub open spec fn spec_grade(self) -> u8 {
        match self {
            FuelKind::Uranium => 1,
            FuelKind::Plutonium => 2,
            FuelKind::Thorium => 3,
            FuelKind::Seaborgium => 4,
            FuelKind::Dolorium => 5,
            FuelKind::Nefastium => 6,
            FuelKind::Protium => 7,
            FuelKind::Monastium => 8,
            FuelKind::Kymium => 9,
            FuelKind::Discurrium => 10,
            FuelKind::Stavrium => 11,
        }
    }

    /// The grade at a position of the fuel ladder, if there is one.
    pub open spec fn spec_from_grade(grade: u8) -> Option<FuelKind> {
        if grade == 1 {
            Some(FuelKind::Uranium)
        } else if grade == 2 {
            Some(FuelKind::Plutonium)
        } else if grade == 3 {
            Some(FuelKind::Thorium)
        } else if grade == 4 {
            Some(FuelKind::Seaborgium)
        } else if grade == 5 {
            Some(FuelKind::Dolorium)
        } else if grade == 6 {
            Some(FuelKind::Nefastium)
        } else if grade == 7 {
            Some(FuelKind::Protium)
        } else if grade == 8 {
            Some(FuelKind::Monastium)
        } else if grade == 9 {
            Some(FuelKind::Kymium)
        } else if grade == 10 {
            Some(FuelKind::Discurrium)
        } else if grade == 11 {
            Some(FuelKind::Stavrium)
        } else {
            None
        }
    }

    /// Energy per pulse, heat per pulse, durability and pulses of a grade.
    pub open spec fn spec_stats(self) -> ComponentStats {
        let (energy, heat, durability, pulses): (i64, i64, i64, u32) = match self {
            FuelKind::Uranium => (1_000_000i64, 1_000_000i64, 120_000_000i64, 1u32),
            FuelKind::Plutonium => (1_500_000i64, 1_600_000i64, 180_000_000i64, 1u32),
            FuelKind::Thorium => (2_200_000i64, 2_400_000i64, 240_000_000i64, 1u32),
            FuelKind::Seaborgium => (3_500_000i64, 3_800_000i64, 300_000_000i64, 1u32),
            FuelKind::Dolorium => (5_000_000i64, 5_500_000i64, 360_000_000i64, 1u32),
            FuelKind::Nefastium => (8_000_000i64, 8_800_000i64, 420_000_000i64, 1u32),
            FuelKind::Protium => (9_000_000i64, 9_000_000i64, 500_000_000i64, 1u32),
            FuelKind::Monastium => (12_000_000i64, 10_000_000i64, 600_000_000i64, 1u32),
            FuelKind::Kymium => (16_000_000i64, 16_000_000i64, 700_000_000i64, 1u32),
            FuelKind::Discurrium => (24_000_000i64, 26_000_000i64, 800_000_000i64, 4u32),
            FuelKind::Stavrium => (32_000_000i64, 34_000_000i64, 900_000_000i64, 1u32),
        };
        ComponentStats {
            energy_per_pulse: energy,
            heat_per_pulse: heat,
            pulses_produced: pulses,
            max_durability: durability,
            ..ComponentStats::spec_zero()
        }
    }

    pub fn stats(self) -> (s: ComponentStats)
        ensures
            s == self.spec_stats(),
    {
        let (energy, heat, durability, pulses): (i64, i64, i64, u32) = match self {
            FuelKind::Uranium => (1_000_000i64, 1_000_000i64, 120_000_000i64, 1u32),
            FuelKind::Plutonium => (1_500_000i64, 1_600_000i64, 180_000_000i64, 1u32),
            FuelKind::Thorium => (2_200_000i64, 2_400_000i64, 240_000_000i64, 1u32),
            FuelKind::Seaborgium => (3_500_000i64, 3_800_000i64, 300_000_000i64, 1u32),
            FuelKind::Dolorium => (5_000_000i64, 5_500_000i64, 360_000_000i64, 1u32),
            FuelKind::Nefastium => (8_000_000i64, 8_800_000i64, 420_000_000i64, 1u32),
            FuelKind::Protium => (9_000_000i64, 9_000_000i64, 500_000_000i64, 1u32),
            FuelKind::Monastium => (12_000_000i64, 10_000_000i64, 600_000_000i64, 1u32),
            FuelKind::Kymium => (16_000_000i64, 16_000_000i64, 700_000_000i64, 1u32),
            FuelKind::Discurrium => (24_000_000i64, 26_000_000i64, 800_000_000i64, 4u32),
            FuelKind::Stavrium => (32_000_000i64, 34_000_000i64, 900_000_000i64, 1u32),
        };
        let mut s = ComponentStats::zero();
        s.energy_per_pulse = energy;
        s.heat_per_pulse = heat;
        s.pulses_produced = pulses;
        s.max_durability = durability;
        s
    }
}

impl ComponentKind {
    pub open spec fn spec_category(self) -> ComponentCategory {
        match self {
            ComponentKind::Fuel(_) => ComponentCategory::Fuel,
            ComponentKind::Vent { .. } => ComponentCategory::Vent,
            ComponentKind::Coolant { .. } => ComponentCategory::Coolant,
            ComponentKind::Capacitor { .. } => ComponentCategory::Capacitor,
            ComponentKind::Reflector { .. } => ComponentCategory::Reflector,
            ComponentKind::Plating { .. } => ComponentCategory::Plating,
            ComponentKind::Inlet { .. } => ComponentCategory::Inlet,
            ComponentKind::Outlet { .. } => ComponentCategory::Outlet,
            ComponentKind::Exchanger { .. } => ComponentCategory::Exchanger,
            ComponentKind::Clock => ComponentCategory::Clock,
            ComponentKind::GenericHeat => ComponentCategory::GenericHeat,
            ComponentKind::GenericPower => ComponentCategory::GenericPower,
            ComponentKind::GenericInfinity => ComponentCategory::GenericInfinity,
        }
    }

    pub fn category(self) -> (c: ComponentCategory)
        ensures
            c == self.spec_category(),
    {
        match self {
            ComponentKind::Fuel(_) => ComponentCategory::Fuel,
            ComponentKind::Vent { .. } => ComponentCategory::Vent,
            ComponentKind::Coolant { .. } => ComponentCategory::Coolant,
            ComponentKind::Capacitor { .. } => ComponentCategory::Capacitor,
            ComponentKind::Reflector { .. } => ComponentCategory::Reflector,
            ComponentKind::Plating { .. } => ComponentCategory::Plating,
            ComponentKind::Inlet { .. } => ComponentCategory::Inlet,
            ComponentKind::Outlet { .. } => ComponentCategory::Outlet,
            ComponentKind::Exchanger { .. } => ComponentCategory::Exchanger,
            ComponentKind::Clock => ComponentCategory::Clock,
            ComponentKind::GenericHeat => ComponentCategory::GenericHeat,
            ComponentKind::GenericPower => ComponentCategory::GenericPower,
            ComponentKind::GenericInfinity => ComponentCategory::GenericInfinity,
        }
    }

    /// The statistics of a kind: a fixed table for fuel and the generic
    /// parts, and per-tier coefficients times the tier for the rest.
    pub open spec fn spec_stats(self) -> ComponentStats {
        let zero = ComponentStats::spec_zero();
        match self {
            ComponentKind::Fuel(fuel) => fuel.spec_stats(),
            ComponentKind::Vent { tier } => ComponentStats {
                heat_capacity: per_tier(20_000_000, tier),
                self_vent_rate: per_tier(1_200_000, tier),
                reactor_vent_rate: per_tier(600_000, tier),
                ..zero
            },
            ComponentKind::Coolant { tier } => ComponentStats {
                heat_capacity: per_tier(45_000_000, tier),
                coolant_absorb_rate: per_tier(750_000, tier),
                reactor_heat_capacity_increase: per_tier(120_000_000, tier),
                ..zero
            },
            ComponentKind::Capacitor { tier } => ComponentStats {
                heat_capacity: per_tier(30_000_000, tier),
                reactor_power_capacity_increase: per_tier(60_000_000, tier),
                ..zero
            },
            ComponentKind::Reflector { tier } => ComponentStats {
                max_durability: per_tier(100_000_000, tier),
                reflector_bonus_pct: per_tier(100_000, tier),
                ..zero
            },
            ComponentKind::Plating { tier } => ComponentStats {
                reactor_heat_capacity_increase: per_tier(250_000_000, tier),
                ..zero
            },
            ComponentKind::Inlet { tier } => ComponentStats {
                heat_capacity: per_tier(10_000_000, tier),
                reactor_vent_rate: per_tier(800_000, tier),
                ..zero
            },
            ComponentKind::Outlet { tier } => ComponentStats {
                heat_capacity: per_tier(10_000_000, tier),
                reactor_vent_rate: per_tier(800_000, tier),
                ..zero
            },
            ComponentKind::Exchanger { tier } => ComponentStats {
                heat_capacity: per_tier(15_000_000, tier),
                coolant_absorb_rate: per_tier(600_000, tier),
                ..zero
            },
            ComponentKind::Clock => zero,
            ComponentKind::GenericHeat => ComponentStats {
                heat_capacity: 10_000_000,
                self_vent_rate: 500_000,
                ..zero
            },
            ComponentKind::GenericPower => ComponentStats {
                reactor_power_capacity_increase: 25_000_000,
                ..zero
            },
            ComponentKind::GenericInfinity => zero,
        }
    }

    pub fn stats(self) -> (s: ComponentStats)
        ensures
            s == self.spec_stats(),
            s.within_limits(),
    {
        let mut s = ComponentStats::zero();
        match self {
            ComponentKind::Fuel(fuel) => {
                s = fuel.stats();
            },
            ComponentKind::Vent { tier } => {
                s.heat_capacity = scale(20_000_000, tier);
                s.self_vent_rate = scale(1_200_000, tier);
                s.reactor_vent_rate = scale(600_000, tier);
            },
            ComponentKind::Coolant { tier } => {
                s.heat_capacity = scale(45_000_000, tier);
                s.coolant_absorb_rate = scale(750_000, tier);
                s.reactor_heat_capacity_increase = scale(120_000_000, tier);
            },
            ComponentKind::Capacitor { tier } => {
                s.heat_capacity = scale(30_000_000, tier);
                s.reactor_power_capacity_increase = scale(60_000_000, tier);
            },
            ComponentKind::Reflector { tier } => {
                s.max_durability = scale(100_000_000, tier);
                s.reflector_bonus_pct = scale(100_000, tier);
            },
            ComponentKind::Plating { tier } => {
                s.reactor_heat_capacity_increase = scale(250_000_000, tier);
            },
            ComponentKind::Inlet { tier } => {
                s.heat_capacity = scale(10_000_000, tier);
                s.reactor_vent_rate = scale(800_000, tier);
            },
            ComponentKind::Outlet { tier } => {
                s.heat_capacity = scale(10_000_000, tier);
                s.reactor_vent_rate = scale(800_000, tier);
            },
            ComponentKind::Exchanger { tier } => {
                s.heat_capacity = scale(15_000_000, tier);
                s.coolant_absorb_rate = scale(600_000, tier);
            },
            ComponentKind::Clock => {},
            ComponentKind::GenericHeat => {
                s.heat_capacity = 10_000_000;
                s.self_vent_rate = 500_000;
            },
            ComponentKind::GenericPower => {
                s.reactor_power_capacity_increase = 25_000_000;
            },
            ComponentKind::GenericInfinity => {},
        }
        s
    }

    /// The built-in statistics of every kind are non-negative and bounded.
    pub proof fn lemma_stats_within_limits(self)
        ensures
            self.spec_stats().within_limits(),
    {
        match self {
            ComponentKind::Fuel(_) => {},
            ComponentKind::Vent { tier } => {
                lemma_per_tier_bounds(20_000_000, tier);
                lemma_per_tier_bounds(1_200_000, tier);
                lemma_per_tier_bounds(600_000, tier);
            },
            ComponentKind::Coolant { tier } => {
                lemma_per_tier_bounds(45_000_000, tier);
                lemma_per_tier_bounds(750_000, tier);
                lemma_per_tier_bounds(120_000_000, tier);
            },
            ComponentKind::Capacitor { tier } => {
                lemma_per_tier_bounds(30_000_000, tier);
                lemma_per_tier_bounds(60_000_000, tier);
            },
            ComponentKind::Reflector { tier } => {
                lemma_per_tier_bounds(100_000_000, tier);
                lemma_per_tier_bounds(100_000, tier);
            },
            ComponentKind::Plating { tier } => {
                lemma_per_tier_bounds(250_000_000, tier);
            },
            ComponentKind::Inlet { tier } => {
                lemma_per_tier_bounds(10_000_000, tier);
                lemma_per_tier_bounds(800_000, tier);
            },
            ComponentKind::Outlet { tier } => {
                lemma_per_tier_bounds(10_000_000, tier);
                lemma_per_tier_bounds(800_000, tier);
            },
            ComponentKind::Exchanger { tier } => {
                lemma_per_tier_bounds(15_000_000, tier);
                lemma_per_tier_bounds(600_000, tier);
            },
            _ => {},
        }
    }
}

/// A per-tier statistic is the exact product and stays far below the limit.
pub proof fn lemma_per_tier_bounds(coefficient: int, tier: u8)
    requires
        0 <= coefficient <= 250_000_000,
    ensures
        per_tier(coefficient, tier) == coefficient * tier,
        0 <= per_tier(coefficient, tier) <= 63_750_000_000,
{
    assert(0 <= coefficient * tier <= 250_000_000 * 255) by (nonlinear_arith)
        requires
            0 <= coefficient <= 250_000_000,
            0 <= tier <= 255,
    ;
}

/// The dynamic state of one placed component.
#[derive(Debug, Clone, Copy, PartialEq, Eq, Structural)]
pub struct PlacedComponent {
    pub id: u64,
    pub kind: ComponentKind,
    pub coord: GridCoord,
    pub placed_at_tick: u64,
    pub heat: i64,
    pub durability: i64,
    pub last_power: i64,
    pub last_heat: i64,
    pub pulse_count: u32,
    pub depleted: bool,
}

impl PlacedComponent {
    /// A freshly placed component: full durability, no heat, nothing
    /// produced yet.
    pub open spec fn spec_new_with_metadata(
        kind: ComponentKind,
        coord: GridCoord,
        id: u64,
        placed_at_tick: u64,
    ) -> PlacedComponent {
        PlacedComponent {
            id,
            kind,
            coord,
            placed_at_tick,
            heat: 0,
            durability: kind.spec_stats().max_durability,
            last_power: 0,
            last_heat: 0,
            pulse_count: 0,
            depleted: false,
        }
    }

    pub fn new(kind: ComponentKind, coord: GridCoord) -> (c: Self)
        ensures
            c == Self::spec_new_with_metadata(kind, coord, 0, 0),
    {
        Self::new_with_metadata(kind, coord, 0, 0)
    }

    pub fn new_with_metadata(kind: ComponentKind, coord: GridCoord, id: u64, placed_at_tick: u64) -> (c:
        Self)
        ensures
            c == Self::spec_new_with_metadata(kind, coord, id, placed_at_tick),
    {
        let stats = kind.stats();
        PlacedComponent {
            id,
            kind,
            coord,
            placed_at_tick,
            heat: 0,
            durability: stats.max_durability,
            last_power: 0,
            last_heat: 0,
            pulse_count: 0,
            depleted: false,
        }
    }

    pub open spec fn spec_stats(self) -> ComponentStats {
        self.kind.spec_stats()
    }

    pub fn stats(&self) -> (s: ComponentStats)
        ensures
            s == self.spec_stats(),
            s.within_limits(),
    {
        self.kind.stats()
    }

    /// A component is fuel when it yields energy per pulse.
    pub open spec fn spec_is_fuel(self) -> bool {
        self.spec_stats().energy_per_pulse > 0
    }

    pub fn is_fuel(&self) -> (b: bool)
        ensures
            b == self.spec_is_fuel(),
    {
        self.stats().energy_per_pulse > 0
    }

    pub open spec fn spec_is_active(self) -> bool {
        !self.depleted
    }

    pub fn is_active(&self) -> (b: bool)
        ensures
            b == self.spec_is_active(),
    {
        !self.depleted
    }

    /// Exactly the fuel grades yield energy.
    pub proof fn lemma_fuel_is_the_fuel_kind(self)
        ensures
            self.spec_is_fuel() <==> self.kind is Fuel,
    {
        self.kind.lemma_stats_within_limits();
        match self.kind {
            ComponentKind::Fuel(fuel) => {
                assert(fuel.spec_stats().energy_per_pulse > 0);
            },
            _ => {},
        }
    }
}

} // verus!
