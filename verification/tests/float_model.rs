//! The engine against a floating-point model of the same rules, written
//! source-first: every source adds to its targets, looked up by coordinate.

use std::collections::BTreeMap;

use reactor_sim::{ComponentKind, ComponentStats, FuelKind, GridCoord, Simulation};

const STEPS_PER_UNIT: f64 = 1_000_000.0;
const TOLERANCE: f64 = 1e-3;

fn whole(raw: i64) -> f64 {
    raw as f64 / STEPS_PER_UNIT
}

fn units(value: f64) -> i64 {
    (value * STEPS_PER_UNIT).round() as i64
}

#[derive(Clone, Copy)]
struct Stats {
    energy_per_pulse: f64,
    heat_per_pulse: f64,
    pulses_produced: u32,
    max_durability: f64,
    heat_capacity: f64,
    self_vent_rate: f64,
    reactor_vent_rate: f64,
    coolant_absorb_rate: f64,
    reflector_bonus_pct: f64,
    reactor_power_capacity_increase: f64,
    reactor_heat_capacity_increase: f64,
}

fn stats_of(kind: ComponentKind) -> Stats {
    let s: ComponentStats = kind.stats();
    Stats {
        energy_per_pulse: whole(s.energy_per_pulse),
        heat_per_pulse: whole(s.heat_per_pulse),
        pulses_produced: s.pulses_produced,
        max_durability: whole(s.max_durability),
        heat_capacity: whole(s.heat_capacity),
        self_vent_rate: whole(s.self_vent_rate),
        reactor_vent_rate: whole(s.reactor_vent_rate),
        coolant_absorb_rate: whole(s.coolant_absorb_rate),
        reflector_bonus_pct: whole(s.reflector_bonus_pct),
        reactor_power_capacity_increase: whole(s.reactor_power_capacity_increase),
        reactor_heat_capacity_increase: whole(s.reactor_heat_capacity_increase),
    }
}

#[derive(Clone)]
struct Part {
    kind: ComponentKind,
    coord: GridCoord,
    heat: f64,
    durability: f64,
    last_power: f64,
    last_heat: f64,
    pulse_count: u32,
    depleted: bool,
}

struct Model {
    parts: Vec<Part>,
    width: usize,
    height: usize,
    money: f64,
    power: f64,
    heat: f64,
    total_heat_dissipated: f64,
    base_power_generation: f64,
    base_heat_generation: f64,
    auto_sell_rate: f64,
    passive_dissipation: f64,
    base_power_capacity: f64,
    base_heat_capacity: f64,
    max_power_capacity: f64,
    max_heat_capacity: f64,
}

impl Model {
    fn of(sim: &Simulation) -> Model {
        Model {
            parts: sim
                .components
                .iter()
                .map(|c| Part {
                    kind: c.kind,
                    coord: c.coord,
                    heat: whole(c.heat),
                    durability: whole(c.durability),
                    last_power: whole(c.last_power),
                    last_heat: whole(c.last_heat),
                    pulse_count: c.pulse_count,
                    depleted: c.depleted,
                })
                .collect(),
            width: sim.grid.width(),
            height: sim.grid.height(),
            money: whole(sim.resources.money),
            power: whole(sim.resources.power),
            heat: whole(sim.resources.heat),
            total_heat_dissipated: whole(sim.resources.total_heat_dissipated),
            base_power_generation: whole(sim.base_power_generation_per_tick),
            base_heat_generation: whole(sim.base_heat_generation_per_tick),
            auto_sell_rate: whole(sim.auto_sell_rate_per_tick),
            passive_dissipation: whole(sim.passive_heat_dissipation_per_tick),
            base_power_capacity: whole(sim.base_power_capacity),
            base_heat_capacity: whole(sim.base_heat_capacity),
            max_power_capacity: whole(sim.max_power_capacity),
            max_heat_capacity: whole(sim.max_heat_capacity),
        }
    }

    fn add_power(&mut self, amount: f64) {
        self.power = (self.power + amount).max(0.0);
    }

    fn add_heat(&mut self, amount: f64) {
        let previous = self.heat;
        self.heat = (self.heat + amount).max(0.0);
        let applied = self.heat - previous;
        if applied < 0.0 {
            self.total_heat_dissipated += -applied;
        }
    }

    fn drain_power(&mut self, amount: f64) -> f64 {
        if amount <= 0.0 {
            return 0.0;
        }
        let drained = self.power.min(amount);
        if drained > 0.0 {
            self.power -= drained;
        }
        drained
    }

    fn index_map(&self) -> BTreeMap<(usize, usize, usize), usize> {
        self.parts
            .iter()
            .enumerate()
            .map(|(index, part)| ((part.coord.x, part.coord.y, part.coord.z), index))
            .collect()
    }

    fn neighbors(&self, coord: GridCoord) -> Vec<(usize, usize, usize)> {
        let mut cells = Vec::new();
        if coord.x > 0 {
            cells.push((coord.x - 1, coord.y, coord.z));
        }
        if coord.x + 1 < self.width {
            cells.push((coord.x + 1, coord.y, coord.z));
        }
        if coord.y > 0 {
            cells.push((coord.x, coord.y - 1, coord.z));
        }
        if coord.y + 1 < self.height {
            cells.push((coord.x, coord.y + 1, coord.z));
        }
        cells
    }

    fn store_heat(&mut self, index: usize, amount: f64) -> f64 {
        if amount <= 0.0 {
            return 0.0;
        }
        let capacity = stats_of(self.parts[index].kind).heat_capacity;
        if capacity <= 0.0 {
            return amount;
        }
        let target = self.parts[index].heat + amount;
        if target <= capacity {
            self.parts[index].heat = target;
            return 0.0;
        }
        self.parts[index].heat = capacity;
        target - capacity
    }

    fn clamp(&mut self) {
        if self.power > self.max_power_capacity {
            let overflow = self.power - self.max_power_capacity;
            self.drain_power(overflow);
        }
        self.heat = self.heat.max(0.0);
    }

    fn tick(&mut self) {
        let map = self.index_map();

        let mut power_cap = self.base_power_capacity.max(0.0);
        let mut heat_cap = self.base_heat_capacity.max(0.0);
        for part in &self.parts {
            if !part.depleted {
                power_cap += stats_of(part.kind).reactor_power_capacity_increase;
                heat_cap += stats_of(part.kind).reactor_heat_capacity_increase;
            }
        }
        self.max_power_capacity = power_cap;
        self.max_heat_capacity = heat_cap;
        self.clamp();

        for part in &mut self.parts {
            part.pulse_count = 0;
        }
        let snapshot = self.parts.clone();
        for source in &snapshot {
            let stats = stats_of(source.kind);
            if source.depleted || stats.energy_per_pulse <= 0.0 {
                continue;
            }
            let pulses = stats.pulses_produced.max(1);
            let own = (source.coord.x, source.coord.y, source.coord.z);
            let mut targets = vec![own];
            targets.extend(self.neighbors(source.coord));
            for cell in targets {
                if let Some(index) = map.get(&cell) {
                    self.parts[*index].pulse_count += pulses;
                }
            }
        }

        let snapshot = self.parts.clone();
        for index in 0..self.parts.len() {
            let stats = stats_of(snapshot[index].kind);
            if snapshot[index].depleted || stats.max_durability <= 0.0 {
                continue;
            }
            let mut drain = 0.0;
            if stats.energy_per_pulse > 0.0 {
                drain = 1.0;
            } else if stats.reflector_bonus_pct > 0.0 {
                for cell in self.neighbors(snapshot[index].coord) {
                    if let Some(other) = map.get(&cell) {
                        let neighbor = &snapshot[*other];
                        if !neighbor.depleted && stats_of(neighbor.kind).energy_per_pulse > 0.0 {
                            drain += f64::from(neighbor.pulse_count);
                        }
                    }
                }
            }
            if drain > 0.0 {
                let part = &mut self.parts[index];
                part.durability = (part.durability - drain).max(0.0);
                if part.durability <= 0.0 {
                    part.depleted = true;
                    part.pulse_count = 0;
                    part.last_power = 0.0;
                    part.last_heat = 0.0;
                }
            }
        }

        let snapshot = self.parts.clone();
        let mut pending = vec![0.0; self.parts.len()];
        let mut total_power = self.base_power_generation;
        let mut hull_heat = self.base_heat_generation;
        for (index, source) in snapshot.iter().enumerate() {
            let stats = stats_of(source.kind);
            if source.depleted || stats.energy_per_pulse <= 0.0 {
                continue;
            }
            let pulses = f64::from(source.pulse_count);
            if pulses <= 0.0 {
                self.parts[index].last_power = 0.0;
                self.parts[index].last_heat = 0.0;
                continue;
            }
            let mut multiplier = 1.0;
            let mut absorbers = Vec::new();
            for cell in self.neighbors(source.coord) {
                if let Some(other) = map.get(&cell) {
                    let neighbor = &snapshot[*other];
                    if neighbor.depleted {
                        continue;
                    }
                    let neighbor_stats = stats_of(neighbor.kind);
                    if neighbor_stats.reflector_bonus_pct > 0.0 {
                        multiplier += neighbor_stats.reflector_bonus_pct;
                    }
                    if neighbor_stats.heat_capacity > 0.0 {
                        absorbers.push(*other);
                    }
                }
            }
            let power = pulses * stats.energy_per_pulse * multiplier;
            let heat = pulses * pulses * stats.heat_per_pulse;
            self.parts[index].last_power = power;
            self.parts[index].last_heat = heat;
            total_power += power;
            if absorbers.is_empty() {
                hull_heat += heat;
            } else {
                let share = heat / absorbers.len() as f64;
                for absorber in absorbers {
                    pending[absorber] += share;
                }
            }
        }
        for (index, added) in pending.into_iter().enumerate() {
            if added > 0.0 && !self.parts[index].depleted {
                hull_heat += self.store_heat(index, added);
            }
        }
        if total_power != 0.0 {
            self.add_power(total_power);
        }
        if hull_heat != 0.0 {
            self.add_heat(hull_heat);
        }

        let snapshot = self.parts.clone();
        let mut delta = vec![0.0; self.parts.len()];
        for (index, source) in snapshot.iter().enumerate() {
            let stats = stats_of(source.kind);
            if source.depleted || stats.coolant_absorb_rate <= 0.0 || stats.heat_capacity <= 0.0 {
                continue;
            }
            for cell in self.neighbors(source.coord) {
                let Some(other) = map.get(&cell).copied() else {
                    continue;
                };
                if snapshot[other].depleted {
                    continue;
                }
                let neighbor_heat = snapshot[other].heat;
                let source_heat = snapshot[index].heat;
                if neighbor_heat <= source_heat || neighbor_heat <= 0.0 {
                    continue;
                }
                let transfer = ((neighbor_heat - source_heat) * 0.25)
                    .min(stats.coolant_absorb_rate)
                    .min(neighbor_heat);
                if transfer <= 0.0 {
                    continue;
                }
                delta[index] += transfer;
                delta[other] -= transfer;
            }
        }
        let mut overflow = 0.0;
        for (index, change) in delta.into_iter().enumerate() {
            if change < 0.0 {
                let removed = (-change).min(self.parts[index].heat);
                self.parts[index].heat -= removed;
            } else if change > 0.0 {
                overflow += self.store_heat(index, change);
            }
        }
        if overflow > 0.0 {
            self.add_heat(overflow);
        }

        let snapshot = self.parts.clone();
        for (index, source) in snapshot.iter().enumerate() {
            let rate = stats_of(source.kind).reactor_vent_rate;
            if source.depleted || !matches!(source.kind, ComponentKind::Vent { .. }) || rate <= 0.0
            {
                continue;
            }
            let transfer = self.heat.min(rate);
            if transfer <= 0.0 {
                continue;
            }
            self.add_heat(-transfer);
            let back = self.store_heat(index, transfer);
            if back > 0.0 {
                self.add_heat(back);
            }
        }
        for source in &snapshot {
            let rate = stats_of(source.kind).reactor_vent_rate;
            if source.depleted || !matches!(source.kind, ComponentKind::Inlet { .. }) || rate <= 0.0
            {
                continue;
            }
            for cell in self.neighbors(source.coord) {
                let Some(other) = map.get(&cell).copied() else {
                    continue;
                };
                if self.parts[other].depleted || self.parts[other].heat <= 0.0 {
                    continue;
                }
                let pulled = self.parts[other].heat.min(rate);
                self.parts[other].heat -= pulled;
                self.add_heat(pulled);
            }
        }
        for source in &snapshot {
            let rate = stats_of(source.kind).reactor_vent_rate;
            if source.depleted
                || !matches!(source.kind, ComponentKind::Outlet { .. })
                || rate <= 0.0
                || self.heat <= 0.0
            {
                continue;
            }
            let mut absorbers = Vec::new();
            for cell in self.neighbors(source.coord) {
                let Some(other) = map.get(&cell).copied() else {
                    continue;
                };
                if !self.parts[other].depleted
                    && stats_of(self.parts[other].kind).heat_capacity > 0.0
                {
                    absorbers.push(other);
                }
            }
            if absorbers.is_empty() {
                continue;
            }
            let total = self.heat.min(rate * absorbers.len() as f64);
            if total <= 0.0 {
                continue;
            }
            self.add_heat(-total);
            let share = total / absorbers.len() as f64;
            for absorber in absorbers {
                let back = self.store_heat(absorber, share);
                if back > 0.0 {
                    self.add_heat(back);
                }
            }
        }
        let mut vented_total = 0.0;
        for part in &mut self.parts {
            let rate = stats_of(part.kind).self_vent_rate;
            if part.depleted || rate <= 0.0 || part.heat <= 0.0 {
                continue;
            }
            let vented = part.heat.min(rate);
            part.heat -= vented;
            vented_total += vented;
        }
        self.total_heat_dissipated += vented_total;

        let sold = self.drain_power(self.auto_sell_rate.max(0.0));
        if sold > 0.0 {
            self.money += sold;
        }

        let mut rate = self.passive_dissipation.max(0.0);
        if self.heat > self.max_heat_capacity {
            rate += (self.heat - self.max_heat_capacity) * 0.05;
        }
        if rate > 0.0 {
            let dissipated = self.heat.min(rate);
            if dissipated > 0.0 {
                self.heat -= dissipated;
                self.total_heat_dissipated += dissipated;
            }
        }

        self.clamp();
    }
}

fn close(actual: i64, expected: f64, what: &str, tick: usize) {
    let scale = expected.abs().max(1.0);
    assert!(
        (whole(actual) - expected).abs() <= TOLERANCE * scale,
        "{what} at tick {tick}: engine {}, model {expected}",
        whole(actual)
    );
}

fn compare(sim: &Simulation, model: &Model, tick: usize) {
    close(sim.resources.money, model.money, "money", tick);
    close(sim.resources.power, model.power, "power", tick);
    close(sim.resources.heat, model.heat, "heat", tick);
    close(
        sim.resources.total_heat_dissipated,
        model.total_heat_dissipated,
        "dissipated",
        tick,
    );
    close(sim.max_power_capacity, model.max_power_capacity, "power capacity", tick);
    close(sim.max_heat_capacity, model.max_heat_capacity, "heat capacity", tick);
    assert_eq!(sim.components.len(), model.parts.len());
    for (component, part) in sim.components.iter().zip(&model.parts) {
        let at = format!("{:?} at {:?}", component.kind, component.coord);
        assert_eq!(component.pulse_count, part.pulse_count, "pulses of {at}, tick {tick}");
        assert_eq!(component.depleted, part.depleted, "depletion of {at}, tick {tick}");
        close(component.heat, part.heat, &format!("heat of {at}"), tick);
        close(component.durability, part.durability, &format!("durability of {at}"), tick);
        close(component.last_power, part.last_power, &format!("power of {at}"), tick);
        close(component.last_heat, part.last_heat, &format!("heat output of {at}"), tick);
    }
}

struct Dice(u64);

impl Dice {
    fn roll(&mut self, sides: u64) -> u64 {
        self.0 = self
            .0
            .wrapping_mul(6364136223846793005)
            .wrapping_add(1442695040888963407);
        (self.0 >> 33) % sides
    }
}

fn any_kind(dice: &mut Dice) -> ComponentKind {
    let tier = 1 + dice.roll(3) as u8;
    match dice.roll(14) {
        0 => ComponentKind::Fuel(FuelKind::Uranium),
        1 => ComponentKind::Fuel(FuelKind::Thorium),
        2 => ComponentKind::Fuel(FuelKind::Discurrium),
        3 => ComponentKind::Vent { tier },
        4 => ComponentKind::Coolant { tier },
        5 => ComponentKind::Capacitor { tier },
        6 => ComponentKind::Reflector { tier },
        7 => ComponentKind::Plating { tier },
        8 => ComponentKind::Inlet { tier },
        9 => ComponentKind::Outlet { tier },
        10 => ComponentKind::Exchanger { tier },
        11 => ComponentKind::GenericHeat,
        12 => ComponentKind::Fuel(FuelKind::Plutonium),
        _ => ComponentKind::Clock,
    }
}

fn scenario(seed: u64, width: usize, height: usize, placements: usize, ticks: usize) {
    let mut dice = Dice(seed);
    let mut sim = Simulation::new(width, height, 1);
    for _ in 0..placements {
        let at = GridCoord::new(
            dice.roll(width as u64) as usize,
            dice.roll(height as u64) as usize,
            0,
        );
        sim.place_component(at, any_kind(&mut dice)).unwrap();
    }
    for index in 0..sim.components.len() {
        let capacity = sim.components[index].stats().heat_capacity;
        if capacity > 0 && dice.roll(2) == 0 {
            sim.components[index].heat = capacity / 8 * dice.roll(9) as i64;
        }
        if sim.components[index].durability > 0 && dice.roll(3) == 0 {
            sim.components[index].durability = units(1.0 + dice.roll(40) as f64);
        }
    }
    sim.base_power_generation_per_tick = units(0.125 * dice.roll(5) as f64);
    sim.base_heat_generation_per_tick = units(0.5 * dice.roll(7) as f64);
    sim.auto_sell_rate_per_tick = units(0.75 * dice.roll(30) as f64);
    sim.passive_heat_dissipation_per_tick = units(0.25 * dice.roll(9) as f64);
    sim.resources.power = units(8.0 * dice.roll(12) as f64);
    sim.resources.heat = units(150.0 * dice.roll(12) as f64);

    let mut model = Model::of(&sim);
    for tick in 1..=ticks {
        sim.tick();
        model.tick();
        compare(&sim, &model, tick);
    }
}

#[test]
fn the_engine_follows_the_floating_point_model_on_small_grids() {
    for seed in 0..40 {
        scenario(seed, 4, 3, 9, 60);
    }
}

#[test]
fn the_engine_follows_the_floating_point_model_on_crowded_grids() {
    for seed in 100..120 {
        scenario(seed, 7, 6, 60, 80);
    }
}

#[test]
fn the_engine_follows_the_floating_point_model_over_many_ticks() {
    for seed in 200..206 {
        scenario(seed, 5, 5, 18, 700);
    }
}
