use reactor_sim::{ResourceStore, TickDeltas};

fn store() -> ResourceStore {
    ResourceStore {
        money: 10_000_000,
        total_money: 50_000_000,
        money_earned_this_game: 20_000_000,
        power: 8_000_000,
        total_power_produced: 100_000_000,
        power_produced_this_game: 30_000_000,
        heat: 4_000_000,
        total_heat_dissipated: 7_000_000,
        heat_dissipated_this_game: 2_000_000,
        exotic_particles: 1_000_000,
        total_exotic_particles: 3_000_000,
        tick_deltas: TickDeltas::default(),
    }
}

#[test]
fn a_default_store_is_empty() {
    let empty = ResourceStore::default();
    assert_eq!(
        empty,
        ResourceStore {
            money: 0,
            total_money: 0,
            money_earned_this_game: 0,
            power: 0,
            total_power_produced: 0,
            power_produced_this_game: 0,
            heat: 0,
            total_heat_dissipated: 0,
            heat_dissipated_this_game: 0,
            exotic_particles: 0,
            total_exotic_particles: 0,
            tick_deltas: TickDeltas {
                money: 0,
                power: 0,
                heat: 0,
                exotic_particles: 0
            },
        }
    );
}

#[test]
fn begin_tick_resets_the_deltas_only() {
    let mut s = store();
    s.add_money(1_500_000);
    s.add_power(-2_000_000);
    s.add_heat(3_000_000);
    s.add_exotic_particles(250_000);
    assert_eq!(
        s.tick_deltas,
        TickDeltas {
            money: 1_500_000,
            power: -2_000_000,
            heat: 3_000_000,
            exotic_particles: 250_000
        }
    );
    let before = s;
    s.begin_tick();
    assert_eq!(s.tick_deltas, TickDeltas::default());
    assert_eq!(
        s,
        ResourceStore {
            tick_deltas: TickDeltas::default(),
            ..before
        }
    );
    let mut deltas = before.tick_deltas;
    deltas.reset();
    assert_eq!(deltas, TickDeltas::default());
}

#[test]
fn money_takes_positive_amounts_only() {
    let mut s = store();
    s.add_money(0);
    s.add_money(-5_000_000);
    assert_eq!(s, store());
    s.add_money(2_500_000);
    assert_eq!(s.money, 12_500_000);
    assert_eq!(s.total_money, 52_500_000);
    assert_eq!(s.money_earned_this_game, 22_500_000);
    assert_eq!(s.tick_deltas.money, 2_500_000);
    s.add_money(i64::MAX);
    assert_eq!(s.money, i64::MAX);
    assert_eq!(s.total_money, i64::MAX);
}

#[test]
fn power_gains_count_as_produced() {
    let mut s = store();
    s.add_power(0);
    assert_eq!(s, store());
    s.add_power(1_250_000);
    assert_eq!(s.power, 9_250_000);
    assert_eq!(s.total_power_produced, 101_250_000);
    assert_eq!(s.power_produced_this_game, 31_250_000);
    assert_eq!(s.tick_deltas.power, 1_250_000);
}

#[test]
fn power_losses_stop_at_zero_and_are_not_produced() {
    let mut s = store();
    s.add_power(-3_000_000);
    assert_eq!(s.power, 5_000_000);
    assert_eq!(s.total_power_produced, 100_000_000);
    assert_eq!(s.tick_deltas.power, -3_000_000);
    s.add_power(-9_000_000);
    assert_eq!(s.power, 0);
    assert_eq!(s.tick_deltas.power, -8_000_000);
    let settled = s;
    s.add_power(-1);
    assert_eq!(s, settled);
}

#[test]
fn heat_losses_count_as_dissipated() {
    let mut s = store();
    s.add_heat(6_000_000);
    assert_eq!(s.heat, 10_000_000);
    assert_eq!(s.total_heat_dissipated, 7_000_000);
    assert_eq!(s.tick_deltas.heat, 6_000_000);
    s.add_heat(-1_200_000);
    assert_eq!(s.heat, 8_800_000);
    assert_eq!(s.total_heat_dissipated, 8_200_000);
    assert_eq!(s.heat_dissipated_this_game, 3_200_000);
    assert_eq!(s.tick_deltas.heat, 4_800_000);
    s.add_heat(-20_000_000);
    assert_eq!(s.heat, 0);
    assert_eq!(s.total_heat_dissipated, 17_000_000);
    assert_eq!(s.tick_deltas.heat, -4_000_000);
    s.add_heat(0);
    assert_eq!(s.heat, 0);
}

#[test]
fn exotic_particles_take_positive_amounts_only() {
    let mut s = store();
    s.add_exotic_particles(-1);
    s.add_exotic_particles(0);
    assert_eq!(s, store());
    s.add_exotic_particles(500_000);
    assert_eq!(s.exotic_particles, 1_500_000);
    assert_eq!(s.total_exotic_particles, 3_500_000);
    assert_eq!(s.tick_deltas.exotic_particles, 500_000);
}

#[test]
fn drains_return_what_was_there() {
    let mut s = store();
    assert_eq!(s.drain_power(0), 0);
    assert_eq!(s.drain_power(-4), 0);
    assert_eq!(s, store());
    assert_eq!(s.drain_power(3_000_000), 3_000_000);
    assert_eq!(s.power, 5_000_000);
    assert_eq!(s.tick_deltas.power, -3_000_000);
    assert_eq!(s.total_power_produced, 100_000_000);
    assert_eq!(s.drain_power(9_000_000), 5_000_000);
    assert_eq!(s.power, 0);
    assert_eq!(s.tick_deltas.power, -8_000_000);
    assert_eq!(s.drain_power(1), 0);
}

#[test]
fn dissipation_returns_what_was_there_and_books_it() {
    let mut s = store();
    assert_eq!(s.dissipate_heat(0), 0);
    assert_eq!(s.dissipate_heat(-1), 0);
    assert_eq!(s, store());
    assert_eq!(s.dissipate_heat(1_500_000), 1_500_000);
    assert_eq!(s.heat, 2_500_000);
    assert_eq!(s.total_heat_dissipated, 8_500_000);
    assert_eq!(s.heat_dissipated_this_game, 3_500_000);
    assert_eq!(s.tick_deltas.heat, -1_500_000);
    assert_eq!(s.dissipate_heat(i64::MAX), 2_500_000);
    assert_eq!(s.heat, 0);
    assert_eq!(s.total_heat_dissipated, 11_000_000);
    assert_eq!(s.dissipate_heat(5), 0);
}
