//! The hull's economy: current stocks, running totals and per-tick deltas.

use vstd::prelude::*;
use crate::units::{clamp_i64, max_int, min_int, sat_add, sat_sub, max_of, min_of};

verus! {

/// Net change of each stock during the current tick.
#[derive(Debug, Clone, Copy, PartialEq, Eq, Structural)]
pub struct TickDeltas {
    pub money: i64,
    pub power: i64,
    pub heat: i64,
    pub exotic_particles: i64,
}

impl TickDeltas {
    pub open spec fn spec_zero() -> TickDeltas {
        TickDeltas { money: 0, power: 0, heat: 0, exotic_particles: 0 }
    }

    /// Sets every delta back to zero.
    pub fn reset(&mut self)
        ensures
            *final(self) == Self::spec_zero(),
    {
        self.money = 0;
        self.power = 0;
        self.heat = 0;
        self.exotic_particles = 0;
    }
}

impl Default for TickDeltas {
    fn default() -> (d: Self)
        ensures
            d == Self::spec_zero(),
    {
        TickDeltas { money: 0, power: 0, heat: 0, exotic_particles: 0 }
    }
}

/// The four stocks with their lifetime and per-game totals.
#[derive(Debug, Clone, Copy, PartialEq, Eq, Structural)]
pub struct ResourceStore {
    pub money: i64,
    pub total_money: i64,
    pub money_earned_this_game: i64,
    pub power: i64,
    pub total_power_produced: i64,
    pub power_produced_this_game: i64,
    pub heat: i64,
    pub total_heat_dissipated: i64,
    pub heat_dissipated_this_game: i64,
    pub exotic_particles: i64,
    pub total_exotic_particles: i64,
    pub tick_deltas: TickDeltas,
}

impl Default for ResourceStore {
    fn default() -> (s: Self)
        ensures
            s == Self::spec_empty(),
    {
        ResourceStore {
            money: 0,
            total_money: 0,
            money_earned_this_game: 0,
            power: 0,
            total_power_produced: 0,
            power_produced_this_game: 0,
            heat: 0,
            total_heat_dissipated: 0,
            heat_dissipated_this_game: 0,
            exotic_particles: 0,
            total_exotic_particles: 0,
            tick_deltas: TickDeltas { money: 0, power: 0, heat: 0, exotic_particles: 0 },
        }
    }
}

impl ResourceStore {
    /// A store with nothing in it.
    pub open spec fn spec_empty() -> ResourceStore {
        ResourceStore {
            money: 0,
            total_money: 0,
            money_earned_this_game: 0,
            power: 0,
            total_power_produced: 0,
            power_produced_this_game: 0,
            heat: 0,
            total_heat_dissipated: 0,
            heat_dissipated_this_game: 0,
            exotic_particles: 0,
            total_exotic_particles: 0,
            tick_deltas: TickDeltas::spec_zero(),
        }
    }

    /// No stock and no total is negative.
    pub open spec fn wf(self) -> bool {
        &&& self.money >= 0
        &&& self.total_money >= 0
        &&& self.money_earned_this_game >= 0
        &&& self.power >= 0
        &&& self.total_power_produced >= 0
        &&& self.power_produced_this_game >= 0
        &&& self.heat >= 0
        &&& self.total_heat_dissipated >= 0
        &&& self.heat_dissipated_this_game >= 0
        &&& self.exotic_particles >= 0
        &&& self.total_exotic_particles >= 0
    }

    pub open spec fn spec_begin_tick(self) -> ResourceStore {
        ResourceStore { tick_deltas: TickDeltas::spec_zero(), ..self }
    }

    /// Starts a tick: the deltas go back to zero, nothing else changes.
    pub fn begin_tick(&mut self)
        ensures
            *final(self) == old(self).spec_begin_tick(),
    {
        self.tick_deltas.reset();
    }

    /// A positive amount is added to the stock, both totals and the delta;
    /// any other amount changes nothing.
    pub open spec fn spec_add_money(self, amount: i64) -> ResourceStore {
        if amount <= 0 {
            self
        } else {
            ResourceStore {
                money: clamp_i64(self.money + amount),
                total_money: clamp_i64(self.total_money + amount),
                money_earned_this_game: clamp_i64(self.money_earned_this_game + amount),
                tick_deltas: TickDeltas {
                    money: clamp_i64(self.tick_deltas.money + amount),
                    ..self.tick_deltas
                },
                ..self
            }
        }
    }

    pub fn add_money(&mut self, amount: i64)
        ensures
            *final(self) == old(self).spec_add_money(amount),
    {
        if amount <= 0 {
            return ;
        }
        self.money = sat_add(self.money, amount);
        self.total_money = sat_add(self.total_money, amount);
        self.money_earned_this_game = sat_add(self.money_earned_this_game, amount);
        self.tick_deltas.money = sat_add(self.tick_deltas.money, amount);
    }

    /// The stock that results from adding a signed amount: never below zero.
    pub open spec fn floored_sum(stock: i64, amount: i64) -> i64 {
        max_int(clamp_i64(stock + amount) as int, 0) as i64
    }

    /// Power moves by a signed amount but not below zero. The change that
    /// was really applied goes to the delta and, when it is a gain, to the
    /// production totals.
    pub open spec fn spec_add_power(self, amount: i64) -> ResourceStore {
        let power = Self::floored_sum(self.power, amount);
        let applied = clamp_i64(power - self.power);
        if amount == 0 || applied == 0 {
            self
        } else {
            ResourceStore {
                power,
                total_power_produced: if applied > 0 {
                    clamp_i64(self.total_power_produced + applied)
                } else {
                    self.total_power_produced
                },
                power_produced_this_game: if applied > 0 {
                    clamp_i64(self.power_produced_this_game + applied)
                } else {
                    self.power_produced_this_game
                },
                tick_deltas: TickDeltas {
                    power: clamp_i64(self.tick_deltas.power + applied),
                    ..self.tick_deltas
                },
                ..self
            }
        }
    }

    pub fn add_power(&mut self, amount: i64)
        ensures
            *final(self) == old(self).spec_add_power(amount),
    {
        if amount == 0 {
            return ;
        }
        let previous: i64 = self.power;
        self.power = max_of(sat_add(self.power, amount), 0);
        let applied: i64 = sat_sub(self.power, previous);
        if applied == 0 {
            return ;
        }
        self.tick_deltas.power = sat_add(self.tick_deltas.power, applied);
        if applied > 0 {
            self.total_power_produced = sat_add(self.total_power_produced, applied);
            self.power_produced_this_game = sat_add(self.power_produced_this_game, applied);
        }
    }

    /// Heat moves by a signed amount but not below zero. The change that was
    /// really applied goes to the delta and, when it is a loss, to the
    /// dissipation totals.
    pub open spec fn spec_add_heat(self, amount: i64) -> ResourceStore {
        let heat = Self::floored_sum(self.heat, amount);
        let applied = clamp_i64(heat - self.heat);
        let dissipated = clamp_i64(-applied);
        if amount == 0 || applied == 0 {
            self
        } else {
            ResourceStore {
                heat,
                total_heat_dissipated: if applied < 0 {
                    clamp_i64(self.total_heat_dissipated + dissipated)
                } else {
                    self.total_heat_dissipated
                },
                heat_dissipated_this_game: if applied < 0 {
                    clamp_i64(self.heat_dissipated_this_game + dissipated)
                } else {
                    self.heat_dissipated_this_game
                },
                tick_deltas: TickDeltas {
                    heat: clamp_i64(self.tick_deltas.heat + applied),
                    ..self.tick_deltas
                },
                ..self
            }
        }
    }

    pub fn add_heat(&mut self, amount: i64)
        ensures
            *final(self) == old(self).spec_add_heat(amount),
    {
        if amount == 0 {
            return ;
        }
        let previous: i64 = self.heat;
        self.heat = max_of(sat_add(self.heat, amount), 0);
        let applied: i64 = sat_sub(self.heat, previous);
        if applied == 0 {
            return ;
        }
        self.tick_deltas.heat = sat_add(self.tick_deltas.heat, applied);
        if applied < 0 {
            let dissipated: i64 = sat_sub(0, applied);
            self.total_heat_dissipated = sat_add(self.total_heat_dissipated, dissipated);
            self.heat_dissipated_this_game = sat_add(self.heat_dissipated_this_game, dissipated);
        }
    }

    /// A positive amount is added to the stock, the lifetime total and the
    /// delta; any other amount changes nothing.
    pub open spec fn spec_add_exotic_particles(self, amount: i64) -> ResourceStore {
        if amount <= 0 {
            self
        } else {
            ResourceStore {
                exotic_particles: clamp_i64(self.exotic_particles + amount),
                total_exotic_particles: clamp_i64(self.total_exotic_particles + amount),
                tick_deltas: TickDeltas {
                    exotic_particles: clamp_i64(self.tick_deltas.exotic_particles + amount),
                    ..self.tick_deltas
                },
                ..self
            }
        }
    }

    pub fn add_exotic_particles(&mut self, amount: i64)
        ensures
            *final(self) == old(self).spec_add_exotic_particles(amount),
    {
        if amount <= 0 {
            return ;
        }
        self.exotic_particles = sat_add(self.exotic_particles, amount);
        self.total_exotic_particles = sat_add(self.total_exotic_particles, amount);
        self.tick_deltas.exotic_particles = sat_add(self.tick_deltas.exotic_particles, amount);
    }

    /// How much a request for `amount` takes out of `stock`: nothing for a
    /// request that is not positive, else the smaller of the two.
    pub open spec fn taken(stock: i64, amount: i64) -> i64 {
        if amount <= 0 {
            0
        } else {
            min_int(stock as int, amount as int) as i64
        }
    }

    /// Power after a drain: what is taken leaves the stock and the delta.
    pub open spec fn spec_drain_power(self, amount: i64) -> ResourceStore {
        let drained = Self::taken(self.power, amount);
        if drained > 0 {
            ResourceStore {
                power: (self.power - drained) as i64,
                tick_deltas: TickDeltas {
                    power: clamp_i64(self.tick_deltas.power - drained),
                    ..self.tick_deltas
                },
                ..self
            }
        } else {
            self
        }
    }

    /// Takes up to `amount` of power out of the stock and returns what was
    /// taken.
    pub fn drain_power(&mut self, amount: i64) -> (drained: i64)
        ensures
            drained == Self::taken(old(self).power, amount),
            *final(self) == old(self).spec_drain_power(amount),
    {
        if amount <= 0 {
            return 0;
        }
        let drained: i64 = min_of(self.power, amount);
        if drained > 0 {
            self.power = self.power - drained;
            self.tick_deltas.power = sat_sub(self.tick_deltas.power, drained);
        }
        drained
    }

    /// Heat after a dissipation: what is taken leaves the stock and the
    /// delta and is added to both dissipation totals.
    pub open spec fn spec_dissipate_heat(self, amount: i64) -> ResourceStore {
        let dissipated = Self::taken(self.heat, amount);
        if dissipated > 0 {
            ResourceStore {
                heat: (self.heat - dissipated) as i64,
                total_heat_dissipated: clamp_i64(self.total_heat_dissipated + dissipated),
                heat_dissipated_this_game: clamp_i64(self.heat_dissipated_this_game + dissipated),
                tick_deltas: TickDeltas {
                    heat: clamp_i64(self.tick_deltas.heat - dissipated),
                    ..self.tick_deltas
                },
                ..self
            }
        } else {
            self
        }
    }

    /// Takes up to `amount` of heat out of the stock and returns what was
    /// taken.
    pub fn dissipate_heat(&mut self, amount: i64) -> (dissipated: i64)
        ensures
            dissipated == Self::taken(old(self).heat, amount),
            *final(self) == old(self).spec_dissipate_heat(amount),
    {
        if amount <= 0 {
            return 0;
        }
        let dissipated: i64 = min_of(self.heat, amount);
        if dissipated > 0 {
            self.heat = self.heat - dissipated;
            self.tick_deltas.heat = sat_sub(self.tick_deltas.heat, dissipated);
            self.total_heat_dissipated = sat_add(self.total_heat_dissipated, dissipated);
            self.heat_dissipated_this_game = sat_add(self.heat_dissipated_this_game, dissipated);
        }
        dissipated
    }

    /// The guarded mutators keep every stock and total non-negative.
    pub proof fn lemma_mutators_keep_wf(self, amount: i64)
        requires
            self.wf(),
        ensures
            self.spec_begin_tick().wf(),
            self.spec_add_money(amount).wf(),
            self.spec_add_power(amount).wf(),
            self.spec_add_heat(amount).wf(),
            self.spec_add_exotic_particles(amount).wf(),
            self.spec_drain_power(amount).wf(),
            self.spec_dissipate_heat(amount).wf(),
            0 <= Self::taken(self.power, amount) <= self.power,
            0 <= Self::taken(self.heat, amount) <= self.heat,
    {
    }

    /// The additive totals never decrease.
    pub proof fn lemma_totals_only_increase(self, amount: i64)
        requires
            self.wf(),
        ensures
            self.spec_add_money(amount).total_money >= self.total_money,
            self.spec_add_money(amount).money_earned_this_game >= self.money_earned_this_game,
            self.spec_add_power(amount).total_power_produced >= self.total_power_produced,
            self.spec_add_power(amount).power_produced_this_game >= self.power_produced_this_game,
            self.spec_add_heat(amount).total_heat_dissipated >= self.total_heat_dissipated,
            self.spec_add_heat(amount).heat_dissipated_this_game >= self.heat_dissipated_this_game,
            self.spec_dissipate_heat(amount).total_heat_dissipated >= self.total_heat_dissipated,
            self.spec_dissipate_heat(amount).heat_dissipated_this_game
                >= self.heat_dissipated_this_game,
            self.spec_add_exotic_particles(amount).total_exotic_particles
                >= self.total_exotic_particles,
    {
    }
}

} // verus!
