//! The flat, versioned save record.

use vstd::prelude::*;

verus! {

/// The saved economy totals, in millionths of a unit.
#[derive(Debug, Clone, Copy, PartialEq, Eq, Structural)]
pub struct SaveStore {
    pub money: i64,
    pub total_money: i64,
    pub money_earned_this_game: i64,
    pub power: i64,
    pub total_power_produced: i64,
    pub power_produced_this_game: i64,
    pub heat: i64,
    pub total_heat_dissipated: i64,
    pub heat_dissipated_this_game: i64,
    pub exotic_particles: i64,
    pub total_exotic_particles: i64,
}

impl SaveStore {
    pub open spec fn spec_default() -> SaveStore {
        SaveStore {
            money: 0,
            total_money: 0,
            money_earned_this_game: 0,
            power: 0,
            total_power_produced: 0,
            power_produced_this_game: 0,
            heat: 0,
            total_heat_dissipated: 0,
            heat_dissipated_this_game: 0,
            exotic_particles: 0,
            total_exotic_particles: 0,
        }
    }
}

impl Default for SaveStore {
    fn default() -> (s: Self)
        ensures
            s == Self::spec_default(),
    {
        SaveStore {
            money: 0,
            total_money: 0,
            money_earned_this_game: 0,
            power: 0,
            total_power_produced: 0,
            power_produced_this_game: 0,
            heat: 0,
            total_heat_dissipated: 0,
            heat_dissipated_this_game: 0,
            exotic_particles: 0,
            total_exotic_particles: 0,
        }
    }
}

/// One saved component: its canonical name, dynamic state and position.
#[derive(Debug, Clone, PartialEq, Eq)]
pub struct SaveComponent {
    pub name: String,
    pub heat: i64,
    pub durability: i64,
    pub depleted: bool,
    pub x: i32,
    pub y: i32,
    pub z: i32,
}

/// Mathematical content of a saved component.
pub struct SaveEntry {
    pub name: Seq<char>,
    pub heat: i64,
    pub durability: i64,
    pub depleted: bool,
    pub x: i32,
    pub y: i32,
    pub z: i32,
}

impl View for SaveComponent {
    type V = SaveEntry;

    open spec fn view(&self) -> SaveEntry {
        SaveEntry {
            name: self.name@,
            heat: self.heat,
            durability: self.durability,
            depleted: self.depleted,
            x: self.x,
            y: self.y,
            z: self.z,
        }
    }
}

impl Default for SaveComponent {
    fn default() -> (c: Self)
        ensures
            c@ == (SaveEntry {
                name: Seq::<char>::empty(),
                heat: 0,
                durability: 0,
                depleted: false,
                x: 0,
                y: 0,
                z: 0,
            }),
    {
        SaveComponent {
            name: String::new(),
            heat: 0,
            durability: 0,
            depleted: false,
            x: 0,
            y: 0,
            z: 0,
        }
    }
}

/// The whole save record.
#[derive(Debug, Clone, PartialEq, Eq)]
pub struct SaveData {
    pub version: u32,
    pub store: SaveStore,
    pub upgrade_levels: Vec<u32>,
    pub reactor_heat: i64,
    pub stored_power: i64,
    pub depleted_protium_count: u32,
    pub paused: bool,
    pub replace_mode: bool,
    pub total_ticks: u64,
    pub prestige_level: u32,
    pub shop_page: i32,
    pub selected_component_index: i32,
    pub components: Vec<SaveComponent>,
}

/// Mathematical content of a save record.
pub struct SaveRecord {
    pub version: u32,
    pub store: SaveStore,
    pub upgrade_levels: Seq<u32>,
    pub reactor_heat: i64,
    pub stored_power: i64,
    pub depleted_protium_count: u32,
    pub paused: bool,
    pub replace_mode: bool,
    pub total_ticks: u64,
    pub prestige_level: u32,
    pub shop_page: i32,
    pub selected_component_index: i32,
    pub components: Seq<SaveEntry>,
}

impl View for SaveData {
    type V = SaveRecord;

    open spec fn view(&self) -> SaveRecord {
        SaveRecord {
            version: self.version,
            store: self.store,
            upgrade_levels: self.upgrade_levels@,
            reactor_heat: self.reactor_heat,
            stored_power: self.stored_power,
            depleted_protium_count: self.depleted_protium_count,
            paused: self.paused,
            replace_mode: self.replace_mode,
            total_ticks: self.total_ticks,
            prestige_level: self.prestige_level,
            shop_page: self.shop_page,
            selected_component_index: self.selected_component_index,
            components: Seq::new(self.components@.len(), |i: int| self.components@[i]@),
        }
    }
}

impl SaveRecord {
    /// An empty record of version 1 in replace mode with no slot selected.
    pub open spec fn spec_default() -> SaveRecord {
        SaveRecord {
            version: 1,
            store: SaveStore::spec_default(),
            upgrade_levels: Seq::<u32>::empty(),
            reactor_heat: 0,
            stored_power: 0,
            depleted_protium_count: 0,
            paused: false,
            replace_mode: true,
            total_ticks: 0,
            prestige_level: 0,
            shop_page: 0,
            selected_component_index: (-1i32),
            components: Seq::<SaveEntry>::empty(),
        }
    }
}

impl Default for SaveData {
    fn default() -> (d: Self)
        ensures
            d@ == SaveRecord::spec_default(),
    {
        let d = SaveData {
            version: 1,
            store: SaveStore::default(),
            upgrade_levels: Vec::new(),
            reactor_heat: 0,
            stored_power: 0,
            depleted_protium_count: 0,
            paused: false,
            replace_mode: true,
            total_ticks: 0,
            prestige_level: 0,
            shop_page: 0,
            selected_component_index: -1,
            components: Vec::new(),
        };
        assert(d@.components =~= Seq::<SaveEntry>::empty());
        assert(d@.upgrade_levels =~= Seq::<u32>::empty());
        d
    }
}

} // verus!
