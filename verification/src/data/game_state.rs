//! The global game state container.

use vstd::prelude::*;
use super::officer::{OfficerStore, OFFICER_COUNT, default_officer};
use super::city::{CityStore, CITY_COUNT, is_default_city};
use super::map::GameMap;
use super::faction::{FactionStore, FACTION_COUNT, is_default_faction};
use super::unit::{Unit, UnitStore, MAX_UNITS, default_unit};

verus! {

/// Number of global officer slots.
pub const GLOBAL_SLOT_COUNT: usize = 32;

/// An entry of the global officer slot table.
#[derive(Debug, Clone, Copy)]
pub struct GlobalSlot {
    pub officer_id: u16,
    pub vtable_index: u8,
    pub city_id: u8,
}

impl Default for GlobalSlot {
    fn default() -> (r: Self)
        ensures
            r == (GlobalSlot { officer_id: 0, vtable_index: 0, city_id: 0 }),
    {
        GlobalSlot { officer_id: 0, vtable_index: 0, city_id: 0 }
    }
}

/// The state of a running game.
pub struct GameState {
    pub officers: OfficerStore,
    pub cities: CityStore,
    pub factions: FactionStore,
    pub map: GameMap,
    pub units: UnitStore,
    /// Current round number.
    pub turn: u16,
    pub year: u16,
    pub month: u8,
    pub day: u8,
    /// In-game clock.
    pub time_ticks: u32,
    /// 0 = strategy, 3 and 4 = battle modes.
    pub game_mode: u8,
    pub active_unit_idx: Option<usize>,
    pub exit_flag: bool,
    pub normal_state: bool,
    pub alternate_mode: bool,
    /// State of the linear congruential generator.
    pub rng_state: u32,
    pub global_slots: [GlobalSlot; 32],
    pub dialog_slot_attr15: u16,
    pub dialog_slot_attr1e: u16,
}

/// One step of the linear congruential generator:
/// `state * 1664525 + 1013904223`, wrapping at 2^32.
pub open spec fn lcg_next(state: u32) -> u32 {
    vstd::wrapping::u32_specs::wrapping_add(
        vstd::wrapping::u32_specs::wrapping_mul(state, 1664525),
        1013904223,
    )
}

impl GameState {
    /// The tables have their sizes and the map covers its cells.
    pub open spec fn wf(&self) -> bool {
        &&& self.officers.wf()
        &&& self.cities.wf()
        &&& self.factions.wf()
        &&& self.map.wf()
        &&& self.units.units@.len() == MAX_UNITS
    }

    pub fn new() -> (r: Self)
        ensures
            r.wf(),
            r.turn == 0,
            r.year == 0,
            r.month == 1,
            r.day == 1,
            r.time_ticks == 0,
            r.game_mode == 0,
            r.active_unit_idx is None,
            !r.exit_flag,
            r.normal_state,
            !r.alternate_mode,
            r.rng_state == 0x12345678,
            r.dialog_slot_attr15 == 0,
            r.dialog_slot_attr1e == 0,
            r.map.width == 20,
            r.map.height == 11,
            r.map.tiles@ == Seq::new(220, |i: int| 0u16),
            forall|i: int| 0 <= i < CITY_COUNT ==> is_default_city(#[trigger] r.cities.cities@[i]),
            forall|i: int| 0 <= i < OFFICER_COUNT ==> #[trigger] r.officers.officers@[i] == default_officer(),
            forall|i: int| 0 <= i < FACTION_COUNT ==> is_default_faction(#[trigger] r.factions.factions@[i]),
            forall|i: int| 0 <= i < MAX_UNITS ==> #[trigger] r.units.units@[i] == default_unit(),
    {
        Self::default()
    }

    /// Advances the generator one step and returns its new state.
    pub fn random_u32(&mut self) -> (r: u32)
        ensures
            r == lcg_next(old(self).rng_state),
            *final(self) == (GameState { rng_state: r, ..*old(self) }),
    {
        self.rng_state = self.rng_state.wrapping_mul(1664525).wrapping_add(1013904223);
        self.rng_state
    }

    /// A number in `0..bound` from one generator step; 0 without a step
    /// when `bound` is 0.
    pub fn random_range(&mut self, bound: u32) -> (r: u32)
        ensures
            bound == 0 ==> r == 0 && *final(self) == *old(self),
            bound != 0 ==> r == lcg_next(old(self).rng_state) % bound && *final(self)
                == (GameState { rng_state: lcg_next(old(self).rng_state), ..*old(self) }),
            bound != 0 ==> r < bound,
    {
        if bound == 0 {
            return 0;
        }
        self.random_u32() % bound
    }

    /// A draw that succeeds with probability `percent` / 100.
    pub fn random_chance(&mut self, percent: u32) -> (r: bool)
        ensures
            r == (lcg_next(old(self).rng_state) % 100 < percent),
            *final(self) == (GameState { rng_state: lcg_next(old(self).rng_state), ..*old(self) }),
    {
        self.random_range(100) < percent
    }

    /// The active unit, when its index is set and inside the unit table.
    pub fn active_unit(&self) -> (r: Option<&Unit>)
        ensures
            match self.active_unit_idx {
                Some(i) => if i < self.units.units@.len() {
                    r == Some(&self.units.units@[i as int])
                } else {
                    r is None
                },
                None => r is None,
            },
    {
        match self.active_unit_idx {
            Some(i) => {
                if i < self.units.units.len() {
                    Some(&self.units.units[i])
                } else {
                    None
                }
            },
            None => None,
        }
    }

    /// Mutable access to the active unit, when its index is set and inside
    /// the unit table.
    pub fn active_unit_mut(&mut self) -> (r: Option<&mut Unit>)
        ensures
            match old(self).active_unit_idx {
                Some(i) => if i < old(self).units.units@.len() {
                    match r {
                        Some(u) => {
                            &&& *u == old(self).units.units@[i as int]
                            &&& final(self).units.units@ == old(self).units.units@.update(
                                i as int,
                                *final(u),
                            )
                            &&& *final(self) == (GameState { units: final(self).units, ..*old(self) })
                        },
                        None => false,
                    }
                } else {
                    r is None && *final(self) == *old(self)
                },
                None => r is None && *final(self) == *old(self),
            },
    {
        match self.active_unit_idx {
            Some(i) => {
                if i < self.units.units.len() {
                    Some(&mut self.units.units[i])
                } else {
                    None
                }
            },
            None => None,
        }
    }

    /// The faction whose turn it is: factions 1..=7 take turns in order.
    pub fn current_faction_id(&self) -> (r: u8)
        requires
            self.turn >= 1,
        ensures
            r == (self.turn - 1) % 7 + 1,
            1 <= r <= 7,
    {
        ((self.turn - 1) % 7 + 1) as u8
    }

    /// Whether the game is in its normal state.
    pub fn check_normal_state(&self) -> (r: bool)
        ensures
            r == self.normal_state,
    {
        self.normal_state
    }
}

impl Default for GameState {
    fn default() -> (r: Self)
        ensures
            r.wf(),
            r.turn == 0,
            r.year == 0,
            r.month == 1,
            r.day == 1,
            r.time_ticks == 0,
            r.game_mode == 0,
            r.active_unit_idx is None,
            !r.exit_flag,
            r.normal_state,
            !r.alternate_mode,
            r.rng_state == 0x12345678,
            r.dialog_slot_attr15 == 0,
            r.dialog_slot_attr1e == 0,
            r.map.width == 20,
            r.map.height == 11,
            r.map.tiles@ == Seq::new(220, |i: int| 0u16),
            forall|i: int| 0 <= i < CITY_COUNT ==> is_default_city(#[trigger] r.cities.cities@[i]),
            forall|i: int| 0 <= i < OFFICER_COUNT ==> #[trigger] r.officers.officers@[i] == default_officer(),
            forall|i: int| 0 <= i < FACTION_COUNT ==> is_default_faction(#[trigger] r.factions.factions@[i]),
            forall|i: int| 0 <= i < MAX_UNITS ==> #[trigger] r.units.units@[i] == default_unit(),
    {
        GameState {
            officers: OfficerStore::new(),
            cities: CityStore::new(),
            factions: FactionStore::new(),
            map: GameMap::default(),
            units: UnitStore::new(),
            turn: 0,
            year: 0,
            month: 1,
            day: 1,
            time_ticks: 0,
            game_mode: 0,
            active_unit_idx: None,
            exit_flag: false,
            normal_state: true,
            alternate_mode: false,
            rng_state: 0x12345678,
            global_slots: [GlobalSlot { officer_id: 0, vtable_index: 0, city_id: 0 }; 32],
            dialog_slot_attr15: 0,
            dialog_slot_attr1e: 0,
        }
    }
}

} // verus!
