//! The game's data model: officers, cities, factions, the map and units.

pub mod officer;

pub use officer::{Officer, OfficerCategory, OfficerExtB, OfficerExtC, OfficerStore};
pub mod map;

pub use map::{GameMap, MapView, TileType, MAP_COLS, MAP_ROWS};
pub mod unit;

pub use unit::{Unit, UnitState, UnitStore, MAX_UNITS, UNIT_FLAG5, UNIT_FLAG6};
pub mod city;
pub mod faction;

pub use city::{City, CityStore, CITY_COUNT, CITY_PLAYABLE};
pub use faction::{Faction, FactionStore, FACTION_COUNT};
pub mod game_state;

pub use game_state::{GameState, GlobalSlot};
