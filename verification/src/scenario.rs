//! Setting up a new game from a scenario: the calendar, the factions,
//! cities, officers and their units, and the map.

use vstd::prelude::*;
use crate::data::city::{City, CITY_COUNT};
use crate::data::faction::{Faction, FACTION_COUNT};
use crate::data::game_state::GameState;
use crate::data::map::{GameMap, MapView};
use crate::data::officer::{Officer, OFFICER_COUNT};
use crate::data::unit::{Unit, MAX_UNITS};

verus! {

/// Faction ids and colours, in table order.
pub open spec fn faction_rows() -> Seq<(u8, u8)> {
    seq![(1u8, 4u8), (2, 2), (3, 3), (4, 5), (5, 6), (6, 1), (7, 7)]
}

/// The scenario's cities: id, owner, gold, food and troops; the row for
/// city `i` is at index `i - 1`.
pub open spec fn scenario_cities() -> Seq<(u8, u8, u16, u16, u16)> {
    seq![
        (1u8, 1u8, 1000u16, 1500u16, 500u16),
        (2, 1, 800, 1200, 400),
        (3, 2, 600, 1000, 300),
        (4, 3, 700, 1100, 350),
        (5, 3, 500, 800, 250),
        (6, 4, 900, 1300, 450),
        (7, 5, 400, 600, 200),
        (8, 6, 500, 700, 250),
        (9, 7, 600, 900, 300),
        (10, 1, 700, 1000, 350),
    ]
}

/// The scenario's officers: id, faction, intelligence, politics, charisma
/// and loyalty; the row for officer `i` is at index `i - 1`.
pub open spec fn scenario_officers() -> Seq<(u16, u8, u8, u8, u8, u8)> {
    seq![
        (1u16, 1u8, 90u8, 95u8, 70u8, 200u8),
        (2, 1, 85, 80, 75, 180),
        (3, 1, 80, 75, 70, 170),
        (4, 1, 88, 82, 68, 190),
        (5, 1, 75, 70, 65, 160),
        (6, 2, 92, 95, 80, 200),
        (7, 2, 95, 98, 85, 220),
        (8, 2, 93, 96, 90, 220),
        (9, 2, 90, 88, 75, 190),
        (10, 3, 88, 90, 78, 200),
        (11, 3, 85, 82, 72, 180),
        (12, 3, 80, 78, 68, 170),
        (13, 4, 82, 85, 70, 180),
        (14, 4, 78, 75, 65, 160),
        (15, 4, 76, 73, 63, 155),
        (16, 5, 75, 70, 60, 150),
        (17, 6, 80, 82, 68, 170),
        (18, 6, 85, 80, 72, 180),
        (19, 7, 78, 80, 65, 165),
        (20, 1, 90, 88, 72, 185),
    ]
}

/// The year a scenario starts in: 200 for scenario 2, else 189.
pub open spec fn scenario_year(scenario_id: u8) -> u16 {
    if scenario_id == 2 {
        200
    } else {
        189
    }
}

/// A faction slot set up from its row: id and colour, 1000 gold and 2000
/// food.
pub open spec fn faction_from_row(f: Faction, row: (u8, u8)) -> Faction {
    Faction { id: row.0, color: row.1, gold: 1000, food: 2000, ..f }
}

/// A city set up from its row: id, owner and stores, governance 50,
/// development 10 and 10, consumables 50 and 50.
pub open spec fn city_from_row(c: City, row: (u8, u8, u16, u16, u16)) -> City {
    City {
        id: row.0,
        ownership: row.1,
        off_0f: row.2,
        off_11: row.3,
        off_13: row.4,
        off_15: 50,
        off_18: 10,
        off_19: 10,
        off_1d: 50,
        off_1e: 50,
        ..c
    }
}

/// An officer's combined rating: the mean of the three attributes,
/// rounded down.
pub open spec fn combined_rating(row: (u16, u8, u8, u8, u8, u8)) -> u16 {
    ((row.2 + row.3 + row.4) / 3) as u16
}

/// An officer set up from its row: id, attributes, loyalty, combined
/// rating, and a category byte with the faction in the high nibble and
/// the id's last decimal digit in the low nibble.
pub open spec fn officer_from_row(o: Officer, row: (u16, u8, u8, u8, u8, u8)) -> Officer {
    Officer {
        id: row.0,
        off4: row.2,
        off5: row.3,
        off6: row.4,
        loyalty: row.5,
        off7: combined_rating(row),
        off3: (((row.1 << 4u8) as u8) | ((row.0 % 10) as u8)) as u8,
        ..o
    }
}

/// The unit of one of the first ten officers: led by the officer, with 3
/// movement points and the officer's rating, placed by id on the top row.
pub open spec fn unit_from_row(u: Unit, row: (u16, u8, u8, u8, u8, u8)) -> Unit {
    Unit {
        id: row.0,
        officer_id: row.0,
        faction_id: row.1,
        attr_1b: 3,
        attr_17: combined_rating(row),
        col: ((row.0 - 1) % 10) as u8,
        row: ((row.0 - 1) / 10) as u8,
        ..u
    }
}

/// The terrain a cell gets: barrier on the border, then forest, mountain,
/// river or plain by a pattern of the coordinates.
pub open spec fn terrain_code(col: u8, row: u8) -> u16 {
    if col < 2 || col > 17 || row < 1 || row > 9 {
        0x0A
    } else if (row + col) % 5 == 0 {
        0x03
    } else if (row * 3 + col) % 7 == 0 {
        0x04
    } else if (row + col * 2) % 6 == 0 {
        0x05
    } else {
        0x02
    }
}

/// The map after terrain is written to the first `k` cells of the 20 x 11
/// grid in row-major order.
pub open spec fn terrain_fill(m: MapView, k: nat) -> MapView
    decreases k,
{
    if k == 0 {
        m
    } else {
        let c = ((k - 1) % 20) as u8;
        let r = ((k - 1) / 20) as u8;
        terrain_fill(m, (k - 1) as nat).set(c, r, terrain_code(c, r))
    }
}

/// The map after the first `k` cities mark their cells as city tiles: a
/// valid city with id `i` sits at column `(i - 1) % 10 + 5`, row
/// `(i - 1) / 10 + 3`, when that lies in the grid.
pub open spec fn city_marks(m: MapView, cs: Seq<City>, k: nat) -> MapView
    decreases k,
{
    if k == 0 {
        m
    } else {
        let m1 = city_marks(m, cs, (k - 1) as nat);
        let c = cs[k - 1];
        if c.ownership != 0 {
            let col = (c.id - 1) % 10 + 5;
            let row = (c.id - 1) / 10 + 3;
            if col < 20 && row < 11 {
                m1.set(col as u8, row as u8, 0x01)
            } else {
                m1
            }
        } else {
            m1
        }
    }
}

/// The map after the first `k` units mark their cells occupied (bit 8).
pub open spec fn unit_marks(m: MapView, us: Seq<Unit>, k: nat) -> MapView
    decreases k,
{
    if k == 0 {
        m
    } else {
        let m1 = unit_marks(m, us, (k - 1) as nat);
        let u = us[k - 1];
        if u.valid() {
            m1.set(u.col, u.row, m1.tile_at(u.col, u.row) | 0x0100)
        } else {
            m1
        }
    }
}

/// Everything that a scenario set-up leaves alone is unchanged.
pub open spec fn scenario_frame(a: GameState, b: GameState) -> bool {
    &&& a.officers.ext_b@ == b.officers.ext_b@
    &&& a.officers.ext_c@ == b.officers.ext_c@
    &&& a.officers.invalid == b.officers.invalid
    &&& a.cities.invalid == b.cities.invalid
    &&& a.factions.invalid == b.factions.invalid
    &&& a.map.same_frame(&b.map)
    &&& a.time_ticks == b.time_ticks
    &&& a.active_unit_idx == b.active_unit_idx
    &&& a.exit_flag == b.exit_flag
    &&& a.rng_state == b.rng_state
    &&& a.global_slots == b.global_slots
    &&& a.dialog_slot_attr15 == b.dialog_slot_attr15
    &&& a.dialog_slot_attr1e == b.dialog_slot_attr1e
}

/// Every valid city that the scenario does not overwrite has an id of at
/// least 1, so that its map position can be computed.
pub open spec fn other_cities_have_ids(game: GameState) -> bool {
    forall|i: int|
        0 <= i < CITY_COUNT && !(1 <= i <= 10) && #[trigger] game.cities.cities@[i].ownership != 0
            ==> game.cities.cities@[i].id >= 1
}

/// Sets up a new game from scenario `scenario_id` (2 starts in 200, any
/// other in 189): round 1 in strategy mode, the factions, cities, officers
/// and the first ten units from the scenario tables, then the map: terrain,
/// city tiles, and occupancy marks of the valid units.
pub fn init_new_scenario(game: &mut GameState, scenario_id: u8)
    requires
        old(game).wf(),
        other_cities_have_ids(*old(game)),
    ensures
        final(game).wf(),
        scenario_frame(*final(game), *old(game)),
        final(game).turn == 1,
        final(game).game_mode == 0,
        final(game).normal_state,
        !final(game).alternate_mode,
        final(game).year == scenario_year(scenario_id),
        final(game).month == 1,
        final(game).day == 1,
        forall|i: int|
            0 <= i < FACTION_COUNT ==> #[trigger] final(game).factions.factions@[i] == faction_from_row(
                old(game).factions.factions@[i],
                faction_rows()[i],
            ),
        final(game).factions.factions@.len() == old(game).factions.factions@.len(),
        forall|i: int|
            0 <= i < CITY_COUNT ==> #[trigger] final(game).cities.cities@[i] == if 1 <= i <= 10 {
                city_from_row(old(game).cities.cities@[i], scenario_cities()[i - 1])
            } else {
                old(game).cities.cities@[i]
            },
        forall|i: int|
            0 <= i < OFFICER_COUNT ==> #[trigger] final(game).officers.officers@[i] == if 1 <= i <= 20 {
                officer_from_row(old(game).officers.officers@[i], scenario_officers()[i - 1])
            } else {
                old(game).officers.officers@[i]
            },
        forall|k: int|
            0 <= k < MAX_UNITS ==> #[trigger] final(game).units.units@[k] == if k < 10 {
                unit_from_row(old(game).units.units@[k], scenario_officers()[k])
            } else {
                old(game).units.units@[k]
            },
        final(game).map@ == unit_marks(
            city_marks(terrain_fill(old(game).map@, 220), final(game).cities.cities@, CITY_COUNT as nat),
            final(game).units.units@,
            MAX_UNITS as nat,
        ),
{
    game.turn = 1;
    game.game_mode = 0;
    game.normal_state = true;
    game.alternate_mode = false;
    if scenario_id == 2 {
        init_scenario_2(game);
    } else {
        init_scenario_1(game);
    }
    init_map(game);
}

/// Scenario 1: the year 189, with the standard tables.
fn init_scenario_1(game: &mut GameState)
    requires
        old(game).wf(),
        other_cities_have_ids(*old(game)),
    ensures
        final(game).year == 189,
        tables_set(*final(game), *old(game)),
{
    game.year = 189;
    game.month = 1;
    game.day = 1;
    init_factions(game);
    init_cities_s1(game);
    init_officers_s1(game);
}

/// Scenario 2: the year 200, with the same tables as scenario 1.
fn init_scenario_2(game: &mut GameState)
    requires
        old(game).wf(),
        other_cities_have_ids(*old(game)),
    ensures
        final(game).year == 200,
        tables_set(*final(game), *old(game)),
{
    game.year = 200;
    game.month = 1;
    game.day = 1;
    init_factions(game);
    init_cities_s2(game);
    init_officers_s2(game);
}

/// `b` is `a` with the calendar set to the first of month 1 and the
/// faction, city, officer and unit tables set from the scenario.
pub open spec fn tables_set(b: GameState, a: GameState) -> bool {
    &&& b.wf()
    &&& scenario_frame(b, a)
    &&& b.map@ == a.map@
    &&& b.turn == a.turn
    &&& b.game_mode == a.game_mode
    &&& b.normal_state == a.normal_state
    &&& b.alternate_mode == a.alternate_mode
    &&& b.month == 1
    &&& b.day == 1
    &&& other_cities_have_ids(b)
    &&& b.factions.factions@.len() == a.factions.factions@.len()
    &&& forall|i: int|
        0 <= i < FACTION_COUNT ==> #[trigger] b.factions.factions@[i] == faction_from_row(
            a.factions.factions@[i],
            faction_rows()[i],
        )
    &&& forall|i: int|
        0 <= i < CITY_COUNT ==> #[trigger] b.cities.cities@[i] == if 1 <= i <= 10 {
            city_from_row(a.cities.cities@[i], scenario_cities()[i - 1])
        } else {
            a.cities.cities@[i]
        }
    &&& forall|i: int|
        0 <= i < OFFICER_COUNT ==> #[trigger] b.officers.officers@[i] == if 1 <= i <= 20 {
            officer_from_row(a.officers.officers@[i], scenario_officers()[i - 1])
        } else {
            a.officers.officers@[i]
        }
    &&& forall|k: int|
        0 <= k < MAX_UNITS ==> #[trigger] b.units.units@[k] == if k < 10 {
            unit_from_row(a.units.units@[k], scenario_officers()[k])
        } else {
            a.units.units@[k]
        }
}

/// Sets up the seven faction slots (see `faction_from_row`).
fn init_factions(game: &mut GameState)
    requires
        old(game).wf(),
    ensures
        final(game).wf(),
        final(game).factions.invalid == old(game).factions.invalid,
        final(game).factions.factions@.len() == old(game).factions.factions@.len(),
        forall|i: int|
            0 <= i < FACTION_COUNT ==> #[trigger] final(game).factions.factions@[i] == faction_from_row(
                old(game).factions.factions@[i],
                faction_rows()[i],
            ),
        final(game).officers == old(game).officers,
        final(game).cities == old(game).cities,
        final(game).units == old(game).units,
        final(game).map == old(game).map,
        scenario_frame(*final(game), *old(game)),
        final(game).turn == old(game).turn,
        final(game).year == old(game).year,
        final(game).month == old(game).month,
        final(game).day == old(game).day,
        final(game).game_mode == old(game).game_mode,
        final(game).normal_state == old(game).normal_state,
        final(game).alternate_mode == old(game).alternate_mode,
{
    let faction_data: [(u8, u8); 7] = [(1, 4), (2, 2), (3, 3), (4, 5), (5, 6), (6, 1), (7, 7)];
    assert(faction_data@ =~= faction_rows());
    let mut i: usize = 0;
    while i < 7
        invariant
            i <= 7,
            faction_data@ == faction_rows(),
            game.wf(),
            game.factions.invalid == old(game).factions.invalid,
            game.factions.factions@.len() == old(game).factions.factions@.len(),
            forall|j: int|
                0 <= j < FACTION_COUNT ==> #[trigger] game.factions.factions@[j] == if j < i {
                    faction_from_row(old(game).factions.factions@[j], faction_rows()[j])
                } else {
                    old(game).factions.factions@[j]
                },
            game.officers == old(game).officers,
            game.cities == old(game).cities,
            game.units == old(game).units,
            game.map == old(game).map,
            scenario_frame(*game, *old(game)),
            game.turn == old(game).turn,
            game.year == old(game).year,
            game.month == old(game).month,
            game.day == old(game).day,
            game.game_mode == old(game).game_mode,
            game.normal_state == old(game).normal_state,
            game.alternate_mode == old(game).alternate_mode,
        decreases 7 - i,
    {
        let (id, color) = faction_data[i];
        game.factions.factions[i].id = id;
        game.factions.factions[i].color = color;
        game.factions.factions[i].gold = 1000;
        game.factions.factions[i].food = 2000;
        i = i + 1;
    }
}

/// Sets up cities 1 to 10 (see `city_from_row`).
fn init_cities_s1(game: &mut GameState)
    requires
        old(game).wf(),
        other_cities_have_ids(*old(game)),
    ensures
        final(game).wf(),
        final(game).cities.invalid == old(game).cities.invalid,
        forall|i: int|
            0 <= i < CITY_COUNT ==> #[trigger] final(game).cities.cities@[i] == if 1 <= i <= 10 {
                city_from_row(old(game).cities.cities@[i], scenario_cities()[i - 1])
            } else {
                old(game).cities.cities@[i]
            },
        other_cities_have_ids(*final(game)),
        final(game).officers == old(game).officers,
        final(game).factions == old(game).factions,
        final(game).units == old(game).units,
        final(game).map == old(game).map,
        scenario_frame(*final(game), *old(game)),
        final(game).turn == old(game).turn,
        final(game).year == old(game).year,
        final(game).month == old(game).month,
        final(game).day == old(game).day,
        final(game).game_mode == old(game).game_mode,
        final(game).normal_state == old(game).normal_state,
        final(game).alternate_mode == old(game).alternate_mode,
{
    let cities: [(u8, u8, u16, u16, u16); 10] = [
        (1, 1, 1000, 1500, 500),
        (2, 1, 800, 1200, 400),
        (3, 2, 600, 1000, 300),
        (4, 3, 700, 1100, 350),
        (5, 3, 500, 800, 250),
        (6, 4, 900, 1300, 450),
        (7, 5, 400, 600, 200),
        (8, 6, 500, 700, 250),
        (9, 7, 600, 900, 300),
        (10, 1, 700, 1000, 350),
    ];
    assert(cities@ =~= scenario_cities());
    let mut k: usize = 0;
    while k < 10
        invariant
            k <= 10,
            cities@ == scenario_cities(),
            game.wf(),
            game.cities.invalid == old(game).cities.invalid,
            forall|i: int|
                0 <= i < CITY_COUNT ==> #[trigger] game.cities.cities@[i] == if 1 <= i <= k {
                    city_from_row(old(game).cities.cities@[i], scenario_cities()[i - 1])
                } else {
                    old(game).cities.cities@[i]
                },
            other_cities_have_ids(*old(game)),
            game.officers == old(game).officers,
            game.factions == old(game).factions,
            game.units == old(game).units,
            game.map == old(game).map,
            scenario_frame(*game, *old(game)),
            game.turn == old(game).turn,
            game.year == old(game).year,
            game.month == old(game).month,
            game.day == old(game).day,
            game.game_mode == old(game).game_mode,
            game.normal_state == old(game).normal_state,
            game.alternate_mode == old(game).alternate_mode,
        decreases 10 - k,
    {
        let (id, owner, gold, food, troops) = cities[k];
        assert(id == k + 1);
        let city = game.cities.get_mut(id);
        city.id = id;
        city.ownership = owner;
        city.off_0f = gold;
        city.off_11 = food;
        city.off_13 = troops;
        city.off_15 = 50;
        city.off_18 = 10;
        city.off_19 = 10;
        city.off_1d = 50;
        city.off_1e = 50;
        k = k + 1;
    }
    assert(other_cities_have_ids(*game));
}

/// Scenario 2 uses the cities of scenario 1.
fn init_cities_s2(game: &mut GameState)
    requires
        old(game).wf(),
        other_cities_have_ids(*old(game)),
    ensures
        final(game).wf(),
        final(game).cities.invalid == old(game).cities.invalid,
        forall|i: int|
            0 <= i < CITY_COUNT ==> #[trigger] final(game).cities.cities@[i] == if 1 <= i <= 10 {
                city_from_row(old(game).cities.cities@[i], scenario_cities()[i - 1])
            } else {
                old(game).cities.cities@[i]
            },
        other_cities_have_ids(*final(game)),
        final(game).officers == old(game).officers,
        final(game).factions == old(game).factions,
        final(game).units == old(game).units,
        final(game).map == old(game).map,
        scenario_frame(*final(game), *old(game)),
        final(game).turn == old(game).turn,
        final(game).year == old(game).year,
        final(game).month == old(game).month,
        final(game).day == old(game).day,
        final(game).game_mode == old(game).game_mode,
        final(game).normal_state == old(game).normal_state,
        final(game).alternate_mode == old(game).alternate_mode,
{
    init_cities_s1(game);
}

/// Sets up officers 1 to 20 (see `officer_from_row`) and the units of
/// officers 1 to 10 (see `unit_from_row`).
fn init_officers_s1(game: &mut GameState)
    requires
        old(game).wf(),
    ensures
        final(game).wf(),
        final(game).officers.ext_b@ == old(game).officers.ext_b@,
        final(game).officers.ext_c@ == old(game).officers.ext_c@,
        final(game).officers.invalid == old(game).officers.invalid,
        forall|i: int|
            0 <= i < OFFICER_COUNT ==> #[trigger] final(game).officers.officers@[i] == if 1 <= i <= 20 {
                officer_from_row(old(game).officers.officers@[i], scenario_officers()[i - 1])
            } else {
                old(game).officers.officers@[i]
            },
        forall|k: int|
            0 <= k < MAX_UNITS ==> #[trigger] final(game).units.units@[k] == if k < 10 {
                unit_from_row(old(game).units.units@[k], scenario_officers()[k])
            } else {
                old(game).units.units@[k]
            },
        final(game).cities == old(game).cities,
        final(game).factions == old(game).factions,
        final(game).map == old(game).map,
        scenario_frame(*final(game), *old(game)),
        final(game).turn == old(game).turn,
        final(game).year == old(game).year,
        final(game).month == old(game).month,
        final(game).day == old(game).day,
        final(game).game_mode == old(game).game_mode,
        final(game).normal_state == old(game).normal_state,
        final(game).alternate_mode == old(game).alternate_mode,
{
    let officers: [(u16, u8, u8, u8, u8, u8); 20] = [
        (1, 1, 90, 95, 70, 200),
        (2, 1, 85, 80, 75, 180),
        (3, 1, 80, 75, 70, 170),
        (4, 1, 88, 82, 68, 190),
        (5, 1, 75, 70, 65, 160),
        (6, 2, 92, 95, 80, 200),
        (7, 2, 95, 98, 85, 220),
        (8, 2, 93, 96, 90, 220),
        (9, 2, 90, 88, 75, 190),
        (10, 3, 88, 90, 78, 200),
        (11, 3, 85, 82, 72, 180),
        (12, 3, 80, 78, 68, 170),
        (13, 4, 82, 85, 70, 180),
        (14, 4, 78, 75, 65, 160),
        (15, 4, 76, 73, 63, 155),
        (16, 5, 75, 70, 60, 150),
        (17, 6, 80, 82, 68, 170),
        (18, 6, 85, 80, 72, 180),
        (19, 7, 78, 80, 65, 165),
        (20, 1, 90, 88, 72, 185),
    ];
    assert(officers@ =~= scenario_officers());
    let mut k: usize = 0;
    while k < 20
        invariant
            k <= 20,
            officers@ == scenario_officers(),
            game.wf(),
            game.officers.ext_b@ == old(game).officers.ext_b@,
            game.officers.ext_c@ == old(game).officers.ext_c@,
            game.officers.invalid == old(game).officers.invalid,
            forall|i: int|
                0 <= i < OFFICER_COUNT ==> #[trigger] game.officers.officers@[i] == if 1 <= i <= k {
                    officer_from_row(old(game).officers.officers@[i], scenario_officers()[i - 1])
                } else {
                    old(game).officers.officers@[i]
                },
            forall|j: int|
                0 <= j < MAX_UNITS ==> #[trigger] game.units.units@[j] == if j < k && j < 10 {
                    unit_from_row(old(game).units.units@[j], scenario_officers()[j])
                } else {
                    old(game).units.units@[j]
                },
            game.cities == old(game).cities,
            game.factions == old(game).factions,
            game.map == old(game).map,
            scenario_frame(*game, *old(game)),
            game.turn == old(game).turn,
            game.year == old(game).year,
            game.month == old(game).month,
            game.day == old(game).day,
            game.game_mode == old(game).game_mode,
            game.normal_state == old(game).normal_state,
            game.alternate_mode == old(game).alternate_mode,
        decreases 20 - k,
    {
        let (id, faction, intel, pol, chr, loyalty) = officers[k];
        assert(id == k + 1);
        let off7 = (intel as u16 + pol as u16 + chr as u16) / 3;
        let off3 = (faction << 4) | (id % 10) as u8;
        {
            let officer = game.officers.get_mut(id);
            officer.id = id;
            officer.off4 = intel;
            officer.off5 = pol;
            officer.off6 = chr;
            officer.loyalty = loyalty;
            officer.off7 = off7;
            officer.off3 = off3;
        }
        if id <= 10 {
            let unit_idx = (id - 1) as usize;
            if unit_idx < game.units.units.len() {
                game.units.units[unit_idx].id = id;
                game.units.units[unit_idx].officer_id = id;
                game.units.units[unit_idx].faction_id = faction;
                game.units.units[unit_idx].attr_1b = 3;
                game.units.units[unit_idx].attr_17 = off7;
                game.units.units[unit_idx].col = ((id - 1) % 10) as u8;
                game.units.units[unit_idx].row = ((id - 1) / 10) as u8;
            }
        }
        k = k + 1;
    }
}

/// Scenario 2 uses the officers of scenario 1.
fn init_officers_s2(game: &mut GameState)
    requires
        old(game).wf(),
    ensures
        final(game).wf(),
        final(game).officers.ext_b@ == old(game).officers.ext_b@,
        final(game).officers.ext_c@ == old(game).officers.ext_c@,
        final(game).officers.invalid == old(game).officers.invalid,
        forall|i: int|
            0 <= i < OFFICER_COUNT ==> #[trigger] final(game).officers.officers@[i] == if 1 <= i <= 20 {
                officer_from_row(old(game).officers.officers@[i], scenario_officers()[i - 1])
            } else {
                old(game).officers.officers@[i]
            },
        forall|k: int|
            0 <= k < MAX_UNITS ==> #[trigger] final(game).units.units@[k] == if k < 10 {
                unit_from_row(old(game).units.units@[k], scenario_officers()[k])
            } else {
                old(game).units.units@[k]
            },
        final(game).cities == old(game).cities,
        final(game).factions == old(game).factions,
        final(game).map == old(game).map,
        scenario_frame(*final(game), *old(game)),
        final(game).turn == old(game).turn,
        final(game).year == old(game).year,
        final(game).month == old(game).month,
        final(game).day == old(game).day,
        final(game).game_mode == old(game).game_mode,
        final(game).normal_state == old(game).normal_state,
        final(game).alternate_mode == old(game).alternate_mode,
{
    init_officers_s1(game);
}

/// `b` is `a` with at most the map's tiles changed.
pub open spec fn map_only_changed(b: GameState, a: GameState) -> bool {
    &&& b.map.wf()
    &&& b.map.same_frame(&a.map)
    &&& b.officers == a.officers
    &&& b.cities == a.cities
    &&& b.factions == a.factions
    &&& b.units == a.units
    &&& b.turn == a.turn
    &&& b.year == a.year
    &&& b.month == a.month
    &&& b.day == a.day
    &&& b.game_mode == a.game_mode
    &&& b.normal_state == a.normal_state
    &&& b.alternate_mode == a.alternate_mode
    &&& b.time_ticks == a.time_ticks
    &&& b.active_unit_idx == a.active_unit_idx
    &&& b.exit_flag == a.exit_flag
    &&& b.rng_state == a.rng_state
    &&& b.global_slots == a.global_slots
    &&& b.dialog_slot_attr15 == a.dialog_slot_attr15
    &&& b.dialog_slot_attr1e == a.dialog_slot_attr1e
}

/// Writes the map: terrain over the 20 x 11 grid, then the city tiles of
/// the valid cities, then the occupancy marks of the valid units.
fn init_map(game: &mut GameState)
    requires
        old(game).wf(),
        forall|i: int|
            0 <= i < CITY_COUNT && #[trigger] old(game).cities.cities@[i].ownership != 0
                ==> old(game).cities.cities@[i].id >= 1,
    ensures
        final(game).wf(),
        final(game).map.same_frame(&old(game).map),
        final(game).map@ == unit_marks(
            city_marks(terrain_fill(old(game).map@, 220), old(game).cities.cities@, CITY_COUNT as nat),
            old(game).units.units@,
            MAX_UNITS as nat,
        ),
        final(game).officers == old(game).officers,
        final(game).cities == old(game).cities,
        final(game).factions == old(game).factions,
        final(game).units == old(game).units,
        final(game).turn == old(game).turn,
        final(game).year == old(game).year,
        final(game).month == old(game).month,
        final(game).day == old(game).day,
        final(game).game_mode == old(game).game_mode,
        final(game).normal_state == old(game).normal_state,
        final(game).alternate_mode == old(game).alternate_mode,
        final(game).time_ticks == old(game).time_ticks,
        final(game).active_unit_idx == old(game).active_unit_idx,
        final(game).exit_flag == old(game).exit_flag,
        final(game).rng_state == old(game).rng_state,
        final(game).global_slots == old(game).global_slots,
        final(game).dialog_slot_attr15 == old(game).dialog_slot_attr15,
        final(game).dialog_slot_attr1e == old(game).dialog_slot_attr1e,
{
    let ghost m0 = game.map@;
    let mut row: u8 = 0;
    while row < 11
        invariant
            row <= 11,
            old(game).wf(),
            map_only_changed(*game, *old(game)),
            m0 == old(game).map@,
            game.map@ == terrain_fill(m0, (row * 20) as nat),
        decreases 11 - row,
    {
        let mut col: u8 = 0;
        while col < 20
            invariant
                col <= 20,
                row < 11,
                old(game).wf(),
                map_only_changed(*game, *old(game)),
                m0 == old(game).map@,
                game.map@ == terrain_fill(m0, (row * 20 + col) as nat),
            decreases 20 - col,
        {
            let tile_type: u16 = if col < 2 || col > 17 || row < 1 || row > 9 {
                0x0A
            } else if (row + col) % 5 == 0 {
                0x03
            } else if (row * 3 + col) % 7 == 0 {
                0x04
            } else if (row + col * 2) % 6 == 0 {
                0x05
            } else {
                0x02
            };
            game.map.set_tile(col, row, tile_type);
            proof {
                let k = (row * 20 + col + 1) as nat;
                assert((k - 1) % 20 == col && (k - 1) / 20 == row) by (nonlinear_arith)
                    requires
                        k - 1 == row * 20 + col,
                        col < 20,
                ;
            }
            col = col + 1;
        }
        row = row + 1;
    }
    let ghost m1 = game.map@;
    let mut i: usize = 0;
    while i < game.cities.cities.len()
        invariant
            i <= game.cities.cities@.len(),
            game.cities.cities@.len() == CITY_COUNT,
            old(game).wf(),
            map_only_changed(*game, *old(game)),
            forall|j: int|
                0 <= j < CITY_COUNT && #[trigger] game.cities.cities@[j].ownership != 0
                    ==> game.cities.cities@[j].id >= 1,
            m1 == terrain_fill(old(game).map@, 220),
            game.map@ == city_marks(m1, game.cities.cities@, i as nat),
        decreases game.cities.cities@.len() - i,
    {
        let ownership = game.cities.cities[i].ownership;
        let id = game.cities.cities[i].id;
        if ownership != 0 {
            let col = (id - 1) % 10 + 5;
            let row = (id - 1) / 10 + 3;
            if col < 20 && row < 11 {
                game.map.set_tile(col, row, 0x01);
            }
        }
        i = i + 1;
    }
    let ghost m2 = game.map@;
    let mut k: usize = 0;
    while k < game.units.units.len()
        invariant
            k <= game.units.units@.len(),
            game.units.units@.len() == MAX_UNITS,
            old(game).wf(),
            map_only_changed(*game, *old(game)),
            m2 == city_marks(terrain_fill(old(game).map@, 220), old(game).cities.cities@, CITY_COUNT as nat),
            game.map@ == unit_marks(m2, game.units.units@, k as nat),
        decreases game.units.units@.len() - k,
    {
        let u = game.units.units[k];
        if u.is_valid() {
            let current = game.map.get_tile(u.col, u.row);
            game.map.set_tile(u.col, u.row, current | 0x0100);
        }
        k = k + 1;
    }
}

/// The number of valid cities in the table.
pub fn count_valid_cities(game: &GameState) -> (r: usize)
    ensures
        r == game.cities.cities@.filter(|c: City| c.ownership != 0).len(),
{
    let mut n: usize = 0;
    let mut i: usize = 0;
    while i < game.cities.cities.len()
        invariant
            i <= game.cities.cities@.len(),
            n == game.cities.cities@.take(i as int).filter(|c: City| c.ownership != 0).len(),
            n <= i,
        decreases game.cities.cities@.len() - i,
    {
        proof {
            let s = game.cities.cities@;
            s.take(i as int).lemma_filter_push(s[i as int], |c: City| c.ownership != 0);
            assert(s.take(i as int).push(s[i as int]) =~= s.take(i + 1));
        }
        if game.cities.cities[i].is_valid() {
            n = n + 1;
        }
        i = i + 1;
    }
    assert(game.cities.cities@.take(i as int) =~= game.cities.cities@);
    n
}

/// The number of valid officers in the table.
pub fn count_valid_officers(game: &GameState) -> (r: usize)
    ensures
        r == game.officers.officers@.filter(|o: Officer| o.valid()).len(),
{
    let mut n: usize = 0;
    let mut i: usize = 0;
    while i < game.officers.officers.len()
        invariant
            i <= game.officers.officers@.len(),
            n == game.officers.officers@.take(i as int).filter(|o: Officer| o.valid()).len(),
            n <= i,
        decreases game.officers.officers@.len() - i,
    {
        proof {
            let s = game.officers.officers@;
            s.take(i as int).lemma_filter_push(s[i as int], |o: Officer| o.valid());
            assert(s.take(i as int).push(s[i as int]) =~= s.take(i + 1));
        }
        if game.officers.officers[i].is_valid() {
            n = n + 1;
        }
        i = i + 1;
    }
    assert(game.officers.officers@.take(i as int) =~= game.officers.officers@);
    n
}

/// The number of factions in use.
pub fn count_valid_factions(game: &GameState) -> (r: usize)
    ensures
        r == game.factions.factions@.filter(|f: Faction| f.id != 0).len(),
{
    let mut n: usize = 0;
    let mut i: usize = 0;
    while i < game.factions.factions.len()
        invariant
            i <= game.factions.factions@.len(),
            n == game.factions.factions@.take(i as int).filter(|f: Faction| f.id != 0).len(),
            n <= i,
        decreases game.factions.factions@.len() - i,
    {
        proof {
            let s = game.factions.factions@;
            s.take(i as int).lemma_filter_push(s[i as int], |f: Faction| f.id != 0);
            assert(s.take(i as int).push(s[i as int]) =~= s.take(i + 1));
        }
        if game.factions.factions[i].is_valid() {
            n = n + 1;
        }
        i = i + 1;
    }
    assert(game.factions.factions@.take(i as int) =~= game.factions.factions@);
    n
}

} // verus!
