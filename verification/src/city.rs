//! City management: resource accumulation and depletion over all cities.

use vstd::prelude::*;
use crate::data::officer::{Officer, bit_ratio_spec};
use crate::data::city::{City, stat_at, sat_sub_u8, development_output, with_stat_dec};
use crate::data::game_state::GameState;

pub use crate::data::city::{CityStore, CITY_COUNT, CITY_PLAYABLE};

verus! {

/// An officer that the accumulation scan counts: valid, not disabled, of
/// ratio class (`off7` under mask `off9`) neither 7 nor 8, and of loyalty
/// below 21.
pub open spec fn accumulation_counts(o: Officer) -> bool {
    &&& o.valid()
    &&& !o.disabled()
    &&& bit_ratio_spec(o.off7, o.off9) != 7
    &&& bit_ratio_spec(o.off7, o.off9) != 8
    &&& o.loyalty < 21
}

/// Resource accumulation scan over the playable cities and the officers.
/// The scan reads gold, food and troops of every valid playable city and
/// counts the officers that are valid, not disabled, not of ratio class 7
/// or 8 and of loyalty below 21; it writes nothing back, so the game is
/// unchanged.
pub fn accumulate_all_stats(game: &mut GameState) -> (r: usize)
    requires
        old(game).wf(),
    ensures
        *final(game) == *old(game),
        r == old(game).officers.officers@.filter(|o: Officer| accumulation_counts(o)).len(),
{
    let mut city_id: u8 = 0;
    while (city_id as usize) < CITY_PLAYABLE
        invariant
            game.wf(),
            city_id as int <= CITY_PLAYABLE,
        decreases CITY_PLAYABLE - city_id as int,
    {
        let city = game.cities.get(city_id);
        if !city.is_valid() {
            city_id = city_id + 1;
            continue;
        }
        let _gold = city.off_0f;
        let _food = city.off_11;
        let _troops = city.off_13;
        city_id = city_id + 1;
    }
    let mut counted: usize = 0;
    let mut i: usize = 0;
    while i < game.officers.officers.len()
        invariant
            i <= game.officers.officers@.len(),
            counted <= i,
            counted == game.officers.officers@.take(i as int).filter(
                |o: Officer| accumulation_counts(o),
            ).len(),
            *game == *old(game),
        decreases game.officers.officers@.len() - i,
    {
        proof {
            let s = game.officers.officers@;
            s.take(i as int).lemma_filter_push(s[i as int], |o: Officer| accumulation_counts(o));
            assert(s.take(i as int).push(s[i as int]) =~= s.take(i + 1));
        }
        let officer = &game.officers.officers[i];
        i = i + 1;
        if !officer.is_valid() || officer.is_disabled() {
            continue;
        }
        if Officer::bit_ratio_is_7(officer.off7, officer.off9) {
            continue;
        }
        if Officer::bit_ratio_is_8(officer.off7, officer.off9) {
            continue;
        }
        if officer.loyalty >= 21 {
            continue;
        }
        counted = counted + 1;
    }
    assert(game.officers.officers@.take(i as int) =~= game.officers.officers@);
    counted
}

/// A city after one depletion step. In mode 0 the consumables shrink by a
/// fifth (`off_1d`) and a quarter (`off_1e`) of the deficit `60 - off_1d`;
/// in any other mode both are used up completely.
pub open spec fn depleted(c: City, mode: u8) -> City {
    if mode == 0 {
        let deficit: int = if c.off_1d >= 60 {
            0
        } else {
            60 - c.off_1d
        };
        City {
            off_1d: sat_sub_u8(c.off_1d, (deficit / 5) as u8),
            off_1e: sat_sub_u8(c.off_1e, (deficit / 4) as u8),
            ..c
        }
    } else {
        City { off_1d: 0, off_1e: 0, ..c }
    }
}

/// The depletion rule. Only the two consumables change, and never grow.
/// In mode 0 a city at 60 or above keeps them; below 60 it loses a fifth
/// of its shortfall `60 - off_1d` from `off_1d` and a quarter of it from
/// `off_1e`, stopping at 0, so a city at 55 or below always loses some
/// `off_1d` (while it has any) and a city at 56 or below always loses some
/// `off_1e` (while it has any). In any other mode both are used up.
pub proof fn lemma_depletion(c: City, mode: u8)
    ensures
        ({
            let r = depleted(c, mode);
            let short: int = 60 - c.off_1d;
            &&& r == City { off_1d: r.off_1d, off_1e: r.off_1e, ..c }
            &&& r.off_1d <= c.off_1d && r.off_1e <= c.off_1e
            &&& mode != 0 ==> r.off_1d == 0 && r.off_1e == 0
            &&& mode == 0 && c.off_1d >= 60 ==> r == c
            &&& mode == 0 && c.off_1d < 60 ==> r.off_1d as int == (if c.off_1d >= short / 5 {
                c.off_1d - short / 5
            } else {
                0
            }) && r.off_1e as int == (if c.off_1e >= short / 4 {
                c.off_1e - short / 4
            } else {
                0
            })
            &&& mode == 0 && c.off_1d <= 55 && c.off_1d > 0 ==> r.off_1d < c.off_1d
            &&& mode == 0 && c.off_1d <= 56 && c.off_1e > 0 ==> r.off_1e < c.off_1e
        }),
{
}

/// The city slot `i` after a depletion pass: valid playable cities are
/// depleted, every other slot is left alone.
pub open spec fn deplete_slot(c: City, i: int, mode: u8) -> City {
    if i < CITY_PLAYABLE && c.valid() {
        depleted(c, mode)
    } else {
        c
    }
}

/// Resource depletion over the playable cities.
pub fn resource_deplete_loop(game: &mut GameState, mode: u8)
    requires
        old(game).wf(),
    ensures
        final(game).cities.cities@.len() == old(game).cities.cities@.len(),
        forall|i: int|
            0 <= i < old(game).cities.cities@.len() ==> #[trigger] final(game).cities.cities@[i]
                == deplete_slot(old(game).cities.cities@[i], i, mode),
        *final(game) == (GameState { cities: final(game).cities, ..*old(game) }),
        final(game).cities.invalid == old(game).cities.invalid,
        final(game).wf(),
{
    let mut city_id: u8 = 0;
    while (city_id as usize) < CITY_PLAYABLE
        invariant
            game.wf(),
            city_id as int <= CITY_PLAYABLE,
            game.cities.cities@.len() == old(game).cities.cities@.len(),
            forall|i: int|
                0 <= i < old(game).cities.cities@.len() ==> #[trigger] game.cities.cities@[i] == (
                if i < city_id {
                    deplete_slot(old(game).cities.cities@[i], i, mode)
                } else {
                    old(game).cities.cities@[i]
                }),
            *game == (GameState { cities: game.cities, ..*old(game) }),
            game.cities.invalid == old(game).cities.invalid,
        decreases CITY_PLAYABLE - city_id as int,
    {
        let c = &game.cities.cities[city_id as usize];
        if !c.is_valid() {
            city_id = city_id + 1;
            continue;
        }
        let (rate_1d, rate_1e) = if mode == 0 {
            let deficit = 60u8.saturating_sub(c.off_1d);
            (deficit / 5, deficit / 4)
        } else {
            (c.stat_read(0x1D), c.stat_read(0x1E))
        };
        let ghost o = old(game).cities.cities@[city_id as int];
        assert(rate_1d == (if mode == 0 { (if o.off_1d >= 60 { 0int } else { 60 - o.off_1d }) / 5 } else { o.off_1d as int }));
        assert(rate_1e == (if mode == 0 { (if o.off_1d >= 60 { 0int } else { 60 - o.off_1d }) / 4 } else { o.off_1e as int }));
        let city = game.cities.get_mut(city_id);
        city.stat_dec(0x1D, rate_1d);
        city.stat_dec(0x1E, rate_1e);
        assert(game.cities.cities@[city_id as int] == with_stat_dec(with_stat_dec(o, 0x1D, rate_1d), 0x1E, rate_1e));
        assert(game.cities.cities@[city_id as int] == deplete_slot(
            old(game).cities.cities@[city_id as int],
            city_id as int,
            mode,
        ));
        city_id = city_id + 1;
    }
}

/// Gold income of a city per round: its development output under its
/// governance, divided by 100 and capped at `u16::MAX`.
pub open spec fn gold_income(c: City) -> u16 {
    let v = development_output(c, c.off_15) / 100;
    if v > u16::MAX {
        u16::MAX
    } else {
        v as u16
    }
}

/// Food income of a city per round: five per point of `off_19`.
pub open spec fn food_income(c: City) -> u16 {
    (c.off_19 * 5) as u16
}

/// `a + b`, capped at `u16::MAX`.
pub open spec fn sat_add_u16(a: u16, b: u16) -> u16 {
    if a + b > u16::MAX {
        u16::MAX
    } else {
        (a + b) as u16
    }
}

/// A valid playable city after collecting its income.
pub open spec fn with_income(c: City) -> City {
    City {
        off_0f: sat_add_u16(c.off_0f, gold_income(c)),
        off_11: sat_add_u16(c.off_11, food_income(c)),
        ..c
    }
}

/// The income rule. Collecting income changes only the gold and food
/// stores, and never lowers them. Food grows by five per point of `off_19`
/// and gold by the development output under the city's governance
/// (`((off_18 / 2) * (off_1c + 1) + off_18) * off_15`) divided by 100, each
/// store stopping at `u16::MAX`.
pub proof fn lemma_income(c: City)
    ensures
        ({
            let r = with_income(c);
            let gold: int = ((c.off_18 / 2) * (c.off_1c + 1) + c.off_18) * c.off_15 / 100;
            let food: int = 5 * c.off_19;
            &&& r == City { off_0f: r.off_0f, off_11: r.off_11, ..c }
            &&& r.off_0f >= c.off_0f && r.off_11 >= c.off_11
            &&& r.off_11 as int == (if c.off_11 + food > 0xFFFF {
                0xFFFFint
            } else {
                c.off_11 + food
            })
            &&& r.off_0f as int == (if c.off_0f + gold > 0xFFFF {
                0xFFFFint
            } else {
                c.off_0f + gold
            })
        }),
{
    let gold: int = ((c.off_18 / 2) * (c.off_1c + 1) + c.off_18) * c.off_15 / 100;
    assert(gold >= 0) by (nonlinear_arith)
        requires
            gold == ((c.off_18 / 2) * (c.off_1c + 1) + c.off_18) * c.off_15 / 100,
    ;
    assert(c.off_19 * 5 <= 1275);
}

/// The city slot `i` after an income pass.
pub open spec fn income_slot(c: City, i: int) -> City {
    if i < CITY_PLAYABLE && c.valid() {
        with_income(c)
    } else {
        c
    }
}

/// The gold and food changes of the first `k` slots: one entry (city id,
/// amount actually added) per valid playable city, in slot order.
pub open spec fn income_changes(cities: Seq<City>, k: int, gold: bool) -> Seq<(u8, i32)>
    decreases k,
{
    if k <= 0 {
        Seq::empty()
    } else {
        let prev = income_changes(cities, k - 1, gold);
        let c = cities[k - 1];
        if k - 1 < CITY_PLAYABLE && c.valid() {
            let after = with_income(c);
            prev.push(
                (
                    (k - 1) as u8,
                    if gold {
                        (after.off_0f - c.off_0f) as i32
                    } else {
                        (after.off_11 - c.off_11) as i32
                    },
                ),
            )
        } else {
            prev
        }
    }
}

/// Income collection: every valid playable city adds its gold and food
/// income (see `with_income`); returns the gold and food changes.
pub fn collect_city_income(game: &mut GameState) -> (r: (Vec<(u8, i32)>, Vec<(u8, i32)>))
    requires
        old(game).wf(),
    ensures
        final(game).cities.cities@.len() == old(game).cities.cities@.len(),
        forall|i: int|
            0 <= i < old(game).cities.cities@.len() ==> #[trigger] final(game).cities.cities@[i]
                == income_slot(old(game).cities.cities@[i], i),
        r.0@ == income_changes(old(game).cities.cities@, CITY_PLAYABLE as int, true),
        r.1@ == income_changes(old(game).cities.cities@, CITY_PLAYABLE as int, false),
        *final(game) == (GameState { cities: final(game).cities, ..*old(game) }),
        final(game).cities.invalid == old(game).cities.invalid,
        final(game).wf(),
{
    let mut gold_changes: Vec<(u8, i32)> = Vec::new();
    let mut food_changes: Vec<(u8, i32)> = Vec::new();
    let mut city_id: u8 = 0;
    while (city_id as usize) < CITY_PLAYABLE
        invariant
            game.wf(),
            city_id as int <= CITY_PLAYABLE,
            game.cities.cities@.len() == old(game).cities.cities@.len(),
            forall|i: int|
                0 <= i < old(game).cities.cities@.len() ==> #[trigger] game.cities.cities@[i] == (
                if i < city_id {
                    income_slot(old(game).cities.cities@[i], i)
                } else {
                    old(game).cities.cities@[i]
                }),
            gold_changes@ == income_changes(old(game).cities.cities@, city_id as int, true),
            food_changes@ == income_changes(old(game).cities.cities@, city_id as int, false),
            *game == (GameState { cities: game.cities, ..*old(game) }),
            game.cities.invalid == old(game).cities.invalid,
        decreases CITY_PLAYABLE - city_id as int,
    {
        let c = &game.cities.cities[city_id as usize];
        if !c.is_valid() {
            city_id = city_id + 1;
            continue;
        }
        let raw = c.compute_development_output(c.off_15) / 100;
        let gold_gain: u16 = if raw > u16::MAX as u32 {
            u16::MAX
        } else {
            raw as u16
        };
        let food_gain: u16 = c.off_19 as u16 * 5;
        let old_gold = c.off_0f;
        let old_food = c.off_11;
        let city = game.cities.get_mut(city_id);
        city.off_0f = city.off_0f.saturating_add(gold_gain);
        city.off_11 = city.off_11.saturating_add(food_gain);
        let gold_delta = (city.off_0f - old_gold) as i32;
        let food_delta = (city.off_11 - old_food) as i32;
        gold_changes.push((city_id, gold_delta));
        food_changes.push((city_id, food_delta));
        assert(game.cities.cities@[city_id as int] == income_slot(
            old(game).cities.cities@[city_id as int],
            city_id as int,
        ));
        city_id = city_id + 1;
    }
    (gold_changes, food_changes)
}

/// The income changes are empty exactly when no playable city is valid.
pub proof fn lemma_income_changes_empty(cities: Seq<City>, k: int)
    requires
        0 <= k <= cities.len(),
    ensures
        (income_changes(cities, k, true).len() == 0) <==> (forall|i: int|
            0 <= i < k && i < CITY_PLAYABLE ==> !#[trigger] cities[i].valid()),
        income_changes(cities, k, true).len() == income_changes(cities, k, false).len(),
    decreases k,
{
    if k > 0 {
        lemma_income_changes_empty(cities, k - 1);
    }
}

/// The gold, food and troops held by the valid cities among the first `k`.
pub open spec fn city_totals_spec(cs: Seq<City>, k: int) -> (int, int, int)
    decreases k,
{
    if k <= 0 || k > cs.len() {
        (0, 0, 0)
    } else {
        let t = city_totals_spec(cs, k - 1);
        let c = cs[k - 1];
        if c.ownership != 0 {
            (t.0 + c.off_0f, t.1 + c.off_11, t.2 + c.off_13)
        } else {
            t
        }
    }
}

/// Each total over the first `k` cities is at most `k` times 65535.
proof fn lemma_city_totals_bound(cs: Seq<City>, k: int)
    requires
        0 <= k <= cs.len(),
    ensures
        0 <= city_totals_spec(cs, k).0 <= k * 0xFFFF,
        0 <= city_totals_spec(cs, k).1 <= k * 0xFFFF,
        0 <= city_totals_spec(cs, k).2 <= k * 0xFFFF,
    decreases k,
{
    if k > 0 {
        lemma_city_totals_bound(cs, k - 1);
    }
}

/// The gold, food and troops held by all valid cities.
pub fn city_totals(game: &GameState) -> (r: (u32, u32, u32))
    requires
        game.wf(),
    ensures
        ({
            let t = city_totals_spec(game.cities.cities@, CITY_COUNT as int);
            r.0 == t.0 && r.1 == t.1 && r.2 == t.2
        }),
{
    let mut gold: u32 = 0;
    let mut food: u32 = 0;
    let mut troops: u32 = 0;
    let mut i: usize = 0;
    while i < game.cities.cities.len()
        invariant
            game.wf(),
            i <= CITY_COUNT,
            ({
                let t = city_totals_spec(game.cities.cities@, i as int);
                gold == t.0 && food == t.1 && troops == t.2
            }),
        decreases CITY_COUNT - i,
    {
        proof {
            lemma_city_totals_bound(game.cities.cities@, i as int);
        }
        let c = &game.cities.cities[i];
        if c.is_valid() {
            gold = gold + c.off_0f as u32;
            food = food + c.off_11 as u32;
            troops = troops + c.off_13 as u32;
        }
        i = i + 1;
    }
    (gold, food, troops)
}

} // verus!
