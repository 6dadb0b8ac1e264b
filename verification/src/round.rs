//! Round processing: AI moves, city economy, officer loyalty and the
//! calendar.

use vstd::prelude::*;
use crate::data::officer::{Officer, default_officer};
use crate::data::game_state::GameState;
use crate::ai::decision::{execute_full_pass, pass_fold, board_of};
use crate::city::{accumulate_all_stats, collect_city_income, resource_deplete_loop, income_slot, deplete_slot, income_changes};
use crate::data::city::CITY_PLAYABLE;

verus! {

/// What a round did: the round number, the gold and food each city
/// collected, the loyalty changes of officers and the calendar events.
pub struct RoundReport {
    pub round: u16,
    pub gold_changes: Vec<(u8, i32)>,
    pub food_changes: Vec<(u8, i32)>,
    pub loyalty_changes: Vec<(u16, i32)>,
    pub events: Vec<String>,
}

/// An officer whose loyalty decays this round: valid, not disabled, with a
/// loyalty strictly between 1 and 255.
pub open spec fn loyalty_decays(o: Officer) -> bool {
    o.valid() && !o.disabled() && o.loyalty > 1 && o.loyalty < 255
}

/// An officer after the loyalty decay of a round.
pub open spec fn decayed(o: Officer) -> Officer {
    if loyalty_decays(o) {
        Officer { loyalty: (o.loyalty - 1) as u8, ..o }
    } else {
        o
    }
}

/// The loyalty changes of the first `k` officers: (officer id, -1) per
/// decaying officer, in table order.
pub open spec fn loyalty_changes(s: Seq<Officer>, k: int) -> Seq<(u16, i32)>
    decreases k,
{
    if k <= 0 {
        Seq::empty()
    } else if loyalty_decays(s[k - 1]) {
        loyalty_changes(s, k - 1).push((s[k - 1].id, -1i32))
    } else {
        loyalty_changes(s, k - 1)
    }
}

/// Loyalty decay: every decaying officer loses one point of loyalty.
fn officer_loyalty_decay(game: &mut GameState) -> (r: Vec<(u16, i32)>)
    ensures
        final(game).officers.officers@.len() == old(game).officers.officers@.len(),
        forall|i: int|
            0 <= i < old(game).officers.officers@.len() ==> #[trigger] final(game).officers.officers@[i]
                == decayed(old(game).officers.officers@[i]),
        r@ == loyalty_changes(old(game).officers.officers@, old(game).officers.officers@.len() as int),
        *final(game) == (GameState { officers: final(game).officers, ..*old(game) }),
        final(game).officers.invalid == old(game).officers.invalid,
        final(game).officers.ext_b@ == old(game).officers.ext_b@,
        final(game).officers.ext_c@ == old(game).officers.ext_c@,
{
    let mut changes: Vec<(u16, i32)> = Vec::new();
    let n = game.officers.officers.len();
    let mut i: usize = 0;
    while i < n
        invariant
            n == old(game).officers.officers@.len(),
            i <= n,
            game.officers.officers@.len() == n,
            forall|k: int|
                0 <= k < n ==> #[trigger] game.officers.officers@[k] == (if k < i {
                    decayed(old(game).officers.officers@[k])
                } else {
                    old(game).officers.officers@[k]
                }),
            changes@ == loyalty_changes(old(game).officers.officers@, i as int),
            *game == (GameState { officers: game.officers, ..*old(game) }),
            game.officers.invalid == old(game).officers.invalid,
            game.officers.ext_b@ == old(game).officers.ext_b@,
            game.officers.ext_c@ == old(game).officers.ext_c@,
        decreases n - i,
    {
        let officer = game.officers.officers[i];
        if officer.is_valid() && !officer.is_disabled() && officer.loyalty > 1 && officer.loyalty
            < 255 {
            let mut updated = officer;
            updated.loyalty = officer.loyalty - 1;
            game.officers.officers.set(i, updated);
            changes.push((officer.id, -1));
        }
        i = i + 1;
    }
    changes
}

/// The character of a decimal digit.
pub open spec fn digit_char(d: int) -> char {
    (48 + d) as char
}

/// The decimal digits of `n`.
pub open spec fn decimal(n: nat) -> Seq<char>
    decreases n,
{
    if n < 10 {
        seq![digit_char(n as int)]
    } else {
        decimal(n / 10).push(digit_char((n % 10) as int))
    }
}

/// The calendar event of a new year: its number followed by 年.
pub open spec fn year_text(year: u16) -> Seq<char> {
    decimal(year as nat).push('年')
}

fn digit_str(d: u16) -> (r: &'static str)
    requires
        d < 10,
    ensures
        r@ == seq![digit_char(d as int)],
{
    match d {
        0 => {
            proof {
                reveal_strlit("0");
            }
            "0"
        },
        1 => {
            proof {
                reveal_strlit("1");
            }
            "1"
        },
        2 => {
            proof {
                reveal_strlit("2");
            }
            "2"
        },
        3 => {
            proof {
                reveal_strlit("3");
            }
            "3"
        },
        4 => {
            proof {
                reveal_strlit("4");
            }
            "4"
        },
        5 => {
            proof {
                reveal_strlit("5");
            }
            "5"
        },
        6 => {
            proof {
                reveal_strlit("6");
            }
            "6"
        },
        7 => {
            proof {
                reveal_strlit("7");
            }
            "7"
        },
        8 => {
            proof {
                reveal_strlit("8");
            }
            "8"
        },
        _ => {
            proof {
                reveal_strlit("9");
            }
            "9"
        },
    }
}

/// The decimal representation of `n`.
fn decimal_string(n: u16) -> (r: String)
    ensures
        r@ == decimal(n as nat),
    decreases n,
{
    if n < 10 {
        let mut s = String::new();
        s.append(digit_str(n));
        s
    } else {
        let mut s = decimal_string(n / 10);
        s.append(digit_str(n % 10));
        s
    }
}

/// The text of the new-year event.
pub fn year_event(year: u16) -> (r: String)
    ensures
        r@ == year_text(year),
{
    let mut s = decimal_string(year);
    proof {
        reveal_strlit("年");
    }
    s.append("年");
    s
}

/// The month after `m`: 1 after December (or an out-of-range month).
pub open spec fn next_month(m: u8) -> u8 {
    if m >= 12 {
        1
    } else {
        (m + 1) as u8
    }
}

/// `v + 1`, capped at `u16::MAX`.
pub open spec fn sat_inc(v: u16) -> u16 {
    if v == u16::MAX {
        u16::MAX
    } else {
        (v + 1) as u16
    }
}

/// `after` is the game after one round from `before`, with report `r`:
/// see `round_process`.
pub open spec fn is_round_step(before: GameState, after: GameState, r: RoundReport) -> bool {
    &&& after.wf()
    &&& r.round == before.turn
    &&& after.turn == sat_inc(before.turn)
    &&& after.month == next_month(before.month)
    &&& after.day == 1
    &&& after.year == (if before.month >= 12 {
        sat_inc(before.year)
    } else {
        before.year
    })
    &&& r.events@.len() == (if before.month >= 12 {
        1int
    } else {
        0
    })
    &&& before.month >= 12 ==> r.events@[0]@ == year_text(after.year)
    &&& board_of(&after) == (if before.dialog_slot_attr15 != 0 && before.active_unit_idx is Some {
        pass_fold(board_of(&before), before.normal_state, before.rng_state, 220)
    } else {
        board_of(&before)
    })
    &&& after.cities.cities@.len() == before.cities.cities@.len()
    &&& forall|i: int|
        0 <= i < before.cities.cities@.len() ==> #[trigger] after.cities.cities@[i]
            == deplete_slot(income_slot(before.cities.cities@[i], i), i, 0)
    &&& r.gold_changes@ == income_changes(before.cities.cities@, CITY_PLAYABLE as int, true)
    &&& r.food_changes@ == income_changes(before.cities.cities@, CITY_PLAYABLE as int, false)
    &&& after.officers.officers@.len() == before.officers.officers@.len()
    &&& forall|i: int|
        0 <= i < before.officers.officers@.len() ==> #[trigger] after.officers.officers@[i]
            == decayed(before.officers.officers@[i])
    &&& r.loyalty_changes@ == loyalty_changes(
        before.officers.officers@,
        before.officers.officers@.len() as int,
    )
    &&& after == (GameState {
        officers: after.officers,
        cities: after.cities,
        map: after.map,
        units: after.units,
        turn: after.turn,
        year: after.year,
        month: after.month,
        day: after.day,
        ..before
    })
}

/// One round: the AI pass when a dialog slot and an active unit are set,
/// city income, depletion, loyalty decay and the step to the next month.
///
/// Units and map change only by the AI pass; each valid playable city
/// first collects its income and is then depleted; each decaying officer
/// loses a point of loyalty. The round counter goes up by one, the month
/// advances (a new year after December, with its event) and the day is
/// reset to 1. The report gives the round number before the step.
pub fn round_process(game: &mut GameState) -> (r: RoundReport)
    requires
        old(game).wf(),
    ensures
        is_round_step(*old(game), *final(game), r),
{
    let round = game.turn;
    let ghost g0 = *game;
    // AI moves and turns.
    if game.dialog_slot_attr15 != 0 && game.active_unit_idx.is_some() {
        execute_full_pass(game);
    }
    let ghost g1 = *game;
    // City resources.
    let _counted = accumulate_all_stats(game);
    let (gold_changes, food_changes) = collect_city_income(game);
    let ghost g2 = *game;
    // Depletion and loyalty.
    resource_deplete_loop(game, 0);
    let loyalty_changes = officer_loyalty_decay(game);
    assert forall|i: int| 0 <= i < g0.cities.cities@.len() implies #[trigger] game.cities.cities@[i]
        == deplete_slot(income_slot(g0.cities.cities@[i], i), i, 0) by {
        assert(g2.cities.cities@[i] == income_slot(g1.cities.cities@[i], i));
    }
    // Calendar.
    let mut events: Vec<String> = Vec::new();
    game.turn = game.turn.saturating_add(1);
    if game.month >= 12 {
        game.month = 1;
        game.year = game.year.saturating_add(1);
        events.push(year_event(game.year));
    } else {
        game.month = game.month + 1;
    }
    game.day = 1;
    RoundReport { round, gold_changes, food_changes, loyalty_changes, events }
}

/// Every round moves the round counter on by one (until it saturates),
/// keeps the month in 1..=12 and resets the day; loyalty never rises.
pub proof fn lemma_round_calendar(turn: u16, month: u8, o: Officer)
    ensures
        turn < u16::MAX ==> sat_inc(turn) == turn + 1,
        1 <= next_month(month) <= 12,
        month == 12 ==> next_month(month) == 1,
        decayed(o).loyalty <= o.loyalty,
        decayed(o).id == o.id,
{
}

/// The rules of a round's calendar and loyalty. The month goes from `m`
/// to `m + 1` within a year and from 12 back to 1, and the year goes up
/// exactly when the month was December (or out of range). An officer who
/// is valid, not disabled and whose loyalty is strictly between 1 and 255
/// loses exactly one point of loyalty; every other officer is untouched,
/// and nothing but loyalty ever changes.
pub proof fn lemma_round_rules(month: u8, year: u16, o: Officer)
    ensures
        1 <= month < 12 ==> next_month(month) == month + 1,
        month >= 12 ==> next_month(month) == 1,
        year < u16::MAX ==> sat_inc(year) == year + 1,
        sat_inc(u16::MAX) == u16::MAX,
        decayed(o) == (Officer { loyalty: decayed(o).loyalty, ..o }),
        o.valid() && !o.disabled() && 1 < o.loyalty < 255 ==> decayed(o).loyalty == o.loyalty - 1,
        !(o.valid() && !o.disabled() && 1 < o.loyalty < 255) ==> decayed(o) == o,
{
}

/// The loyalty changes of a round are empty exactly when no officer
/// decays.
pub proof fn lemma_loyalty_changes_empty(s: Seq<Officer>, k: int)
    requires
        0 <= k <= s.len(),
    ensures
        (loyalty_changes(s, k).len() == 0) <==> (forall|i: int|
            0 <= i < k ==> !loyalty_decays(#[trigger] s[i])),
    decreases k,
{
    if k > 0 {
        lemma_loyalty_changes_empty(s, k - 1);
    }
}

/// A round never raises an officer's loyalty, and it moves the round
/// counter on by one (short of its maximum).
pub proof fn lemma_round_keeps_loyalty_down(before: GameState, after: GameState, r: RoundReport)
    requires
        is_round_step(before, after, r),
    ensures
        forall|i: int|
            0 <= i < before.officers.officers@.len() ==> #[trigger] after.officers.officers@[i].loyalty
                <= before.officers.officers@[i].loyalty,
        before.turn < u16::MAX ==> after.turn == before.turn + 1,
{
    assert forall|i: int| 0 <= i < before.officers.officers@.len() implies #[trigger] after.officers.officers@[i].loyalty
        <= before.officers.officers@[i].loyalty by {
        lemma_round_calendar(before.turn, before.month, before.officers.officers@[i]);
    }
    lemma_round_calendar(before.turn, before.month, default_officer());
}

} // verus!
