//! Officer scoring functions and best-candidate selection.

use vstd::prelude::*;
use crate::data::officer::Officer;
use crate::data::city::City;
use crate::data::game_state::{GameState, lcg_next};

verus! {

/// Scoring context registers: action parameter, threshold and position flag.
pub struct ScoreContext {
    pub action_param: u16,
    pub threshold: u16,
    pub position_flag: u8,
}

/// An officer that takes part in scoring: valid and not disabled.
pub open spec fn eligible(o: Officer) -> bool {
    o.valid() && !o.disabled()
}

/// `Some((i, s))` names the officer chosen from `officers` under `scores`:
/// an eligible officer with the highest positive score, the first such one
/// in the list; `None` when no eligible officer scores above 0.
pub open spec fn is_best_scored(officers: Seq<Officer>, scores: Seq<u16>, r: Option<(usize, u16)>) -> bool {
    match r {
        Some((i, s)) => {
            &&& i < officers.len()
            &&& eligible(officers[i as int])
            &&& s == scores[i as int]
            &&& s > 0
            &&& forall|j: int|
                0 <= j < officers.len() && eligible(#[trigger] officers[j]) ==> scores[j] <= s
            &&& forall|j: int|
                0 <= j < i && eligible(#[trigger] officers[j]) ==> scores[j] < s
        },
        None => forall|j: int|
            0 <= j < officers.len() && eligible(#[trigger] officers[j]) ==> scores[j] == 0,
    }
}

/// Strategy-pattern dispatch: scores every eligible officer with `scorer`
/// and returns the index and score of the best one (see `is_best_scored`).
/// `scorer` is called once per eligible officer, in list order.
pub fn officer_score_dispatch<F: Fn(&Officer) -> u16>(officers: &[Officer], scorer: F) -> (r:
    Option<(usize, u16)>)
    requires
        forall|i: int|
            0 <= i < officers@.len() && eligible(officers@[i]) ==> call_requires(
                scorer,
                (&#[trigger] officers@[i],),
            ),
    ensures
        exists|scores: Seq<u16>|
            {
                &&& scores.len() == officers@.len()
                &&& forall|i: int|
                    0 <= i < officers@.len() && eligible(officers@[i]) ==> call_ensures(
                        scorer,
                        (&#[trigger] officers@[i],),
                        scores[i],
                    )
                &&& is_best_scored(officers@, scores, r)
            },
{
    let mut best_id: usize = 0;
    let mut found = false;
    let mut best_score: u16 = 0;
    let ghost mut scores: Seq<u16> = Seq::empty();
    let mut i: usize = 0;
    while i < officers.len()
        invariant
            i <= officers@.len(),
            scores.len() == i,
            forall|k: int|
                0 <= k < officers@.len() && eligible(officers@[k]) ==> call_requires(
                    scorer,
                    (&#[trigger] officers@[k],),
                ),
            forall|k: int|
                0 <= k < i && eligible(officers@[k]) ==> call_ensures(
                    scorer,
                    (&#[trigger] officers@[k],),
                    scores[k],
                ),
            found ==> {
                &&& best_id < i
                &&& eligible(officers@[best_id as int])
                &&& best_score == scores[best_id as int]
                &&& best_score > 0
                &&& forall|j: int| 0 <= j < i && eligible(#[trigger] officers@[j]) ==> scores[j] <= best_score
                &&& forall|j: int| 0 <= j < best_id && eligible(#[trigger] officers@[j]) ==> scores[j] < best_score
            },
            !found ==> best_score == 0 && forall|j: int|
                0 <= j < i && eligible(#[trigger] officers@[j]) ==> scores[j] == 0,
        decreases officers@.len() - i,
    {
        let officer = &officers[i];
        if !officer.is_valid() || officer.is_disabled() {
            proof {
                scores = scores.push(0);
            }
            i = i + 1;
            continue;
        }
        let score = scorer(officer);
        proof {
            scores = scores.push(score);
        }
        if score > best_score {
            best_score = score;
            best_id = i;
            found = true;
        }
        i = i + 1;
    }
    let r = if found {
        Some((best_id, best_score))
    } else {
        None
    };
    assert(is_best_scored(officers@, scores, r));
    assert(forall|k: int|
        0 <= k < officers@.len() && eligible(officers@[k]) ==> call_ensures(
            scorer,
            (&#[trigger] officers@[k],),
            scores[k],
        ));
    r
}

/// Military score: the mean of INT and POL (50 when both are 0), 0 below 50.
pub open spec fn military_score(o: Officer) -> u16 {
    let base = o.off5 + o.off4;
    let result = if base == 0 {
        50
    } else {
        base / 2
    };
    if result < 50 {
        0
    } else {
        result as u16
    }
}

/// Military score.
pub fn score_military(officer: &Officer, _game: &GameState) -> (r: u16)
    ensures
        r == military_score(*officer),
{
    let base = officer.off5 as u16 + officer.off4 as u16;
    let result = if base == 0 {
        50
    } else {
        base / 2
    };
    if result < 50 {
        0
    } else {
        result
    }
}

/// The city an officer's development score is read from.
pub open spec fn develop_city_id(o: Officer) -> u8 {
    (o.off3 % 21) as u8
}

/// Development score: the city's troops over 34, at most 30.
pub open spec fn develop_score(o: Officer, city: City) -> u16 {
    let v = city.off_13 / 34;
    if v > 30 {
        30
    } else {
        v as u16
    }
}

/// Development score, read from city `off3 % 21`.
pub fn score_develop(officer: &Officer, game: &GameState) -> (r: u16)
    requires
        game.cities.wf(),
    ensures
        r == develop_score(*officer, game.cities.city(develop_city_id(*officer))),
        r <= 30,
{
    let city_idx = officer.off3 % 21;
    let city = game.cities.get(city_idx);
    let base_val = 100u32;
    let scenario_base = base_val / 3 + 1;
    let result = city.off_13 as u32 / scenario_base;
    if result > 30 {
        30
    } else {
        result as u16
    }
}

/// The larger of two bytes.
pub open spec fn max_u8(a: u8, b: u8) -> u8 {
    if a >= b {
        a
    } else {
        b
    }
}

/// The officer's best of INT, POL and CHR.
pub open spec fn max_stat(o: Officer) -> u8 {
    max_u8(max_u8(o.off4, o.off5), o.off6)
}

/// Attack score for a random draw `roll` in 0..100: `(max stat + mean stat
/// + roll) * 10` when above 3999, else 0.
pub open spec fn attack_score(o: Officer, roll: u32) -> u16 {
    let raw = (max_stat(o) + (o.off4 + o.off5 + o.off6) / 3 + roll) * 10;
    if raw > 3999 {
        raw as u16
    } else {
        0
    }
}

fn max3(a: u8, b: u8, c: u8) -> (r: u8)
    ensures
        r == max_u8(max_u8(a, b), c),
{
    let ab = if a >= b {
        a
    } else {
        b
    };
    if ab >= c {
        ab
    } else {
        c
    }
}

/// Attack score with a wealth threshold; draws one number in 0..100.
pub fn score_attack(officer: &Officer, game: &mut GameState) -> (r: u16)
    ensures
        r == attack_score(*officer, lcg_next(old(game).rng_state) % 100),
        *final(game) == (GameState { rng_state: lcg_next(old(game).rng_state), ..*old(game) }),
{
    let stat_sum = officer.off4 as u16 + officer.off5 as u16 + officer.off6 as u16;
    let random_mod = game.random_range(100) as u16;
    let avg = stat_sum / 3;
    let max_stat = max3(officer.off4, officer.off5, officer.off6) as u16;
    let raw = (max_stat + avg + random_mod) * 10;
    if raw > 3999 {
        raw
    } else {
        0
    }
}

/// Defense score: `off7 / 64 + 100` above 1, `off7 / 8 + 100` otherwise.
pub open spec fn defense_score(o: Officer) -> u16 {
    if o.off7 > 1 {
        (o.off7 / 64 + 100) as u16
    } else {
        (o.off7 / 8 + 100) as u16
    }
}

/// Defense score.
pub fn score_defense(officer: &Officer, _game: &GameState) -> (r: u16)
    ensures
        r == defense_score(*officer),
{
    let attr17 = officer.off7;
    assert(attr17 >> 6 == attr17 / 64 && attr17 >> 3 == attr17 / 8) by (bit_vector);
    if attr17 > 1 {
        (attr17 >> 6) + 100
    } else {
        (attr17 >> 3) + 100
    }
}

/// Recruitment score: `off7`.
pub fn score_recruit(officer: &Officer, _game: &GameState) -> (r: u16)
    ensures
        r == officer.off7,
{
    officer.off7
}

/// Construction score: `off7 + 10`.
pub fn score_build(officer: &Officer, _game: &GameState) -> (r: u16)
    requires
        officer.off7 + 10 <= u16::MAX,
    ensures
        r == officer.off7 + 10,
{
    officer.off7 + 10
}

/// Special score with its anti-snowball penalty: `20 - (off_1a + max
/// stat) / 20 + off7 / 1024`, at least 0.
pub open spec fn special_score(o: Officer) -> u16 {
    let off_1a = o.off3 / 16 + (o.off3 % 16) * 16;
    let v = 20 - (off_1a + max_stat(o)) / 20 + o.off7 / 1024;
    if v < 0 {
        0
    } else {
        v as u16
    }
}

/// Special score.
pub fn score_special(officer: &Officer, _game: &GameState) -> (r: u16)
    ensures
        r == special_score(*officer),
{
    let max_stat = max3(officer.off4, officer.off5, officer.off6) as i32;
    let penalty = (officer.off_1a() as i32 + max_stat) / 20;
    let base_bonus = 20i32;
    let attr_bonus = officer.off7 as i32 / 1024;
    let result = base_bonus - penalty + attr_bonus;
    if result < 0 {
        0
    } else {
        result as u16
    }
}

/// Composite score: INT + POL + CHR, plus 10 for an officer whose loyalty
/// is below 50.
pub open spec fn composite_score(o: Officer) -> u16 {
    (o.off4 + o.off5 + o.off6 + if o.loyalty < 50 {
        10int
    } else {
        0
    }) as u16
}

/// The best stat is one of intelligence, politics and charisma and is at
/// least each of them.
pub proof fn lemma_max_stat(o: Officer)
    ensures
        max_stat(o) >= o.off4 && max_stat(o) >= o.off5 && max_stat(o) >= o.off6,
        max_stat(o) == o.off4 || max_stat(o) == o.off5 || max_stat(o) == o.off6,
{
}

/// The rules of the officer scores:
/// - military: half of INT + POL (50 when both are 0), and 0 when that
///   half is below 50;
/// - development: the city's troops over 34, at most 30;
/// - attack: 10 times (best stat + a third of INT + POL + CHR + roll), and
///   0 unless that reaches 4000;
/// - defense: 100 plus `off7` over 64, or over 8 when `off7` is at most 1;
/// - special: 20 minus a twentieth of the swapped-nibble byte plus the best
///   stat, plus `off7` over 1024, at least 0.
pub proof fn lemma_score_rules(o: Officer, city: City, roll: u32)
    requires
        roll < 100,
    ensures
        ({
            let half: int = (o.off4 + o.off5) / 2;
            military_score(o) as int == (if o.off4 == 0 && o.off5 == 0 {
                50
            } else if half < 50 {
                0
            } else {
                half
            })
        }),
        develop_score(o, city) as int == (if city.off_13 / 34 > 30 {
            30
        } else {
            city.off_13 / 34
        }),
        ({
            let raw: int = (max_stat(o) + (o.off4 + o.off5 + o.off6) / 3 + roll) * 10;
            attack_score(o, roll) as int == (if raw >= 4000 {
                raw
            } else {
                0
            })
        }),
        defense_score(o) as int == 100 + (if o.off7 <= 1 {
            o.off7 / 8
        } else {
            o.off7 / 64
        }),
        ({
            let swapped: int = (o.off3 % 16) * 16 + o.off3 / 16;
            let v: int = 20 - (swapped + max_stat(o)) / 20 + o.off7 / 1024;
            special_score(o) as int == (if v < 0 {
                0
            } else {
                v
            })
        }),
{
    lemma_max_stat(o);
}

/// The composite score is the sum of intelligence, politics and charisma,
/// each counted once, plus 10 exactly when loyalty is below 50: raising
/// any one of the three stats by one raises the score by one, and the
/// loyalty bonus is the difference between a disloyal and a loyal officer
/// with the same stats.
pub proof fn lemma_composite_score(o: Officer)
    ensures
        composite_score(o) as int == o.off4 as int + o.off5 as int + o.off6 as int + (if o.loyalty < 50 {
            10int
        } else {
            0int
        }),
        o.off4 < 255 ==> composite_score(Officer { off4: (o.off4 + 1) as u8, ..o }) == composite_score(o) + 1,
        o.off5 < 255 ==> composite_score(Officer { off5: (o.off5 + 1) as u8, ..o }) == composite_score(o) + 1,
        o.off6 < 255 ==> composite_score(Officer { off6: (o.off6 + 1) as u8, ..o }) == composite_score(o) + 1,
        composite_score(Officer { loyalty: 0, ..o }) == composite_score(Officer { loyalty: 100, ..o }) + 10,
{
}

/// Composite score.
pub fn score_composite(officer: &Officer, _game: &GameState) -> (r: u16)
    ensures
        r == composite_score(*officer),
{
    let stat_sum = officer.off4 as u16 + officer.off5 as u16 + officer.off6 as u16;
    let loyalty_bonus = if officer.loyalty < 50 {
        10
    } else {
        0
    };
    stat_sum + loyalty_bonus
}

/// The highest score among the first `k` candidates (0 for none).
pub open spec fn max_candidate_score(c: Seq<(usize, u16)>, k: int) -> u16
    decreases k,
{
    if k <= 0 {
        0
    } else {
        let prev = max_candidate_score(c, k - 1);
        if c[k - 1].1 > prev {
            c[k - 1].1
        } else {
            prev
        }
    }
}

/// The indices, in order, of the first `k` candidates that score `m`.
pub open spec fn top_candidates(c: Seq<(usize, u16)>, m: u16, k: int) -> Seq<usize>
    decreases k,
{
    if k <= 0 {
        Seq::empty()
    } else {
        let prev = top_candidates(c, m, k - 1);
        if c[k - 1].1 == m {
            prev.push(c[k - 1].0)
        } else {
            prev
        }
    }
}

proof fn lemma_max_is_attained(c: Seq<(usize, u16)>, k: int)
    requires
        0 < k <= c.len(),
    ensures
        exists|j: int| 0 <= j < k && c[j].1 == max_candidate_score(c, k),
    decreases k,
{
    if k > 1 {
        lemma_max_is_attained(c, k - 1);
        if c[k - 1].1 > max_candidate_score(c, k - 1) {
            assert(c[k - 1].1 == max_candidate_score(c, k));
        } else {
            let j = choose|j: int| 0 <= j < k - 1 && c[j].1 == max_candidate_score(c, k - 1);
            assert(c[j].1 == max_candidate_score(c, k));
        }
    } else {
        reveal_with_fuel(max_candidate_score, 2);
        assert(c[0].1 == max_candidate_score(c, 1));
    }
}

proof fn lemma_top_nonempty(c: Seq<(usize, u16)>, m: u16, k: int, j: int)
    requires
        0 <= j < k <= c.len(),
        c[j].1 == m,
    ensures
        top_candidates(c, m, k).len() > 0,
    decreases k,
{
    if j < k - 1 {
        lemma_top_nonempty(c, m, k - 1, j);
    }
}

/// Epsilon-greedy selection: one of the candidates with the highest score,
/// picked by one random draw among them in list order.
pub fn strategy_select_best<F: Fn(usize) -> u16>(
    candidates: &[(usize, u16)],
    evaluator: F,
    game: &mut GameState,
) -> (r: Option<usize>)
    requires
        candidates@.len() <= u32::MAX,
    ensures
        candidates@.len() == 0 ==> r is None && *final(game) == *old(game),
        candidates@.len() > 0 ==> {
            let top = top_candidates(
                candidates@,
                max_candidate_score(candidates@, candidates@.len() as int),
                candidates@.len() as int,
            );
            &&& top.len() > 0
            &&& r == Some(top[lcg_next(old(game).rng_state) as int % top.len() as int])
            &&& *final(game) == (GameState { rng_state: lcg_next(old(game).rng_state), ..*old(game) })
        },
{
    if candidates.len() == 0 {
        return None;
    }
    let mut max_score: u16 = 0;
    let mut i: usize = 0;
    while i < candidates.len()
        invariant
            i <= candidates@.len(),
            max_score == max_candidate_score(candidates@, i as int),
        decreases candidates@.len() - i,
    {
        if candidates[i].1 > max_score {
            max_score = candidates[i].1;
        }
        i = i + 1;
    }
    let mut top: Vec<usize> = Vec::new();
    let mut k: usize = 0;
    while k < candidates.len()
        invariant
            k <= candidates@.len(),
            top@ == top_candidates(candidates@, max_score, k as int),
            top@.len() <= k,
        decreases candidates@.len() - k,
    {
        if candidates[k].1 == max_score {
            top.push(candidates[k].0);
        }
        k = k + 1;
    }
    proof {
        lemma_max_is_attained(candidates@, candidates@.len() as int);
        let j = choose|j: int|
            0 <= j < candidates@.len() && candidates@[j].1 == max_candidate_score(
                candidates@,
                candidates@.len() as int,
            );
        lemma_top_nonempty(candidates@, max_score, candidates@.len() as int, j);
    }
    let idx = game.random_range(top.len() as u32) as usize;
    Some(top[idx])
}

} // verus!
