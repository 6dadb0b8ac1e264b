//! Battles between two units.

use vstd::prelude::*;
use crate::data::unit::{Unit, UnitState, power_of};
use crate::data::game_state::{GameState, lcg_next};

verus! {

/// Outcome of a battle, seen from the attacker.
#[derive(Debug, Clone, Copy, PartialEq, Eq, Structural)]
pub enum BattleResult {
    Win,
    Lose,
    Draw,
    Retreat,
}

/// Battle parameters. `damage_multiplier` is the share of fighting
/// strength dealt as damage each round, and `retreat_threshold` the share
/// of its starting troops below which the attacker retreats, both in
/// percent; `max_fatigue_per_round` is the fatigue each side gains per
/// round.
#[derive(Debug, Clone, Copy)]
pub struct BattleConfig {
    pub damage_multiplier: u16,
    pub retreat_threshold: u16,
    pub max_fatigue_per_round: u8,
}

/// The standard parameters: 30% damage, retreat below 20%, 5 fatigue per
/// round.
pub open spec fn default_config() -> BattleConfig {
    BattleConfig { damage_multiplier: 30, retreat_threshold: 20, max_fatigue_per_round: 5 }
}

impl Default for BattleConfig {
    fn default() -> (r: Self)
        ensures
            r == default_config(),
    {
        BattleConfig { damage_multiplier: 30, retreat_threshold: 20, max_fatigue_per_round: 5 }
    }
}

/// Number of exchange rounds before a battle ends in a draw.
pub const MAX_BATTLE_ROUNDS: u32 = 10;

/// Damage dealt by a side of the given strength with a roll in 0..20: the
/// configured percentage of strength plus roll, at least 1 and at most
/// `u16::MAX`.
pub open spec fn round_damage(power: int, roll: int, pct: u16) -> u16 {
    let raw = (power + roll) * pct / 100;
    if raw < 1 {
        1
    } else if raw > u16::MAX {
        u16::MAX
    } else {
        raw as u16
    }
}

/// `troops - dmg`, at least 0.
pub open spec fn after_damage(u: Unit, dmg: u16) -> Unit {
    let t = if u.troops >= dmg {
        (u.troops - dmg) as u16
    } else {
        0u16
    };
    Unit {
        troops: t,
        state: if t == 0 {
            UnitState::Destroyed
        } else {
            u.state
        },
        ..u
    }
}

/// Fatigue grows by the configured amount, up to 100.
pub open spec fn tired(u: Unit, amount: u8) -> Unit {
    Unit {
        fatigue: if u.fatigue + amount > 100 {
            100u8
        } else {
            (u.fatigue + amount) as u8
        },
        ..u
    }
}

/// One exchange: both sides roll (attacker first), deal damage to each
/// other at once, and tire.
#[verifier::opaque]
pub open spec fn fight_round(a: Unit, d: Unit, rng: u32, cfg: BattleConfig) -> (Unit, Unit, u32) {
    let rng1 = lcg_next(rng);
    let rng2 = lcg_next(rng1);
    let dmg_d = round_damage(power_of(a), (rng1 % 20) as int, cfg.damage_multiplier);
    let dmg_a = round_damage(power_of(d), (rng2 % 20) as int, cfg.damage_multiplier);
    (
        tired(after_damage(a, dmg_a), cfg.max_fatigue_per_round),
        tired(after_damage(d, dmg_d), cfg.max_fatigue_per_round),
        rng2,
    )
}

/// The attacker has fallen below the retreat share of its starting troops.
pub open spec fn should_retreat(a: Unit, initial: u16, cfg: BattleConfig) -> bool {
    a.troops * 100 < initial * cfg.retreat_threshold
}

/// The rest of a battle with `rounds` exchanges left: the units, the
/// generator state and the result at its end.
pub open spec fn battle_rounds(
    a: Unit,
    d: Unit,
    rng: u32,
    cfg: BattleConfig,
    initial: u16,
    rounds: nat,
) -> (Unit, Unit, u32, BattleResult)
    decreases rounds,
{
    if rounds == 0 {
        (a, d, rng, BattleResult::Draw)
    } else {
        let (a1, d1, rng1) = fight_round(a, d, rng, cfg);
        if d1.troops == 0 && a1.troops > 0 {
            (a1, d1, rng1, BattleResult::Win)
        } else if a1.troops == 0 && d1.troops > 0 {
            (a1, d1, rng1, BattleResult::Lose)
        } else if a1.troops == 0 && d1.troops == 0 {
            (a1, d1, rng1, BattleResult::Draw)
        } else if should_retreat(a1, initial, cfg) {
            (Unit { state: UnitState::Retreating, ..a1 }, d1, rng1, BattleResult::Retreat)
        } else {
            battle_rounds(a1, d1, rng1, cfg, initial, (rounds - 1) as nat)
        }
    }
}

/// A whole battle: an attacker without troops loses (and is destroyed), a
/// defender without troops is beaten (and destroyed); otherwise up to
/// `MAX_BATTLE_ROUNDS` exchanges.
pub open spec fn battle_outcome(a: Unit, d: Unit, rng: u32, cfg: BattleConfig) -> (
    Unit,
    Unit,
    u32,
    BattleResult,
) {
    if a.troops == 0 {
        (Unit { state: UnitState::Destroyed, ..a }, d, rng, BattleResult::Lose)
    } else if d.troops == 0 {
        (a, Unit { state: UnitState::Destroyed, ..d }, rng, BattleResult::Win)
    } else {
        battle_rounds(a, d, rng, cfg, a.troops, MAX_BATTLE_ROUNDS as nat)
    }
}

/// The laws of a battle's end: the winner keeps troops and the loser is
/// wiped out and destroyed; a retreating attacker is marked retreating;
/// nobody gains troops.
pub open spec fn outcome_laws(a: Unit, d: Unit, out: (Unit, Unit, u32, BattleResult)) -> bool {
    let (a2, d2, _rng, res) = out;
    &&& res == BattleResult::Win ==> a2.troops > 0 && d2.troops == 0 && d2.state
        == UnitState::Destroyed
    &&& res == BattleResult::Lose ==> a2.troops == 0 && a2.state == UnitState::Destroyed
    &&& res == BattleResult::Lose && a.troops > 0 ==> d2.troops > 0
    &&& res == BattleResult::Retreat ==> a2.state == UnitState::Retreating
    &&& a2.troops <= a.troops
    &&& d2.troops <= d.troops
}

/// Every battle obeys `outcome_laws`.
pub proof fn lemma_battle_laws(a: Unit, d: Unit, rng: u32, cfg: BattleConfig)
    ensures
        outcome_laws(a, d, battle_outcome(a, d, rng, cfg)),
{
    if a.troops != 0 && d.troops != 0 {
        lemma_rounds_laws(a, d, rng, cfg, a.troops, MAX_BATTLE_ROUNDS as nat);
    }
}

/// Damage is at least 1 and at most `u16::MAX`; in between it is the
/// configured percentage of strength plus roll, rounded down; and a
/// stronger side never deals less damage than a weaker one with the same
/// roll.
pub proof fn lemma_round_damage(power: int, power2: int, roll: int, pct: u16)
    requires
        0 <= power <= power2,
        0 <= roll,
    ensures
        1 <= round_damage(power, roll, pct) <= u16::MAX,
        1 <= (power + roll) * pct / 100 <= u16::MAX ==> round_damage(power, roll, pct) == (power + roll)
            * pct / 100,
        round_damage(power, roll, pct) <= round_damage(power2, roll, pct),
{
    assert((power + roll) * pct <= (power2 + roll) * pct) by (nonlinear_arith)
        requires
            0 <= power + roll <= power2 + roll,
            0 <= pct,
    ;
    vstd::arithmetic::div_mod::lemma_div_is_ordered((power + roll) * pct, (power2 + roll) * pct, 100);
}

/// One exchange. Each side loses at least one soldier, or all it has
/// left, and never gains any; a side left without troops is destroyed, a
/// side with troops keeps its state; each side's fatigue grows by the
/// configured amount up to 100; nothing else about a unit changes; and the
/// generator moves two steps on.
pub proof fn lemma_fight_round(a: Unit, d: Unit, rng: u32, cfg: BattleConfig)
    ensures
        ({
            let (a1, d1, rng1) = fight_round(a, d, rng, cfg);
            &&& rng1 == lcg_next(lcg_next(rng))
            &&& a1 == (Unit { troops: a1.troops, fatigue: a1.fatigue, state: a1.state, ..a })
            &&& d1 == (Unit { troops: d1.troops, fatigue: d1.fatigue, state: d1.state, ..d })
            &&& a1.troops < a.troops || a.troops == 0
            &&& d1.troops < d.troops || d.troops == 0
            &&& a1.troops == 0 ==> a1.state == UnitState::Destroyed
            &&& d1.troops == 0 ==> d1.state == UnitState::Destroyed
            &&& a1.troops > 0 ==> a1.state == a.state
            &&& d1.troops > 0 ==> d1.state == d.state
            &&& a1.fatigue as int == (if a.fatigue + cfg.max_fatigue_per_round > 100 {
                100
            } else {
                a.fatigue + cfg.max_fatigue_per_round
            })
            &&& d1.fatigue as int == (if d.fatigue + cfg.max_fatigue_per_round > 100 {
                100
            } else {
                d.fatigue + cfg.max_fatigue_per_round
            })
        }),
{
    reveal(fight_round);
}

/// The retreat rule. After an exchange in which both sides keep troops,
/// an attacker left with less than `retreat_threshold` percent of its
/// starting troops ends the battle in a retreat, with the troops it has
/// left and marked retreating, and no further exchange is fought; an
/// attacker with at least that share fights on, with one exchange fewer
/// left.
pub proof fn lemma_retreat_rule(a: Unit, d: Unit, rng: u32, cfg: BattleConfig, initial: u16, rounds: nat)
    requires
        rounds > 0,
        fight_round(a, d, rng, cfg).0.troops > 0,
        fight_round(a, d, rng, cfg).1.troops > 0,
    ensures
        ({
            let (a1, d1, rng1) = fight_round(a, d, rng, cfg);
            &&& (a1.troops as int) * 100 < (initial as int) * (cfg.retreat_threshold as int) ==> battle_rounds(
                a,
                d,
                rng,
                cfg,
                initial,
                rounds,
            ) == (Unit { state: UnitState::Retreating, ..a1 }, d1, rng1, BattleResult::Retreat)
            &&& (a1.troops as int) * 100 >= (initial as int) * (cfg.retreat_threshold as int) ==> battle_rounds(
                a,
                d,
                rng,
                cfg,
                initial,
                rounds,
            ) == battle_rounds(a1, d1, rng1, cfg, initial, (rounds - 1) as nat)
        }),
{
}

/// A whole battle between two units with troops starts its retreat rule
/// from the attacker's troops at the start: when the first exchange leaves
/// both sides troops and the attacker below `retreat_threshold` percent of
/// what it started with, the battle is a retreat after that exchange.
pub proof fn lemma_first_exchange_retreat(a: Unit, d: Unit, rng: u32, cfg: BattleConfig)
    requires
        a.troops > 0,
        d.troops > 0,
        fight_round(a, d, rng, cfg).0.troops > 0,
        fight_round(a, d, rng, cfg).1.troops > 0,
        (fight_round(a, d, rng, cfg).0.troops as int) * 100 < (a.troops as int) * (cfg.retreat_threshold as int),
    ensures
        battle_outcome(a, d, rng, cfg) == (
            Unit { state: UnitState::Retreating, ..fight_round(a, d, rng, cfg).0 },
            fight_round(a, d, rng, cfg).1,
            fight_round(a, d, rng, cfg).2,
            BattleResult::Retreat,
        ),
{
    lemma_retreat_rule(a, d, rng, cfg, a.troops, MAX_BATTLE_ROUNDS as nat);
}

proof fn lemma_rounds_laws(a: Unit, d: Unit, rng: u32, cfg: BattleConfig, initial: u16, rounds: nat)
    requires
        a.troops > 0,
        d.troops > 0,
    ensures
        outcome_laws(a, d, battle_rounds(a, d, rng, cfg, initial, rounds)),
    decreases rounds,
{
    if rounds > 0 {
        reveal(fight_round);
        let (a1, d1, rng1) = fight_round(a, d, rng, cfg);
        if !(d1.troops == 0 || a1.troops == 0) && !should_retreat(a1, initial, cfg) {
            lemma_rounds_laws(a1, d1, rng1, cfg, initial, (rounds - 1) as nat);
        }
    }
}

/// Damage of one side with a roll.
fn round_damage_exec(power: u32, roll: u32, pct: u16) -> (r: u16)
    requires
        roll < 20,
    ensures
        r == round_damage(power as int, roll as int, pct),
{
    let p = power as u64 + roll as u64;
    assert(p * pct as u64 <= 0x1_0000_0013 * 65535) by (nonlinear_arith)
        requires
            p <= 0x1_0000_0013,
            pct <= 65535,
    ;
    let raw = p * pct as u64 / 100;
    if raw < 1 {
        1
    } else if raw > u16::MAX as u64 {
        u16::MAX
    } else {
        raw as u16
    }
}

fn tire(u: &mut Unit, amount: u8)
    ensures
        *final(u) == tired(*old(u), amount),
{
    let f = u.fatigue as u16 + amount as u16;
    u.fatigue = if f > 100 {
        100
    } else {
        f as u8
    };
}

/// One exchange of a battle; see `fight_round`.
fn exchange(a: &mut Unit, d: &mut Unit, game: &mut GameState, config: &BattleConfig)
    ensures
        (*final(a), *final(d), final(game).rng_state) == fight_round(
            *old(a),
            *old(d),
            old(game).rng_state,
            *config,
        ),
        *final(game) == (GameState { rng_state: final(game).rng_state, ..*old(game) }),
{
    reveal(fight_round);
    let atk_power = a.effective_power();
    let def_power = d.effective_power();
    let roll_a = game.random_range(20);
    let roll_d = game.random_range(20);
    let dmg_d = round_damage_exec(atk_power, roll_a, config.damage_multiplier);
    let dmg_a = round_damage_exec(def_power, roll_d, config.damage_multiplier);
    d.take_damage(dmg_d);
    a.take_damage(dmg_a);
    tire(a, config.max_fatigue_per_round);
    tire(d, config.max_fatigue_per_round);
}

/// A battle with the standard parameters.
pub fn engage_battle(game: &mut GameState, attacker_unit: usize, defender_unit: usize) -> (r:
    BattleResult)
    requires
        attacker_unit < old(game).units.units@.len(),
        defender_unit < old(game).units.units@.len(),
    ensures
        ({
            let out = battle_outcome(
                old(game).units.units@[attacker_unit as int],
                old(game).units.units@[defender_unit as int],
                old(game).rng_state,
                default_config(),
            );
            &&& r == out.3
            &&& final(game).units.units@ == old(game).units.units@.update(
                attacker_unit as int,
                out.0,
            ).update(defender_unit as int, out.1)
            &&& final(game).rng_state == out.2
            &&& *final(game) == (GameState {
                units: final(game).units,
                rng_state: final(game).rng_state,
                ..*old(game)
            })
            &&& outcome_laws(
                old(game).units.units@[attacker_unit as int],
                old(game).units.units@[defender_unit as int],
                out,
            )
        }),
{
    let config = BattleConfig::default();
    engage_battle_with_config(game, attacker_unit, defender_unit, &config)
}

/// A battle between two units: see `battle_outcome`. The attacker is
/// written back, then the defender (whose record stands when both are the
/// same slot), and the generator advances two steps per exchange.
pub fn engage_battle_with_config(
    game: &mut GameState,
    attacker_unit: usize,
    defender_unit: usize,
    config: &BattleConfig,
) -> (r: BattleResult)
    requires
        attacker_unit < old(game).units.units@.len(),
        defender_unit < old(game).units.units@.len(),
    ensures
        ({
            let out = battle_outcome(
                old(game).units.units@[attacker_unit as int],
                old(game).units.units@[defender_unit as int],
                old(game).rng_state,
                *config,
            );
            &&& r == out.3
            &&& final(game).units.units@ == old(game).units.units@.update(
                attacker_unit as int,
                out.0,
            ).update(defender_unit as int, out.1)
            &&& final(game).rng_state == out.2
            &&& *final(game) == (GameState {
                units: final(game).units,
                rng_state: final(game).rng_state,
                ..*old(game)
            })
            &&& outcome_laws(
                old(game).units.units@[attacker_unit as int],
                old(game).units.units@[defender_unit as int],
                out,
            )
        }),
{
    let ghost a0 = game.units.units@[attacker_unit as int];
    let ghost d0 = game.units.units@[defender_unit as int];
    proof {
        lemma_battle_laws(a0, d0, game.rng_state, *config);
    }
    let mut a = game.units.units[attacker_unit];
    let mut d = game.units.units[defender_unit];
    let result;
    if a.troops == 0 {
        a.state = UnitState::Destroyed;
        result = BattleResult::Lose;
    } else if d.troops == 0 {
        d.state = UnitState::Destroyed;
        result = BattleResult::Win;
    } else {
        let initial = a.troops;
        let mut round: u32 = 0;
        let mut outcome: Option<BattleResult> = None;
        while round < MAX_BATTLE_ROUNDS
            invariant_except_break
                round <= MAX_BATTLE_ROUNDS,
                a.troops > 0,
                d.troops > 0,
                outcome is None,
                battle_rounds(a, d, game.rng_state, *config, initial, (MAX_BATTLE_ROUNDS - round) as nat)
                    == battle_rounds(a0, d0, old(game).rng_state, *config, initial, MAX_BATTLE_ROUNDS as nat),
            invariant
                initial == a0.troops,
                *game == (GameState { rng_state: game.rng_state, ..*old(game) }),
            ensures
                match outcome {
                    Some(res) => (a, d, game.rng_state, res) == battle_rounds(
                        a0,
                        d0,
                        old(game).rng_state,
                        *config,
                        initial,
                        MAX_BATTLE_ROUNDS as nat,
                    ),
                    None => (a, d, game.rng_state, BattleResult::Draw) == battle_rounds(
                        a0,
                        d0,
                        old(game).rng_state,
                        *config,
                        initial,
                        MAX_BATTLE_ROUNDS as nat,
                    ),
                },
                *game == (GameState { rng_state: game.rng_state, ..*old(game) }),
            decreases MAX_BATTLE_ROUNDS - round,
        {
            exchange(&mut a, &mut d, game, config);
            if d.troops == 0 && a.troops > 0 {
                outcome = Some(BattleResult::Win);
                break;
            }
            if a.troops == 0 && d.troops > 0 {
                outcome = Some(BattleResult::Lose);
                break;
            }
            if a.troops == 0 && d.troops == 0 {
                outcome = Some(BattleResult::Draw);
                break;
            }
            let it = initial as u64;
            let rt = config.retreat_threshold as u64;
            assert(it * rt <= 65535 * 65535) by (nonlinear_arith)
                requires
                    it <= 65535,
                    rt <= 65535,
            ;
            if (a.troops as u64) * 100 < it * rt {
                a.state = UnitState::Retreating;
                outcome = Some(BattleResult::Retreat);
                break;
            }
            round = round + 1;
        }
        result = match outcome {
            Some(res) => res,
            None => BattleResult::Draw,
        };
    }
    game.units.units.set(attacker_unit, a);
    game.units.units.set(defender_unit, d);
    assert(game.units.units@ =~= old(game).units.units@.update(attacker_unit as int, a).update(
        defender_unit as int,
        d,
    ));
    result
}

} // verus!
