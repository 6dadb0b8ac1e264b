//! AI turn execution and action decisions.

use vstd::prelude::*;
use crate::data::officer::Officer;
use crate::data::map::{MapView, TileType, MAP_COLS, MAP_ROWS, cell_index};
use crate::data::unit::Unit;
use crate::data::city::{City, CITY_COUNT};
use crate::data::game_state::{GameState, lcg_next};
use super::movement::{best_direction, dir_col, dir_row, lemma_best_direction, is_nearest_candidate, candidate_cell, find_best_cell_weighted, pick_best_direction};
use super::scoring::{eligible, develop_score, develop_city_id, officer_score_dispatch, is_best_scored, score_develop, score_recruit};

verus! {

/// The part of the game a turn changes: the unit table and the map.
pub struct Board {
    pub units: Seq<Unit>,
    pub map: MapView,
}

/// Index of the first unit among the first `n` slots standing on
/// (`col`, `row`), live or not.
pub open spec fn first_unit_at(units: Seq<Unit>, col: u8, row: u8, n: int) -> Option<int>
    decreases n,
{
    if n <= 0 {
        None
    } else {
        match first_unit_at(units, col, row, n - 1) {
            Some(i) => Some(i),
            None => if units[n - 1].col == col && units[n - 1].row == row {
                Some(n - 1)
            } else {
                None
            },
        }
    }
}

/// One AI step: the unit moves one cell in its best direction when the
/// target lies within the map's width and height.
pub open spec fn step_unit(u: Unit, m: MapView, state: u32) -> Unit {
    match best_direction(u, m, state) {
        Some((dc, dr)) => {
            let nc = u.col + dc;
            let nr = u.row + dr;
            if 0 <= nc < m.width && 0 <= nr < m.height {
                Unit { col: nc as u8, row: nr as u8, ..u }
            } else {
                u
            }
        },
        None => u,
    }
}

/// Three steps, and a fourth for a unit with flag 6.
pub open spec fn moved_unit(u: Unit, m: MapView, state: u32) -> Unit {
    let u3 = step_unit(step_unit(step_unit(u, m, state), m, state), m, state);
    if u.flags & 0x40 != 0 {
        step_unit(u3, m, state)
    } else {
        u3
    }
}

/// Whether the AI turn of (`col`, `row`) moves a unit: a unit stands on
/// the cell, the cell is not empty terrain, the game is in its normal state
/// and the first unit on the cell has a combat flag.
pub open spec fn turn_moves(b: Board, normal: bool, col: u8, row: u8) -> bool {
    let found = first_unit_at(b.units, col, row, b.units.len() as int);
    &&& found is Some
    &&& b.map.type_at(col, row) != TileType::Empty
    &&& normal
    &&& b.units[found.unwrap()].flags & 0x60 != 0
}

/// The board after the AI turn of the cell (`col`, `row`): the first unit
/// on the cell, if the cell is not empty terrain, the game is in its
/// normal state and the unit has a combat flag, makes its moves; the cell
/// is cleared and the unit's final cell is marked with its officer.
pub open spec fn turn_board(b: Board, normal: bool, state: u32, col: u8, row: u8) -> Board {
    match first_unit_at(b.units, col, row, b.units.len() as int) {
        None => b,
        Some(i) => {
            let u = b.units[i];
            if b.map.type_at(col, row) == TileType::Empty || !normal || u.flags & 0x60 == 0 {
                b
            } else {
                let moved = moved_unit(u, b.map, state);
                Board {
                    units: b.units.update(i, moved),
                    map: b.map.set(col, row, 0).set(moved.col, moved.row, 0x0100 | u.officer_id),
                }
            }
        },
    }
}

/// Whether cell number `k` (row-major, 20 per row) is skipped by a full
/// pass: the odd columns of row 10.
pub open spec fn pass_skips(k: int) -> bool {
    k / 20 == 10 && (k % 20) % 2 == 1
}

/// The board after the turns of the first `k` cells of a full pass.
pub open spec fn pass_fold(b: Board, normal: bool, state: u32, k: int) -> Board
    decreases k,
{
    if k <= 0 {
        b
    } else {
        let prev = pass_fold(b, normal, state, k - 1);
        if pass_skips(k - 1) {
            prev
        } else {
            turn_board(prev, normal, state, ((k - 1) % 20) as u8, ((k - 1) / 20) as u8)
        }
    }
}

/// The board of a game.
pub open spec fn board_of(g: &GameState) -> Board {
    Board { units: g.units.units@, map: g.map@ }
}

/// `after` differs from `before` at most in its units and map tiles.
pub open spec fn only_board_changed(before: &GameState, after: &GameState) -> bool {
    &&& *after == (GameState { units: after.units, map: after.map, ..*before })
    &&& after.map.same_frame(&before.map)
}

/// Full AI pass over the 11 x 20 grid, skipping the odd columns of row 10.
pub fn execute_full_pass(game: &mut GameState)
    requires
        old(game).map.wf(),
    ensures
        final(game).map.wf(),
        final(game).units.units@.len() == old(game).units.units@.len(),
        board_of(&*final(game)) == pass_fold(
            board_of(&*old(game)),
            old(game).normal_state,
            old(game).rng_state,
            220,
        ),
        only_board_changed(&*old(game), &*final(game)),
        !old(game).normal_state ==> board_of(&*final(game)) == board_of(&*old(game)),
        forall|k: int|
            0 <= k < old(game).units.units@.len() && #[trigger] old(game).units.units@[k].row == 10
                && old(game).units.units@[k].col % 2 == 1 ==> final(game).units.units@[k]
                == old(game).units.units@[k],
{
    let ghost b0 = board_of(&*game);
    let mut row: u8 = 0;
    while row < 11
        invariant
            row <= 11,
            game.map.wf(),
            game.units.units@.len() == old(game).units.units@.len(),
            board_of(&*game) == pass_fold(b0, old(game).normal_state, old(game).rng_state, row * 20),
            only_board_changed(&*old(game), &*game),
        decreases 11 - row,
    {
        let mut col: u8 = 0;
        while col < 20
            invariant
                row < 11,
                col <= 20,
                game.map.wf(),
                game.units.units@.len() == old(game).units.units@.len(),
                board_of(&*game) == pass_fold(
                    b0,
                    old(game).normal_state,
                    old(game).rng_state,
                    row * 20 + col,
                ),
                only_board_changed(&*old(game), &*game),
            decreases 20 - col,
        {
            let ghost k = row * 20 + col;
            assert((k / 20) == row && k % 20 == col) by (nonlinear_arith)
                requires
                    k == row * 20 + col,
                    col < 20,
            ;
            assert(col & 1 == col % 2) by (bit_vector);
            if row == 10 && (col & 1) != 0 {
                assert(pass_skips(k));
                col = col + 1;
                continue;
            }
            assert(!pass_skips(k));
            execute_turn(game, col, row);
            col = col + 1;
        }
        row = row + 1;
    }
    proof {
        if !old(game).normal_state {
            lemma_pass_not_normal(b0, old(game).rng_state, 220);
        }
        assert forall|k: int|
            0 <= k < old(game).units.units@.len() && #[trigger] old(game).units.units@[k].row == 10
                && old(game).units.units@[k].col % 2 == 1 implies game.units.units@[k]
                == old(game).units.units@[k] by {
            lemma_pass_keeps_skipped_unit(b0, old(game).normal_state, old(game).rng_state, 220, k);
        }
    }
}

/// One AI turn for the unit on (`col`, `row`); see `turn_board`.
pub fn execute_turn(game: &mut GameState, col: u8, row: u8)
    requires
        old(game).map.wf(),
    ensures
        final(game).map.wf(),
        final(game).units.units@.len() == old(game).units.units@.len(),
        board_of(&*final(game)) == turn_board(
            board_of(&*old(game)),
            old(game).normal_state,
            old(game).rng_state,
            col,
            row,
        ),
        only_board_changed(&*old(game), &*final(game)),
        !turn_moves(board_of(&*old(game)), old(game).normal_state, col, row) ==> *final(game) == *old(game),
{
    let n = game.units.units.len();
    let mut unit_idx: usize = 0;
    while unit_idx < n
        invariant
            n == game.units.units@.len(),
            unit_idx <= n,
            first_unit_at(game.units.units@, col, row, unit_idx as int) is None,
        ensures
            unit_idx <= n,
            first_unit_at(game.units.units@, col, row, unit_idx as int) is None,
            unit_idx < n ==> game.units.units@[unit_idx as int].col == col
                && game.units.units@[unit_idx as int].row == row,
        decreases n - unit_idx,
    {
        if game.units.units[unit_idx].col == col && game.units.units[unit_idx].row == row {
            break;
        }
        unit_idx = unit_idx + 1;
    }
    if unit_idx == n {
        return;
    }
    assert(first_unit_at(game.units.units@, col, row, unit_idx as int + 1) == Some(
        unit_idx as int,
    ));
    proof {
        lemma_first_unit_stable(game.units.units@, col, row, unit_idx as int + 1, n as int);
    }
    let tile_type = game.map.get_tile_type(col, row);
    if tile_type.code() == 0 {
        return;
    }
    if !game.check_normal_state() {
        return;
    }
    let has_flags = game.units.units[unit_idx].has_combat_flags();
    assert(0x20u8 | 0x40u8 == 0x60u8) by (bit_vector);
    if !has_flags {
        return;
    }
    let unit = game.units.units[unit_idx];
    let moved = move_unit(unit, game);
    game.units.units.set(unit_idx, moved);
    game.map.set_tile(col, row, 0);
    game.map.set_tile(moved.col, moved.row, 0x0100 | unit.officer_id);
}

/// One AI step of a unit.
fn ai_step(u: Unit, game: &GameState) -> (r: Unit)
    requires
        game.map.wf(),
    ensures
        r == step_unit(u, game.map@, game.rng_state),
{
    if let Some((dc, dr)) = pick_best_direction(&u, game) {
        let new_col = u.col as i16 + dc as i16;
        let new_row = u.row as i16 + dr as i16;
        if game.map.in_bounds(new_col as i32, new_row as i32) {
            return Unit { col: new_col as u8, row: new_row as u8, ..u };
        }
    }
    u
}

/// The AI moves of a unit: three steps, and a fourth with flag 6.
fn move_unit(u: Unit, game: &GameState) -> (r: Unit)
    requires
        game.map.wf(),
    ensures
        r == moved_unit(u, game.map@, game.rng_state),
{
    let mut cur = u;
    let mut step: usize = 0;
    while step < 3
        invariant
            step <= 3,
            game.map.wf(),
            cur == steps_of(u, game.map@, game.rng_state, step as int),
            cur.flags == u.flags,
        decreases 3 - step,
    {
        cur = ai_step(cur, game);
        step = step + 1;
    }
    assert(cur == step_unit(step_unit(step_unit(u, game.map@, game.rng_state), game.map@, game.rng_state), game.map@, game.rng_state)) by {
        reveal_with_fuel(steps_of, 4);
    }
    if cur.has_flag6() {
        cur = ai_step(cur, game);
    }
    cur
}

/// `k` steps of a unit.
pub open spec fn steps_of(u: Unit, m: MapView, state: u32, k: int) -> Unit
    decreases k,
{
    if k <= 0 {
        u
    } else {
        step_unit(steps_of(u, m, state, k - 1), m, state)
    }
}

proof fn lemma_first_unit_stable(units: Seq<Unit>, col: u8, row: u8, k: int, n: int)
    requires
        0 <= k <= n,
        first_unit_at(units, col, row, k) is Some,
    ensures
        first_unit_at(units, col, row, n) == first_unit_at(units, col, row, k),
    decreases n - k,
{
    if k < n {
        lemma_first_unit_stable(units, col, row, k + 1, n);
    }
}

/// `b` is `a` moved one cell in direction `d`, all else kept.
pub open spec fn moved_by(a: Unit, b: Unit, d: u8) -> bool {
    &&& b.col == a.col + dir_col(d)
    &&& b.row == a.row + dir_row(d)
    &&& b == Unit { col: b.col, row: b.row, ..a }
}

/// `b` is `a`, or `a` moved to one of its six neighbouring cells.
pub open spec fn neighbour_step(a: Unit, b: Unit) -> bool {
    b == a || exists|d: u8| d < 6 && #[trigger] moved_by(a, b, d)
}

/// Step `t` of a unit's walk goes to a neighbouring cell or stays.
pub open spec fn step_is_neighbour(u: Unit, m: MapView, state: u32, t: int) -> bool {
    neighbour_step(steps_of(u, m, state, t), steps_of(u, m, state, t + 1))
}

/// One AI step goes to a neighbouring cell or stays, and keeps a unit
/// that stands inside the map's width and height inside them.
proof fn lemma_step_neighbour(a: Unit, m: MapView, state: u32)
    requires
        m.width <= 255,
        m.height <= 255,
    ensures
        neighbour_step(a, step_unit(a, m, state)),
        a.col < m.width && a.row < m.height ==> step_unit(a, m, state).col < m.width
            && step_unit(a, m, state).row < m.height,
{
    lemma_best_direction(a, m, state);
    let b = step_unit(a, m, state);
    if best_direction(a, m, state) is Some {
        let d = choose|d: u8|
            d < 6 && #[trigger] super::movement::dir_passable(a, m, d) && best_direction(a, m, state)
                == Some((dir_col(d), dir_row(d)));
        if b != a {
            assert(moved_by(a, b, d));
        }
    }
}

/// The first `n` steps of a walk each go to a neighbouring cell or stay;
/// the walk ends at most `n` columns and `n` rows from its start, inside
/// the map, with only the unit's cell changed.
proof fn lemma_walk(u: Unit, m: MapView, state: u32, n: int)
    requires
        0 <= n,
        m.width <= 255,
        m.height <= 255,
        u.col < m.width,
        u.row < m.height,
    ensures
        forall|t: int| 0 <= t < n ==> #[trigger] step_is_neighbour(u, m, state, t),
        ({
            let v = steps_of(u, m, state, n);
            &&& v.col < m.width && v.row < m.height
            &&& v == Unit { col: v.col, row: v.row, ..u }
            &&& -n <= v.col - u.col <= n
            &&& -n <= v.row - u.row <= n
        }),
    decreases n,
{
    if n > 0 {
        lemma_walk(u, m, state, n - 1);
        let a = steps_of(u, m, state, n - 1);
        lemma_step_neighbour(a, m, state);
        let b = steps_of(u, m, state, n);
        assert(b == step_unit(a, m, state));
        assert(step_is_neighbour(u, m, state, n - 1));
        if b != a {
            let d = choose|d: u8| d < 6 && #[trigger] moved_by(a, b, d);
            assert(-1 <= dir_col(d) <= 1 && -1 <= dir_row(d) <= 1);
        }
    }
}

/// An AI turn changes nothing when no unit stands on (`col`, `row`), the
/// cell is empty terrain, the game is not in its normal state, or the first
/// unit on the cell has no combat flag.
pub proof fn lemma_turn_no_effect(b: Board, normal: bool, state: u32, col: u8, row: u8)
    requires
        !turn_moves(b, normal, col, row),
    ensures
        turn_board(b, normal, state, col, row) == b,
{
}

/// A full pass outside the normal state changes nothing.
pub proof fn lemma_pass_not_normal(b: Board, state: u32, k: int)
    ensures
        pass_fold(b, false, state, k) == b,
    decreases k,
{
    if k > 0 {
        lemma_pass_not_normal(b, state, k - 1);
    }
}

/// A unit standing on an odd column of row 10 never moves during a full
/// pass: the pass skips those cells, so the unit is never the one whose
/// turn it is, and the unit table keeps its size.
pub proof fn lemma_pass_keeps_skipped_unit(b: Board, normal: bool, state: u32, j: int, k: int)
    requires
        0 <= j <= 220,
        0 <= k < b.units.len(),
        b.units[k].row == 10,
        b.units[k].col % 2 == 1,
    ensures
        pass_fold(b, normal, state, j).units.len() == b.units.len(),
        pass_fold(b, normal, state, j).units[k] == b.units[k],
    decreases j,
{
    if j > 0 {
        lemma_pass_keeps_skipped_unit(b, normal, state, j - 1, k);
        let prev = pass_fold(b, normal, state, j - 1);
        if !pass_skips(j - 1) {
            let c = ((j - 1) % 20) as u8;
            let r = ((j - 1) / 20) as u8;
            assert((j - 1) / 20 <= 10);
            let found = first_unit_at(prev.units, c, r, prev.units.len() as int);
            if found is Some {
                lemma_first_unit_index(prev.units, c, r, prev.units.len() as int);
                let i = found.unwrap();
                if i == k {
                    assert(pass_skips(j - 1));
                }
            }
        }
    }
}

/// The law of an AI turn. When the first unit on (`col`, `row`) moves
/// (the cell is not empty terrain, the game is in its normal state and the
/// unit has a combat flag), the unit walks three steps, four with flag 6,
/// each to a neighbouring cell or staying put, so it ends at most that
/// many columns and rows away; only its cell changes, and no other unit
/// changes. Its final cell holds the occupied mark with its officer, its
/// start cell is cleared when it left it, and every other tile is kept.
pub proof fn lemma_turn_moves(b: Board, normal: bool, state: u32, col: u8, row: u8, i: int)
    requires
        b.map.wf(),
        b.map.width <= MAP_COLS,
        b.map.height <= 255,
        first_unit_at(b.units, col, row, b.units.len() as int) == Some(i),
        b.map.type_at(col, row) != TileType::Empty,
        normal,
        b.units[i].flags & 0x60 != 0,
    ensures
        ({
            let u = b.units[i];
            let n: int = if u.flags & 0x40 != 0 { 4 } else { 3 };
            let after = turn_board(b, normal, state, col, row);
            let v = after.units[i];
            &&& after.units == b.units.update(i, v)
            &&& v == steps_of(u, b.map, state, n)
            &&& forall|t: int| 0 <= t < n ==> #[trigger] step_is_neighbour(u, b.map, state, t)
            &&& v == Unit { col: v.col, row: v.row, ..u }
            &&& -n <= v.col - u.col <= n
            &&& -n <= v.row - u.row <= n
            &&& after.map.width == b.map.width && after.map.height == b.map.height
            &&& after.map.inside(v.col, v.row)
            &&& after.map.tile_at(v.col, v.row) == 0x0100 | u.officer_id
            &&& (v.col != col || v.row != row) ==> after.map.tile_at(col, row) == 0
            &&& forall|c: u8, r: u8|
                (c != col || r != row) && (c != v.col || r != v.row) ==> #[trigger] after.map.tile_at(c, r)
                    == b.map.tile_at(c, r)
        }),
{
    let u = b.units[i];
    let m = b.map;
    lemma_first_unit_index(b.units, col, row, b.units.len() as int);
    assert(m.inside(col, row)) by {
        if !m.inside(col, row) {
            assert(m.tile_at(col, row) == 0);
            assert((0u16 as u8) % 16 == 0);
        }
    }
    let n: int = if u.flags & 0x40 != 0 { 4 } else { 3 };
    lemma_walk(u, m, state, n);
    lemma_moved_is_walk(u, m, state);
    let v = moved_unit(u, m, state);
    lemma_clear_and_mark(m, col, row, v.col, v.row, 0x0100 | u.officer_id);
}

/// A unit's AI moves are the first three steps of its walk, or four with
/// flag 6.
proof fn lemma_moved_is_walk(u: Unit, m: MapView, state: u32)
    ensures
        moved_unit(u, m, state) == steps_of(u, m, state, if u.flags & 0x40 != 0 { 4 } else { 3 }),
{
    reveal_with_fuel(steps_of, 5);
}

/// Clearing (`col`, `row`) and then writing `val` to (`c2`, `r2`), both
/// inside a map of at most 20 columns: the second cell holds `val`, the
/// first is 0 unless it is the second, and every other cell is kept.
proof fn lemma_clear_and_mark(m: MapView, col: u8, row: u8, c2: u8, r2: u8, val: u16)
    requires
        m.wf(),
        m.width <= MAP_COLS,
        m.inside(col, row),
        c2 < m.width,
        r2 < m.height,
        m.height <= 255,
    ensures
        ({
            let m2 = m.set(col, row, 0).set(c2, r2, val);
            &&& m2.width == m.width && m2.height == m.height
            &&& m2.inside(c2, r2)
            &&& m2.tile_at(c2, r2) == val
            &&& (c2 != col || r2 != row) ==> m2.tile_at(col, row) == 0
            &&& forall|c: u8, r: u8|
                (c != col || r != row) && (c != c2 || r != r2) ==> #[trigger] m2.tile_at(c, r)
                    == m.tile_at(c, r)
        }),
{
    let m1 = m.set(col, row, 0);
    let m2 = m1.set(c2, r2, val);
    assert(m.width as u8 == m.width);
    assert(m.height as u8 == m.height);
    assert(m1.inside(c2, r2));
    assert(m.inside(c2, r2));
    assert forall|c: u8, r: u8|
        (c != col || r != row) && (c != c2 || r != r2) implies #[trigger] m2.tile_at(c, r)
            == m.tile_at(c, r) by {
        if m.inside(c, r) {
            lemma_cell_index_injective(c, r, col, row);
            lemma_cell_index_injective(c, r, c2, r2);
        }
    }
    if c2 != col || r2 != row {
        lemma_cell_index_injective(col, row, c2, r2);
    }
}

/// Distinct cells of the 20-column grid have distinct indices.
proof fn lemma_cell_index_injective(c1: u8, r1: u8, c2: u8, r2: u8)
    requires
        c1 < MAP_COLS,
        c2 < MAP_COLS,
        c1 != c2 || r1 != r2,
    ensures
        cell_index(c1, r1) != cell_index(c2, r2),
{
    assert(r1 as int * 20 + c1 != r2 as int * 20 + c2) by (nonlinear_arith)
        requires
            c1 < 20,
            c2 < 20,
            c1 != c2 || r1 != r2,
    ;
}

/// The index `first_unit_at` finds is in range and holds a unit on the
/// cell.
proof fn lemma_first_unit_index(units: Seq<Unit>, col: u8, row: u8, n: int)
    requires
        first_unit_at(units, col, row, n) is Some,
    ensures
        0 <= first_unit_at(units, col, row, n).unwrap() < n,
        units[first_unit_at(units, col, row, n).unwrap()].col == col,
        units[first_unit_at(units, col, row, n).unwrap()].row == row,
    decreases n,
{
    if n > 0 && first_unit_at(units, col, row, n - 1) is Some {
        lemma_first_unit_index(units, col, row, n - 1);
    }
}

/// Direction move decision: the unit walks to the nearest reachable,
/// unoccupied cell, if there is one.
pub fn officer_direction_decision(game: &mut GameState, unit_idx: usize)
    requires
        unit_idx < old(game).units.units@.len(),
        old(game).map.wf(),
    ensures
        ({
            let u = old(game).units.units@[unit_idx as int];
            &&& (forall|c: u8, r: u8| !#[trigger] candidate_cell(old(game).map@, c, r)) ==> *final(game) == *old(game)
            &&& (exists|c: u8, r: u8| #[trigger] candidate_cell(old(game).map@, c, r)) ==> exists|c: u8, r: u8|
                {
                    &&& is_nearest_candidate(old(game).map@, u.col, u.row, c, r)
                    &&& final(game).units.units@ == old(game).units.units@.update(
                        unit_idx as int,
                        Unit { col: c, row: r, ..u },
                    )
                    &&& *final(game) == (GameState { units: final(game).units, ..*old(game) })
                }
        }),
{
    let unit = game.units.units[unit_idx];
    if let Some(target) = find_best_cell_weighted(&unit, game) {
        game.units.units[unit_idx].col = target.0;
        game.units.units[unit_idx].row = target.1;
        assert(game.units.units@ =~= old(game).units.units@.update(
            unit_idx as int,
            Unit { col: target.0, row: target.1, ..unit },
        ));
    }
}

fn collect_eligible(officers: &Vec<Officer>) -> (r: Vec<Officer>)
    ensures
        forall|j: int| 0 <= j < r@.len() ==> eligible(#[trigger] r@[j]),
        forall|j: int| 0 <= j < r@.len() ==> officers@.contains(#[trigger] r@[j]),
        forall|k: int|
            0 <= k < officers@.len() && eligible(#[trigger] officers@[k]) ==> r@.contains(
                officers@[k],
            ),
{
    let mut out: Vec<Officer> = Vec::new();
    let mut i: usize = 0;
    while i < officers.len()
        invariant
            i <= officers@.len(),
            forall|j: int| 0 <= j < out@.len() ==> eligible(#[trigger] out@[j]),
            forall|j: int| 0 <= j < out@.len() ==> officers@.contains(#[trigger] out@[j]),
            forall|k: int| 0 <= k < i && eligible(#[trigger] officers@[k]) ==> out@.contains(officers@[k]),
        decreases officers@.len() - i,
    {
        let o = officers[i];
        let ghost prev = out@;
        if o.is_valid() && !o.is_disabled() {
            out.push(o);
            assert(out@[out@.len() - 1] == officers@[i as int]);
        }
        assert forall|k: int| 0 <= k < i + 1 && eligible(#[trigger] officers@[k]) implies out@.contains(
            officers@[k],
        ) by {
            if k == i {
                assert(out@[out@.len() - 1] == officers@[k]);
            } else {
                assert(prev.contains(officers@[k]));
                let w = choose|w: int| 0 <= w < prev.len() && prev[w] == officers@[k];
                assert(out@[w] == prev[w]);
            }
        }
        assert forall|j: int| 0 <= j < out@.len() implies officers@.contains(#[trigger] out@[j]) by {
            if j < prev.len() {
                assert(out@[j] == prev[j]);
            } else {
                assert(out@[j] == officers@[i as int]);
            }
        }
        i = i + 1;
    }
    out
}

/// Some eligible officer has a positive development score.
pub open spec fn some_developer(g: &GameState) -> bool {
    exists|k: int|
        0 <= k < g.officers.officers@.len() && eligible(#[trigger] g.officers.officers@[k])
            && develop_score(
            g.officers.officers@[k],
            g.cities.city(develop_city_id(g.officers.officers@[k])),
        ) > 0
}

/// Development decision: the city needs 2048 gold, and some eligible
/// officer must score above 0 for development.
pub fn develop_decision_check(game: &mut GameState, city_id: u8) -> (r: bool)
    requires
        old(game).cities.wf(),
    ensures
        r == (old(game).cities.city(city_id).off_0f >= 2048 && some_developer(&*old(game))),
        *final(game) == *old(game),
{
    let g: &GameState = &*game;
    let city = g.cities.get(city_id);
    if city.off_0f < 2048 {
        return false;
    }
    let officers = collect_eligible(&g.officers.officers);
    let scorer = |o: &Officer| -> (s: u16)
        requires
            g.cities.wf(),
        ensures
            s == develop_score(*o, g.cities.city(develop_city_id(*o))),
        { score_develop(o, g) };
    let best = officer_score_dispatch(officers.as_slice(), scorer);
    proof {
        let scores = choose|scores: Seq<u16>|
            {
                &&& scores.len() == officers@.len()
                &&& forall|i: int|
                    0 <= i < officers@.len() && eligible(officers@[i]) ==> call_ensures(
                        scorer,
                        (&#[trigger] officers@[i],),
                        scores[i],
                    )
                &&& is_best_scored(officers@, scores, best)
            };
        let all = g.officers.officers@;
        if best is Some {
            let (i, sc) = best.unwrap();
            assert(call_ensures(scorer, (&officers@[i as int],), scores[i as int]));
            assert(all.contains(officers@[i as int]));
            let k = choose|k: int| 0 <= k < all.len() && all[k] == officers@[i as int];
            assert(eligible(all[k]));
        } else {
            assert forall|k: int| 0 <= k < all.len() && eligible(#[trigger] all[k]) implies develop_score(
                all[k],
                g.cities.city(develop_city_id(all[k])),
            ) == 0 by {
                assert(officers@.contains(all[k]));
                let j = choose|j: int| 0 <= j < officers@.len() && officers@[j] == all[k];
                assert(call_ensures(scorer, (&officers@[j],), scores[j]));
            }
        }
    }
    best.is_some()
}

/// Some eligible officer's `off7` reaches `threshold`.
pub open spec fn some_recruiter(g: &GameState, threshold: u16) -> bool {
    exists|k: int|
        0 <= k < g.officers.officers@.len() && eligible(#[trigger] g.officers.officers@[k])
            && g.officers.officers@[k].off7 >= threshold
}

/// The recruitment threshold of a city: 50 below 151 gold, 40 otherwise.
pub open spec fn recruit_threshold(c: City) -> u16 {
    if c.off_0f < 151 {
        50
    } else {
        40
    }
}

/// Recruitment decision: the best eligible recruitment score must reach
/// the city's threshold.
pub fn recruit_decision(game: &mut GameState, city_id: u8) -> (r: bool)
    requires
        old(game).cities.wf(),
    ensures
        r == some_recruiter(&*old(game), recruit_threshold(old(game).cities.city(city_id))),
        *final(game) == *old(game),
{
    let g: &GameState = &*game;
    let city = g.cities.get(city_id);
    let pop_threshold: u16 = if city.off_0f < 151 {
        50
    } else {
        40
    };
    let officers = collect_eligible(&g.officers.officers);
    let scorer = |o: &Officer| -> (s: u16)
        ensures
            s == o.off7,
        { score_recruit(o, g) };
    let best = officer_score_dispatch(officers.as_slice(), scorer);
    let r = match best {
        Some((_idx, score)) => score >= pop_threshold,
        None => false,
    };
    proof {
        let scores = choose|scores: Seq<u16>|
            {
                &&& scores.len() == officers@.len()
                &&& forall|i: int|
                    0 <= i < officers@.len() && eligible(officers@[i]) ==> call_ensures(
                        scorer,
                        (&#[trigger] officers@[i],),
                        scores[i],
                    )
                &&& is_best_scored(officers@, scores, best)
            };
        let all = g.officers.officers@;
        if r {
            let (i, sc) = best.unwrap();
            assert(call_ensures(scorer, (&officers@[i as int],), scores[i as int]));
            assert(all.contains(officers@[i as int]));
            let k = choose|k: int| 0 <= k < all.len() && all[k] == officers@[i as int];
            assert(eligible(all[k]) && all[k].off7 >= pop_threshold);
        } else {
            assert forall|k: int| 0 <= k < all.len() && eligible(#[trigger] all[k]) implies all[k].off7
                < pop_threshold by {
                assert(officers@.contains(all[k]));
                let j = choose|j: int| 0 <= j < officers@.len() && officers@[j] == all[k];
                assert(call_ensures(scorer, (&officers@[j],), scores[j]));
            }
        }
    }
    r
}

/// Largest `r` with `r * r <= val`.
pub open spec fn is_isqrt(val: int, r: int) -> bool {
    r >= 0 && r * r <= val && val < (r + 1) * (r + 1)
}

proof fn lemma_newton_step(val: int, x: int)
    requires
        val > 0,
        x >= 1,
    ensures
        ((x + val / x) / 2 + 1) * ((x + val / x) / 2 + 1) > val,
{
    let q = val / x;
    let y = (x + q) / 2;
    assert(val < (q + 1) * x) by (nonlinear_arith)
        requires
            q == val / x,
            x >= 1,
            val > 0,
    ;
    assert(q >= 0) by (nonlinear_arith)
        requires
            q == val / x,
            x >= 1,
            val > 0,
    ;
    assert(2 * (y + 1) >= x + q + 1);
    assert(4 * ((y + 1) * (y + 1)) >= (x + q + 1) * (x + q + 1)) by (nonlinear_arith)
        requires
            2 * (y + 1) >= x + q + 1,
            x + q + 1 >= 0,
    ;
    assert((x + q + 1) * (x + q + 1) == 4 * (q * x + x) + (x - q - 1) * (x - q - 1)) by (nonlinear_arith);
    assert((x - q - 1) * (x - q - 1) >= 0) by (nonlinear_arith);
    assert((q + 1) * x == q * x + x) by (nonlinear_arith);
    assert((y + 1) * (y + 1) > val);
}

proof fn lemma_newton_no_overflow(val: int, x: int)
    requires
        1 <= x <= val,
    ensures
        x + val / x <= val + 1,
        val / x <= val,
{
    let q = val / x;
    assert(q >= 1 && x * q <= val) by (nonlinear_arith)
        requires
            q == val / x,
            1 <= x <= val,
    ;
    assert((x - 1) * (q - 1) >= 0) by (nonlinear_arith)
        requires
            x >= 1,
            q >= 1,
    ;
    assert(x * q - x - q + 1 == (x - 1) * (q - 1)) by (nonlinear_arith);
}

/// Integer square root by Newton iteration.
fn integer_sqrt(val: u32) -> (r: u32)
    requires
        val < u32::MAX,
    ensures
        is_isqrt(val as int, r as int),
{
    if val == 0 {
        assert(is_isqrt(0, 0)) by (nonlinear_arith);
        return 0;
    }
    let mut x = val;
    let mut y = (x + 1) / 2;
    assert(val / val == 1) by (nonlinear_arith)
        requires
            val > 0,
    ;
    assert((val + 1) * (val + 1) > val) by (nonlinear_arith)
        requires
            val > 0,
    ;
    while y < x
        invariant
            val > 0,
            val < u32::MAX,
            x >= 1,
            x <= val,
            y == (x + val / x) / 2,
            (x + 1) * (x + 1) > val,
        decreases x,
    {
        proof {
            lemma_newton_step(val as int, x as int);
        }
        x = y;
        assert(x >= 1) by (nonlinear_arith)
            requires
                (x + 1) * (x + 1) > val,
                val > 0,
                x >= 0,
        ;
        assert(x <= val);
        proof {
            lemma_newton_no_overflow(val as int, x as int);
        }
        y = (x + val / x) / 2;
    }
    assert(x * x <= val) by (nonlinear_arith)
        requires
            y >= x,
            y == (x + val / x) / 2,
            x >= 1,
            val > 0,
    ;
    x
}

/// The development value written by action 7 for a roll in 0..10:
/// `((off_18 / 2) * (off_1c + 1) + off_18) / isqrt(off_18 + off_19) + 1`,
/// replaced by `roll + 14` when above 16.
pub open spec fn develop_value(c: City, root: int, roll: int) -> int {
    let base = (c.off_18 / 2) * (c.off_1c + 1) + c.off_18;
    let result = base / root + 1;
    if result > 16 {
        roll + 14
    } else {
        result
    }
}

/// Terminal action dispatch. Action 3 (combat set-up) and 4 (recruit,
/// -1 when refused) leave the game unchanged; action 7 recomputes the
/// city's `off_1e` from its development; other actions give -1.
pub fn action_dispatch(game: &mut GameState, action_id: u8, city_id: u8) -> (r: i32)
    requires
        old(game).cities.wf(),
    ensures
        action_id == 3 ==> r == 0 && *final(game) == *old(game),
        action_id == 4 ==> r == (if some_recruiter(
            &*old(game),
            recruit_threshold(old(game).cities.city(city_id)),
        ) {
            0
        } else {
            -1
        }) && *final(game) == *old(game),
        action_id == 7 ==> r == 0 && ({
            let c = old(game).cities.city(city_id);
            let stat_sum = c.off_18 + c.off_19;
            (forall|root: int| is_isqrt(stat_sum, root) && root == 0 ==> *final(game) == *old(game))
                && (forall|root: int|
                is_isqrt(stat_sum, root) && root > 0 ==> {
                    let result = (c.off_18 / 2) * (c.off_1c + 1) + c.off_18;
                    let v = develop_value(c, root, (lcg_next(old(game).rng_state) % 10) as int);
                    &&& (city_id as int) < CITY_COUNT
                    &&& final(game).cities.cities@ == old(game).cities.cities@.update(
                        city_id as int,
                        City { off_1e: v as u8, ..c },
                    )
                    &&& final(game).rng_state == (if result / root + 1 > 16 {
                        lcg_next(old(game).rng_state)
                    } else {
                        old(game).rng_state
                    })
                    &&& *final(game) == (GameState {
                        cities: final(game).cities,
                        rng_state: final(game).rng_state,
                        ..*old(game)
                    })
                    &&& final(game).cities.invalid == old(game).cities.invalid
                })
        }),
        action_id != 3 && action_id != 4 && action_id != 7 ==> r == -1 && *final(game) == *old(game),
{
    match action_id {
        3 => 0,
        4 => {
            if recruit_decision(game, city_id) {
                0
            } else {
                -1
            }
        },
        7 => {
            let city = game.cities.get(city_id);
            let stat_sum = city.off_18 as u32 + city.off_19 as u32;
            let sqrt_val = integer_sqrt(stat_sum);
            if sqrt_val == 0 {
                proof {
                    lemma_isqrt_unique(stat_sum as int, 0);
                }
                return 0;
            }
            proof {
                lemma_isqrt_unique(stat_sum as int, sqrt_val as int);
            }
            let half = city.off_18 as u32 / 2;
            let mult = city.off_1c as u32 + 1;
            assert(half * mult <= 127 * 256) by (nonlinear_arith)
                requires
                    half <= 127,
                    mult <= 256,
            ;
            let base = half * mult + city.off_18 as u32;
            let result = base / sqrt_val + 1;
            let ghost c = *city;
            let capped = if result > 16 {
                game.random_range(10) as u32 + 14
            } else {
                result
            };
            let v: u8 = if capped > 255 {
                255
            } else {
                capped as u8
            };
            assert((city_id as int) < CITY_COUNT) by {
                if (city_id as int) >= CITY_COUNT {
                    assert(c.off_18 == 0 && c.off_19 == 0);
                    assert(stat_sum == 0);
                    let sq = sqrt_val as int;
                    assert(false) by (nonlinear_arith)
                        requires
                            sq >= 1,
                            sq * sq <= 0,
                    ;
                }
            }
            game.cities.get_mut(city_id).off_1e = v;
            0
        },
        _ => -1,
    }
}

proof fn lemma_isqrt_unique(val: int, r: int)
    requires
        is_isqrt(val, r),
    ensures
        forall|r2: int| is_isqrt(val, r2) ==> r2 == r,
{
    assert forall|r2: int| is_isqrt(val, r2) implies r2 == r by {
        if r2 < r {
            assert((r2 + 1) * (r2 + 1) <= r * r) by (nonlinear_arith)
                requires
                    r2 + 1 <= r,
                    r2 >= 0,
            ;
        } else if r2 > r {
            assert((r + 1) * (r + 1) <= r2 * r2) by (nonlinear_arith)
                requires
                    r + 1 <= r2,
                    r >= 0,
            ;
        }
    }
}

} // verus!
