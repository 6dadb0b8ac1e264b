//! Move evaluation and path selection for AI units.

use vstd::prelude::*;
use crate::data::map::{GameMap, MapView, TileType, barrier_terrain, tile_code, MAP_COLS, MAP_ROWS};
use crate::data::unit::Unit;
use crate::data::game_state::{GameState, lcg_next};

verus! {

/// The movement cost of a terrain code: impassable (0xFF) for empty, river,
/// sea and barrier codes, 2 for forest and the special code, 3 for
/// mountain, 1 otherwise.
pub open spec fn terrain_cost(code: u8) -> u8 {
    if code == 0x00 || code == 0x05 || code == 0x08 || code == 0x0A || code == 0x0C || code
        == 0x0D {
        0xFF
    } else if code == 0x03 || code == 0x0B {
        2
    } else if code == 0x04 {
        3
    } else if code < 16 {
        1
    } else {
        0xFF
    }
}

fn terrain_cost_exec(code: u8) -> (r: u8)
    ensures
        r == terrain_cost(code),
{
    match code {
        0x00 => 0xFF,
        0x01 => 1,
        0x02 => 1,
        0x03 => 2,
        0x04 => 3,
        0x05 => 0xFF,
        0x06 => 1,
        0x07 => 1,
        0x08 => 0xFF,
        0x09 => 1,
        0x0A => 0xFF,
        0x0B => 2,
        0x0C => 0xFF,
        0x0D => 0xFF,
        0x0E => 1,
        0x0F => 1,
        _ => 0xFF,
    }
}

/// Movement cost of entering a cell: 0xFF outside the map or on impassable
/// terrain.
pub open spec fn cost_at(m: MapView, col: u8, row: u8) -> u8 {
    if col >= m.width as u8 || row >= m.height as u8 {
        0xFF
    } else {
        terrain_cost(tile_code(m.type_at(col, row)))
    }
}

/// Terrain cost of a cell.
pub fn lookup_cost_table(col: u8, row: u8, map: &GameMap) -> (r: u8)
    requires
        map.wf(),
    ensures
        r == cost_at(map@, col, row),
{
    if col >= map.width as u8 || row >= map.height as u8 {
        return 0xFF;
    }
    let tile_type = map.get_tile_type(col, row).code();
    terrain_cost_exec(tile_type)
}

/// Whether a cell holds barrier terrain.
pub fn pred_is_barrier(col: u8, row: u8, map: &GameMap) -> (r: bool)
    requires
        map.wf(),
    ensures
        r == barrier_terrain(map@.type_at(col, row)),
{
    let tt = map.get_tile_type(col, row);
    tt == TileType::Empty || tt == TileType::Barrier || tt == TileType::Barrier2 || tt
        == TileType::Barrier3
}

/// `|a - b|`.
pub open spec fn abs_diff(a: u8, b: u8) -> int {
    if a >= b {
        a - b
    } else {
        b - a
    }
}

/// Distance estimate on the staggered grid: half the column distance
/// (rounded by the parity of the start row) plus the larger of that and the
/// row distance.
pub open spec fn distance(from_col: u8, from_row: u8, to_col: u8, to_row: u8) -> int {
    let dx = abs_diff(from_col, to_col);
    let dy = abs_diff(from_row, to_row);
    let adjusted = if from_row % 2 == 1 {
        dx / 2
    } else {
        (dx + 1) / 2
    };
    (if adjusted >= dy {
        adjusted
    } else {
        dy
    }) + adjusted
}

/// Distance estimate between two cells of the staggered grid.
pub fn calc_distance_heuristic(from_col: u8, from_row: u8, to_col: u8, to_row: u8) -> (r: u16)
    ensures
        r == distance(from_col, from_row, to_col, to_row),
        r < 400,
{
    let dx: u16 = if from_col >= to_col {
        (from_col - to_col) as u16
    } else {
        (to_col - from_col) as u16
    };
    let dy: u16 = if from_row >= to_row {
        (from_row - to_row) as u16
    } else {
        (to_row - from_row) as u16
    };
    assert(from_row & 1 == from_row % 2) by (bit_vector);
    let adjusted = if (from_row & 1) != 0 {
        dx / 2
    } else {
        (dx + 1) / 2
    };
    let m = if adjusted >= dy {
        adjusted
    } else {
        dy
    };
    m + adjusted
}

/// The movement cost of each terrain: empty ground, rivers, the sea and
/// the three barriers cannot be entered; forests and the special terrain
/// cost 2, mountains 3, and every other terrain 1.
pub proof fn lemma_terrain_costs(t: TileType)
    ensures
        (t == TileType::Empty || t == TileType::River || t == TileType::Sea || t == TileType::Barrier || t
            == TileType::Barrier2 || t == TileType::Barrier3) ==> terrain_cost(tile_code(t)) == 0xFF,
        (t == TileType::Forest || t == TileType::Special1) ==> terrain_cost(tile_code(t)) == 2,
        t == TileType::Mountain ==> terrain_cost(tile_code(t)) == 3,
        (t == TileType::City || t == TileType::Plain || t == TileType::Bridge || t == TileType::Coast || t
            == TileType::Fortress || t == TileType::Developed || t == TileType::Road) ==> terrain_cost(
            tile_code(t),
        ) == 1,
{
}

/// The cost of a unit's move from its cell is -1 exactly when the cell is
/// impassable, costs more than the unit's movement points, or is occupied,
/// and the cell's cost otherwise; a unit with a combat flag pays twice that
/// cost (and -1 stays -1).
pub proof fn lemma_move_cost_rules(u: Unit, m: MapView)
    ensures
        (move_cost(u, m) == -1) <==> (cost_at(m, u.col, u.row) == 0xFF || cost_at(m, u.col, u.row) > u.attr_1b
            || m.bitmask_at(u.col, u.row) != 0),
        move_cost(u, m) != -1 ==> move_cost(u, m) == cost_at(m, u.col, u.row),
        u.flags & 0x60 == 0 ==> two_phase_cost(u, m) == move_cost(u, m),
        u.flags & 0x60 != 0 && move_cost(u, m) != -1 ==> two_phase_cost(u, m) == 2 * cost_at(m, u.col, u.row),
        u.flags & 0x60 != 0 && move_cost(u, m) == -1 ==> two_phase_cost(u, m) == -1,
{
}

/// The distance estimate never undercuts the row distance, and between
/// cells of one column it is exactly the row distance.
pub proof fn lemma_distance_rules(from_col: u8, from_row: u8, to_col: u8, to_row: u8)
    ensures
        distance(from_col, from_row, to_col, to_row) >= abs_diff(from_row, to_row),
        distance(from_col, from_row, to_col, to_row) >= 0,
        from_col == to_col ==> distance(from_col, from_row, to_col, to_row) == abs_diff(from_row, to_row),
{
}

/// The distance estimate from a cell to itself is 0.
pub proof fn lemma_distance_to_self(col: u8, row: u8)
    ensures
        distance(col, row, col, row) == 0,
{
}

/// The cost of the move a unit is about to make from its own cell: -1 when
/// the cell is impassable, too expensive for the unit's movement points, or
/// occupied; the terrain cost otherwise.
pub open spec fn move_cost(u: Unit, m: MapView) -> int {
    let cost = cost_at(m, u.col, u.row);
    if cost == 0xFF {
        -1
    } else if cost > u.attr_1b {
        -1
    } else if m.bitmask_at(u.col, u.row) != 0 {
        -1
    } else {
        cost as int
    }
}

/// Two-phase evaluation: a unit in combat pays the move cost twice.
pub open spec fn two_phase_cost(u: Unit, m: MapView) -> int {
    if u.flags & 0x60 == 0 {
        move_cost(u, m)
    } else if move_cost(u, m) == -1 {
        -1
    } else {
        2 * move_cost(u, m)
    }
}

/// Two-phase move evaluation.
pub fn eval_two_phase(unit: &Unit, game: &GameState) -> (r: i32)
    requires
        game.map.wf(),
    ensures
        r == two_phase_cost(*unit, game.map@),
{
    assert(0x20u8 | 0x40u8 == 0x60u8) by (bit_vector);
    if !unit.has_combat_flags() {
        return evaluate_move_cost(unit, game);
    }
    let phase1 = probe_and_eval(unit, game);
    if phase1 == -1 {
        return -1;
    }
    let phase2 = evaluate_move_cost(unit, game);
    if phase2 == -1 {
        return -1;
    }
    saturating_add_wrap(phase1, phase2)
}

/// Full move cost evaluation.
pub fn evaluate_move_cost(unit: &Unit, game: &GameState) -> (r: i32)
    requires
        game.map.wf(),
    ensures
        r == move_cost(*unit, game.map@),
        -1 <= r <= 3,
{
    let cost = lookup_cost_table(unit.col, unit.row, &game.map);
    if cost == 0xFF {
        return -1;
    }
    if cost > unit.attr_1b {
        return -1;
    }
    if game.map.get_tile_bitmask(unit.col, unit.row) != 0 {
        return -1;
    }
    cost as i32
}

fn probe_and_eval(unit: &Unit, game: &GameState) -> (r: i32)
    requires
        game.map.wf(),
    ensures
        r == move_cost(*unit, game.map@),
        -1 <= r <= 3,
{
    evaluate_move_cost(unit, game)
}

fn saturating_add_wrap(a: i32, b: i32) -> (r: i32)
    ensures
        r == vstd::wrapping::i32_specs::wrapping_add(a, b),
{
    a.wrapping_add(b)
}

/// A cell the AI may choose as a destination: on the 20 x 11 grid (without
/// the odd columns of the last row), passable and unoccupied.
pub open spec fn candidate_cell(m: MapView, col: u8, row: u8) -> bool {
    &&& (col as int) < MAP_COLS
    &&& (row as int) < MAP_ROWS
    &&& !(row == 10 && col % 2 == 1)
    &&& cost_at(m, col, row) != 0xFF
    &&& m.bitmask_at(col, row) == 0
}

/// (`c2`, `r2`) comes before (`c`, `r`) in row-major order.
pub open spec fn scan_before(c2: u8, r2: u8, c: u8, r: u8) -> bool {
    r2 < r || (r2 == r && c2 < c)
}

/// (`c`, `r`) is the candidate nearest to (`from_col`, `from_row`), the
/// first in row-major order among equally near ones.
pub open spec fn is_nearest_candidate(m: MapView, from_col: u8, from_row: u8, c: u8, r: u8) -> bool {
    &&& candidate_cell(m, c, r)
    &&& forall|c2: u8, r2: u8|
        #[trigger] candidate_cell(m, c2, r2) ==> distance(from_col, from_row, c2, r2) >= distance(
            from_col,
            from_row,
            c,
            r,
        ) && (scan_before(c2, r2, c, r) ==> distance(from_col, from_row, c2, r2) > distance(
            from_col,
            from_row,
            c,
            r,
        ))
}

/// The nearest reachable, unoccupied cell.
pub fn find_best_move_target(unit: &Unit, game: &GameState) -> (r: Option<(u8, u8)>)
    requires
        game.map.wf(),
    ensures
        match r {
            Some((c, rw)) => is_nearest_candidate(game.map@, unit.col, unit.row, c, rw),
            None => forall|c2: u8, r2: u8| !#[trigger] candidate_cell(game.map@, c2, r2),
        },
{
    let ghost m = game.map@;
    let mut best_col = unit.col;
    let mut best_row = unit.row;
    let mut best_dist: u16 = u16::MAX;
    let mut row: u8 = 0;
    while row < MAP_ROWS as u8
        invariant
            game.map.wf(),
            m == game.map@,
            row <= MAP_ROWS,
            best_dist == u16::MAX ==> forall|c2: u8, r2: u8|
                r2 < row ==> !#[trigger] candidate_cell(m, c2, r2),
            best_dist != u16::MAX ==> {
                &&& candidate_cell(m, best_col, best_row)
                &&& best_dist == distance(unit.col, unit.row, best_col, best_row)
                &&& forall|c2: u8, r2: u8|
                    r2 < row && #[trigger] candidate_cell(m, c2, r2) ==> distance(
                        unit.col,
                        unit.row,
                        c2,
                        r2,
                    ) >= best_dist && (scan_before(c2, r2, best_col, best_row) ==> distance(
                        unit.col,
                        unit.row,
                        c2,
                        r2,
                    ) > best_dist)
                &&& best_row < row
            },
        decreases MAP_ROWS - row,
    {
        let mut col: u8 = 0;
        while col < MAP_COLS as u8
            invariant
                game.map.wf(),
                m == game.map@,
                row < MAP_ROWS,
                col <= MAP_COLS,
                best_dist == u16::MAX ==> forall|c2: u8, r2: u8|
                    scan_before(c2, r2, col, row) ==> !#[trigger] candidate_cell(m, c2, r2),
                best_dist != u16::MAX ==> {
                    &&& candidate_cell(m, best_col, best_row)
                    &&& best_dist == distance(unit.col, unit.row, best_col, best_row)
                    &&& forall|c2: u8, r2: u8|
                        scan_before(c2, r2, col, row) && #[trigger] candidate_cell(m, c2, r2)
                            ==> distance(unit.col, unit.row, c2, r2) >= best_dist && (scan_before(
                            c2,
                            r2,
                            best_col,
                            best_row,
                        ) ==> distance(unit.col, unit.row, c2, r2) > best_dist)
                    &&& scan_before(best_col, best_row, col, row)
                },
            decreases MAP_COLS - col,
        {
            assert(col & 1 == col % 2) by (bit_vector);
            if row == 10 && (col & 1) != 0 {
                col = col + 1;
                continue;
            }
            let cost = lookup_cost_table(col, row, &game.map);
            if cost == 0xFF {
                col = col + 1;
                continue;
            }
            if game.map.get_tile_bitmask(col, row) != 0 {
                col = col + 1;
                continue;
            }
            let dist = calc_distance_heuristic(unit.col, unit.row, col, row);
            if dist < best_dist {
                best_dist = dist;
                best_col = col;
                best_row = row;
            }
            col = col + 1;
        }
        row = row + 1;
    }
    if best_dist < u16::MAX {
        Some((best_col, best_row))
    } else {
        None
    }
}

/// The best cell by weighted score (the negated distance estimate): the
/// same cell as `find_best_move_target`.
pub fn find_best_cell_weighted(unit: &Unit, game: &GameState) -> (r: Option<(u8, u8)>)
    requires
        game.map.wf(),
    ensures
        match r {
            Some((c, rw)) => is_nearest_candidate(game.map@, unit.col, unit.row, c, rw),
            None => forall|c2: u8, r2: u8| !#[trigger] candidate_cell(game.map@, c2, r2),
        },
{
    let ghost m = game.map@;
    let mut best_col = unit.col;
    let mut best_row = unit.row;
    let mut best_score: i32 = i32::MIN;
    let mut row: u8 = 0;
    while row < MAP_ROWS as u8
        invariant
            game.map.wf(),
            m == game.map@,
            row <= MAP_ROWS,
            best_score == i32::MIN ==> forall|c2: u8, r2: u8|
                r2 < row ==> !#[trigger] candidate_cell(m, c2, r2),
            best_score != i32::MIN ==> {
                &&& candidate_cell(m, best_col, best_row)
                &&& best_score == -distance(unit.col, unit.row, best_col, best_row)
                &&& forall|c2: u8, r2: u8|
                    r2 < row && #[trigger] candidate_cell(m, c2, r2) ==> -distance(
                        unit.col,
                        unit.row,
                        c2,
                        r2,
                    ) <= best_score && (scan_before(c2, r2, best_col, best_row) ==> -distance(
                        unit.col,
                        unit.row,
                        c2,
                        r2,
                    ) < best_score)
                &&& best_row < row
            },
        decreases MAP_ROWS - row,
    {
        let mut col: u8 = 0;
        while col < MAP_COLS as u8
            invariant
                game.map.wf(),
                m == game.map@,
                row < MAP_ROWS,
                col <= MAP_COLS,
                best_score == i32::MIN ==> forall|c2: u8, r2: u8|
                    scan_before(c2, r2, col, row) ==> !#[trigger] candidate_cell(m, c2, r2),
                best_score != i32::MIN ==> {
                    &&& candidate_cell(m, best_col, best_row)
                    &&& best_score == -distance(unit.col, unit.row, best_col, best_row)
                    &&& forall|c2: u8, r2: u8|
                        scan_before(c2, r2, col, row) && #[trigger] candidate_cell(m, c2, r2)
                            ==> -distance(unit.col, unit.row, c2, r2) <= best_score && (scan_before(
                            c2,
                            r2,
                            best_col,
                            best_row,
                        ) ==> -distance(unit.col, unit.row, c2, r2) < best_score)
                    &&& scan_before(best_col, best_row, col, row)
                },
            decreases MAP_COLS - col,
        {
            assert(col & 1 == col % 2) by (bit_vector);
            if row == 10 && (col & 1) != 0 {
                col = col + 1;
                continue;
            }
            let cost = lookup_cost_table(col, row, &game.map);
            if cost == 0xFF {
                col = col + 1;
                continue;
            }
            if game.map.get_tile_bitmask(col, row) != 0 {
                col = col + 1;
                continue;
            }
            let dist = calc_distance_heuristic(unit.col, unit.row, col, row);
            let score = -(dist as i32);
            if score > best_score {
                best_score = score;
                best_col = col;
                best_row = row;
            }
            col = col + 1;
        }
        row = row + 1;
    }
    if best_score > i32::MIN {
        Some((best_col, best_row))
    } else {
        None
    }
}

/// Column step of direction `d` (0..6, clockwise from north).
pub open spec fn dir_col(d: u8) -> i8 {
    if d == 1 || d == 2 {
        1
    } else if d == 4 || d == 5 {
        -1i8
    } else {
        0
    }
}

/// Row step of direction `d` (0..6, clockwise from north).
pub open spec fn dir_row(d: u8) -> i8 {
    if d == 0 || d == 1 {
        -1i8
    } else if d == 3 || d == 4 {
        1
    } else {
        0
    }
}

fn dir_vector(d: u8) -> (r: (i8, i8))
    requires
        d < 6,
    ensures
        r == (dir_col(d), dir_row(d)),
{
    match d {
        0 => (0, -1),
        1 => (1, -1),
        2 => (1, 0),
        3 => (0, 1),
        4 => (-1, 1),
        _ => (-1, 0),
    }
}

/// `s` with the entries at `i` and `j` exchanged.
pub open spec fn swap_at(s: Seq<u8>, i: int, j: int) -> Seq<u8> {
    s.update(i, s[j]).update(j, s[i])
}

/// Fisher-Yates shuffle of `s` from index `i` down to 1, each step drawing
/// the next generator state.
pub open spec fn shuffle_from(s: Seq<u8>, state: u32, i: int) -> Seq<u8>
    decreases i,
{
    if i <= 0 {
        s
    } else {
        let next = lcg_next(state);
        shuffle_from(swap_at(s, i, next as int % (i + 1)), next, i - 1)
    }
}

/// The order in which the six directions are tried for a generator state.
pub open spec fn direction_order(state: u32) -> Seq<u8> {
    shuffle_from(seq![0u8, 1, 2, 3, 4, 5], state, 5)
}

/// Shuffling keeps the length and keeps every entry a direction.
proof fn lemma_shuffle_keeps_directions(s: Seq<u8>, state: u32, i: int)
    requires
        0 <= i < s.len(),
        forall|k: int| 0 <= k < s.len() ==> s[k] < 6,
    ensures
        shuffle_from(s, state, i).len() == s.len(),
        forall|k: int| 0 <= k < s.len() ==> #[trigger] shuffle_from(s, state, i)[k] < 6,
    decreases i,
{
    if i > 0 {
        let next = lcg_next(state);
        let s2 = swap_at(s, i, next as int % (i + 1));
        assert forall|k: int| 0 <= k < s2.len() implies s2[k] < 6 by {}
        lemma_shuffle_keeps_directions(s2, next, i - 1);
    }
}

/// The cell reached from the unit by direction `d`.
pub open spec fn dir_target_col(u: Unit, d: u8) -> int {
    u.col + dir_col(d)
}

pub open spec fn dir_target_row(u: Unit, d: u8) -> int {
    u.row + dir_row(d)
}

/// Direction `d` leads to a cell of the 20 x 11 grid that is passable
/// within the unit's movement points and unoccupied.
pub open spec fn dir_passable(u: Unit, m: MapView, d: u8) -> bool {
    let nc = dir_target_col(u, d);
    let nr = dir_target_row(u, d);
    &&& 0 <= nc < MAP_COLS
    &&& 0 <= nr < MAP_ROWS
    &&& cost_at(m, nc as u8, nr as u8) != 0xFF
    &&& cost_at(m, nc as u8, nr as u8) <= u.attr_1b
    &&& m.bitmask_at(nc as u8, nr as u8) == 0
}

pub open spec fn dir_cost(u: Unit, m: MapView, d: u8) -> u8 {
    cost_at(m, dir_target_col(u, d) as u8, dir_target_row(u, d) as u8)
}

/// Scanning the first `k` directions of `order`: the first passable
/// direction of least cost so far, and that cost (255 before any).
pub open spec fn pick_fold(u: Unit, m: MapView, order: Seq<u8>, k: int) -> (Option<(i8, i8)>, u8)
    decreases k,
{
    if k <= 0 {
        (None, 255u8)
    } else {
        let prev = pick_fold(u, m, order, k - 1);
        let d = order[k - 1];
        if dir_passable(u, m, d) && dir_cost(u, m, d) < prev.1 {
            (Some((dir_col(d), dir_row(d))), dir_cost(u, m, d))
        } else {
            prev
        }
    }
}

/// The direction a unit at (`col`, `row`) with the given movement points
/// steps to: the cheapest passable direction, ties going to the direction
/// tried first in the shuffled order of the generator state.
pub open spec fn best_direction(u: Unit, m: MapView, state: u32) -> Option<(i8, i8)> {
    pick_fold(u, m, direction_order(state), 6).0
}

/// Exchanging two entries keeps the values a sequence holds.
proof fn lemma_swap_contains(s: Seq<u8>, i: int, j: int, v: u8)
    requires
        0 <= i < s.len(),
        0 <= j < s.len(),
    ensures
        s.contains(v) <==> swap_at(s, i, j).contains(v),
{
    let t = swap_at(s, i, j);
    if s.contains(v) {
        let k = choose|k: int| 0 <= k < s.len() && s[k] == v;
        if k == i {
            assert(t[j] == v);
        } else if k == j {
            assert(t[i] == v);
        } else {
            assert(t[k] == v);
        }
    }
    if t.contains(v) {
        let k = choose|k: int| 0 <= k < t.len() && t[k] == v;
        if k == j {
            assert(s[i] == v);
        } else if k == i {
            assert(s[j] == v);
        } else {
            assert(s[k] == v);
        }
    }
}

/// Shuffling keeps the values a sequence holds.
proof fn lemma_shuffle_contains(s: Seq<u8>, state: u32, i: int, v: u8)
    requires
        0 <= i < s.len(),
    ensures
        s.contains(v) <==> shuffle_from(s, state, i).contains(v),
    decreases i,
{
    if i > 0 {
        let next = lcg_next(state);
        let j = next as int % (i + 1);
        lemma_swap_contains(s, i, j, v);
        lemma_shuffle_contains(swap_at(s, i, j), next, i - 1, v);
    }
}

/// What scanning the first `k` directions of `order` finds: nothing
/// exactly when none of them is passable, and otherwise one of them that is
/// passable, with the least cost among the passable ones.
proof fn lemma_pick_fold(u: Unit, m: MapView, order: Seq<u8>, k: int)
    requires
        0 <= k <= order.len(),
    ensures
        ({
            let r = pick_fold(u, m, order, k);
            &&& (r.0 is None <==> forall|j: int| 0 <= j < k ==> !#[trigger] dir_passable(u, m, order[j]))
            &&& (r.0 is None ==> r.1 == 255)
            &&& (r.0 is Some ==> exists|j: int|
                0 <= j < k && #[trigger] dir_passable(u, m, order[j]) && r.0 == Some(
                    (dir_col(order[j]), dir_row(order[j])),
                ) && r.1 == dir_cost(u, m, order[j]))
            &&& forall|j: int|
                0 <= j < k && #[trigger] dir_passable(u, m, order[j]) ==> r.1 <= dir_cost(u, m, order[j])
        }),
    decreases k,
{
    if k > 0 {
        lemma_pick_fold(u, m, order, k - 1);
        let prev = pick_fold(u, m, order, k - 1);
        let d = order[k - 1];
        if dir_passable(u, m, d) && dir_cost(u, m, d) < prev.1 {
            assert(dir_passable(u, m, order[k - 1]));
        } else if dir_passable(u, m, d) {
            assert(dir_cost(u, m, d) < 255);
            assert(prev.0 is Some);
        }
    }
}

/// The direction a unit steps to is `None` exactly when none of the six
/// directions is passable; otherwise it is the step of a passable
/// direction whose cost is the least among the passable directions.
pub proof fn lemma_best_direction(u: Unit, m: MapView, state: u32)
    ensures
        best_direction(u, m, state) is None <==> (forall|d: u8| d < 6 ==> !#[trigger] dir_passable(u, m, d)),
        best_direction(u, m, state) is Some ==> exists|d: u8|
            d < 6 && #[trigger] dir_passable(u, m, d) && best_direction(u, m, state) == Some(
                (dir_col(d), dir_row(d)),
            ) && forall|d2: u8|
                d2 < 6 && #[trigger] dir_passable(u, m, d2) ==> dir_cost(u, m, d) <= dir_cost(u, m, d2),
{
    let base = seq![0u8, 1, 2, 3, 4, 5];
    let order = direction_order(state);
    lemma_shuffle_keeps_directions(base, state, 5);
    lemma_pick_fold(u, m, order, 6);
    assert forall|d: u8| d < 6 implies #[trigger] order.contains(d) by {
        assert(base[d as int] == d);
        assert(base.contains(d));
        lemma_shuffle_contains(base, state, 5, d);
    }
    let r = pick_fold(u, m, order, 6);
    if r.0 is None {
        assert forall|d: u8| d < 6 implies !#[trigger] dir_passable(u, m, d) by {
            assert(order.contains(d));
            let j = choose|j: int| 0 <= j < 6 && order[j] == d;
            assert(!dir_passable(u, m, order[j]));
        }
    } else {
        let j = choose|j: int|
            0 <= j < 6 && #[trigger] dir_passable(u, m, order[j]) && r.0 == Some(
                (dir_col(order[j]), dir_row(order[j])),
            ) && r.1 == dir_cost(u, m, order[j]);
        let d = order[j];
        assert forall|d2: u8| d2 < 6 && #[trigger] dir_passable(u, m, d2) implies dir_cost(u, m, d)
            <= dir_cost(u, m, d2) by {
            assert(order.contains(d2));
            let j2 = choose|j2: int| 0 <= j2 < 6 && order[j2] == d2;
            assert(dir_passable(u, m, order[j2]));
        }
        assert(d < 6);
        assert(dir_passable(u, m, d));
        assert(!(forall|d: u8| d < 6 ==> !#[trigger] dir_passable(u, m, d)));
    }
}

/// Greedy direction choice.
pub fn pick_best_direction(unit: &Unit, game: &GameState) -> (r: Option<(i8, i8)>)
    requires
        game.map.wf(),
    ensures
        r == best_direction(*unit, game.map@, game.rng_state),
{
    let ghost m = game.map@;
    let mut best_dir: Option<(i8, i8)> = None;
    let mut best_cost: u8 = u8::MAX;
    let dir_order = shuffle_directions(game);
    let mut k: usize = 0;
    while k < 6
        invariant
            game.map.wf(),
            m == game.map@,
            k <= 6,
            dir_order@ == direction_order(game.rng_state),
            dir_order@.len() == 6,
            forall|i: int| 0 <= i < 6 ==> #[trigger] dir_order@[i] < 6,
            (best_dir, best_cost) == pick_fold(*unit, m, dir_order@, k as int),
        decreases 6 - k,
    {
        let dir_idx = dir_order[k];
        let (dc, dr) = dir_vector(dir_idx);
        let new_col = unit.col as i16 + dc as i16;
        let new_row = unit.row as i16 + dr as i16;
        let ghost passable = dir_passable(*unit, m, dir_idx);
        if new_col < 0 || new_col >= MAP_COLS as i16 || new_row < 0 || new_row >= MAP_ROWS as i16 {
            assert(!passable);
            k = k + 1;
            continue;
        }
        let cost = lookup_cost_table(new_col as u8, new_row as u8, &game.map);
        if cost == 0xFF || cost > unit.attr_1b || game.map.get_tile_bitmask(
            new_col as u8,
            new_row as u8,
        ) != 0 {
            assert(!passable);
            k = k + 1;
            continue;
        }
        assert(passable);
        if cost < best_cost {
            best_cost = cost;
            best_dir = Some((dc, dr));
        }
        k = k + 1;
    }
    best_dir
}

/// The direction order for the current generator state (the state itself
/// is left unchanged).
fn shuffle_directions(game: &GameState) -> (r: [u8; 6])
    ensures
        r@ == direction_order(game.rng_state),
        forall|i: int| 0 <= i < 6 ==> #[trigger] r@[i] < 6,
{
    let mut dirs: [u8; 6] = [0u8, 1, 2, 3, 4, 5];
    assert(dirs@ =~= seq![0u8, 1, 2, 3, 4, 5]);
    let mut state = game.rng_state;
    let mut i: usize = 5;
    while i >= 1
        invariant
            i <= 5,
            dirs@.len() == 6,
            shuffle_from(dirs@, state, i as int) == direction_order(game.rng_state),
            forall|k: int| 0 <= k < 6 ==> dirs@[k] < 6,
        decreases i,
    {
        let ghost before = dirs@;
        let ghost state_before = state;
        state = state.wrapping_mul(1664525).wrapping_add(1013904223);
        let j = (state as usize) % (i + 1);
        let tmp = dirs[i];
        let other = dirs[j];
        dirs[i] = other;
        dirs[j] = tmp;
        assert(dirs@ =~= swap_at(before, i as int, j as int));
        assert(state == lcg_next(state_before));
        i = i - 1;
    }
    dirs
}

} // verus!
