use s4::ai::movement::{
    calc_distance_heuristic, eval_two_phase, evaluate_move_cost, find_best_move_target, lookup_cost_table,
    pick_best_direction, pred_is_barrier,
};
use s4::ai::decision::{execute_full_pass, execute_turn};
use s4::ai::scoring::score_military;
use s4::data::{City, GameState, Officer, TileType, Unit};
use s4::round::year_event;

#[test]
fn staggered_distance() {
    assert_eq!(calc_distance_heuristic(0, 0, 4, 0), 4);
    assert_eq!(calc_distance_heuristic(0, 1, 4, 1), 4);
    assert_eq!(calc_distance_heuristic(0, 0, 0, 3), 3);
    assert_eq!(calc_distance_heuristic(2, 1, 5, 4), 4);
    assert_eq!(calc_distance_heuristic(7, 3, 7, 3), 0);
}

#[test]
fn terrain_costs() {
    let mut game = GameState::new();
    game.map.set_tile(1, 1, 0x03);
    game.map.set_tile(2, 2, 0x04);
    game.map.set_tile(3, 3, 0x02);
    assert_eq!(lookup_cost_table(0, 0, &game.map), 0xFF);
    assert_eq!(lookup_cost_table(1, 1, &game.map), 2);
    assert_eq!(lookup_cost_table(2, 2, &game.map), 3);
    assert_eq!(lookup_cost_table(3, 3, &game.map), 1);
    assert_eq!(lookup_cost_table(30, 3, &game.map), 0xFF);
    assert!(pred_is_barrier(0, 0, &game.map));
    assert!(!pred_is_barrier(3, 3, &game.map));
    assert_eq!(game.map.get_tile_type(2, 2), TileType::Mountain);
}

#[test]
fn move_costs() {
    let mut game = GameState::new();
    game.map.set_tile(1, 1, 0x03);
    let mut u = Unit::new(1, 1, 1);
    u.col = 1;
    u.row = 1;
    u.attr_1b = 2;
    assert_eq!(evaluate_move_cost(&u, &game), 2);
    u.flags = 0x20;
    assert_eq!(eval_two_phase(&u, &game), 4);
    u.attr_1b = 1;
    assert_eq!(evaluate_move_cost(&u, &game), -1);
    u.attr_1b = 3;
    game.map.set_tile(1, 1, 0x0103);
    assert_eq!(evaluate_move_cost(&u, &game), -1);
}

#[test]
fn nearest_target_prefers_row_major_order_on_ties() {
    let mut game = GameState::new();
    let u = Unit { col: 4, row: 4, ..Unit::new(1, 1, 1) };
    assert_eq!(find_best_move_target(&u, &game), None);
    game.map.set_tile(5, 5, 0x02);
    game.map.set_tile(3, 3, 0x02);
    assert_eq!(find_best_move_target(&u, &game), Some((3, 3)));
    game.map.set_tile(3, 3, 0x0102);
    assert_eq!(find_best_move_target(&u, &game), Some((5, 5)));
}

#[test]
fn military_scores() {
    let game = GameState::new();
    let mut o = Officer::default();
    o.off4 = 60;
    o.off5 = 80;
    assert_eq!(score_military(&o, &game), 70);
    o.off4 = 10;
    o.off5 = 20;
    assert_eq!(score_military(&o, &game), 0);
    o.off4 = 0;
    o.off5 = 0;
    assert_eq!(score_military(&o, &game), 50);
}

#[test]
fn city_record_fields() {
    let mut c = City::default();
    c.set_word_off(0x13, 777);
    assert_eq!(c.get_word_off(0x13), 777);
    assert_eq!(c.off_13, 777);
    c.set_word_off(0x14, 5);
    assert_eq!(c.get_word_off(0x14), 0);
    c.off_1d = 3;
    c.stat_dec(0x1D, 5);
    assert_eq!(c.stat_read(0x1D), 0);
    c.off_18 = 10;
    c.off_1c = 2;
    assert_eq!(c.compute_development_output(4), ((10 / 2) * 3 + 10) * 4);
    assert_eq!(c.compute_officer_production(8), 1000);
    assert_eq!(c.compute_officer_production(u32::MAX), u32::MAX);
}

#[test]
fn year_events_name_the_year() {
    assert_eq!(year_event(190), "190年");
    assert_eq!(year_event(7), "7年");
}

#[test]
fn accumulation_counts_low_loyalty_officers() {
    let mut game = GameState::new();
    assert_eq!(s4::city::accumulate_all_stats(&mut game), 0);
    for id in 1..=3u16 {
        let o = game.officers.get_mut(id);
        o.id = id;
        o.loyalty = 10;
    }
    game.officers.get_mut(2).loyalty = 21;
    game.officers.get_mut(3).off9 = 0x8000;
    assert_eq!(s4::city::accumulate_all_stats(&mut game), 1);
}

#[test]
fn best_direction_is_the_cheapest_passable_step() {
    let mut game = GameState::new();
    let mut u = Unit { col: 4, row: 4, ..Unit::new(1, 1, 1) };
    u.attr_1b = 2;
    assert_eq!(pick_best_direction(&u, &game), None);
    game.map.set_tile(5, 4, 0x03);
    assert_eq!(pick_best_direction(&u, &game), Some((1, 0)));
    game.map.set_tile(4, 3, 0x02);
    assert_eq!(pick_best_direction(&u, &game), Some((0, -1)));
    u.attr_1b = 0;
    assert_eq!(pick_best_direction(&u, &game), None);
}

#[test]
fn ai_turn_moves_the_unit_and_marks_its_cell() {
    let mut game = GameState::new();
    game.map.set_tile(4, 4, 0x0102);
    game.map.set_tile(4, 3, 0x02);
    game.units.units[0] = Unit { officer_id: 7, col: 4, row: 4, flags: 0x20, attr_1b: 3, ..Unit::default() };
    execute_turn(&mut game, 4, 4);
    assert_eq!((game.units.units[0].col, game.units.units[0].row), (4, 3));
    assert_eq!(game.map.get_tile(4, 3), 0x0107);
    assert_eq!(game.map.get_tile(4, 4), 0);
    assert_eq!((game.units.units[1].col, game.units.units[1].row), (0, 0));
}

#[test]
fn ai_turn_outside_normal_state_changes_nothing() {
    let mut game = GameState::new();
    game.map.set_tile(4, 4, 0x0102);
    game.map.set_tile(4, 3, 0x02);
    game.units.units[0] = Unit { officer_id: 7, col: 4, row: 4, flags: 0x20, attr_1b: 3, ..Unit::default() };
    game.normal_state = false;
    execute_turn(&mut game, 4, 4);
    assert_eq!((game.units.units[0].col, game.units.units[0].row), (4, 4));
    assert_eq!(game.map.get_tile(4, 4), 0x0102);
    assert_eq!(game.map.get_tile(4, 3), 0x02);
}

#[test]
fn full_pass_never_moves_a_unit_on_an_odd_column_of_row_ten() {
    let mut game = GameState::new();
    game.map.set_tile(3, 10, 0x0102);
    game.map.set_tile(4, 10, 0x02);
    game.units.units[0] = Unit { officer_id: 7, col: 3, row: 10, flags: 0x20, attr_1b: 3, ..Unit::default() };
    execute_full_pass(&mut game);
    assert_eq!((game.units.units[0].col, game.units.units[0].row), (3, 10));
    assert_eq!(game.map.get_tile(3, 10), 0x0102);
}
