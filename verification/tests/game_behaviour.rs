use s4::data::map::TileType;
use s4::data::{GameMap, GameState};
use s4::game_loop::{recruits_for_gold, GameLoop, LoopAction};
use s4::input::{InputCommand, InputHandler};
use s4::platform::{AudioError, DisplayError, KeyEvent, SimpleRng};
use s4::scenario::{count_valid_cities, count_valid_factions, count_valid_officers, init_new_scenario};
use s4::scene::{SceneId, SceneManager};

#[test]
fn scenario_one_sets_up_the_tables() {
    let mut game = GameState::new();
    init_new_scenario(&mut game, 1);
    assert_eq!((game.turn, game.year, game.month, game.day), (1, 189, 1, 1));
    assert_eq!(count_valid_cities(&game), 10);
    assert_eq!(count_valid_officers(&game), 20);
    assert_eq!(count_valid_factions(&game), 7);
    let city = game.cities.get(6);
    assert_eq!((city.ownership, city.off_0f, city.off_11, city.off_13), (4, 900, 1300, 450));
    assert_eq!((city.off_15, city.off_18, city.off_19, city.off_1d, city.off_1e), (50, 10, 10, 50, 50));
    let o = game.officers.get(7);
    assert_eq!((o.off4, o.off5, o.off6, o.loyalty), (95, 98, 85, 220));
    assert_eq!(o.off7, (95 + 98 + 85) / 3);
    assert_eq!(o.off3, (2 << 4) | 7);
    let u = &game.units.units[9];
    assert_eq!((u.id, u.officer_id, u.faction_id, u.attr_1b, u.col, u.row), (10, 10, 3, 3, 9, 0));
    assert_eq!(u.attr_17, game.officers.get(10).off7);
    assert_eq!(game.factions.factions[3].color, 5);
    assert_eq!(game.factions.factions[3].gold, 1000);
}

#[test]
fn scenario_map_has_terrain_cities_and_units() {
    let mut game = GameState::new();
    init_new_scenario(&mut game, 2);
    assert_eq!(game.year, 200);
    assert_eq!(game.map.get_tile_type(0, 5), TileType::Barrier);
    assert_eq!(game.map.get_tile(5, 3), 0x01);
    assert_eq!(game.map.get_tile(14, 3), 0x01);
    assert_eq!(game.map.get_tile(2, 8), 0x03);
    assert_eq!(game.map.get_tile(3, 6), 0x04);
    assert_eq!(game.map.get_tile(2, 2), 0x05);
    assert_eq!(game.map.get_tile(4, 2), 0x02);
    assert_eq!(game.map.get_tile(0, 0), 0x010A);
    let unit_cells = (0..20u8).filter(|&c| game.map.get_tile(c, 0) & 0x0100 != 0).count();
    assert_eq!(unit_cells, 10);
}

#[test]
fn unit_marks_follow_live_units() {
    let mut game = GameState::new();
    game.units.units[20].officer_id = 5;
    game.units.units[20].col = 12;
    game.units.units[20].row = 6;
    init_new_scenario(&mut game, 1);
    assert_eq!(game.map.get_tile(12, 6), 0x0105);
    assert_eq!(game.map.get_tile(9, 0), 0x010A);
    assert_eq!(game.map.get_tile(10, 0), 0x0A);
}

#[test]
fn game_loop_commands() {
    let mut gl = GameLoop::new();
    gl.init(1);
    assert_eq!(gl.scene_manager.current(), Some(SceneId::CityView));
    assert_eq!(gl.get_current_city(), 1);

    match gl.step(InputCommand::Domestic) {
        LoopAction::Developed { city_id, development } => assert_eq!((city_id, development), (1, 15)),
        _ => panic!("expected development"),
    }
    assert_eq!(gl.game.cities.get(1).off_18, 15);

    match gl.step(InputCommand::Military) {
        LoopAction::Recruited { city_id, recruits } => assert_eq!((city_id, recruits), (1, 10)),
        _ => panic!("expected recruitment"),
    }
    assert_eq!((gl.game.cities.get(1).off_13, gl.game.cities.get(1).off_0f), (510, 900));

    assert!(matches!(gl.step(InputCommand::Confirm), LoopAction::ShowCity(1)));
    match gl.step(InputCommand::EndTurn) {
        LoopAction::TurnProcessed(report) => assert_eq!(report.round, 1),
        _ => panic!("expected a round"),
    }
    assert_eq!(gl.game.turn, 2);
    assert!(matches!(gl.step(InputCommand::MoveUp), LoopAction::Nothing));
    assert!(gl.running);
    assert!(matches!(gl.step(InputCommand::Quit), LoopAction::Stopped));
    assert!(!gl.running);
}

#[test]
fn current_city_defaults_to_one() {
    let mut gl = GameLoop::new();
    gl.current_faction = 3;
    assert_eq!(gl.get_current_city(), 1);
    gl.init(1);
    gl.current_faction = 3;
    assert_eq!(gl.get_current_city(), 4);
}

#[test]
fn recruits_are_capped() {
    assert_eq!(recruits_for_gold(99), 0);
    assert_eq!(recruits_for_gold(1000), 10);
    assert_eq!(recruits_for_gold(65535), 100);
}

#[test]
fn keys_become_commands() {
    let game = GameState::new();
    let mut h = InputHandler::new();
    assert_eq!(h.wait_input(KeyEvent::Char(b'w'), &game), InputCommand::MoveUp);
    assert_eq!(h.wait_input(KeyEvent::Special(0x4D), &game), InputCommand::MoveRight);
    assert_eq!(h.wait_input(KeyEvent::Char(b'E'), &game), InputCommand::EndTurn);
    assert_eq!(h.wait_input(KeyEvent::Esc, &game), InputCommand::Cancel);
    assert_eq!(h.wait_input(KeyEvent::F(1), &game), InputCommand::NoCommand);
    assert_eq!(h.poll_input(None, &game), None);
    let mut exiting = GameState::new();
    exiting.exit_flag = true;
    assert_eq!(h.poll_input(Some(KeyEvent::Char(b'q')), &exiting), Some(InputCommand::Quit));
}

#[test]
fn scene_push_then_pop_restores() {
    let mut s = SceneManager::new();
    s.push(SceneId::BattleView);
    assert_eq!(s.current(), Some(SceneId::BattleView));
    s.pop();
    assert_eq!(s.current(), Some(SceneId::MainMenu));
    s.pop();
    assert_eq!(s.current(), None);
}

#[test]
fn map_write_then_read() {
    let mut m = GameMap::default();
    m.set_tile(3, 4, 0x0105);
    assert_eq!(m.get_tile(3, 4), 0x0105);
    m.set_tile(25, 4, 7);
    assert_eq!(m.get_tile(25, 4), 0);
}

#[test]
fn rng_and_errors() {
    let mut r = SimpleRng::new(0);
    assert_eq!(r.next_u32(), 1013904223);
    assert_eq!(r.range(0), 0);
    let mut r2 = SimpleRng::new(0);
    assert_eq!(r2.range(10), 1013904223 % 10);
    assert_eq!(DisplayError::InitFailed("x".to_string()).message(), "Display init failed: x");
    assert_eq!(DisplayError::ModeNotSupported.message(), "Video mode not supported");
    assert_eq!(AudioError::PlaybackFailed("y".to_string()).message(), "Audio playback failed: y");
}

#[test]
fn console_platform_queues_keys() {
    let mut p = s4::platform::ConsolePlatform::new();
    assert_eq!(p.poll_key(), None);
    assert_eq!(p.wait_any_key(), KeyEvent::Enter);
    p.push_key(KeyEvent::Char(b'x'));
    p.push_key(KeyEvent::Esc);
    assert_eq!(p.wait_any_key(), KeyEvent::Char(b'x'));
    assert_eq!(p.poll_key(), Some(KeyEvent::Esc));
    assert_eq!(p.poll_key(), None);
    let mut r = SimpleRng::new(0x12345678);
    assert_eq!(p.random_u32(), r.next_u32());
}
