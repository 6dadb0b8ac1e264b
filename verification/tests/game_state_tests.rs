use s4::data::GameState;

#[test]
fn test_game_state_creation() {
    let state = GameState::new();
    assert_eq!(state.turn, 0);
    assert_eq!(state.map.width, 20);
    assert_eq!(state.map.height, 11);
}

#[test]
fn test_random_range() {
    let mut state = GameState::new();
    for _ in 0..100 {
        let val = state.random_range(10);
        assert!(val < 10);
    }
}
