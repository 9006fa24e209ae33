use map_editor::states::{GameState, WaitForResource};

#[test]
fn loading_waits_for_both_scenes() {
    assert_eq!(GameState::default(), GameState::Loading);
    let w = WaitForResource::new();
    let s = w.step(true, false);
    assert!(s.spawn_world && !s.spawn_main_character);
    assert_eq!(s.next_state, GameState::Loading);
    let s = s.waiting.step(false, true);
    assert!(s.spawn_main_character);
    assert_eq!(s.next_state, GameState::Playing);
}

#[test]
fn loading_ends_when_both_load_at_once() {
    let s = WaitForResource::new().step(true, true);
    assert_eq!(s.next_state, GameState::Playing);
    assert!(!s.waiting.world && !s.waiting.main_character);
}
