use platformer_core::game::GameState;
use platformer_core::states::{
    apply_trans, Button, GameStatus, InitState, LevelState, MenuState, PauseState, StateEvent,
    StateKind, Trans,
};

#[test]
fn game_status_default_is_ongoing() {
    assert!(matches!(GameStatus::default(), GameStatus::Ongoing));
}

#[test]
fn init_advances_to_menu() {
    let t = InitState.update();
    assert!(matches!(t, Trans::Replace(StateKind::Menu)));
}

#[test]
fn button_in_range_is_strict() {
    let b = Button::new(0, 0, 300, 60);
    assert!(b.in_range(0, 0));
    assert!(b.in_range(149, 29));
    // clicks exactly on the border do not count
    assert!(!b.in_range(150, 0));
    assert!(!b.in_range(0, 30));
    assert!(!b.in_range(-150, 0));
}

#[test]
fn menu_clicks() {
    let m = MenuState::new();
    assert!(matches!(
        m.handle_event(&StateEvent::Click(0, 0)),
        Trans::Replace(StateKind::LevelSelect)
    ));
    assert!(matches!(m.handle_event(&StateEvent::Click(0, -120)), Trans::Quit));
    assert!(matches!(m.handle_event(&StateEvent::Click(500, 500)), Trans::Stay));
    assert!(matches!(m.handle_event(&StateEvent::Escape), Trans::Stay));
}

#[test]
fn level_select_grid_and_clicks() {
    let s = LevelState::new(8);
    assert_eq!(s.b_games.len(), 8);
    // level 1 sits top-left of the grid, level 8 bottom-right
    assert_eq!((s.b_games[0].x, s.b_games[0].y), (-300, 80));
    assert_eq!((s.b_games[7].x, s.b_games[7].y), (300, -80));

    match s.handle_event(&StateEvent::Click(-300, 80)) {
        Trans::Switch(StateKind::Game { level }) => assert_eq!(level, 1),
        other => panic!("expected a switch to level 1, got {:?}", other),
    }
    match s.handle_event(&StateEvent::Click(300, -80)) {
        Trans::Switch(StateKind::Game { level }) => assert_eq!(level, 8),
        other => panic!("expected a switch to level 8, got {:?}", other),
    }
    assert!(matches!(
        s.handle_event(&StateEvent::Click(0, -200)),
        Trans::Replace(StateKind::Menu)
    ));
    assert!(matches!(s.handle_event(&StateEvent::Click(999, 999)), Trans::Stay));
}

#[test]
fn game_escape_pushes_pause() {
    let mut g = GameState::new(3);
    g.scoreboard.score = 7;
    match g.handle_event(&StateEvent::Escape) {
        Trans::Push(StateKind::Pause { level, status, score }) => {
            assert_eq!(level, 3);
            assert!(matches!(status, GameStatus::Ongoing));
            assert_eq!(score, 7);
        },
        other => panic!("expected a pause push, got {:?}", other),
    }
    assert!(matches!(g.handle_event(&StateEvent::Click(0, 0)), Trans::Stay));
}

#[test]
fn pause_escape_pops_only_while_ongoing() {
    let ongoing = PauseState::new(2, GameStatus::Ongoing, 5);
    assert!(matches!(ongoing.handle_event(&StateEvent::Escape), Trans::Pop));
    let won = PauseState::new(2, GameStatus::Win, 5);
    assert!(matches!(won.handle_event(&StateEvent::Escape), Trans::Stay));
}

#[test]
fn pause_buttons_resume_replay_and_menu() {
    let ongoing = PauseState::new(2, GameStatus::Ongoing, 5);
    assert!(matches!(ongoing.handle_event(&StateEvent::Click(0, -20)), Trans::Pop));
    let lost = PauseState::new(2, GameStatus::Lose, 5);
    match lost.handle_event(&StateEvent::Click(0, -20)) {
        Trans::Replace(StateKind::Game { level }) => assert_eq!(level, 2),
        other => panic!("expected a replay, got {:?}", other),
    }
    assert!(matches!(
        lost.handle_event(&StateEvent::Click(0, -120)),
        Trans::Replace(StateKind::Menu)
    ));
}

#[test]
fn apply_trans_stack_semantics() {
    let mut stack = vec![StateKind::Menu];
    apply_trans(&mut stack, Trans::Push(StateKind::Game { level: 1 }));
    assert_eq!(stack.len(), 2);
    apply_trans(&mut stack, Trans::Push(StateKind::Pause {
        level: 1,
        status: GameStatus::Ongoing,
        score: 0,
    }));
    assert_eq!(stack.len(), 3);
    apply_trans(&mut stack, Trans::Pop);
    assert!(matches!(stack.last(), Some(StateKind::Game { level: 1 })));
    apply_trans(&mut stack, Trans::Replace(StateKind::Menu));
    assert_eq!(stack.len(), 2);
    assert!(matches!(stack.last(), Some(StateKind::Menu)));
    apply_trans(&mut stack, Trans::Stay);
    assert_eq!(stack.len(), 2);
    apply_trans(&mut stack, Trans::Quit);
    assert!(stack.is_empty());
    // a pop on an empty stack is ignored
    apply_trans(&mut stack, Trans::Pop);
    assert!(stack.is_empty());
    apply_trans(&mut stack, Trans::Switch(StateKind::Menu));
    assert_eq!(stack, vec![StateKind::Menu]);
}
