use platformer_core::components::ObjectType;
use platformer_core::game::{GameState, InputState};
use platformer_core::map::{Coin, GameMap, Monster, Obstacle, Player, Target, Track};
use platformer_core::scene::Scene;
use platformer_core::states::{apply_trans, GameStatus, StateKind, Trans};
use platformer_core::PLAYER_JUMP;

const VIEW_W: u32 = 100;
const VIEW_H: u32 = 100;

fn no_input() -> InputState {
    InputState { left: false, right: false, jump: false }
}

fn base_map(player_pos: (i32, i32)) -> GameMap {
    GameMap {
        size: (1000, 1000),
        player: Player { pos: player_pos, size: (10, 10), color: (200, 50, 50) },
        targets: vec![],
        coins: vec![],
        switches: vec![],
        monsters: vec![],
        elevators: vec![],
        obstacles: vec![],
        descriptions: vec![],
    }
}

fn start(map: GameMap) -> (GameState, Scene) {
    let mut g = GameState::new(1);
    let scene = g.on_start(map, VIEW_W, VIEW_H);
    (g, scene)
}

fn player_entity(scene: &Scene) -> &platformer_core::scene::Entity {
    scene
        .entities
        .iter()
        .find(|e| e.player.is_some())
        .expect("scene should hold a player")
}

#[test]
fn falling_player_lands_flush_on_top() {
    // the player hangs just above a block and falls onto it this tick
    let mut map = base_map((0, 6));
    map.obstacles.push(Obstacle {
        name: "block".to_string(),
        pos: (0, -5),
        size: (10, 10),
        color: (0, 0, 0),
    });
    let (mut g, mut scene) = start(map);

    let t = g.fixed_update(&mut scene, &no_input(), VIEW_W, VIEW_H);
    assert!(matches!(t, Trans::Stay));

    let e = player_entity(&scene);
    let p = e.player.as_ref().unwrap();
    // snapped flush on top of the block: player bottom at the block's top
    assert_eq!(e.rect.y, 5);
    assert_eq!(e.rect.x, 0);
    assert!(p.on_ground);
    assert_eq!(p.jump_count, 1);
    assert_eq!(p.speed, (0, 0));
    assert_eq!(p.last_pos, Some((0, 6)));
}

#[test]
fn grounded_jump_leaves_ground_without_spending_budget() {
    // land first, then jump: on_ground clears, jump_count stays 1
    let mut map = base_map((0, 6));
    map.obstacles.push(Obstacle {
        name: "block".to_string(),
        pos: (0, -5),
        size: (10, 10),
        color: (0, 0, 0),
    });
    let (mut g, mut scene) = start(map);
    g.fixed_update(&mut scene, &no_input(), VIEW_W, VIEW_H);
    assert!(player_entity(&scene).player.as_ref().unwrap().on_ground);

    // release tick re-arms the jump latch
    g.fixed_update(&mut scene, &no_input(), VIEW_W, VIEW_H);
    let jump = InputState { left: false, right: false, jump: true };
    g.fixed_update(&mut scene, &jump, VIEW_W, VIEW_H);
    let p = player_entity(&scene).player.as_ref().unwrap();
    assert!(!p.on_ground);
    assert_eq!(p.jump_count, 1);
    assert!(!p.can_jump);
    // the jump tick ends at the undamped impulse: gravity came first
    // and the arbitration overwrote it
    assert_eq!(p.speed.1, PLAYER_JUMP);
}

#[test]
fn three_coins_across_three_ticks() {
    // the player walks right, crossing one coin per tick
    let mut map = base_map((0, 0));
    for (i, x) in [10, 18, 26].iter().enumerate() {
        map.coins.push(Coin {
            name: format!("coin-{}", i + 1),
            pos: (*x, 0),
            size: (8, 30),
            color: (250, 210, 0),
        });
    }
    let (mut g, mut scene) = start(map);
    let right = InputState { left: false, right: true, jump: false };

    let t1 = g.fixed_update(&mut scene, &right, VIEW_W, VIEW_H);
    assert!(matches!(t1, Trans::Stay));
    assert_eq!(g.scoreboard.score, 1);

    let t2 = g.fixed_update(&mut scene, &right, VIEW_W, VIEW_H);
    assert!(matches!(t2, Trans::Stay));
    assert_eq!(g.scoreboard.score, 2);

    let t3 = g.fixed_update(&mut scene, &right, VIEW_W, VIEW_H);
    assert!(matches!(t3, Trans::Stay));
    assert_eq!(g.scoreboard.score, 3);

    let coins_left = scene
        .entities
        .iter()
        .filter(|e| matches!(e.obj.type_, ObjectType::Coin))
        .count();
    assert_eq!(coins_left, 0);
}

#[test]
fn touching_removed_coin_scores_nothing() {
    // a coin the player rests inside scores once; the next tick, with the
    // player still in the same place, scores nothing more
    let mut map = base_map((0, 6));
    map.obstacles.push(Obstacle {
        name: "block".to_string(),
        pos: (0, -5),
        size: (10, 10),
        color: (0, 0, 0),
    });
    map.coins.push(Coin {
        name: "coin-a".to_string(),
        pos: (0, 6),
        size: (10, 40),
        color: (250, 210, 0),
    });
    let (mut g, mut scene) = start(map);
    g.fixed_update(&mut scene, &no_input(), VIEW_W, VIEW_H);
    assert_eq!(g.scoreboard.score, 1);
    g.fixed_update(&mut scene, &no_input(), VIEW_W, VIEW_H);
    assert_eq!(g.scoreboard.score, 1);
}

#[test]
fn falling_below_lower_bound_loses() {
    let map = base_map((0, -250));
    let (mut g, mut scene) = start(map);
    let t = g.fixed_update(&mut scene, &no_input(), VIEW_W, VIEW_H);
    match t {
        Trans::Push(StateKind::Pause { level, status, score }) => {
            assert_eq!(level, 1);
            assert!(matches!(status, GameStatus::Lose));
            assert_eq!(score, 0);
        },
        other => panic!("expected a pause push, got {:?}", other),
    }
    // the session stack ends up paused with the lost outcome on top
    let mut stack = vec![StateKind::Game { level: 1 }];
    apply_trans(&mut stack, t);
    assert!(matches!(
        stack.last(),
        Some(StateKind::Pause { status: GameStatus::Lose, .. })
    ));
}

#[test]
fn touching_target_wins() {
    let mut map = base_map((0, 6));
    map.targets.push(Target {
        name: "goal".to_string(),
        pos: (0, 0),
        size: (10, 10),
        color: (0, 255, 0),
    });
    let (mut g, mut scene) = start(map);
    let t = g.fixed_update(&mut scene, &no_input(), VIEW_W, VIEW_H);
    match t {
        Trans::Push(StateKind::Pause { status, .. }) => {
            assert!(matches!(status, GameStatus::Win));
        },
        other => panic!("expected a winning pause push, got {:?}", other),
    }
}

#[test]
fn touching_monster_loses() {
    let mut map = base_map((0, 6));
    map.monsters.push(Monster {
        name: "mob".to_string(),
        track: vec![Track { pos: (0, 0), speed: (0, 0) }],
        size: (10, 10),
        color: (255, 0, 0),
    });
    let (mut g, mut scene) = start(map);
    let t = g.fixed_update(&mut scene, &no_input(), VIEW_W, VIEW_H);
    match t {
        Trans::Push(StateKind::Pause { status, .. }) => {
            assert!(matches!(status, GameStatus::Lose));
        },
        other => panic!("expected a losing pause push, got {:?}", other),
    }
}

#[test]
fn malformed_scene_aborts_tick() {
    let map = base_map((0, 0));
    let (mut g, mut scene) = start(map);
    // break the session invariant: a degenerate entity size
    scene.entities[0].rect.w = 0;
    let before_y = scene.entities[0].rect.y;
    let t = g.fixed_update(&mut scene, &no_input(), VIEW_W, VIEW_H);
    assert!(matches!(t, Trans::Stay));
    assert_eq!(scene.entities[0].rect.y, before_y);
    assert_eq!(g.scoreboard.score, 0);
}

#[test]
fn missing_player_aborts_tick() {
    let map = base_map((0, 0));
    let (mut g, mut scene) = start(map);
    scene.entities.clear();
    let t = g.fixed_update(&mut scene, &no_input(), VIEW_W, VIEW_H);
    assert!(matches!(t, Trans::Stay));
    assert_eq!(scene.entities.len(), 0);
}
