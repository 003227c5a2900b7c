use platformer_core::components::{
    lookup_track_speed, CollidableComp, InteractableComp, MovableComp, ObjectComp, ObjectType,
    PlayerComp,
};
use platformer_core::game::{update_player_intent, InputState};
use platformer_core::map::Track;
use platformer_core::rect::{Anchor, Rect};
use platformer_core::{GRAVITY, PLAYER_JUMP, PLAYER_SPEED};

fn rect(x: i32, y: i32, w: i32, h: i32) -> Rect {
    Rect { x, y, w, h, pivot: Anchor::TopLeft }
}

fn no_input() -> InputState {
    InputState { left: false, right: false, jump: false }
}

#[test]
fn player_new_defaults() {
    let p = PlayerComp::new("player".to_string());
    assert_eq!(p.name, "player");
    assert!(!p.can_jump);
    assert!(!p.on_ground);
    assert_eq!(p.jump_count, 0);
    assert_eq!(p.speed, (0, 0));
    assert!(p.last_pos.is_none());
}

#[test]
fn component_constructors() {
    let o = ObjectComp::new("coin-1".to_string(), ObjectType::Coin);
    assert_eq!(o.name, "coin-1");
    assert!(matches!(o.type_, ObjectType::Coin));
    let c = CollidableComp::new("wall".to_string());
    assert_eq!(c.name, "wall");
    let m = MovableComp::new("lift".to_string(), vec![]);
    assert_eq!(m.name, "lift");
    assert_eq!(m.speed, (0, 0));
    let i = InteractableComp::new("door".to_string(), vec![]);
    assert_eq!(i.name, "door");
    assert_eq!(i.state, "close");
}

#[test]
fn horizontal_intent() {
    let mut p = PlayerComp::new("player".to_string());
    p.speed = (3, 5);
    update_player_intent(&mut p, &InputState { left: true, right: false, jump: false });
    assert_eq!(p.speed.0, -PLAYER_SPEED);
    update_player_intent(&mut p, &InputState { left: false, right: true, jump: false });
    assert_eq!(p.speed.0, PLAYER_SPEED);
    // both directions cancel
    update_player_intent(&mut p, &InputState { left: true, right: true, jump: false });
    assert_eq!(p.speed.0, 0);
}

#[test]
fn jump_arbitration_three_presses() {
    // grounded player, one mid-air jump budgeted
    let mut p = PlayerComp::new("player".to_string());
    p.can_jump = true;
    p.on_ground = true;
    p.jump_count = 1;

    // first press: ground jump is free
    update_player_intent(&mut p, &InputState { left: false, right: false, jump: true });
    assert_eq!(p.speed.1, PLAYER_JUMP);
    assert_eq!(p.jump_count, 1);
    assert!(!p.can_jump);

    // now airborne; releasing the key re-arms it
    p.on_ground = false;
    update_player_intent(&mut p, &no_input());
    assert!(p.can_jump);

    // second press: the mid-air jump consumes the budget
    update_player_intent(&mut p, &InputState { left: false, right: false, jump: true });
    assert_eq!(p.speed.1, PLAYER_JUMP);
    assert_eq!(p.jump_count, 0);

    // release and press a third time: rejected — only gravity acts
    update_player_intent(&mut p, &no_input());
    let vy = p.speed.1;
    update_player_intent(&mut p, &InputState { left: false, right: false, jump: true });
    assert_eq!(p.speed.1, vy - GRAVITY);
    assert_eq!(p.jump_count, 0);
}

#[test]
fn holding_jump_does_not_relaunch() {
    let mut p = PlayerComp::new("player".to_string());
    p.can_jump = true;
    p.on_ground = false;
    p.jump_count = 1;
    update_player_intent(&mut p, &InputState { left: false, right: false, jump: true });
    assert_eq!(p.jump_count, 0);
    // key still held: the latch stays cleared, no second launch —
    // only gravity acts on the vertical speed
    p.speed = (0, -7);
    update_player_intent(&mut p, &InputState { left: false, right: false, jump: true });
    assert_eq!(p.speed.1, -7 - GRAVITY);
}

#[test]
fn gravity_strictly_decreases_vertical_speed() {
    let mut p = PlayerComp::new("player".to_string());
    let mut r = rect(0, 100, 10, 10);
    let mut prev = p.speed.1;
    for _ in 0..5 {
        update_player_intent(&mut p, &no_input());
        p.move_(&mut r);
        assert_eq!(p.speed.1, prev - GRAVITY);
        prev = p.speed.1;
    }
}

#[test]
fn player_move_advances_and_records_last_pos() {
    let mut p = PlayerComp::new("player".to_string());
    p.speed = (8, 10);
    let mut r = rect(5, 7, 10, 10);
    p.move_(&mut r);
    assert_eq!(p.last_pos, Some((5, 7)));
    assert_eq!(r.x, 13);
    assert_eq!(r.y, 17);
    assert_eq!(p.speed, (8, 10));
}

#[test]
fn track_lookup_first_match_wins() {
    let track = vec![
        Track { pos: (0, 0), speed: (1, 0) },
        Track { pos: (0, 0), speed: (2, 0) },
        Track { pos: (5, 5), speed: (0, -3) },
    ];
    assert_eq!(lookup_track_speed(&track, 0, 0, (9, 9)), (1, 0));
    assert_eq!(lookup_track_speed(&track, 5, 5, (9, 9)), (0, -3));
    // no match: the current speed carries
    assert_eq!(lookup_track_speed(&track, 7, 7, (9, 9)), (9, 9));
}

#[test]
fn movable_patrols_by_dead_reckoning() {
    let track = vec![
        Track { pos: (0, 0), speed: (2, 0) },
        Track { pos: (4, 0), speed: (-2, 0) },
    ];
    let mut m = MovableComp::new("monster".to_string(), track);
    let mut r = rect(0, 0, 10, 10);
    m.move_(&mut r);
    assert_eq!((r.x, r.y), (2, 0));
    assert_eq!(m.speed, (2, 0));
    m.move_(&mut r);
    assert_eq!((r.x, r.y), (4, 0));
    // waypoint at (4,0) turns it around
    m.move_(&mut r);
    assert_eq!((r.x, r.y), (2, 0));
    assert_eq!(m.speed, (-2, 0));
    m.move_(&mut r);
    assert_eq!((r.x, r.y), (0, 0));
    // back at the first waypoint: forward again
    m.move_(&mut r);
    assert_eq!((r.x, r.y), (2, 0));
}
