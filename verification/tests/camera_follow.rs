use platformer_core::camera::follow_player;
use platformer_core::components::{ObjectComp, ObjectType, PlayerComp};
use platformer_core::rect::{Anchor, Rect};
use platformer_core::scene::{Entity, Scene};

fn scene_with_player(x: i32, y: i32) -> Scene {
    Scene {
        size: (1000, 1000),
        offset: (0, 0),
        entities: vec![Entity {
            obj: ObjectComp::new("player".to_string(), ObjectType::Player),
            rect: Rect { x, y, w: 10, h: 10, pivot: Anchor::TopLeft },
            color: (0, 0, 0),
            player: Some(PlayerComp::new("player".to_string())),
            movable: None,
            collidable: None,
            interactable: None,
        }],
    }
}

#[test]
fn follow_moves_one_smoothing_step() {
    // player at (600, 0): the centred target offset is -555 in doubled
    // units; one tenth of the distance, halved back to level units
    let mut scene = scene_with_player(600, 0);
    follow_player(&mut scene, 100, 100);
    assert_eq!(scene.offset, (-55, 0));
}

#[test]
fn follow_clamps_to_map_edges() {
    // a player far to the right would drag the offset past the map edge;
    // the clamp pins it to view width minus map width
    let mut scene = scene_with_player(100000, -100000);
    follow_player(&mut scene, 100, 100);
    assert_eq!(scene.offset.0, 100 - 1000);
    assert_eq!(scene.offset.1, 0);
    // the clamp bound holds on both axes
    assert!(100 - 1000 <= scene.offset.0 && scene.offset.0 <= 0);
    assert!(100 - 1000 <= scene.offset.1 && scene.offset.1 <= 0);
}

#[test]
fn follow_never_scrolls_past_origin() {
    // a player to the lower left of the viewport pulls the offset
    // towards positive values; the clamp keeps it at zero
    let mut scene = scene_with_player(-500, -50);
    follow_player(&mut scene, 100, 100);
    assert_eq!(scene.offset, (0, 0));
}

#[test]
fn follow_without_player_changes_nothing() {
    let mut scene = scene_with_player(5, 5);
    scene.entities.clear();
    scene.offset = (-3, -4);
    follow_player(&mut scene, 100, 100);
    assert_eq!(scene.offset, (-3, -4));
}
