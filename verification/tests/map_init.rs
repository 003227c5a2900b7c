use platformer_core::components::ObjectType;
use platformer_core::map::{
    Coin, Description, Elevator, Font, GameMap, Monster, Obstacle, Player, Switch, Target, Track,
};

fn full_map() -> GameMap {
    GameMap {
        size: (800, 600),
        player: Player { pos: (5, 40), size: (10, 12), color: (200, 50, 50) },
        targets: vec![Target {
            name: "goal".to_string(),
            pos: (700, 40),
            size: (16, 16),
            color: (0, 255, 0),
        }],
        coins: vec![
            Coin { name: "c1".to_string(), pos: (100, 30), size: (8, 8), color: (250, 210, 0) },
            Coin { name: "c2".to_string(), pos: (140, 30), size: (8, 8), color: (250, 210, 0) },
        ],
        switches: vec![Switch {
            name: "sw".to_string(),
            pos: (200, 20),
            size: (6, 6),
            color: (80, 80, 255),
        }],
        monsters: vec![Monster {
            name: "mob".to_string(),
            track: vec![
                Track { pos: (300, 20), speed: (2, 0) },
                Track { pos: (340, 20), speed: (-2, 0) },
            ],
            size: (12, 12),
            color: (255, 0, 0),
        }],
        elevators: vec![Elevator {
            name: "lift".to_string(),
            track: vec![
                Track { pos: (400, 20), speed: (0, 2) },
                Track { pos: (400, 120), speed: (0, -2) },
            ],
            size: (30, 8),
            color: (120, 120, 120),
        }],
        obstacles: vec![Obstacle {
            name: "floor".to_string(),
            pos: (0, 10),
            size: (800, 10),
            color: (90, 60, 30),
        }],
        descriptions: vec![Description {
            name: "hint".to_string(),
            pos: (50, 100),
            size: (200, 40),
            text: "jump with W".to_string(),
            font: Font { family: "cambria.ttf".to_string(), size: 20 },
            color: (0, 0, 0),
        }],
    }
}

#[test]
fn initialize_spawns_in_declared_order() {
    let map = full_map();
    let scene = map.initialize();
    assert_eq!(scene.size, (800, 600));
    assert_eq!(scene.offset, (0, 0));
    assert_eq!(scene.entities.len(), 8);

    let names: Vec<&str> = scene.entities.iter().map(|e| e.obj.name.as_str()).collect();
    assert_eq!(names, vec!["player", "goal", "c1", "c2", "sw", "mob", "lift", "floor"]);
}

#[test]
fn initialize_attaches_the_right_components() {
    let map = full_map();
    let scene = map.initialize();

    let player = &scene.entities[0];
    assert!(matches!(player.obj.type_, ObjectType::Player));
    assert!(player.player.is_some());
    assert!(player.collidable.is_none());
    assert_eq!((player.rect.x, player.rect.y), (5, 40));
    assert_eq!((player.rect.w, player.rect.h), (10, 12));

    let target = &scene.entities[1];
    assert!(matches!(target.obj.type_, ObjectType::Target));
    assert!(target.interactable.is_some());
    assert!(target.collidable.is_none());

    let coin = &scene.entities[2];
    assert!(matches!(coin.obj.type_, ObjectType::Coin));
    assert!(coin.interactable.is_some());

    let switch = &scene.entities[4];
    assert!(matches!(switch.obj.type_, ObjectType::Switch));
    assert!(switch.interactable.is_some());

    let monster = &scene.entities[5];
    assert!(matches!(monster.obj.type_, ObjectType::Monster));
    assert!(monster.movable.is_some());
    assert!(monster.collidable.is_none());
    assert!(monster.interactable.is_some());
    // a mover spawns at its first waypoint
    assert_eq!((monster.rect.x, monster.rect.y), (300, 20));

    let lift = &scene.entities[6];
    assert!(matches!(lift.obj.type_, ObjectType::Elevator));
    assert!(lift.movable.is_some());
    assert!(lift.collidable.is_some());
    assert!(lift.interactable.is_none());
    assert_eq!((lift.rect.x, lift.rect.y), (400, 20));
}
