use platformer_core::components::{InteractableComp, ObjectComp, ObjectType};
use platformer_core::game::GameState;
use platformer_core::rect::{Anchor, Rect};
use platformer_core::scene::{find_player, Entity, Scene};
use platformer_core::utils::{parse_u32, str_eq};

fn plain_entity(name: &str, type_: ObjectType) -> Entity {
    Entity {
        obj: ObjectComp::new(name.to_string(), type_),
        rect: Rect { x: 0, y: 0, w: 10, h: 10, pivot: Anchor::TopLeft },
        color: (1, 2, 3),
        player: None,
        movable: None,
        collidable: None,
        interactable: None,
    }
}

fn scene_of(entities: Vec<Entity>) -> Scene {
    Scene { size: (1000, 1000), offset: (0, 0), entities }
}

fn tokens(words: &[&str]) -> Vec<String> {
    words.iter().map(|w| w.to_string()).collect()
}

#[test]
fn remove_objs_removes_every_listed_name() {
    let mut g = GameState::new(1);
    let mut scene = scene_of(vec![
        plain_entity("a", ObjectType::Coin),
        plain_entity("b", ObjectType::Coin),
        plain_entity("a", ObjectType::Switch),
        plain_entity("c", ObjectType::Coin),
    ]);
    g.remove_objs(&mut scene, vec!["a".to_string(), "c".to_string()]);
    let names: Vec<&str> = scene.entities.iter().map(|e| e.obj.name.as_str()).collect();
    assert_eq!(names, vec!["b"]);
}

#[test]
fn exec_command_state_changes_state() {
    let mut comp = InteractableComp::new("door".to_string(), vec![]);
    let mut scene = scene_of(vec![plain_entity("door", ObjectType::Switch)]);
    comp.exec_command(&mut scene, &tokens(&["state", "open"]));
    assert_eq!(comp.state, "open");
    assert_eq!(scene.entities.len(), 1);
}

#[test]
fn exec_command_color_recolors_first_match() {
    let mut comp = InteractableComp::new("door".to_string(), vec![]);
    let mut scene = scene_of(vec![
        plain_entity("wall", ObjectType::Obstacle),
        plain_entity("door", ObjectType::Switch),
        plain_entity("door", ObjectType::Switch),
    ]);
    comp.exec_command(&mut scene, &tokens(&["color", "10", "20", "30"]));
    assert_eq!(scene.entities[0].color, (1, 2, 3));
    assert_eq!(scene.entities[1].color, (10, 20, 30));
    // only the first match is recoloured
    assert_eq!(scene.entities[2].color, (1, 2, 3));
}

#[test]
fn exec_command_color_with_bad_number_is_noop() {
    let mut comp = InteractableComp::new("door".to_string(), vec![]);
    let mut scene = scene_of(vec![plain_entity("door", ObjectType::Switch)]);
    comp.exec_command(&mut scene, &tokens(&["color", "10", "oops", "30"]));
    assert_eq!(scene.entities[0].color, (1, 2, 3));
}

#[test]
fn exec_command_remove_deletes_named_entities() {
    let mut comp = InteractableComp::new("switch".to_string(), vec![]);
    let mut scene = scene_of(vec![
        plain_entity("gate", ObjectType::Obstacle),
        plain_entity("wall", ObjectType::Obstacle),
        plain_entity("gate", ObjectType::Obstacle),
    ]);
    comp.exec_command(&mut scene, &tokens(&["remove", "gate"]));
    let names: Vec<&str> = scene.entities.iter().map(|e| e.obj.name.as_str()).collect();
    assert_eq!(names, vec!["wall"]);
}

#[test]
fn exec_command_unknown_or_short_is_noop() {
    let mut comp = InteractableComp::new("door".to_string(), vec![]);
    let mut scene = scene_of(vec![plain_entity("door", ObjectType::Switch)]);
    comp.exec_command(&mut scene, &tokens(&[]));
    comp.exec_command(&mut scene, &tokens(&["open_sesame"]));
    comp.exec_command(&mut scene, &tokens(&["state"]));
    comp.exec_command(&mut scene, &tokens(&["remove"]));
    assert_eq!(comp.state, "close");
    assert_eq!(scene.entities.len(), 1);
}

#[test]
fn exec_runs_command_list_of_current_state() {
    let commands = vec![(
        "close".to_string(),
        vec![
            tokens(&["color", "9", "9", "9"]),
            tokens(&["state", "open"]),
            tokens(&["remove", "debris"]),
        ],
    )];
    let mut comp = InteractableComp::new("door".to_string(), commands);
    let mut scene = scene_of(vec![
        plain_entity("door", ObjectType::Switch),
        plain_entity("debris", ObjectType::Obstacle),
    ]);
    comp.exec(&mut scene);
    assert_eq!(comp.state, "open");
    assert_eq!(scene.entities.len(), 1);
    assert_eq!(scene.entities[0].color, (9, 9, 9));

    // the new state has no command list: running again is a no-op
    comp.exec(&mut scene);
    assert_eq!(comp.state, "open");
    assert_eq!(scene.entities.len(), 1);
}

#[test]
fn parse_u32_accepts_decimal_numerals() {
    assert_eq!(parse_u32("0"), Some(0));
    assert_eq!(parse_u32("255"), Some(255));
    assert_eq!(parse_u32("4294967295"), Some(u32::MAX));
}

#[test]
fn parse_u32_rejects_bad_input() {
    assert_eq!(parse_u32(""), None);
    assert_eq!(parse_u32("12a"), None);
    assert_eq!(parse_u32("a12"), None);
    assert_eq!(parse_u32("-3"), None);
    assert_eq!(parse_u32("4294967296"), None);
    assert_eq!(parse_u32("99999999999999999999"), None);
}

#[test]
fn str_eq_compares_contents() {
    assert!(str_eq("abc", "abc"));
    assert!(!str_eq("abc", "abd"));
    assert!(!str_eq("abc", "ab"));
    assert!(str_eq("", ""));
}

#[test]
fn find_player_finds_first() {
    let mut scene = scene_of(vec![
        plain_entity("wall", ObjectType::Obstacle),
        plain_entity("p", ObjectType::Player),
    ]);
    scene.entities[1].player = Some(platformer_core::components::PlayerComp::new(
        "p".to_string(),
    ));
    assert_eq!(find_player(&scene.entities), Some(1));
    scene.entities[1].player = None;
    assert_eq!(find_player(&scene.entities), None);
}

#[test]
fn check_wf_rejects_degenerate_sizes() {
    let scene = scene_of(vec![plain_entity("wall", ObjectType::Obstacle)]);
    assert!(scene.check_wf());
    let mut bad = scene_of(vec![plain_entity("wall", ObjectType::Obstacle)]);
    bad.entities[0].rect.h = 0;
    assert!(!bad.check_wf());
}
