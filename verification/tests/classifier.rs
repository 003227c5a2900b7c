use platformer_core::rect::{anchor_to_tuple, compare, get_local_point, Anchor, Rect};

fn rect(x: i32, y: i32, w: i32, h: i32) -> Rect {
    Rect { x, y, w, h, pivot: Anchor::TopLeft }
}

#[test]
fn classify_all_nine_zones() {
    // b spans x [0,10], y [-10,0] (top-left pivot at (0,0))
    let b = rect(0, 0, 10, 10);
    // corners: strictly past b's corners
    assert_eq!(compare(rect(20, 30, 10, 10), b), Anchor::TopRight);
    assert_eq!(compare(rect(-20, 30, 10, 10), b), Anchor::TopLeft);
    assert_eq!(compare(rect(20, -30, 10, 10), b), Anchor::BottomRight);
    assert_eq!(compare(rect(-20, -30, 10, 10), b), Anchor::BottomLeft);
    // edge middles
    assert_eq!(compare(rect(0, 30, 10, 10), b), Anchor::TopMiddle);
    assert_eq!(compare(rect(0, -30, 10, 10), b), Anchor::BottomMiddle);
    assert_eq!(compare(rect(20, 0, 10, 10), b), Anchor::MiddleRight);
    assert_eq!(compare(rect(-20, 0, 10, 10), b), Anchor::MiddleLeft);
    // overlap
    assert_eq!(compare(rect(5, -5, 10, 10), b), Anchor::Middle);
}

#[test]
fn classify_touching_edges_are_not_overlap() {
    let b = rect(0, 0, 10, 10);
    // bottom of a exactly on top of b
    assert_eq!(compare(rect(0, 10, 10, 10), b), Anchor::TopMiddle);
    // right of a exactly at left of b
    assert_eq!(compare(rect(-10, 0, 10, 10), b), Anchor::MiddleLeft);
}

#[test]
fn classify_point_reflection_pairs() {
    // concrete check of the point-reflection law on every zone
    let b = rect(0, 0, 10, 10);
    let cases = [
        (rect(20, 30, 10, 10), Anchor::TopRight, Anchor::BottomLeft),
        (rect(-20, 30, 10, 10), Anchor::TopLeft, Anchor::BottomRight),
        (rect(0, 30, 10, 10), Anchor::TopMiddle, Anchor::BottomMiddle),
        (rect(20, 0, 10, 10), Anchor::MiddleRight, Anchor::MiddleLeft),
        (rect(5, -5, 10, 10), Anchor::Middle, Anchor::Middle),
    ];
    for (a, fwd, bwd) in cases {
        assert_eq!(compare(a, b), fwd);
        assert_eq!(compare(b, a), bwd);
    }
}

#[test]
fn classify_self_is_middle() {
    let a = rect(3, 7, 11, 13);
    assert_eq!(compare(a, a), Anchor::Middle);
}

#[test]
fn classify_player_inside_collidable_scenario() {
    // player (0,0,10,10) fully horizontally aligned with a collidable
    // (0,-5,10,10): overlapping on the player's bottom half
    let player = rect(0, 0, 10, 10);
    let block = rect(0, -5, 10, 10);
    assert_eq!(compare(player, block), Anchor::Middle);
}

#[test]
fn anchor_to_tuple_all_directions() {
    assert_eq!(anchor_to_tuple(Anchor::BottomLeft), (-1, -1));
    assert_eq!(anchor_to_tuple(Anchor::BottomMiddle), (0, -1));
    assert_eq!(anchor_to_tuple(Anchor::BottomRight), (1, -1));
    assert_eq!(anchor_to_tuple(Anchor::MiddleLeft), (-1, 0));
    assert_eq!(anchor_to_tuple(Anchor::Middle), (0, 0));
    assert_eq!(anchor_to_tuple(Anchor::MiddleRight), (1, 0));
    assert_eq!(anchor_to_tuple(Anchor::TopLeft), (-1, 1));
    assert_eq!(anchor_to_tuple(Anchor::TopMiddle), (0, 1));
    assert_eq!(anchor_to_tuple(Anchor::TopRight), (1, 1));
}

#[test]
fn get_local_point_doubled_units() {
    // top-left pivot at (4, 6), size 10 x 20: corners in doubled units
    let r = rect(4, 6, 10, 20);
    assert_eq!(get_local_point(&r, Anchor::TopLeft), (8, 12));
    assert_eq!(get_local_point(&r, Anchor::TopRight), (28, 12));
    assert_eq!(get_local_point(&r, Anchor::BottomLeft), (8, -28));
    assert_eq!(get_local_point(&r, Anchor::BottomRight), (28, -28));
    // the centre of an even-sized rectangle is exact in doubled units
    assert_eq!(get_local_point(&r, Anchor::Middle), (18, -8));
}

#[test]
fn get_local_point_middle_pivot() {
    // centre pivot: position names the centre
    let r = Rect { x: 0, y: 0, w: 10, h: 10, pivot: Anchor::Middle };
    assert_eq!(get_local_point(&r, Anchor::BottomLeft), (-10, -10));
    assert_eq!(get_local_point(&r, Anchor::TopRight), (10, 10));
}
