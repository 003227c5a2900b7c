//! The camera follow controller: each tick the map's display offset
//! moves a fixed fraction of the way towards the offset that would
//! centre the player, and is then clamped so the map never scrolls past
//! its own edges.  Smoothing comes before the clamp on purpose: the
//! scroll speed stays constant while the camera runs into a map edge.

use vstd::prelude::*;

use vstd::arithmetic::div_mod::{
    lemma_div_by_multiple, lemma_div_is_ordered, lemma_div_nonincreasing, lemma_div_pos_is_pos,
};

use crate::rect::Rect;
use crate::scene::{find_player, has_player, is_first_player, Scene};
use crate::COORD_LIMIT;

verus! {

/// Reciprocal of the camera smoothing factor: each tick the display
/// offset covers one tenth of the distance to the centred-player
/// target.
pub const CAMERA_SMOOTHING: i32 = 10;

/// Signed division truncating toward zero; meaningful for positive `b`.
pub open spec fn div_tz(a: int, b: int) -> int {
    if a >= 0 {
        a / b
    } else {
        -((-a) / b)
    }
}

/// Division toward zero never crosses zero and never grows the
/// magnitude.
pub proof fn lemma_div_tz_bounds(a: int, b: int)
    requires
        b >= 1,
    ensures
        a >= 0 ==> 0 <= div_tz(a, b) <= a,
        a <= 0 ==> a <= div_tz(a, b) <= 0,
{
    if a >= 0 {
        lemma_div_pos_is_pos(a, b);
        lemma_div_nonincreasing(a, b);
    } else {
        lemma_div_pos_is_pos(-a, b);
        lemma_div_nonincreasing(-a, b);
    }
}

/// Executable division truncating toward zero.
fn div_tz_i64(a: i64, b: i64) -> (q: i64)
    requires
        1 <= b,
        a > i64::MIN,
    ensures
        q == div_tz(a as int, b as int),
{
    proof {
        lemma_div_tz_bounds(a as int, b as int);
    }
    if a >= 0 {
        a / b
    } else {
        -((-a) / b)
    }
}

/// The doubled-unit map offset that would centre the player (top-left
/// pivot) in the viewport.
pub open spec fn camera_target2(view_w: u32, view_h: u32, p: Rect) -> (int, int) {
    (view_w - 2 * p.x - p.w, view_h - 2 * p.y + p.h)
}

/// Truncate to at most zero, then raise to at least `lo`: min first,
/// then max, so a low bound above zero wins.
pub open spec fn clamp_offset2(v: int, lo: int) -> int {
    let m = if v > 0 {
        0int
    } else {
        v
    };
    if m < lo {
        lo
    } else {
        m
    }
}

/// One camera-follow step in doubled units: exponential smoothing toward
/// the centred-player target, then the edge clamp.
pub open spec fn follow_offset2(
    view_w: u32,
    view_h: u32,
    map_w: u32,
    map_h: u32,
    off: (i32, i32),
    p: Rect,
) -> (int, int) {
    let t = camera_target2(view_w, view_h, p);
    let sx = 2 * off.0 - div_tz(2 * off.0 - t.0, CAMERA_SMOOTHING as int);
    let sy = 2 * off.1 - div_tz(2 * off.1 - t.1, CAMERA_SMOOTHING as int);
    (clamp_offset2(sx, 2 * (view_w - map_w)), clamp_offset2(sy, 2 * (view_h - map_h)))
}

/// The new display offset in level units: the doubled-unit step, halved
/// toward zero.
pub open spec fn follow_offset(
    view_w: u32,
    view_h: u32,
    map_w: u32,
    map_h: u32,
    off: (i32, i32),
    p: Rect,
) -> (int, int) {
    let o2 = follow_offset2(view_w, view_h, map_w, map_h, off, p);
    (div_tz(o2.0, 2), div_tz(o2.1, 2))
}

/// When the map is at least as wide as the viewport, the follow step
/// lands in the legal scroll range `[view - map, 0]`, whatever the
/// player's position and the previous offset were.
pub proof fn lemma_camera_clamp(
    view_w: u32,
    view_h: u32,
    map_w: u32,
    map_h: u32,
    off: (i32, i32),
    p: Rect,
)
    ensures
        map_w >= view_w ==> view_w - map_w <= follow_offset(
            view_w,
            view_h,
            map_w,
            map_h,
            off,
            p,
        ).0 <= 0,
        map_h >= view_h ==> view_h - map_h <= follow_offset(
            view_w,
            view_h,
            map_w,
            map_h,
            off,
            p,
        ).1 <= 0,
{
    let o2 = follow_offset2(view_w, view_h, map_w, map_h, off, p);
    if map_w >= view_w {
        let lo = 2 * (view_w - map_w);
        assert(lo <= o2.0 <= 0);
        lemma_div_tz_bounds(o2.0, 2);
        lemma_div_is_ordered(-o2.0, -lo, 2);
        lemma_div_by_multiple(map_w - view_w, 2);
        assert((-lo) / 2 == map_w - view_w);
    }
    if map_h >= view_h {
        let lo = 2 * (view_h - map_h);
        assert(lo <= o2.1 <= 0);
        lemma_div_tz_bounds(o2.1, 2);
        lemma_div_is_ordered(-o2.1, -lo, 2);
        lemma_div_by_multiple(map_h - view_h, 2);
        assert((-lo) / 2 == map_h - view_h);
    }
}

/// Move the map's display offset one smoothing step towards centring
/// the player, clamped to the map's edges.  Without a player the offset
/// is left alone (a session invariant violation the caller reports).
pub fn follow_player(scene: &mut Scene, view_w: u32, view_h: u32)
    requires
        1 <= view_w <= COORD_LIMIT,
        1 <= view_h <= COORD_LIMIT,
        1 <= old(scene).size.0 <= COORD_LIMIT,
        1 <= old(scene).size.1 <= COORD_LIMIT,
    ensures
        final(scene).size == old(scene).size,
        final(scene).entities == old(scene).entities,
        !has_player(old(scene).entities@) ==> final(scene).offset == old(scene).offset,
        forall|pi: int|
            is_first_player(old(scene).entities@, pi) ==> {
                let o = follow_offset(
                    view_w,
                    view_h,
                    old(scene).size.0,
                    old(scene).size.1,
                    old(scene).offset,
                    old(scene).entities@[pi].rect,
                );
                final(scene).offset.0 == o.0 && final(scene).offset.1 == o.1
            },
        has_player(old(scene).entities@) && old(scene).size.0 >= view_w ==> view_w - old(
            scene,
        ).size.0 <= final(scene).offset.0 <= 0,
        has_player(old(scene).entities@) && old(scene).size.1 >= view_h ==> view_h - old(
            scene,
        ).size.1 <= final(scene).offset.1 <= 0,
{
    let pi = match find_player(&scene.entities) {
        Some(i) => i,
        None => {
            return ;
        },
    };
    let pr: Rect = scene.entities[pi].rect;
    let map_w = scene.size.0;
    let map_h = scene.size.1;

    let tx2: i64 = view_w as i64 - 2 * (pr.x as i64) - pr.w as i64;
    let ty2: i64 = view_h as i64 - 2 * (pr.y as i64) + pr.h as i64;
    let ox2: i64 = 2 * (scene.offset.0 as i64);
    let oy2: i64 = 2 * (scene.offset.1 as i64);

    proof {
        lemma_div_tz_bounds(ox2 - tx2, CAMERA_SMOOTHING as int);
        lemma_div_tz_bounds(oy2 - ty2, CAMERA_SMOOTHING as int);
    }
    let sx: i64 = ox2 - div_tz_i64(ox2 - tx2, CAMERA_SMOOTHING as i64);
    let sy: i64 = oy2 - div_tz_i64(oy2 - ty2, CAMERA_SMOOTHING as i64);

    let lo_x: i64 = 2 * (view_w as i64 - map_w as i64);
    let lo_y: i64 = 2 * (view_h as i64 - map_h as i64);
    let mut cx2: i64 = if sx > 0 {
        0
    } else {
        sx
    };
    if cx2 < lo_x {
        cx2 = lo_x;
    }
    let mut cy2: i64 = if sy > 0 {
        0
    } else {
        sy
    };
    if cy2 < lo_y {
        cy2 = lo_y;
    }
    proof {
        lemma_div_tz_bounds(cx2 as int, 2);
        lemma_div_tz_bounds(cy2 as int, 2);
        lemma_camera_clamp(view_w, view_h, map_w, map_h, scene.offset, pr);
    }
    let ox = div_tz_i64(cx2, 2);
    let oy = div_tz_i64(cy2, 2);
    scene.offset = (ox as i32, oy as i32);
}

} // verus!
