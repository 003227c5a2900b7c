//! Axis-aligned rectangles and the nine-zone relative-position classifier.
//!
//! A rectangle stores the coordinates of one of its nine reference points
//! (its pivot) together with its size, all in integer level units.  To keep
//! the arithmetic exact for middle pivots, reference points are produced in
//! *doubled* units: every returned coordinate is twice the level-unit value.

use vstd::prelude::*;

verus! {

/// One of the nine reference points of an axis-aligned rectangle, also used
/// as the answer of the classifier: the zone that one rectangle occupies
/// relative to another.
#[derive(Clone, Copy, Debug, PartialEq, Eq, Structural)]
pub enum Anchor {
    TopLeft,
    TopMiddle,
    TopRight,
    MiddleLeft,
    Middle,
    MiddleRight,
    BottomLeft,
    BottomMiddle,
    BottomRight,
}

/// An axis-aligned rectangle: `(x, y)` is the position of the reference
/// point named by `pivot`; `w` and `h` are the side lengths.
#[derive(Clone, Copy, Debug, PartialEq, Eq, Structural)]
pub struct Rect {
    pub x: i32,
    pub y: i32,
    pub w: i32,
    pub h: i32,
    pub pivot: Anchor,
}

/// Direction of an anchor from the rectangle's centre, one unit per half
/// side: `(-1, -1)` is the bottom-left corner, `(0, 0)` the centre.
pub open spec fn anchor_dir(anchor: Anchor) -> (i32, i32) {
    match anchor {
        Anchor::BottomLeft => (-1i32, -1i32),
        Anchor::BottomMiddle => (0i32, -1i32),
        Anchor::BottomRight => (1i32, -1i32),
        Anchor::MiddleLeft => (-1i32, 0i32),
        Anchor::Middle => (0i32, 0i32),
        Anchor::MiddleRight => (1i32, 0i32),
        Anchor::TopLeft => (-1i32, 1i32),
        Anchor::TopMiddle => (0i32, 1i32),
        Anchor::TopRight => (1i32, 1i32),
    }
}

/// Unit direction of an anchor, as the executable counterpart of
/// [`anchor_dir`]: `(horizontal, vertical)`, each in `{-1, 0, 1}`.
pub fn anchor_to_tuple(anchor: Anchor) -> (r: (i32, i32))
    ensures
        r == anchor_dir(anchor),
        -1 <= r.0 <= 1,
        -1 <= r.1 <= 1,
{
    match anchor {
        Anchor::BottomLeft => (-1, -1),
        Anchor::BottomMiddle => (0, -1),
        Anchor::BottomRight => (1, -1),
        Anchor::MiddleLeft => (-1, 0),
        Anchor::Middle => (0, 0),
        Anchor::MiddleRight => (1, 0),
        Anchor::TopLeft => (-1, 1),
        Anchor::TopMiddle => (0, 1),
        Anchor::TopRight => (1, 1),
    }
}

/// The reference point of `r` named by `target`, in doubled level units.
pub open spec fn point2(r: Rect, target: Anchor) -> (int, int) {
    (
        2 * r.x + (anchor_dir(target).0 - anchor_dir(r.pivot).0) * r.w,
        2 * r.y + (anchor_dir(target).1 - anchor_dir(r.pivot).1) * r.h,
    )
}

/// The reference point of `r` named by `target`, in doubled level units so
/// that middle anchors of odd-sized rectangles stay exact.
pub fn get_local_point(r: &Rect, target: Anchor) -> (p: (i64, i64))
    ensures
        p.0 == point2(*r, target).0,
        p.1 == point2(*r, target).1,
{
    let t = anchor_to_tuple(target);
    let pv = anchor_to_tuple(r.pivot);
    let dx = (t.0 - pv.0) as i64;
    let dy = (t.1 - pv.1) as i64;
    let w = r.w as i64;
    let h = r.h as i64;
    assert(-0x2_0000_0000 <= dx * w <= 0x2_0000_0000) by (nonlinear_arith)
        requires
            -2 <= dx <= 2,
            -0x8000_0000 <= w <= 0x8000_0000,
    ;
    assert(-0x2_0000_0000 <= dy * h <= 0x2_0000_0000) by (nonlinear_arith)
        requires
            -2 <= dy <= 2,
            -0x8000_0000 <= h <= 0x8000_0000,
    ;
    let x = 2 * (r.x as i64) + dx * w;
    let y = 2 * (r.y as i64) + dy * h;
    (x, y)
}

/// Which of the nine zones rectangle `a` occupies relative to rectangle `b`.
/// The first matching rule wins; the rule order is what breaks diagonal
/// ties, so it is part of the definition.
pub open spec fn classify(a: Rect, b: Rect) -> Anchor {
    let bl1 = point2(a, Anchor::BottomLeft);
    let br1 = point2(a, Anchor::BottomRight);
    let tl1 = point2(a, Anchor::TopLeft);
    let tr1 = point2(a, Anchor::TopRight);
    let bl2 = point2(b, Anchor::BottomLeft);
    let br2 = point2(b, Anchor::BottomRight);
    let tl2 = point2(b, Anchor::TopLeft);
    let tr2 = point2(b, Anchor::TopRight);
    if bl1.1 >= tr2.1 && bl1.0 >= tr2.0 {
        Anchor::TopRight
    } else if br1.1 >= tl2.1 && br1.0 <= tl2.0 {
        Anchor::TopLeft
    } else if tl1.1 <= br2.1 && tl1.0 >= br2.0 {
        Anchor::BottomRight
    } else if tr1.1 <= bl2.1 && tr1.0 <= bl2.0 {
        Anchor::BottomLeft
    } else if bl1.1 >= tl2.1 {
        Anchor::TopMiddle
    } else if tl1.1 <= bl2.1 {
        Anchor::BottomMiddle
    } else if bl1.0 >= br2.0 {
        Anchor::MiddleRight
    } else if br1.0 <= bl2.0 {
        Anchor::MiddleLeft
    } else {
        Anchor::Middle
    }
}

/// Classify the position of rectangle `a` relative to rectangle `b`.
/// `Anchor::Middle` means the two rectangles overlap.
pub fn compare(a: Rect, b: Rect) -> (z: Anchor)
    ensures
        z == classify(a, b),
{
    let bl1 = get_local_point(&a, Anchor::BottomLeft);
    let br1 = get_local_point(&a, Anchor::BottomRight);
    let tl1 = get_local_point(&a, Anchor::TopLeft);
    let tr1 = get_local_point(&a, Anchor::TopRight);
    let bl2 = get_local_point(&b, Anchor::BottomLeft);
    let br2 = get_local_point(&b, Anchor::BottomRight);
    let tl2 = get_local_point(&b, Anchor::TopLeft);
    let tr2 = get_local_point(&b, Anchor::TopRight);
    if bl1.1 >= tr2.1 && bl1.0 >= tr2.0 {
        Anchor::TopRight
    } else if br1.1 >= tl2.1 && br1.0 <= tl2.0 {
        Anchor::TopLeft
    } else if tl1.1 <= br2.1 && tl1.0 >= br2.0 {
        Anchor::BottomRight
    } else if tr1.1 <= bl2.1 && tr1.0 <= bl2.0 {
        Anchor::BottomLeft
    } else if bl1.1 >= tl2.1 {
        Anchor::TopMiddle
    } else if tl1.1 <= bl2.1 {
        Anchor::BottomMiddle
    } else if bl1.0 >= br2.0 {
        Anchor::MiddleRight
    } else if br1.0 <= bl2.0 {
        Anchor::MiddleLeft
    } else {
        Anchor::Middle
    }
}

/// A rectangle with strictly positive extent on both axes.
pub open spec fn nondegenerate(r: Rect) -> bool {
    r.w > 0 && r.h > 0
}

/// The zone on the opposite side: the point reflection through the centre.
pub open spec fn reflected(z: Anchor) -> Anchor {
    match z {
        Anchor::TopLeft => Anchor::BottomRight,
        Anchor::TopMiddle => Anchor::BottomMiddle,
        Anchor::TopRight => Anchor::BottomLeft,
        Anchor::MiddleLeft => Anchor::MiddleRight,
        Anchor::Middle => Anchor::Middle,
        Anchor::MiddleRight => Anchor::MiddleLeft,
        Anchor::BottomLeft => Anchor::TopRight,
        Anchor::BottomMiddle => Anchor::TopMiddle,
        Anchor::BottomRight => Anchor::TopLeft,
    }
}

/// The four corner points of a rectangle share two horizontal and two
/// vertical coordinates, a full side length apart (in doubled units).
proof fn lemma_corners(r: Rect)
    ensures
        point2(r, Anchor::BottomRight).0 == point2(r, Anchor::BottomLeft).0 + 2 * r.w,
        point2(r, Anchor::TopLeft).0 == point2(r, Anchor::BottomLeft).0,
        point2(r, Anchor::TopRight).0 == point2(r, Anchor::BottomRight).0,
        point2(r, Anchor::TopLeft).1 == point2(r, Anchor::BottomLeft).1 + 2 * r.h,
        point2(r, Anchor::BottomRight).1 == point2(r, Anchor::BottomLeft).1,
        point2(r, Anchor::TopRight).1 == point2(r, Anchor::TopLeft).1,
{
    let px = anchor_dir(r.pivot).0 as int;
    let py = anchor_dir(r.pivot).1 as int;
    assert((1 - px) * r.w == (-1 - px) * r.w + 2 * r.w) by (nonlinear_arith);
    assert((1 - py) * r.h == (-1 - py) * r.h + 2 * r.h) by (nonlinear_arith);
}

/// Swapping the arguments of the classifier reflects the answer through the
/// centre: if `a` sits above and right of `b`, then `b` sits below and left
/// of `a`, and overlap is mutual.
pub proof fn lemma_classify_point_reflection(a: Rect, b: Rect)
    requires
        nondegenerate(a),
        nondegenerate(b),
    ensures
        classify(a, b) == reflected(classify(b, a)),
{
    lemma_corners(a);
    lemma_corners(b);
}

/// A rectangle with positive extent overlaps itself.
pub proof fn lemma_classify_self_middle(a: Rect)
    requires
        nondegenerate(a),
    ensures
        classify(a, a) == Anchor::Middle,
{
    lemma_corners(a);
}

} // verus!
