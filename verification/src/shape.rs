use vstd::prelude::*;

verus! {

/// An elliptical arc of a path: the part of the ellipse inscribed in the box
/// at `(x, y)` of `width` by `height` that starts at `start_angle` degrees and
/// sweeps `sweep_angle` degrees clockwise.
#[derive(Clone, Copy, Debug, PartialEq, Eq)]
pub struct PathArc {
    pub x: i64,
    pub y: i64,
    pub width: i64,
    pub height: i64,
    pub start_angle: i32,
    pub sweep_angle: i32,
}

/// The corners of the rounded rectangle from `(left, top)` to
/// `(right, bottom)`: top-left, top-right, bottom-right, bottom-left, each a
/// quarter of a circle in a box of side `corner_radius`.
pub open spec fn spec_round_rect_arcs(left: int, top: int, right: int, bottom: int, corner_radius: int) -> Seq<PathArc> {
    let r = corner_radius as i64;
    seq![
        PathArc { x: left as i64, y: top as i64, width: r, height: r, start_angle: 180, sweep_angle: 90 },
        PathArc { x: (right - corner_radius) as i64, y: top as i64, width: r, height: r, start_angle: 270, sweep_angle: 90 },
        PathArc {
            x: (right - corner_radius) as i64,
            y: (bottom - corner_radius) as i64,
            width: r,
            height: r,
            start_angle: 0,
            sweep_angle: 90,
        },
        PathArc { x: left as i64, y: (bottom - corner_radius) as i64, width: r, height: r, start_angle: 90, sweep_angle: 90 },
    ]
}

/// The arcs of a rounded-rectangle path, in the order they are added to it;
/// the path is then closed.
pub fn round_rect_arcs(left: i32, top: i32, right: i32, bottom: i32, corner_radius: i32) -> (arcs: Vec<PathArc>)
    ensures
        arcs@ == spec_round_rect_arcs(left as int, top as int, right as int, bottom as int, corner_radius as int),
{
    let l = left as i64;
    let t = top as i64;
    let r = corner_radius as i64;
    let far_x = right as i64 - r;
    let far_y = bottom as i64 - r;
    let mut arcs: Vec<PathArc> = Vec::new();
    arcs.push(PathArc { x: l, y: t, width: r, height: r, start_angle: 180, sweep_angle: 90 });
    arcs.push(PathArc { x: far_x, y: t, width: r, height: r, start_angle: 270, sweep_angle: 90 });
    arcs.push(PathArc { x: far_x, y: far_y, width: r, height: r, start_angle: 0, sweep_angle: 90 });
    arcs.push(PathArc { x: l, y: far_y, width: r, height: r, start_angle: 90, sweep_angle: 90 });
    arcs
}

/// The outline goes once around: each arc starts where the previous one ends
/// (modulo a full turn), and the four arcs sweep a full turn together. When
/// the radius fits in the rectangle, every arc's box lies inside it.
pub proof fn lemma_round_rect_outline(left: i32, top: i32, right: i32, bottom: i32, corner_radius: i32)
    ensures
        ({
            let arcs = spec_round_rect_arcs(left as int, top as int, right as int, bottom as int, corner_radius as int);
            &&& arcs.len() == 4
            &&& forall|j: int| 0 <= j < 3 ==> (arcs[j].start_angle + arcs[j].sweep_angle) % 360 == #[trigger] arcs[j + 1].start_angle
            &&& (arcs[3].start_angle + arcs[3].sweep_angle) % 360 == arcs[0].start_angle
            &&& arcs[0].sweep_angle + arcs[1].sweep_angle + arcs[2].sweep_angle + arcs[3].sweep_angle == 360
            &&& (0 <= corner_radius <= right - left && corner_radius <= bottom - top) ==> forall|j: int|
                0 <= j < 4 ==> {
                    &&& left <= #[trigger] arcs[j].x
                    &&& arcs[j].x + arcs[j].width <= right
                    &&& top <= arcs[j].y
                    &&& arcs[j].y + arcs[j].height <= bottom
                }
        }),
{
    let arcs = spec_round_rect_arcs(left as int, top as int, right as int, bottom as int, corner_radius as int);
    assert(arcs[0].start_angle == 180);
    assert(arcs[1].start_angle == 270);
    assert(arcs[2].start_angle == 0);
    assert(arcs[3].start_angle == 90);
}


/// Each arc's box is a square of side `corner_radius` in its own corner of the
/// rectangle, in clockwise order from the top-left, and sweeps a quarter turn
/// from the angle that faces away from that corner's sides.
pub proof fn lemma_round_rect_corners(left: i32, top: i32, right: i32, bottom: i32, corner_radius: i32)
    ensures
        ({
            let arcs = spec_round_rect_arcs(left as int, top as int, right as int, bottom as int, corner_radius as int);
            &&& arcs.len() == 4
            &&& forall|j: int| 0 <= j < 4 ==> #[trigger] arcs[j].width == corner_radius && arcs[j].height == corner_radius
                && arcs[j].sweep_angle == 90
            &&& arcs[0].x == left && arcs[0].y == top && arcs[0].start_angle == 180
            &&& arcs[1].x + arcs[1].width == right && arcs[1].y == top && arcs[1].start_angle == 270
            &&& arcs[2].x + arcs[2].width == right && arcs[2].y + arcs[2].height == bottom && arcs[2].start_angle == 0
            &&& arcs[3].x == left && arcs[3].y + arcs[3].height == bottom && arcs[3].start_angle == 90
        }),
{
    let arcs = spec_round_rect_arcs(left as int, top as int, right as int, bottom as int, corner_radius as int);
    assert(arcs[0].width == corner_radius);
    assert(arcs[1].width == corner_radius);
    assert(arcs[2].width == corner_radius);
    assert(arcs[3].width == corner_radius);
}

} // verus!
