use vstd::prelude::*;
use crate::icons::Rect;
use crate::shape::{round_rect_arcs, spec_round_rect_arcs, PathArc};

verus! {

/// What the painter remembers between paints: whether the window has
/// rounded corners and whether it is shown.
#[derive(Clone, Copy, Debug, PartialEq, Eq)]
pub struct PainterState {
    pub rounded_corner: bool,
    pub show: bool,
}

/// How the window's background is filled: a rounded-rectangle path given by
/// its corner arcs, or a plain rectangle.
#[derive(Clone, Debug, PartialEq, Eq)]
pub enum Background {
    Rounded(Vec<PathArc>),
    Plain(Rect),
}

/// The state after a paint: the window is shown.
pub open spec fn after_paint(s: PainterState) -> PainterState {
    PainterState { show: true, ..s }
}

/// The state after an unpaint: the window is hidden.
pub open spec fn after_unpaint(s: PainterState) -> PainterState {
    PainterState { show: false, ..s }
}

impl PainterState {
    /// A painter whose window is not shown yet.
    pub fn new(rounded_corner: bool) -> (s: PainterState)
        ensures
            s == (PainterState { rounded_corner, show: false }),
    {
        PainterState { rounded_corner, show: false }
    }

    /// Records a paint. Returns whether the window must be shown and given
    /// the focus now: only when it was not shown before.
    pub fn paint(&mut self) -> (needs_show: bool)
        ensures
            needs_show == !old(self).show,
            *final(self) == after_paint(*old(self)),
    {
        let needs_show = !self.show;
        self.show = true;
        needs_show
    }

    /// Records that the window was hidden.
    pub fn unpaint(&mut self)
        ensures
            *final(self) == after_unpaint(*old(self)),
    {
        self.show = false;
    }

    /// The background of a window of `width` by `height`: rounded with
    /// `corner_radius` when corners are rounded, else the plain rectangle.
    pub fn background(&self, width: i32, height: i32, corner_radius: i32) -> (bg: Background)
        ensures
            match bg {
                Background::Rounded(arcs) => self.rounded_corner && arcs@ == spec_round_rect_arcs(
                    0,
                    0,
                    width as int,
                    height as int,
                    corner_radius as int,
                ),
                Background::Plain(r) => !self.rounded_corner && r == (Rect { left: 0, top: 0, right: width, bottom: height }),
            },
    {
        if self.rounded_corner {
            Background::Rounded(round_rect_arcs(0, 0, width, height, corner_radius))
        } else {
            Background::Plain(Rect { left: 0, top: 0, right: width, bottom: height })
        }
    }

    /// The corner radius to draw with: `radius` with rounded corners, else 0.
    pub fn corner_radius(&self, radius: i32) -> (r: i32)
        ensures
            r == if self.rounded_corner { radius } else { 0 },
    {
        if self.rounded_corner {
            radius
        } else {
            0
        }
    }
}

/// A window is shown once however often it is painted: after a paint, the
/// next paint does not show it again and leaves the state as it is.
pub proof fn lemma_paint_idempotent(s: PainterState)
    ensures
        after_paint(s).show,
        after_paint(after_paint(s)) == after_paint(s),
{
}

/// Unpainting hides the window, and the next paint shows it again; neither
/// changes whether corners are rounded.
pub proof fn lemma_unpaint_then_paint_shows(s: PainterState)
    ensures
        !after_unpaint(s).show,
        after_paint(after_unpaint(s)) == after_paint(s),
        after_unpaint(s).rounded_corner == s.rounded_corner,
        after_paint(s).rounded_corner == s.rounded_corner,
{
}

} // verus!
