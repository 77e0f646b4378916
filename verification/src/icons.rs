use vstd::prelude::*;
use crate::layout::{
    cell_left, cell_top, drawn_index, fits_i32, grid_col, grid_columns, grid_row, grid_rows, in_i32,
    lemma_grid_holds_apps, lemma_grid_offsets_bounded, lemma_mul_le_left, SYS_ROW_LENGTH, SYS_SCALE_FACTOR,
};

verus! {

/// `0xRRGGBB` turned into the `0xBBGGRR` that GDI's `COLORREF` expects; the
/// top byte is dropped.
pub open spec fn spec_color_to_bgr(color: u32) -> u32 {
    ((color & 0x0000FF) << 16) | (color & 0x00FF00) | ((color & 0xFF0000) >> 16)
}

pub fn color_to_bgr(color: u32) -> (bgr: u32)
    ensures
        bgr == spec_color_to_bgr(color),
{
    ((color & 0x0000FF) << 16) | (color & 0x00FF00) | ((color & 0xFF0000) >> 16)
}

/// The conversion moves the bytes of `0xRRGGBB`: red goes to the low byte,
/// green stays, blue goes to the third byte, and nothing is left above it.
pub proof fn lemma_color_to_bgr_bytes(color: u32)
    ensures
        spec_color_to_bgr(color) & 0xFF == (color >> 16) & 0xFF,
        (spec_color_to_bgr(color) >> 8) & 0xFF == (color >> 8) & 0xFF,
        (spec_color_to_bgr(color) >> 16) & 0xFF == color & 0xFF,
        spec_color_to_bgr(color) >> 24 == 0,
{
    assert((((color & 0x0000FF) << 16) | (color & 0x00FF00) | ((color & 0xFF0000) >> 16)) & 0xFF == (color >> 16)
        & 0xFF) by (bit_vector);
    assert(((((color & 0x0000FF) << 16) | (color & 0x00FF00) | ((color & 0xFF0000) >> 16)) >> 8) & 0xFF == (color
        >> 8) & 0xFF) by (bit_vector);
    assert(((((color & 0x0000FF) << 16) | (color & 0x00FF00) | ((color & 0xFF0000) >> 16)) >> 16) & 0xFF == color
        & 0xFF) by (bit_vector);
    assert((((color & 0x0000FF) << 16) | (color & 0x00FF00) | ((color & 0xFF0000) >> 16)) >> 24 == 0) by (bit_vector);
}

/// Swapping red and blue twice gives back the 24-bit color.
pub proof fn lemma_color_to_bgr_involution(color: u32)
    ensures
        spec_color_to_bgr(spec_color_to_bgr(color)) == color & 0xFFFFFF,
        spec_color_to_bgr(color) <= 0xFFFFFF,
{
    assert(((((color & 0x0000FF) << 16) | (color & 0x00FF00) | ((color & 0xFF0000) >> 16)) & 0x0000FF) << 16
        | ((((color & 0x0000FF) << 16) | (color & 0x00FF00) | ((color & 0xFF0000) >> 16)) & 0x00FF00)
        | ((((color & 0x0000FF) << 16) | (color & 0x00FF00) | ((color & 0xFF0000) >> 16)) & 0xFF0000) >> 16
        == color & 0xFFFFFF) by (bit_vector);
    assert(((color & 0x0000FF) << 16) | (color & 0x00FF00) | ((color & 0xFF0000) >> 16) <= 0xFFFFFF)
        by (bit_vector);
}

/// The apps drawn highlighted: the selected app, then the hovered app when it
/// is another one.
pub open spec fn spec_highlighted_indices(index: usize, hover_index: Option<usize>) -> Seq<usize> {
    match hover_index {
        Some(hover) => if hover != index {
            seq![index, hover]
        } else {
            seq![index]
        },
        None => seq![index],
    }
}

pub fn highlighted_indices(index: usize, hover_index: Option<usize>) -> (indices: Vec<usize>)
    ensures
        indices@ == spec_highlighted_indices(index, hover_index),
{
    let mut indices = Vec::new();
    indices.push(index);
    if let Some(hover) = hover_index {
        if hover != index {
            indices.push(hover);
        }
    }
    indices
}

/// The highlighted apps are the selected one and the hovered one, each once,
/// in that order: the selected app first, then the hovered app when it is
/// another one.
pub proof fn lemma_highlights_distinct(index: usize, hover_index: Option<usize>)
    ensures
        spec_highlighted_indices(index, hover_index).len() >= 1,
        spec_highlighted_indices(index, hover_index)[0] == index,
        forall|h: usize|
            hover_index == Some(h) && h != index ==> #[trigger] spec_highlighted_indices(index, Some(h)).len() == 2
                && spec_highlighted_indices(index, hover_index)[1] == h,
        (hover_index is None || hover_index == Some(index)) ==> spec_highlighted_indices(index, hover_index).len() == 1,
        spec_highlighted_indices(index, hover_index).no_duplicates(),
        spec_highlighted_indices(index, hover_index).contains(index),
        hover_index matches Some(h) ==> spec_highlighted_indices(index, hover_index).contains(h),
        forall|k: usize| #[trigger] spec_highlighted_indices(index, hover_index).contains(k)
            ==> k == index || hover_index == Some(k),
{
    let s = spec_highlighted_indices(index, hover_index);
    assert(s[0] == index);
    if let Some(h) = hover_index {
        if h != index {
            assert(s[1] == h);
        }
    }
}


/// A rectangle in pixels; `right` and `bottom` are exclusive.
#[derive(Clone, Copy, Debug, PartialEq, Eq)]
pub struct Rect {
    pub left: i32,
    pub top: i32,
    pub right: i32,
    pub bottom: i32,
}

/// Sizes of the icon bitmap, which is drawn at `SYS_SCALE_FACTOR` times its
/// final size and then shrunk for smooth edges, and the colors used on it.
#[derive(Clone, Copy, Debug, PartialEq, Eq)]
pub struct IconsLayout {
    pub width: i32,
    pub height: i32,
    pub scaled_width: i32,
    pub scaled_height: i32,
    pub scaled_hover_corner_radius: i32,
    pub scaled_icon_corner_radius: i32,
    pub scaled_border_size: i32,
    pub scaled_icon_inner_size: i32,
    pub scaled_icon_outer_size: i32,
    pub fg_color_bgr: u32,
    pub bg_color_bgr: u32,
}

pub open spec fn scaled(v: int) -> int {
    v * SYS_SCALE_FACTOR
}

/// Side of a scaled grid cell: the icon with its padding on both sides.
pub open spec fn scaled_outer_size(icon_size: int, icon_border: int) -> int {
    scaled(icon_size) + scaled(icon_border) * 2
}

/// The inputs on which the scaled sizes are computed without `i32` overflow.
pub open spec fn icons_layout_defined(
    icon_size: int,
    icon_border: int,
    width: int,
    height: int,
    hover_corner_radius: int,
    icon_corner_radius: int,
) -> bool {
    &&& fits_i32(scaled(width))
    &&& fits_i32(scaled(height))
    &&& fits_i32(scaled(hover_corner_radius))
    &&& fits_i32(scaled(icon_corner_radius))
    &&& fits_i32(scaled(icon_border))
    &&& fits_i32(scaled(icon_size))
    &&& fits_i32(scaled(icon_border) * 2)
    &&& fits_i32(scaled_outer_size(icon_size, icon_border))
}

/// `r` is the scaled cell of app `k`, a square of side `outer`.
pub open spec fn is_cell_rect(r: Rect, outer: int, k: int) -> bool {
    &&& r.left == outer * grid_col(k)
    &&& r.top == outer * grid_row(k)
    &&& r.right == r.left + outer
    &&& r.bottom == r.top + outer
}

/// `r` is the scaled icon of app `k`: a square of side `inner`, inset by
/// `border` into the cell of side `outer`.
pub open spec fn is_icon_rect(r: Rect, border: int, inner: int, outer: int, k: int) -> bool {
    &&& r.left == border + outer * grid_col(k)
    &&& r.top == border + outer * grid_row(k)
    &&& r.right == r.left + inner
    &&& r.bottom == r.top + inner
}

pub open spec fn cell_rect_fits(outer: int, k: int) -> bool {
    &&& fits_i32(outer * grid_col(k))
    &&& fits_i32(outer * grid_row(k))
    &&& fits_i32(outer * grid_col(k) + outer)
    &&& fits_i32(outer * grid_row(k) + outer)
}

pub open spec fn icon_rect_fits(border: int, inner: int, outer: int, k: int) -> bool {
    &&& fits_i32(outer * grid_col(k))
    &&& fits_i32(outer * grid_row(k))
    &&& fits_i32(border + outer * grid_col(k))
    &&& fits_i32(border + outer * grid_row(k))
    &&& fits_i32(border + outer * grid_col(k) + inner)
    &&& fits_i32(border + outer * grid_row(k) + inner)
}

/// Whether the scaled cell of the app drawn as `k` is computed without overflow.
fn cell_rect_in_range(outer: i32, k: i32) -> (ok: bool)
    ensures
        ok == cell_rect_fits(outer as int, k as int),
{
    proof {
        lemma_grid_offsets_bounded(outer as int, k as int);
    }
    let o = outer as i64;
    let left = o * (k as i64 % 10);
    let top = o * (k as i64 / 10);
    in_i32(left) && in_i32(top) && in_i32(left + o) && in_i32(top + o)
}

/// Whether the scaled icon square of the app drawn as `k` is computed without overflow.
fn icon_rect_in_range(border: i32, inner: i32, outer: i32, k: i32) -> (ok: bool)
    ensures
        ok == icon_rect_fits(border as int, inner as int, outer as int, k as int),
{
    proof {
        lemma_grid_offsets_bounded(outer as int, k as int);
    }
    let o = outer as i64;
    let left = o * (k as i64 % 10);
    let top = o * (k as i64 / 10);
    let b = border as i64;
    in_i32(left) && in_i32(top) && in_i32(b + left) && in_i32(b + top) && in_i32(b + left + inner as i64)
        && in_i32(b + top + inner as i64)
}

impl IconsLayout {
    /// `IconsLayout::new` where it is defined; `None` on the inputs on which a
    /// scaled size overflows `i32`.
    pub fn checked_new(
        icon_size: i32,
        icon_border: i32,
        width: i32,
        height: i32,
        hover_corner_radius: i32,
        icon_corner_radius: i32,
        fg_color: u32,
        bg_color: u32,
    ) -> (l: Option<IconsLayout>)
        ensures
            l is Some <==> icons_layout_defined(
                icon_size as int,
                icon_border as int,
                width as int,
                height as int,
                hover_corner_radius as int,
                icon_corner_radius as int,
            ),
            l matches Some(l) ==> {
                &&& l.width == width
                &&& l.height == height
                &&& l.scaled_width == scaled(width as int)
                &&& l.scaled_height == scaled(height as int)
                &&& l.scaled_hover_corner_radius == scaled(hover_corner_radius as int)
                &&& l.scaled_icon_corner_radius == scaled(icon_corner_radius as int)
                &&& l.scaled_border_size == scaled(icon_border as int)
                &&& l.scaled_icon_inner_size == scaled(icon_size as int)
                &&& l.scaled_icon_outer_size == scaled_outer_size(icon_size as int, icon_border as int)
                &&& l.fg_color_bgr == spec_color_to_bgr(fg_color)
                &&& l.bg_color_bgr == spec_color_to_bgr(bg_color)
            },
    {
        let border = icon_border as i64 * 6;
        let inner = icon_size as i64 * 6;
        let defined = in_i32(width as i64 * 6) && in_i32(height as i64 * 6) && in_i32(hover_corner_radius as i64 * 6)
            && in_i32(icon_corner_radius as i64 * 6) && in_i32(border) && in_i32(inner) && in_i32(border * 2)
            && in_i32(inner + border * 2);
        if defined {
            Some(
                IconsLayout::new(
                    icon_size,
                    icon_border,
                    width,
                    height,
                    hover_corner_radius,
                    icon_corner_radius,
                    fg_color,
                    bg_color,
                ),
            )
        } else {
            None
        }
    }

    /// Whether `highlight_rects(index, hover_index)` is defined, i.e. runs
    /// without `i32` overflow.
    pub fn highlight_rects_in_range(&self, index: usize, hover_index: Option<usize>) -> (ok: bool)
        ensures
            ok == forall|k: usize| #[trigger] spec_highlighted_indices(index, hover_index).contains(k)
                ==> cell_rect_fits(self.scaled_icon_outer_size as int, drawn_index(k as int)),
    {
        let indices = highlighted_indices(index, hover_index);
        let mut j: usize = 0;
        while j < indices.len()
            invariant
                indices@ == spec_highlighted_indices(index, hover_index),
                j <= indices@.len(),
                forall|t: int| 0 <= t < j ==> cell_rect_fits(
                    self.scaled_icon_outer_size as int,
                    drawn_index(#[trigger] indices@[t] as int),
                ),
            decreases indices@.len() - j,
        {
            if !cell_rect_in_range(self.scaled_icon_outer_size, indices[j] as i32) {
                assert(indices@.contains(indices@[j as int]));
                return false;
            }
            j = j + 1;
        }
        assert forall|k: usize| #[trigger] indices@.contains(k) implies cell_rect_fits(
            self.scaled_icon_outer_size as int,
            drawn_index(k as int),
        ) by {
            let t = choose|t: int| 0 <= t < indices@.len() && indices@[t] == k;
            assert(cell_rect_fits(self.scaled_icon_outer_size as int, drawn_index(indices@[t] as int)));
        }
        true
    }

    /// Whether `icon_rects(num_apps)` is defined, i.e. runs without `i32` overflow.
    pub fn icon_rects_in_range(&self, num_apps: usize) -> (ok: bool)
        ensures
            ok == forall|i: int| 0 <= i < num_apps ==> #[trigger] icon_rect_fits(
                self.scaled_border_size as int,
                self.scaled_icon_inner_size as int,
                self.scaled_icon_outer_size as int,
                drawn_index(i),
            ),
    {
        let mut i: usize = 0;
        while i < num_apps
            invariant
                i <= num_apps,
                forall|t: int| 0 <= t < i ==> #[trigger] icon_rect_fits(
                    self.scaled_border_size as int,
                    self.scaled_icon_inner_size as int,
                    self.scaled_icon_outer_size as int,
                    drawn_index(t),
                ),
            decreases num_apps - i,
        {
            let ok = icon_rect_in_range(
                self.scaled_border_size,
                self.scaled_icon_inner_size,
                self.scaled_icon_outer_size,
                i as i32,
            );
            if !ok {
                assert(drawn_index(i as int) == (i as i32) as int);
                return false;
            }
            i = i + 1;
        }
        true
    }

    /// The sizes of the icon bitmap for icons of `icon_size` padded by
    /// `icon_border`, on a bitmap of `width` by `height`.
    pub fn new(
        icon_size: i32,
        icon_border: i32,
        width: i32,
        height: i32,
        hover_corner_radius: i32,
        icon_corner_radius: i32,
        fg_color: u32,
        bg_color: u32,
    ) -> (l: IconsLayout)
        requires
            icons_layout_defined(
                icon_size as int,
                icon_border as int,
                width as int,
                height as int,
                hover_corner_radius as int,
                icon_corner_radius as int,
            ),
        ensures
            l.width == width,
            l.height == height,
            l.scaled_width == scaled(width as int),
            l.scaled_height == scaled(height as int),
            l.scaled_hover_corner_radius == scaled(hover_corner_radius as int),
            l.scaled_icon_corner_radius == scaled(icon_corner_radius as int),
            l.scaled_border_size == scaled(icon_border as int),
            l.scaled_icon_inner_size == scaled(icon_size as int),
            l.scaled_icon_outer_size == scaled_outer_size(icon_size as int, icon_border as int),
            l.fg_color_bgr == spec_color_to_bgr(fg_color),
            l.bg_color_bgr == spec_color_to_bgr(bg_color),
    {
        let scaled_width = width * SYS_SCALE_FACTOR;
        let scaled_height = height * SYS_SCALE_FACTOR;
        let scaled_hover_corner_radius = hover_corner_radius * SYS_SCALE_FACTOR;
        let scaled_icon_corner_radius = icon_corner_radius * SYS_SCALE_FACTOR;
        let scaled_border_size = icon_border * SYS_SCALE_FACTOR;
        let scaled_icon_inner_size = icon_size * SYS_SCALE_FACTOR;
        let scaled_icon_outer_size = scaled_icon_inner_size + scaled_border_size * 2;
        IconsLayout {
            width,
            height,
            scaled_width,
            scaled_height,
            scaled_hover_corner_radius,
            scaled_icon_corner_radius,
            scaled_border_size,
            scaled_icon_inner_size,
            scaled_icon_outer_size,
            fg_color_bgr: color_to_bgr(fg_color),
            bg_color_bgr: color_to_bgr(bg_color),
        }
    }

    /// The whole scaled bitmap, which is filled with the background color.
    pub fn background_rect(&self) -> (r: Rect)
        ensures
            r == (Rect { left: 0, top: 0, right: self.scaled_width, bottom: self.scaled_height }),
    {
        Rect { left: 0, top: 0, right: self.scaled_width, bottom: self.scaled_height }
    }

    /// The scaled cell of the app at `index`, which is filled with the
    /// highlight color when that app is selected or hovered.
    pub fn highlight_rect(&self, index: usize) -> (r: Rect)
        requires
            cell_rect_fits(self.scaled_icon_outer_size as int, drawn_index(index as int)),
        ensures
            is_cell_rect(r, self.scaled_icon_outer_size as int, drawn_index(index as int)),
    {
        let k = index as i32;
        let col = k % SYS_ROW_LENGTH;
        let row = k / SYS_ROW_LENGTH;
        let left = self.scaled_icon_outer_size * col;
        let top = self.scaled_icon_outer_size * row;
        Rect {
            left,
            top,
            right: left + self.scaled_icon_outer_size,
            bottom: top + self.scaled_icon_outer_size,
        }
    }

    /// The highlighted cells: that of the selected app, then that of the
    /// hovered app when it is another one.
    pub fn highlight_rects(&self, index: usize, hover_index: Option<usize>) -> (rects: Vec<Rect>)
        requires
            forall|k: usize| #[trigger] spec_highlighted_indices(index, hover_index).contains(k)
                ==> cell_rect_fits(self.scaled_icon_outer_size as int, drawn_index(k as int)),
        ensures
            rects@.len() == spec_highlighted_indices(index, hover_index).len(),
            forall|j: int| 0 <= j < rects@.len() ==> is_cell_rect(
                #[trigger] rects@[j],
                self.scaled_icon_outer_size as int,
                drawn_index(spec_highlighted_indices(index, hover_index)[j] as int),
            ),
    {
        let indices = highlighted_indices(index, hover_index);
        let mut rects: Vec<Rect> = Vec::new();
        let mut j: usize = 0;
        while j < indices.len()
            invariant
                indices@ == spec_highlighted_indices(index, hover_index),
                j <= indices@.len(),
                rects@.len() == j,
                forall|k: usize| #[trigger] spec_highlighted_indices(index, hover_index).contains(k)
                    ==> cell_rect_fits(self.scaled_icon_outer_size as int, drawn_index(k as int)),
                forall|t: int| 0 <= t < j ==> is_cell_rect(
                    #[trigger] rects@[t],
                    self.scaled_icon_outer_size as int,
                    drawn_index(indices@[t] as int),
                ),
            decreases indices@.len() - j,
        {
            assert(indices@.contains(indices@[j as int]));
            let r = self.highlight_rect(indices[j]);
            rects.push(r);
            j = j + 1;
        }
        rects
    }

    /// The scaled square in which the icon of app `i` is drawn, clipped to a
    /// rounded square.
    pub fn icon_rect(&self, i: usize) -> (r: Rect)
        requires
            icon_rect_fits(
                self.scaled_border_size as int,
                self.scaled_icon_inner_size as int,
                self.scaled_icon_outer_size as int,
                drawn_index(i as int),
            ),
        ensures
            is_icon_rect(
                r,
                self.scaled_border_size as int,
                self.scaled_icon_inner_size as int,
                self.scaled_icon_outer_size as int,
                drawn_index(i as int),
            ),
    {
        let k = i as i32;
        let col = k % SYS_ROW_LENGTH;
        let row = k / SYS_ROW_LENGTH;
        let item_left = self.scaled_icon_outer_size * col;
        let item_top = self.scaled_icon_outer_size * row;
        let cx = self.scaled_border_size + item_left;
        let cy = self.scaled_border_size + item_top;
        Rect {
            left: cx,
            top: cy,
            right: cx + self.scaled_icon_inner_size,
            bottom: cy + self.scaled_icon_inner_size,
        }
    }

    /// The icon squares of apps `0..num_apps`, in order.
    pub fn icon_rects(&self, num_apps: usize) -> (rects: Vec<Rect>)
        requires
            forall|i: int| 0 <= i < num_apps ==> #[trigger] icon_rect_fits(
                self.scaled_border_size as int,
                self.scaled_icon_inner_size as int,
                self.scaled_icon_outer_size as int,
                drawn_index(i),
            ),
        ensures
            rects@.len() == num_apps,
            forall|i: int| 0 <= i < num_apps ==> is_icon_rect(
                #[trigger] rects@[i],
                self.scaled_border_size as int,
                self.scaled_icon_inner_size as int,
                self.scaled_icon_outer_size as int,
                drawn_index(i),
            ),
    {
        let mut rects: Vec<Rect> = Vec::new();
        let mut i: usize = 0;
        while i < num_apps
            invariant
                i <= num_apps,
                rects@.len() == i,
                forall|t: int| 0 <= t < num_apps ==> #[trigger] icon_rect_fits(
                    self.scaled_border_size as int,
                    self.scaled_icon_inner_size as int,
                    self.scaled_icon_outer_size as int,
                    drawn_index(t),
                ),
                forall|t: int| 0 <= t < i ==> is_icon_rect(
                    #[trigger] rects@[t],
                    self.scaled_border_size as int,
                    self.scaled_icon_inner_size as int,
                    self.scaled_icon_outer_size as int,
                    drawn_index(t),
                ),
            decreases num_apps - i,
        {
            assert(icon_rect_fits(
                self.scaled_border_size as int,
                self.scaled_icon_inner_size as int,
                self.scaled_icon_outer_size as int,
                drawn_index(i as int),
            ));
            let r = self.icon_rect(i);
            rects.push(r);
            i = i + 1;
        }
        rects
    }
}


/// Each icon lies inside its cell: the cell of an app, which is highlighted
/// when the app is selected or hovered, holds the app's icon.
pub proof fn lemma_icon_inside_cell(l: IconsLayout, k: int, cell: Rect, icon: Rect)
    requires
        l.scaled_icon_outer_size == l.scaled_icon_inner_size + l.scaled_border_size * 2,
        l.scaled_border_size >= 0,
        is_cell_rect(cell, l.scaled_icon_outer_size as int, k),
        is_icon_rect(icon, l.scaled_border_size as int, l.scaled_icon_inner_size as int, l.scaled_icon_outer_size as int, k),
    ensures
        cell.left <= icon.left,
        icon.right <= cell.right,
        cell.top <= icon.top,
        icon.bottom <= cell.bottom,
{
}

/// The icon of app `i` is drawn in the cell that a click selects app `i` by:
/// the scaled cell's offset is `SYS_SCALE_FACTOR` times the offset, within
/// the border, of the cell that the hit test uses.
pub proof fn lemma_drawn_cell_matches_click_cell(icon_size: int, icon_border: int, border_size: int, i: int)
    ensures
        scaled_outer_size(icon_size, icon_border) * grid_col(drawn_index(i))
            == scaled(cell_left(border_size, icon_size + icon_border * 2, i) - border_size),
        scaled_outer_size(icon_size, icon_border) * grid_row(drawn_index(i))
            == scaled(cell_top(border_size, icon_size + icon_border * 2, i) - border_size),
{
    let item = icon_size + icon_border * 2;
    let c = grid_col(drawn_index(i));
    let r = grid_row(drawn_index(i));
    assert(scaled_outer_size(icon_size, icon_border) == 6 * item);
    assert((6 * item) * c == (item * c) * 6) by (nonlinear_arith);
    assert((6 * item) * r == (item * r) * 6) by (nonlinear_arith);
}

/// The scaled grid fills the scaled bitmap exactly: when the bitmap is as
/// wide as `columns` cells and as high as `rows` cells, so is its scaled copy.
pub proof fn lemma_scaled_grid_fills_bitmap(icon_size: int, icon_border: int, columns: int, rows: int, width: int, height: int)
    requires
        width == (icon_size + icon_border * 2) * columns,
        height == (icon_size + icon_border * 2) * rows,
    ensures
        scaled(width) == scaled_outer_size(icon_size, icon_border) * columns,
        scaled(height) == scaled_outer_size(icon_size, icon_border) * rows,
{
    let item = icon_size + icon_border * 2;
    assert(scaled_outer_size(icon_size, icon_border) == 6 * item);
    assert((item * columns) * 6 == (6 * item) * columns) by (nonlinear_arith);
    assert((item * rows) * 6 == (6 * item) * rows) by (nonlinear_arith);
}


/// The highlight cell and the icon square of each of the apps lie on the
/// scaled bitmap, which the icon image of the grid defines; hence they are
/// computed without overflow once the scaled sizes are.
pub proof fn lemma_icons_on_canvas(
    icon_size: int,
    icon_border: int,
    num_apps: int,
    width: int,
    height: int,
    hover_corner_radius: int,
    icon_corner_radius: int,
    k: int,
)
    requires
        0 <= icon_size,
        0 <= icon_border,
        1 <= num_apps <= i32::MAX,
        0 <= k < num_apps,
        width == (icon_size + icon_border * 2) * grid_columns(num_apps),
        height == (icon_size + icon_border * 2) * grid_rows(num_apps),
        icons_layout_defined(icon_size, icon_border, width, height, hover_corner_radius, icon_corner_radius),
    ensures
        ({
            let outer = scaled_outer_size(icon_size, icon_border);
            let border = scaled(icon_border);
            let inner = scaled(icon_size);
            let dk = drawn_index(k);
            &&& cell_rect_fits(outer, dk)
            &&& icon_rect_fits(border, inner, outer, dk)
            &&& 0 <= outer * grid_col(dk)
            &&& outer * grid_col(dk) + outer <= scaled(width)
            &&& 0 <= outer * grid_row(dk)
            &&& outer * grid_row(dk) + outer <= scaled(height)
            &&& 0 <= border + outer * grid_col(dk)
            &&& border + outer * grid_col(dk) + inner <= scaled(width)
            &&& 0 <= border + outer * grid_row(dk)
            &&& border + outer * grid_row(dk) + inner <= scaled(height)
        }),
{
    let outer = scaled_outer_size(icon_size, icon_border);
    let cols = grid_columns(num_apps);
    let rows = grid_rows(num_apps);
    lemma_grid_holds_apps(num_apps);
    lemma_scaled_grid_fills_bitmap(icon_size, icon_border, cols, rows, width, height);
    assert(drawn_index(k) == k);
    let col = k % 10;
    let row = k / 10;
    assert(grid_col(drawn_index(k)) == col && grid_row(drawn_index(k)) == row);
    assert(col < cols && row < rows);
    assert(outer >= 0);
    lemma_mul_le_left(0, col, outer);
    lemma_mul_le_left(0, row, outer);
    lemma_mul_le_left(col + 1, cols, outer);
    lemma_mul_le_left(row + 1, rows, outer);
    assert(outer * (col + 1) == outer * col + outer) by (nonlinear_arith);
    assert(outer * (row + 1) == outer * row + outer) by (nonlinear_arith);
}


/// The icon bitmap can be sized whenever its scaled sizes fit: for
/// non-negative sizes and radii (a zero radius included) whose scaled values,
/// and the scaled cell, stay within `i32`, the layout is defined and
/// `IconsLayout::checked_new` gives `Some`.
pub proof fn lemma_icons_layout_defined_when_scaled_fits(
    icon_size: int,
    icon_border: int,
    width: int,
    height: int,
    hover_corner_radius: int,
    icon_corner_radius: int,
)
    requires
        0 <= icon_size,
        0 <= icon_border,
        0 <= width,
        0 <= height,
        0 <= hover_corner_radius,
        0 <= icon_corner_radius,
        6 * (icon_size + 2 * icon_border) <= i32::MAX,
        6 * width <= i32::MAX,
        6 * height <= i32::MAX,
        6 * hover_corner_radius <= i32::MAX,
        6 * icon_corner_radius <= i32::MAX,
    ensures
        icons_layout_defined(icon_size, icon_border, width, height, hover_corner_radius, icon_corner_radius),
        scaled(width) == 6 * width,
        scaled(height) == 6 * height,
        scaled(icon_size) == 6 * icon_size,
        scaled(icon_border) == 6 * icon_border,
        scaled_outer_size(icon_size, icon_border) == 6 * (icon_size + 2 * icon_border),
{
}


/// The drawn squares of app `k` (for the first 2^31 apps): its cell is the
/// square of side `outer` in column `k % 10` and row `k / 10` of the scaled
/// grid, and its icon the square of side `inner` inset by `border` into it.
pub proof fn lemma_drawn_rects_position(cell: Rect, icon: Rect, border: int, inner: int, outer: int, k: int)
    requires
        0 <= k <= i32::MAX,
    ensures
        is_cell_rect(cell, outer, drawn_index(k)) <==> {
            &&& cell.left == outer * (k % 10)
            &&& cell.top == outer * (k / 10)
            &&& cell.right == outer * (k % 10) + outer
            &&& cell.bottom == outer * (k / 10) + outer
        },
        is_icon_rect(icon, border, inner, outer, drawn_index(k)) <==> {
            &&& icon.left == border + outer * (k % 10)
            &&& icon.top == border + outer * (k / 10)
            &&& icon.right == border + outer * (k % 10) + inner
            &&& icon.bottom == border + outer * (k / 10) + inner
        },
{
    assert(drawn_index(k) == k);
}

} // verus!
