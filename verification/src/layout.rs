use vstd::prelude::*;
use vstd::arithmetic::div_mod::{lemma_div_is_ordered, lemma_div_is_ordered_by_denominator};

verus! {

// window
pub const WINDOW_BASE_RADIUS: i32 = 15;
pub const WINDOW_PADDING_SIZE: i32 = 15;
pub const WINDOW_BACKGROUND_COLOR: u32 = 0xd0e5f4;

// icons
pub const ICONS_BASE_RADIUS: i32 = 8;
pub const ICONS_BASE_SIZE: i32 = 48;
pub const ICONS_HOVER_COLOR: u32 = 0xA6DAFF;
pub const ICONS_HOVER_RADIUS: i32 = 10;
pub const ICONS_PADDING_SIZE: i32 = 10;

// system
pub const SYS_ROW_LENGTH: i32 = 10;
pub const SYS_SCALE_FACTOR: i32 = 6;

/// Whether an integer fits in an `i32`.
pub open spec fn fits_i32(v: int) -> bool {
    i32::MIN <= v <= i32::MAX
}

/// Division that rounds toward zero, as `/` does on Rust's signed integers.
pub open spec fn tdiv(a: int, b: int) -> int {
    if a >= 0 {
        a / b
    } else {
        -((-a) / b)
    }
}

pub open spec fn min_int(a: int, b: int) -> int {
    if a <= b {
        a
    } else {
        b
    }
}

/// The colors of the switcher: the hover highlight and the window background.
pub fn theme_color() -> (colors: (u32, u32))
    ensures
        colors == (ICONS_HOVER_COLOR, WINDOW_BACKGROUND_COLOR),
{
    (ICONS_HOVER_COLOR, WINDOW_BACKGROUND_COLOR)
}

/// Number of icon columns: one row holds at most `SYS_ROW_LENGTH` icons.
pub open spec fn grid_columns(num_apps: int) -> int {
    min_int(num_apps, SYS_ROW_LENGTH as int)
}

/// Number of icon rows: the row count that holds `num_apps` icons.
pub open spec fn grid_rows(num_apps: int) -> int {
    tdiv(num_apps + SYS_ROW_LENGTH - 1, SYS_ROW_LENGTH as int)
}

/// The grid of icons for `num_apps` applications, as `(columns, rows)`.
pub fn grid_dimensions(num_apps: i32) -> (dims: (i32, i32))
    requires
        num_apps + SYS_ROW_LENGTH <= i32::MAX,
    ensures
        dims.0 == grid_columns(num_apps as int),
        dims.1 == grid_rows(num_apps as int),
{
    let columns = if num_apps <= SYS_ROW_LENGTH {
        num_apps
    } else {
        SYS_ROW_LENGTH
    };
    let rows = (num_apps + SYS_ROW_LENGTH - 1) / SYS_ROW_LENGTH;
    (columns, rows)
}


/// The work area of the monitor the switcher is shown on, in screen pixels.
#[derive(Clone, Copy, Debug, PartialEq, Eq)]
pub struct MonitorRect {
    pub left: i32,
    pub top: i32,
    pub right: i32,
    pub bottom: i32,
}

pub open spec fn monitor_width(m: MonitorRect) -> int {
    m.right - m.left
}

pub open spec fn monitor_height(m: MonitorRect) -> int {
    m.bottom - m.top
}

/// Largest icon that lets all columns fit across the monitor.
pub open spec fn icon_size_by_width(m: MonitorRect, num_apps: int, border_size: int, icon_border: int) -> int {
    tdiv(monitor_width(m) - 2 * border_size, grid_columns(num_apps)) - icon_border * 2
}

/// Largest icon that lets all rows fit down the monitor.
pub open spec fn icon_size_by_height(m: MonitorRect, num_apps: int, border_size: int, icon_border: int) -> int {
    tdiv(monitor_height(m) - 2 * border_size, grid_rows(num_apps)) - icon_border * 2
}

/// The icon size: the largest that fits the monitor both ways, capped at `icon_size_max`.
pub open spec fn layout_icon_size(m: MonitorRect, num_apps: int, icon_size_max: int, border_size: int, icon_border: int) -> int {
    min_int(
        min_int(
            icon_size_by_width(m, num_apps, border_size, icon_border),
            icon_size_by_height(m, num_apps, border_size, icon_border),
        ),
        icon_size_max,
    )
}

/// The size of one grid cell: an icon with its padding on both sides.
pub open spec fn layout_item_size(m: MonitorRect, num_apps: int, icon_size_max: int, border_size: int, icon_border: int) -> int {
    layout_icon_size(m, num_apps, icon_size_max, border_size, icon_border) + icon_border * 2
}

pub open spec fn layout_width(m: MonitorRect, num_apps: int, icon_size_max: int, border_size: int, icon_border: int) -> int {
    layout_item_size(m, num_apps, icon_size_max, border_size, icon_border) * grid_columns(num_apps) + border_size * 2
}

pub open spec fn layout_height(m: MonitorRect, num_apps: int, icon_size_max: int, border_size: int, icon_border: int) -> int {
    layout_item_size(m, num_apps, icon_size_max, border_size, icon_border) * grid_rows(num_apps) + border_size * 2
}

/// The window's left edge: the window is centered on the monitor.
pub open spec fn layout_x(m: MonitorRect, num_apps: int, icon_size_max: int, border_size: int, icon_border: int) -> int {
    m.left + tdiv(monitor_width(m) - layout_width(m, num_apps, icon_size_max, border_size, icon_border), 2)
}

/// The window's top edge: the window is centered on the monitor.
pub open spec fn layout_y(m: MonitorRect, num_apps: int, icon_size_max: int, border_size: int, icon_border: int) -> int {
    m.top + tdiv(monitor_height(m) - layout_height(m, num_apps, icon_size_max, border_size, icon_border), 2)
}

/// The inputs on which the layout is computed without a division by zero and
/// without any intermediate `i32` overflow.
pub open spec fn coordinate_defined(m: MonitorRect, num_apps: int, icon_size_max: int, border_size: int, icon_border: int) -> bool {
    let mw = monitor_width(m);
    let mh = monitor_height(m);
    let cols = grid_columns(num_apps);
    let rows = grid_rows(num_apps);
    let item = layout_item_size(m, num_apps, icon_size_max, border_size, icon_border);
    let width = layout_width(m, num_apps, icon_size_max, border_size, icon_border);
    let height = layout_height(m, num_apps, icon_size_max, border_size, icon_border);
    &&& num_apps + SYS_ROW_LENGTH <= i32::MAX
    &&& cols != 0
    &&& rows != 0
    &&& fits_i32(mw)
    &&& fits_i32(mh)
    &&& fits_i32(2 * border_size)
    &&& fits_i32(mw - 2 * border_size)
    &&& fits_i32(mh - 2 * border_size)
    &&& fits_i32(tdiv(mw - 2 * border_size, cols))
    &&& fits_i32(tdiv(mh - 2 * border_size, rows))
    &&& fits_i32(icon_border * 2)
    &&& fits_i32(icon_size_by_width(m, num_apps, border_size, icon_border))
    &&& fits_i32(icon_size_by_height(m, num_apps, border_size, icon_border))
    &&& fits_i32(item)
    &&& fits_i32(item * cols)
    &&& fits_i32(width)
    &&& fits_i32(item * rows)
    &&& fits_i32(height)
    &&& fits_i32(mw - width)
    &&& fits_i32(mh - height)
    &&& fits_i32(layout_x(m, num_apps, icon_size_max, border_size, icon_border))
    &&& fits_i32(layout_y(m, num_apps, icon_size_max, border_size, icon_border))
}

/// Where the switcher window stands and how large its icons are.
#[derive(Clone, Copy, Debug, PartialEq, Eq)]
pub struct Coordinate {
    pub x: i32,
    pub y: i32,
    pub width: i32,
    pub height: i32,
    pub icon_size: i32,
    pub item_size: i32,
}

impl Coordinate {
    /// Lays out `num_apps` icons on the monitor `monitor_rect`: icons as large
    /// as fit (at most `icon_size_max`), each padded by `icon_border`, the grid
    /// framed by `border_size`, the window centered on the monitor.
    pub fn new(monitor_rect: MonitorRect, num_apps: i32, icon_size_max: i32, border_size: i32, icon_border: i32) -> (c: Coordinate)
        requires
            coordinate_defined(monitor_rect, num_apps as int, icon_size_max as int, border_size as int, icon_border as int),
        ensures
            c.x == layout_x(monitor_rect, num_apps as int, icon_size_max as int, border_size as int, icon_border as int),
            c.y == layout_y(monitor_rect, num_apps as int, icon_size_max as int, border_size as int, icon_border as int),
            c.width == layout_width(monitor_rect, num_apps as int, icon_size_max as int, border_size as int, icon_border as int),
            c.height == layout_height(monitor_rect, num_apps as int, icon_size_max as int, border_size as int, icon_border as int),
            c.icon_size == layout_icon_size(monitor_rect, num_apps as int, icon_size_max as int, border_size as int, icon_border as int),
            c.item_size == layout_item_size(monitor_rect, num_apps as int, icon_size_max as int, border_size as int, icon_border as int),
    {
        let monitor_width = monitor_rect.right - monitor_rect.left;
        let monitor_height = monitor_rect.bottom - monitor_rect.top;

        let (columns, rows) = grid_dimensions(num_apps);
        let icon_size_by_width = (monitor_width - 2 * border_size) / columns - icon_border * 2;
        assert(tdiv(i32::MIN as int, -1) == 0x8000_0000);
        let icon_size_by_height = (monitor_height - 2 * border_size) / rows - icon_border * 2;
        let smaller = if icon_size_by_width <= icon_size_by_height {
            icon_size_by_width
        } else {
            icon_size_by_height
        };
        let icon_size = if smaller <= icon_size_max {
            smaller
        } else {
            icon_size_max
        };

        let item_size = icon_size + icon_border * 2;

        let width = item_size * columns + border_size * 2;
        let height = item_size * rows + border_size * 2;
        let x = monitor_rect.left + (monitor_width - width) / 2;
        let y = monitor_rect.top + (monitor_height - height) / 2;

        Coordinate { x, y, width, height, icon_size, item_size }
    }
}


proof fn lemma_div_nonneg_bounded(a: int, c: int)
    by (nonlinear_arith)
    requires
        a >= 0,
        c != 0,
    ensures
        -a <= a / c <= a,
{
}

/// Division rounding toward zero never grows the magnitude.
proof fn lemma_tdiv_bounded(a: int, c: int)
    requires
        c != 0,
    ensures
        -a <= tdiv(a, c) <= a || a <= tdiv(a, c) <= -a,
{
    if a >= 0 {
        lemma_div_nonneg_bounded(a, c);
    } else {
        lemma_div_nonneg_bounded(-a, c);
    }
}

/// Whether an `i64` fits in an `i32`.
pub fn in_i32(v: i64) -> (b: bool)
    ensures
        b == fits_i32(v as int),
{
    -0x8000_0000i64 <= v && v <= 0x7fff_ffffi64
}

impl Coordinate {
    /// `Coordinate::new` where it is defined; `None` on the inputs on which
    /// laying out would divide by zero or overflow `i32`.
    pub fn checked_new(monitor_rect: MonitorRect, num_apps: i32, icon_size_max: i32, border_size: i32, icon_border: i32) -> (c: Option<Coordinate>)
        ensures
            c is Some <==> coordinate_defined(monitor_rect, num_apps as int, icon_size_max as int, border_size as int, icon_border as int),
            c matches Some(c) ==> {
                &&& c.x == layout_x(monitor_rect, num_apps as int, icon_size_max as int, border_size as int, icon_border as int)
                &&& c.y == layout_y(monitor_rect, num_apps as int, icon_size_max as int, border_size as int, icon_border as int)
                &&& c.width == layout_width(monitor_rect, num_apps as int, icon_size_max as int, border_size as int, icon_border as int)
                &&& c.height == layout_height(monitor_rect, num_apps as int, icon_size_max as int, border_size as int, icon_border as int)
                &&& c.icon_size == layout_icon_size(monitor_rect, num_apps as int, icon_size_max as int, border_size as int, icon_border as int)
                &&& c.item_size == layout_item_size(monitor_rect, num_apps as int, icon_size_max as int, border_size as int, icon_border as int)
            },
    {
        let n = num_apps as i64;
        let b = border_size as i64;
        let ib = icon_border as i64;
        if !(n + 10 <= 0x7fff_ffffi64) {
            return None;
        }
        let cols: i64 = if n <= 10 { n } else { 10 };
        let rows: i64 = (n + 10 - 1) / 10;
        assert(cols == grid_columns(num_apps as int));
        assert(rows == grid_rows(num_apps as int));
        if cols == 0 || rows == 0 {
            return None;
        }
        let mw = monitor_rect.right as i64 - monitor_rect.left as i64;
        let mh = monitor_rect.bottom as i64 - monitor_rect.top as i64;
        if !(in_i32(mw) && in_i32(mh) && in_i32(2 * b) && in_i32(mw - 2 * b) && in_i32(mh - 2 * b)) {
            return None;
        }
        proof {
            lemma_tdiv_bounded(mw - 2 * b, cols as int);
            lemma_tdiv_bounded(mh - 2 * b, rows as int);
        }
        let qw = (mw - 2 * b) / cols;
        let qh = (mh - 2 * b) / rows;
        if !(in_i32(qw) && in_i32(qh) && in_i32(ib * 2) && in_i32(qw - ib * 2) && in_i32(qh - ib * 2)) {
            return None;
        }
        let by_w = qw - ib * 2;
        let by_h = qh - ib * 2;
        assert(by_w == icon_size_by_width(monitor_rect, num_apps as int, border_size as int, icon_border as int));
        assert(by_h == icon_size_by_height(monitor_rect, num_apps as int, border_size as int, icon_border as int));
        let smaller = if by_w <= by_h { by_w } else { by_h };
        let icon = if smaller <= icon_size_max as i64 { smaller } else { icon_size_max as i64 };
        let item = icon + ib * 2;
        assert(item == layout_item_size(monitor_rect, num_apps as int, icon_size_max as int, border_size as int, icon_border as int));
        if !in_i32(item) {
            return None;
        }
        assert(-0x8000_0000 <= cols <= 10 && -0x8000_0000 <= rows <= 0x7fff_ffff);
        assert(-0x4000_0000_0000_0000 <= item * cols <= 0x4000_0000_0000_0000) by (nonlinear_arith)
            requires
                fits_i32(item as int),
                -0x8000_0000 <= cols <= 10,
        ;
        assert(-0x4000_0000_0000_0000 <= item * rows <= 0x4000_0000_0000_0000) by (nonlinear_arith)
            requires
                fits_i32(item as int),
                -0x8000_0000 <= rows <= 0x7fff_ffff,
        ;
        let icons_w = item * cols;
        let icons_h = item * rows;
        if !(in_i32(icons_w) && in_i32(icons_h) && in_i32(icons_w + b * 2) && in_i32(icons_h + b * 2)) {
            return None;
        }
        let width = icons_w + b * 2;
        let height = icons_h + b * 2;
        assert(width == layout_width(monitor_rect, num_apps as int, icon_size_max as int, border_size as int, icon_border as int));
        assert(height == layout_height(monitor_rect, num_apps as int, icon_size_max as int, border_size as int, icon_border as int));
        if !(in_i32(mw - width) && in_i32(mh - height)) {
            return None;
        }
        let x = monitor_rect.left as i64 + (mw - width) / 2;
        let y = monitor_rect.top as i64 + (mh - height) / 2;
        assert(x == layout_x(monitor_rect, num_apps as int, icon_size_max as int, border_size as int, icon_border as int));
        assert(y == layout_y(monitor_rect, num_apps as int, icon_size_max as int, border_size as int, icon_border as int));
        if !(in_i32(x) && in_i32(y)) {
            return None;
        }
        Some(Coordinate::new(monitor_rect, num_apps, icon_size_max, border_size, icon_border))
    }
}

/// The size of the icon grid: `columns` cells across and `rows` cells down.
pub fn icons_extent(item_size: i32, num_apps: i32) -> (extent: (i32, i32))
    requires
        num_apps + SYS_ROW_LENGTH <= i32::MAX,
        fits_i32(item_size * grid_columns(num_apps as int)),
        fits_i32(item_size * grid_rows(num_apps as int)),
    ensures
        extent.0 == item_size * grid_columns(num_apps as int),
        extent.1 == item_size * grid_rows(num_apps as int),
{
    let (columns, rows) = grid_dimensions(num_apps);
    (item_size * columns, item_size * rows)
}

/// Remainder that takes the sign of the dividend, as `%` does on Rust's signed integers.
pub open spec fn trem(a: int, b: int) -> int {
    if a >= 0 {
        a % b
    } else {
        -((-a) % b)
    }
}

/// Column of the app numbered `k` in the grid (as `%` computes it on `i32`).
pub open spec fn grid_col(k: int) -> int {
    trem(k, SYS_ROW_LENGTH as int)
}

/// Row of the app numbered `k` in the grid (as `/` computes it on `i32`).
pub open spec fn grid_row(k: int) -> int {
    tdiv(k, SYS_ROW_LENGTH as int)
}

/// The number of app `i` as the grid code sees it: its index cast to `i32`.
pub open spec fn drawn_index(i: int) -> int {
    (i as i32) as int
}

/// Where the icon image goes in the window: at `(x, y)`, `width` by `height`.
#[derive(Clone, Copy, Debug, PartialEq, Eq)]
pub struct ImagePlacement {
    pub x: i32,
    pub y: i32,
    pub width: i32,
    pub height: i32,
}

/// The icon image is drawn inside the window's border, at its full size.
pub fn icons_placement(border_size: i32, icons_width: i32, icons_height: i32) -> (p: ImagePlacement)
    ensures
        p == (ImagePlacement { x: border_size, y: border_size, width: icons_width, height: icons_height }),
{
    ImagePlacement { x: border_size, y: border_size, width: icons_width, height: icons_height }
}

/// Left edge of the grid cell of app `i`, relative to the window.
pub open spec fn cell_left(border_size: int, item_size: int, i: int) -> int {
    border_size + item_size * grid_col(drawn_index(i))
}

/// Top edge of the grid cell of app `i`, relative to the window.
pub open spec fn cell_top(border_size: int, item_size: int, i: int) -> int {
    border_size + item_size * grid_row(drawn_index(i))
}

/// Whether the point `(xpos, ypos)`, relative to the window, lies in the cell of app `i`.
pub open spec fn cell_contains(border_size: int, item_size: int, xpos: int, ypos: int, i: int) -> bool {
    &&& xpos >= cell_left(border_size, item_size, i)
    &&& xpos < cell_left(border_size, item_size, i) + item_size
    &&& ypos >= cell_top(border_size, item_size, i)
    &&& ypos < cell_top(border_size, item_size, i) + item_size
}

/// The hit test's step on app `i` runs without `i32` overflow: the cell's
/// corner, and its far edges where the test of the point reaches them.
pub open spec fn hit_step_fits(border_size: int, item_size: int, xpos: int, ypos: int, i: int) -> bool {
    let left = cell_left(border_size, item_size, i);
    let top = cell_top(border_size, item_size, i);
    &&& fits_i32(item_size * grid_col(drawn_index(i)))
    &&& fits_i32(left)
    &&& fits_i32(item_size * grid_row(drawn_index(i)))
    &&& fits_i32(top)
    &&& xpos >= left ==> fits_i32(left + item_size)
    &&& (xpos >= left && xpos < left + item_size && ypos >= top) ==> fits_i32(top + item_size)
}

/// The inputs on which the hit test runs without `i32` overflow: the cursor
/// relative to the window fits, and so does every step up to the first hit.
pub open spec fn hit_test_defined(coordinate: Coordinate, num_apps: int, border_size: int, cursor_x: int, cursor_y: int) -> bool {
    let xpos = cursor_x - coordinate.x;
    let ypos = cursor_y - coordinate.y;
    let item = coordinate.item_size as int;
    &&& fits_i32(xpos)
    &&& fits_i32(ypos)
    &&& forall|i: int|
        0 <= i < num_apps && (forall|j: int| 0 <= j < i ==> !cell_contains(border_size, item, xpos, ypos, j))
            ==> #[trigger] hit_step_fits(border_size, item, xpos, ypos, i)
}

/// Whether the hit test is defined on these inputs, i.e. runs without `i32`
/// overflow.
pub fn hit_test_in_range(coordinate: &Coordinate, num_apps: usize, border_size: i32, cursor_x: i32, cursor_y: i32) -> (ok: bool)
    ensures
        ok == hit_test_defined(*coordinate, num_apps as int, border_size as int, cursor_x as int, cursor_y as int),
{
    let xpos = cursor_x as i64 - coordinate.x as i64;
    let ypos = cursor_y as i64 - coordinate.y as i64;
    if !(in_i32(xpos) && in_i32(ypos)) {
        return false;
    }
    let ghost gx = xpos as int;
    let ghost gy = ypos as int;
    let b = border_size as i64;
    let item = coordinate.item_size as i64;
    let mut i: usize = 0;
    while i < num_apps
        invariant
            i <= num_apps,
            b == border_size,
            item == coordinate.item_size,
            xpos == cursor_x - coordinate.x,
            ypos == cursor_y - coordinate.y,
            fits_i32(xpos as int),
            fits_i32(ypos as int),
            forall|j: int| 0 <= j < i ==> !cell_contains(b as int, item as int, xpos as int, ypos as int, j),
            forall|k: int|
                0 <= k < i && (forall|j: int| 0 <= j < k ==> !cell_contains(b as int, item as int, xpos as int, ypos as int, j))
                    ==> #[trigger] hit_step_fits(b as int, item as int, xpos as int, ypos as int, k),
        decreases num_apps - i,
    {
        let k = i as i32;
        proof {
            lemma_grid_offsets_bounded(item as int, k as int);
        }
        let col = k as i64 % 10;
        let row = k as i64 / 10;
        let left = b + item * col;
        let top = b + item * row;
        assert(drawn_index(i as int) == k as int);
        let corner_fits = in_i32(item * col) && in_i32(left) && in_i32(item * row) && in_i32(top);
        if !corner_fits {
            assert(!hit_step_fits(b as int, item as int, xpos as int, ypos as int, i as int));
            return false;
        }
        if xpos >= left && !in_i32(left + item) {
            assert(!hit_step_fits(b as int, item as int, xpos as int, ypos as int, i as int));
            return false;
        }
        if xpos >= left && xpos < left + item && ypos >= top && !in_i32(top + item) {
            assert(!hit_step_fits(b as int, item as int, xpos as int, ypos as int, i as int));
            return false;
        }
        assert(hit_step_fits(b as int, item as int, xpos as int, ypos as int, i as int));
        if xpos >= left && xpos < left + item && ypos >= top && ypos < top + item {
            assert forall|t: int|
                0 <= t < num_apps && (forall|j: int| 0 <= j < t ==> !cell_contains(b as int, item as int, xpos as int, ypos as int, j))
                    implies #[trigger] hit_step_fits(b as int, item as int, xpos as int, ypos as int, t) by {
                if t > i {
                    assert(!cell_contains(b as int, item as int, xpos as int, ypos as int, i as int));
                }
            }
            return true;
        }
        i = i + 1;
    }
    true
}

/// What the hit test returns: the first of the `num_apps` apps whose cell
/// holds `(xpos, ypos)`, or `None` when no cell holds it.
pub open spec fn hit_test_result(clicked: Option<usize>, num_apps: int, border_size: int, item_size: int, xpos: int, ypos: int) -> bool {
    match clicked {
        Some(i) => {
            &&& i < num_apps
            &&& cell_contains(border_size, item_size, xpos, ypos, i as int)
            &&& forall|j: int| 0 <= j < i ==> !cell_contains(border_size, item_size, xpos, ypos, j)
        },
        None => forall|j: int| 0 <= j < num_apps ==> !cell_contains(border_size, item_size, xpos, ypos, j),
    }
}

/// The app whose cell holds the cursor `(cursor_x, cursor_y)` (screen
/// coordinates) in the window laid out by `coordinate`: the first such app,
/// or `None` when the cursor is in no app's cell.
pub fn find_clicked_app_index(coordinate: &Coordinate, num_apps: usize, border_size: i32, cursor_x: i32, cursor_y: i32) -> (clicked: Option<usize>)
    requires
        hit_test_defined(*coordinate, num_apps as int, border_size as int, cursor_x as int, cursor_y as int),
    ensures
        hit_test_result(
            clicked,
            num_apps as int,
            border_size as int,
            coordinate.item_size as int,
            cursor_x - coordinate.x,
            cursor_y - coordinate.y,
        ),
{
    let xpos = cursor_x - coordinate.x;
    let ypos = cursor_y - coordinate.y;
    let item_size = coordinate.item_size;

    let mut i: usize = 0;
    while i < num_apps
        invariant
            i <= num_apps,
            xpos == cursor_x - coordinate.x,
            ypos == cursor_y - coordinate.y,
            item_size == coordinate.item_size,
            forall|k: int|
                0 <= k < num_apps && (forall|j: int|
                    0 <= j < k ==> !cell_contains(border_size as int, item_size as int, xpos as int, ypos as int, j))
                    ==> #[trigger] hit_step_fits(border_size as int, item_size as int, xpos as int, ypos as int, k),
            forall|j: int| 0 <= j < i ==> !cell_contains(border_size as int, item_size as int, xpos as int, ypos as int, j),
        decreases num_apps - i,
    {
        let index = i as i32;
        assert(drawn_index(i as int) == index as int);
        assert(hit_step_fits(border_size as int, item_size as int, xpos as int, ypos as int, i as int));
        let cx = border_size + item_size * (index % SYS_ROW_LENGTH);
        let cy = border_size + item_size * (index / SYS_ROW_LENGTH);
        if xpos >= cx && xpos < cx + item_size && ypos >= cy && ypos < cy + item_size {
            return Some(i);
        }
        i = i + 1;
    }
    None
}

pub(crate) proof fn lemma_grid_offsets_bounded(outer: int, k: int)
    requires
        fits_i32(outer),
        fits_i32(k),
    ensures
        -0x8000_0000 * 9 <= outer * grid_col(k) <= 0x8000_0000 * 9,
        -0x8000_0000 * 0x0ccc_cccd <= outer * grid_row(k) <= 0x8000_0000 * 0x0ccc_cccd,
{
    let c = grid_col(k);
    let r = grid_row(k);
    assert(-9 <= c <= 9);
    assert(-0x0ccc_cccd <= r <= 0x0ccc_cccd);
    assert(-0x8000_0000 * 9 <= outer * c <= 0x8000_0000 * 9) by (nonlinear_arith)
        requires
            fits_i32(outer),
            -9 <= c <= 9,
    ;
    assert(-0x8000_0000 * 0x0ccc_cccd <= outer * r <= 0x8000_0000 * 0x0ccc_cccd) by (nonlinear_arith)
        requires
            fits_i32(outer),
            -0x0ccc_cccd <= r <= 0x0ccc_cccd,
    ;
}

/// The grid numbers of the first 2^32 apps are all distinct: casting an
/// index below 2^32 to `i32` loses nothing.
proof fn lemma_drawn_index_injective(i: int, j: int)
    requires
        0 <= i < 0x1_0000_0000,
        0 <= j < 0x1_0000_0000,
        drawn_index(i) == drawn_index(j),
    ensures
        i == j,
{
    let x = i as u64;
    let y = j as u64;
    assert(x == i && y == j);
    assert((x as i32) == (i as i32));
    assert((y as i32) == (j as i32));
    assert(x as i32 == y as i32 ==> x == y) by (bit_vector)
        requires
            x < 0x1_0000_0000,
            y < 0x1_0000_0000,
    ;
}

proof fn lemma_unique_band(item: int, v: int, c: int, d: int)
    by (nonlinear_arith)
    requires
        item > 0,
        item * c <= v < item * c + item,
        item * d <= v < item * d + item,
    ensures
        c == d,
{
}

/// Cells of distinct apps never overlap (when cells are not empty): a point
/// lies in the cell of at most one of the first 2^32 apps.
pub proof fn lemma_cells_disjoint(border_size: int, item_size: int, xpos: int, ypos: int, i: int, j: int)
    requires
        item_size > 0,
        0 <= i < 0x1_0000_0000,
        0 <= j < 0x1_0000_0000,
        cell_contains(border_size, item_size, xpos, ypos, i),
        cell_contains(border_size, item_size, xpos, ypos, j),
    ensures
        i == j,
{
    let ki = drawn_index(i);
    let kj = drawn_index(j);
    lemma_unique_band(item_size, xpos - border_size, grid_col(ki), grid_col(kj));
    lemma_unique_band(item_size, ypos - border_size, grid_row(ki), grid_row(kj));
    assert(ki == 10 * grid_row(ki) + grid_col(ki));
    assert(kj == 10 * grid_row(kj) + grid_col(kj));
    lemma_drawn_index_injective(i, j);
}

/// A click in the cell of app `i` selects app `i`: whatever the hit test
/// returns on such a point is `Some(i)`.
pub proof fn lemma_click_in_cell_selects_app(
    clicked: Option<usize>,
    num_apps: int,
    border_size: int,
    item_size: int,
    xpos: int,
    ypos: int,
    i: int,
)
    requires
        item_size > 0,
        0 <= i < num_apps <= 0x1_0000_0000,
        cell_contains(border_size, item_size, xpos, ypos, i),
        hit_test_result(clicked, num_apps, border_size, item_size, xpos, ypos),
    ensures
        clicked == Some(i as usize),
{
    match clicked {
        Some(k) => {
            lemma_cells_disjoint(border_size, item_size, xpos, ypos, k as int, i);
        },
        None => {
            assert(!cell_contains(border_size, item_size, xpos, ypos, i));
        },
    }
}

proof fn lemma_mul_le_right(a: int, b: int, c: int)
    by (nonlinear_arith)
    requires
        a <= b,
        c > 0,
    ensures
        a * c <= b * c,
{
}

pub(crate) proof fn lemma_mul_le_left(a: int, b: int, c: int)
    by (nonlinear_arith)
    requires
        a <= b,
        c >= 0,
    ensures
        c * a <= c * b,
{
}

proof fn lemma_floor_div_mul_le(a: int, c: int)
    by (nonlinear_arith)
    requires
        a >= 0,
        c > 0,
    ensures
        (a / c) * c <= a,
{
}

/// Along one axis: the cells fit into the monitor's extent `extent` and the
/// window's offset `tdiv(extent - size, 2)` centers it.
proof fn lemma_axis_fits(extent: int, border_size: int, count: int, item: int, icon_border: int, by_axis: int)
    requires
        count > 0,
        extent - 2 * border_size >= 0,
        by_axis == tdiv(extent - 2 * border_size, count) - icon_border * 2,
        item <= by_axis + icon_border * 2,
    ensures
        item * count + border_size * 2 <= extent,
{
    let a = extent - 2 * border_size;
    lemma_mul_le_right(item, a / count, count);
    lemma_floor_div_mul_le(a, count);
}

/// On a monitor at least twice the border wide and high, the switcher window
/// lies inside the monitor and is centered on it (the space right of and below
/// it exceeds the space left of and above it by at most one pixel).
pub proof fn lemma_window_inside_monitor(m: MonitorRect, num_apps: int, icon_size_max: int, border_size: int, icon_border: int)
    requires
        num_apps >= 1,
        monitor_width(m) >= 2 * border_size,
        monitor_height(m) >= 2 * border_size,
    ensures
        ({
            let x = layout_x(m, num_apps, icon_size_max, border_size, icon_border);
            let y = layout_y(m, num_apps, icon_size_max, border_size, icon_border);
            let width = layout_width(m, num_apps, icon_size_max, border_size, icon_border);
            let height = layout_height(m, num_apps, icon_size_max, border_size, icon_border);
            &&& m.left <= x
            &&& x + width <= m.right
            &&& m.top <= y
            &&& y + height <= m.bottom
            &&& x - m.left <= m.right - (x + width) <= x - m.left + 1
            &&& y - m.top <= m.bottom - (y + height) <= y - m.top + 1
        }),
{
    let item = layout_item_size(m, num_apps, icon_size_max, border_size, icon_border);
    assert(grid_rows(num_apps) >= 1);
    lemma_axis_fits(
        monitor_width(m),
        border_size,
        grid_columns(num_apps),
        item,
        icon_border,
        icon_size_by_width(m, num_apps, border_size, icon_border),
    );
    lemma_axis_fits(
        monitor_height(m),
        border_size,
        grid_rows(num_apps),
        item,
        icon_border,
        icon_size_by_height(m, num_apps, border_size, icon_border),
    );
}

/// Every app's cell lies inside the window, within the border on all sides.
pub proof fn lemma_app_cell_inside_window(m: MonitorRect, num_apps: int, icon_size_max: int, border_size: int, icon_border: int, i: int)
    requires
        0 <= i < num_apps <= i32::MAX,
        layout_item_size(m, num_apps, icon_size_max, border_size, icon_border) >= 0,
    ensures
        ({
            let item = layout_item_size(m, num_apps, icon_size_max, border_size, icon_border);
            let width = layout_width(m, num_apps, icon_size_max, border_size, icon_border);
            let height = layout_height(m, num_apps, icon_size_max, border_size, icon_border);
            &&& border_size <= cell_left(border_size, item, i)
            &&& cell_left(border_size, item, i) + item <= width - border_size
            &&& border_size <= cell_top(border_size, item, i)
            &&& cell_top(border_size, item, i) + item <= height - border_size
        }),
{
    let item = layout_item_size(m, num_apps, icon_size_max, border_size, icon_border);
    assert(drawn_index(i) == i);
    let col = i % 10;
    let row = i / 10;
    assert(grid_col(drawn_index(i)) == col && grid_row(drawn_index(i)) == row);
    assert(col + 1 <= grid_columns(num_apps));
    assert(row + 1 <= grid_rows(num_apps));
    lemma_mul_le_left(0, col, item);
    lemma_mul_le_left(0, row, item);
    lemma_mul_le_left(col + 1, grid_columns(num_apps), item);
    lemma_mul_le_left(row + 1, grid_rows(num_apps), item);
    assert(item * (col + 1) == item * col + item) by (nonlinear_arith);
    assert(item * (row + 1) == item * row + item) by (nonlinear_arith);
    assert(item * grid_columns(num_apps) == grid_columns(num_apps) * item) by (nonlinear_arith);
    assert(item * grid_rows(num_apps) == grid_rows(num_apps) * item) by (nonlinear_arith);
}


/// The grid holds every app, in as few rows as possible: rows of ten apps,
/// the first row as wide as the apps allow, and each app's column and row
/// fall inside it.
pub proof fn lemma_grid_holds_apps(num_apps: int)
    requires
        num_apps >= 1,
    ensures
        1 <= grid_columns(num_apps) <= SYS_ROW_LENGTH,
        num_apps >= 10 ==> grid_columns(num_apps) == 10,
        num_apps < 10 ==> grid_columns(num_apps) == num_apps,
        grid_rows(num_apps) >= 1,
        num_apps <= grid_columns(num_apps) * grid_rows(num_apps),
        num_apps <= 10 * grid_rows(num_apps),
        (grid_rows(num_apps) - 1) * SYS_ROW_LENGTH < num_apps,
        forall|i: int|
            0 <= i < num_apps ==> {
                &&& #[trigger] (i % (SYS_ROW_LENGTH as int)) < grid_columns(num_apps)
                &&& (i / (SYS_ROW_LENGTH as int)) < grid_rows(num_apps)
            },
{
    let rows = grid_rows(num_apps);
    if num_apps <= 10 {
        assert(rows == 1);
        assert(grid_columns(num_apps) == num_apps);
        assert(num_apps * 1 == num_apps);
    } else {
        assert(rows == (num_apps + 9) / 10);
        assert(10 * rows >= num_apps);
        assert(grid_columns(num_apps) * rows == 10 * rows);
    }
}

/// The icon is as large as the monitor allows in both directions, but never
/// larger than the maximum: it is the smallest of the three bounds.
pub proof fn lemma_icon_size_capped(m: MonitorRect, num_apps: int, icon_size_max: int, border_size: int, icon_border: int)
    ensures
        ({
            let icon = layout_icon_size(m, num_apps, icon_size_max, border_size, icon_border);
            let by_w = icon_size_by_width(m, num_apps, border_size, icon_border);
            let by_h = icon_size_by_height(m, num_apps, border_size, icon_border);
            &&& icon <= icon_size_max
            &&& icon <= by_w
            &&& icon <= by_h
            &&& (icon == icon_size_max || icon == by_w || icon == by_h)
        }),
{
}


proof fn lemma_mul_between(item: int, c: int, cc: int)
    by (nonlinear_arith)
    requires
        0 <= c <= cc,
    ensures
        item >= 0 ==> 0 <= item * c <= item * cc,
        item < 0 ==> item * cc <= item * c <= 0,
{
}

/// Once the layout is defined, so is the hit test over its apps, for any
/// cursor whose offset from the window fits in `i32`: every cell of the grid
/// is computed without overflow.
pub proof fn lemma_layout_defines_hit_test(
    m: MonitorRect,
    num_apps: int,
    icon_size_max: int,
    border_size: int,
    icon_border: int,
    c: Coordinate,
    cursor_x: int,
    cursor_y: int,
)
    requires
        coordinate_defined(m, num_apps, icon_size_max, border_size, icon_border),
        num_apps >= 1,
        c.x == layout_x(m, num_apps, icon_size_max, border_size, icon_border),
        c.y == layout_y(m, num_apps, icon_size_max, border_size, icon_border),
        c.item_size == layout_item_size(m, num_apps, icon_size_max, border_size, icon_border),
        fits_i32(cursor_x - c.x),
        fits_i32(cursor_y - c.y),
    ensures
        hit_test_defined(c, num_apps, border_size, cursor_x, cursor_y),
{
    let item = c.item_size as int;
    let xpos = cursor_x - c.x;
    let ypos = cursor_y - c.y;
    let cols = grid_columns(num_apps);
    let rows = grid_rows(num_apps);
    lemma_grid_holds_apps(num_apps);
    assert forall|i: int|
        0 <= i < num_apps && (forall|j: int| 0 <= j < i ==> !cell_contains(border_size, item, xpos, ypos, j))
            implies #[trigger] hit_step_fits(border_size, item, xpos, ypos, i) by {
        assert(drawn_index(i) == i);
        let col = i % 10;
        let row = i / 10;
        assert(grid_col(drawn_index(i)) == col && grid_row(drawn_index(i)) == row);
        assert(col < cols && row < rows);
        lemma_mul_between(item, col, cols);
        lemma_mul_between(item, col + 1, cols);
        lemma_mul_between(item, row, rows);
        lemma_mul_between(item, row + 1, rows);
        assert(item * (col + 1) == item * col + item) by (nonlinear_arith);
        assert(item * (row + 1) == item * row + item) by (nonlinear_arith);
    }
}

/// More apps never give larger icons: on a monitor at least twice the border
/// wide and high, the icon (and so the cell) for more apps is no larger.
pub proof fn lemma_more_apps_no_larger_icons(
    m: MonitorRect,
    fewer: int,
    more: int,
    icon_size_max: int,
    border_size: int,
    icon_border: int,
)
    requires
        1 <= fewer <= more,
        monitor_width(m) >= 2 * border_size,
        monitor_height(m) >= 2 * border_size,
    ensures
        layout_icon_size(m, more, icon_size_max, border_size, icon_border) <= layout_icon_size(
            m,
            fewer,
            icon_size_max,
            border_size,
            icon_border,
        ),
        layout_item_size(m, more, icon_size_max, border_size, icon_border) <= layout_item_size(
            m,
            fewer,
            icon_size_max,
            border_size,
            icon_border,
        ),
{
    lemma_div_is_ordered(fewer + 9, more + 9, 10);
    assert(1 <= grid_columns(fewer) <= grid_columns(more));
    assert(1 <= grid_rows(fewer) <= grid_rows(more));
    lemma_div_is_ordered_by_denominator(monitor_width(m) - 2 * border_size, grid_columns(fewer), grid_columns(more));
    lemma_div_is_ordered_by_denominator(monitor_height(m) - 2 * border_size, grid_rows(fewer), grid_rows(more));
}

/// The icon image drawn at the border fills the window inside the border.
pub proof fn lemma_icons_image_fills_window(m: MonitorRect, num_apps: int, icon_size_max: int, border_size: int, icon_border: int)
    ensures
        ({
            let item = layout_item_size(m, num_apps, icon_size_max, border_size, icon_border);
            let icons_width = item * grid_columns(num_apps);
            let icons_height = item * grid_rows(num_apps);
            &&& border_size + icons_width + border_size == layout_width(m, num_apps, icon_size_max, border_size, icon_border)
            &&& border_size + icons_height + border_size == layout_height(m, num_apps, icon_size_max, border_size, icon_border)
        }),
{
}


/// The grid is filled row by row, ten apps to a row: app `i` (for the first
/// 2^31 apps) stands in column `i % 10` and row `i / 10`, whose cell starts
/// `item_size` pixels per column and per row in from the border; the cell is
/// the half-open square of side `item_size` there.
pub proof fn lemma_cell_position(border_size: int, item_size: int, i: int)
    requires
        0 <= i <= i32::MAX,
    ensures
        cell_left(border_size, item_size, i) == border_size + item_size * (i % 10),
        cell_top(border_size, item_size, i) == border_size + item_size * (i / 10),
        forall|xpos: int, ypos: int|
            #[trigger] cell_contains(border_size, item_size, xpos, ypos, i) <==> {
                &&& border_size + item_size * (i % 10) <= xpos < border_size + item_size * (i % 10) + item_size
                &&& border_size + item_size * (i / 10) <= ypos < border_size + item_size * (i / 10) + item_size
            },
{
    assert(drawn_index(i) == i);
}

proof fn lemma_floor_div_bounds(a: int, c: int)
    by (nonlinear_arith)
    requires
        a >= 0,
        c > 0,
    ensures
        (a / c) * c <= a < (a / c + 1) * c,
        a / c >= 0,
{
}

proof fn lemma_mul_mono_le(a: int, b: int, c: int)
    by (nonlinear_arith)
    requires
        a <= b,
        c > 0,
    ensures
        a * c <= b * c,
{
}

/// The icon is the largest that fits: no larger than `icon_size_max`, its
/// grid (cells of the icon plus its padding, framed by the border) fits on the
/// monitor both ways, and unless it is capped, one pixel more would not fit
/// one of the two ways. The window is exactly that grid with its border.
pub proof fn lemma_icon_is_largest_that_fits(m: MonitorRect, num_apps: int, icon_size_max: int, border_size: int, icon_border: int)
    requires
        num_apps >= 1,
        monitor_width(m) >= 2 * border_size,
        monitor_height(m) >= 2 * border_size,
    ensures
        ({
            let icon = layout_icon_size(m, num_apps, icon_size_max, border_size, icon_border);
            let item = layout_item_size(m, num_apps, icon_size_max, border_size, icon_border);
            let cols = grid_columns(num_apps);
            let rows = grid_rows(num_apps);
            let mw = monitor_width(m);
            let mh = monitor_height(m);
            &&& item == icon + 2 * icon_border
            &&& layout_width(m, num_apps, icon_size_max, border_size, icon_border) == item * cols + 2 * border_size
            &&& layout_height(m, num_apps, icon_size_max, border_size, icon_border) == item * rows + 2 * border_size
            &&& icon <= icon_size_max
            &&& (icon + 2 * icon_border) * cols + 2 * border_size <= mw
            &&& (icon + 2 * icon_border) * rows + 2 * border_size <= mh
            &&& icon < icon_size_max ==> ((icon + 1 + 2 * icon_border) * cols + 2 * border_size > mw || (icon + 1
                + 2 * icon_border) * rows + 2 * border_size > mh)
        }),
{
    let icon = layout_icon_size(m, num_apps, icon_size_max, border_size, icon_border);
    let cols = grid_columns(num_apps);
    let rows = grid_rows(num_apps);
    lemma_grid_holds_apps(num_apps);
    let aw = monitor_width(m) - 2 * border_size;
    let ah = monitor_height(m) - 2 * border_size;
    lemma_floor_div_bounds(aw, cols);
    lemma_floor_div_bounds(ah, rows);
    let qw = aw / cols;
    let qh = ah / rows;
    assert(icon_size_by_width(m, num_apps, border_size, icon_border) == qw - icon_border * 2);
    assert(icon_size_by_height(m, num_apps, border_size, icon_border) == qh - icon_border * 2);
    lemma_mul_mono_le(icon + 2 * icon_border, qw, cols);
    lemma_mul_mono_le(icon + 2 * icon_border, qh, rows);
    if icon < icon_size_max {
        if icon == qw - icon_border * 2 {
            assert(icon + 1 + 2 * icon_border == qw + 1);
        } else {
            assert(icon + 1 + 2 * icon_border == qh + 1);
        }
    }
}

/// On any ordinary monitor the layout is defined, so `Coordinate::checked_new`
/// gives `Some`: at least one app (and ten fewer than `i32::MAX`), a monitor
/// whose corner and size are below 2^24 pixels and at least twice the border
/// both ways, a non-negative border, a padding below 2^22 pixels and a
/// non-negative maximum icon size. The monitor may lie left of or above the
/// origin.
pub proof fn lemma_layout_defined_on_ordinary_monitors(
    m: MonitorRect,
    num_apps: int,
    icon_size_max: int,
    border_size: int,
    icon_border: int,
)
    requires
        1 <= num_apps,
        num_apps + SYS_ROW_LENGTH <= i32::MAX,
        -0x100_0000 <= m.left <= 0x100_0000,
        -0x100_0000 <= m.top <= 0x100_0000,
        0 <= monitor_width(m) <= 0x100_0000,
        0 <= monitor_height(m) <= 0x100_0000,
        0 <= border_size,
        2 * border_size <= monitor_width(m),
        2 * border_size <= monitor_height(m),
        0 <= icon_border <= 0x40_0000,
        0 <= icon_size_max <= i32::MAX,
    ensures
        coordinate_defined(m, num_apps, icon_size_max, border_size, icon_border),
{
    let cols = grid_columns(num_apps);
    let rows = grid_rows(num_apps);
    lemma_grid_holds_apps(num_apps);
    let aw = monitor_width(m) - 2 * border_size;
    let ah = monitor_height(m) - 2 * border_size;
    lemma_floor_div_bounds(aw, cols);
    lemma_floor_div_bounds(ah, rows);
    lemma_div_nonneg_bounded(aw, cols);
    lemma_div_nonneg_bounded(ah, rows);
    let item = layout_item_size(m, num_apps, icon_size_max, border_size, icon_border);
    assert(item >= 0);
    lemma_icon_is_largest_that_fits(m, num_apps, icon_size_max, border_size, icon_border);
    lemma_window_inside_monitor(m, num_apps, icon_size_max, border_size, icon_border);
    lemma_mul_le_left(0, cols, item);
    lemma_mul_le_left(0, rows, item);
    assert(item * cols == cols * item) by (nonlinear_arith);
    assert(item * rows == rows * item) by (nonlinear_arith);
}

} // verus!
