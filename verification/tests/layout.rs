use painter::layout::{
	find_clicked_app_index, grid_dimensions, hit_test_in_range, icons_extent, icons_placement, in_i32,
	theme_color, ImagePlacement,
	Coordinate, MonitorRect, ICONS_BASE_SIZE, ICONS_HOVER_COLOR, ICONS_PADDING_SIZE,
	WINDOW_BACKGROUND_COLOR, WINDOW_PADDING_SIZE,
};

fn full_hd() -> MonitorRect {
	MonitorRect {
		left: 0,
		top: 0,
		right: 1920,
		bottom: 1080,
	}
}

#[test]
fn theme_color_is_hover_then_background() {
	assert_eq!(theme_color(), (ICONS_HOVER_COLOR, WINDOW_BACKGROUND_COLOR));
	assert_eq!(theme_color(), (0xA6DAFF, 0xd0e5f4));
}

#[test]
fn grid_dimensions_rows_of_ten() {
	assert_eq!(grid_dimensions(1), (1, 1));
	assert_eq!(grid_dimensions(9), (9, 1));
	assert_eq!(grid_dimensions(10), (10, 1));
	assert_eq!(grid_dimensions(11), (10, 2));
	assert_eq!(grid_dimensions(25), (10, 3));
	assert_eq!(grid_dimensions(30), (10, 3));
}

#[test]
fn grid_dimensions_edge_cases() {
	assert_eq!(grid_dimensions(0), (0, 0));
	assert_eq!(grid_dimensions(-5), (-5, 0));
	assert_eq!(grid_dimensions(-25), (-25, -1));
	assert_eq!(grid_dimensions(i32::MAX - 10), (10, (i32::MAX - 1) / 10));
}

#[test]
fn coordinate_on_full_hd() {
	let c = Coordinate::new(full_hd(), 5, ICONS_BASE_SIZE, WINDOW_PADDING_SIZE, ICONS_PADDING_SIZE);
	assert_eq!(
		c,
		Coordinate {
			x: 775,
			y: 491,
			width: 370,
			height: 98,
			icon_size: 48,
			item_size: 68,
		}
	);
}

#[test]
fn coordinate_shrinks_icons_on_small_monitor() {
	let monitor = MonitorRect {
		left: 100,
		top: 50,
		right: 400,
		bottom: 250,
	};
	let c = Coordinate::new(monitor, 25, 48, 15, 10);
	assert_eq!(
		c,
		Coordinate {
			x: 100,
			y: 94,
			width: 300,
			height: 111,
			icon_size: 7,
			item_size: 27,
		}
	);
	// The window stays on the monitor and is centered on it.
	assert!(c.x >= monitor.left && c.x + c.width <= monitor.right);
	assert!(c.y >= monitor.top && c.y + c.height <= monitor.bottom);
	let above = c.y - monitor.top;
	let below = monitor.bottom - (c.y + c.height);
	assert!(above <= below && below <= above + 1);
}

#[test]
fn coordinate_divides_toward_zero() {
	let monitor = MonitorRect {
		left: 0,
		top: 0,
		right: 20,
		bottom: 1000,
	};
	let c = Coordinate::new(monitor, 3, 48, 15, 0);
	assert_eq!(
		c,
		Coordinate {
			x: 0,
			y: 486,
			width: 21,
			height: 27,
			icon_size: -3,
			item_size: -3,
		}
	);
}

#[test]
fn checked_new_agrees_with_new() {
	let c = Coordinate::checked_new(full_hd(), 5, 48, 15, 10);
	assert_eq!(c, Some(Coordinate::new(full_hd(), 5, 48, 15, 10)));
}

#[test]
fn checked_new_refuses_no_apps() {
	assert_eq!(Coordinate::checked_new(full_hd(), 0, 48, 15, 10), None);
	assert_eq!(Coordinate::checked_new(full_hd(), -3, 48, 15, 10), None);
}

#[test]
fn checked_new_refuses_overflow() {
	let huge = MonitorRect {
		left: i32::MIN,
		top: 0,
		right: i32::MAX,
		bottom: 1080,
	};
	assert_eq!(Coordinate::checked_new(huge, 5, 48, 15, 10), None);
	assert_eq!(Coordinate::checked_new(full_hd(), i32::MAX, 48, 15, 10), None);
	assert_eq!(Coordinate::checked_new(full_hd(), 5, 48, i32::MAX, 10), None);
}

#[test]
fn icons_extent_is_grid_of_cells() {
	assert_eq!(icons_extent(68, 5), (340, 68));
	assert_eq!(icons_extent(27, 25), (270, 81));
}

#[test]
fn in_i32_bounds() {
	assert!(in_i32(i32::MAX as i64));
	assert!(in_i32(i32::MIN as i64));
	assert!(!in_i32(i32::MAX as i64 + 1));
	assert!(!in_i32(i32::MIN as i64 - 1));
}

#[test]
fn click_in_cell_selects_app() {
	let c = Coordinate::new(full_hd(), 5, 48, 15, 10);
	// Cell 2 starts 15 + 2 * 68 pixels right of the window.
	let x = c.x + 15 + 68 * 2 + 5;
	let y = c.y + 15 + 10;
	assert!(hit_test_in_range(&c, 5, 15, x, y));
	assert_eq!(find_clicked_app_index(&c, 5, 15, x, y), Some(2));
	// Last pixel of the last cell.
	assert_eq!(
		find_clicked_app_index(&c, 5, 15, c.x + 15 + 68 * 5 - 1, c.y + 15 + 67),
		Some(4)
	);
	// First pixel of the first cell.
	assert_eq!(find_clicked_app_index(&c, 5, 15, c.x + 15, c.y + 15), Some(0));
}

#[test]
fn click_outside_cells_selects_nothing() {
	let c = Coordinate::new(full_hd(), 5, 48, 15, 10);
	// In the border.
	assert_eq!(find_clicked_app_index(&c, 5, 15, c.x + 5, c.y + 5), None);
	// Where a sixth app would stand.
	assert_eq!(find_clicked_app_index(&c, 5, 15, c.x + 15 + 68 * 5 + 1, c.y + 20), None);
	// Below the single row.
	assert_eq!(find_clicked_app_index(&c, 5, 15, c.x + 20, c.y + 15 + 68), None);
	// No apps at all.
	assert_eq!(find_clicked_app_index(&c, 0, 15, c.x + 20, c.y + 20), None);
}

#[test]
fn click_in_second_row() {
	let monitor = MonitorRect {
		left: 0,
		top: 0,
		right: 1920,
		bottom: 1080,
	};
	let c = Coordinate::new(monitor, 13, 48, 15, 10);
	assert_eq!(c.item_size, 68);
	let x = c.x + 15 + 68 * 2 + 30;
	let y = c.y + 15 + 68 + 30;
	assert_eq!(find_clicked_app_index(&c, 13, 15, x, y), Some(12));
}

#[test]
fn empty_cells_are_never_hit() {
	let c = Coordinate {
		x: 0,
		y: 0,
		width: 30,
		height: 30,
		icon_size: -20,
		item_size: 0,
	};
	assert_eq!(find_clicked_app_index(&c, 3, 15, 15, 15), None);
}

#[test]
fn hit_test_in_range_detects_overflow() {
	let c = Coordinate {
		x: 0,
		y: 0,
		width: 100,
		height: 100,
		icon_size: i32::MAX - 2,
		item_size: i32::MAX,
	};
	assert!(hit_test_in_range(&c, 1, 0, 0, 0));
	// The cell of the second app starts past `i32::MAX`.
	assert!(!hit_test_in_range(&c, 2, 1, -5, 0));
	let c = Coordinate::new(full_hd(), 5, 48, 15, 10);
	assert!(!hit_test_in_range(&c, 5, 15, i32::MIN, 0));
}

#[test]
fn hit_test_stops_at_first_hit() {
	// Cells of 3e8 pixels: later cells would overflow, but the cursor is in cell 0.
	let c = Coordinate {
		x: 0,
		y: 0,
		width: 100,
		height: 100,
		icon_size: 300_000_000,
		item_size: 300_000_000,
	};
	assert!(hit_test_in_range(&c, 90, 0, 5, 5));
	assert_eq!(find_clicked_app_index(&c, 90, 0, 5, 5), Some(0));
	// Without a hit the loop reaches the cells that overflow.
	assert!(!hit_test_in_range(&c, 90, 0, -5, 5));
}

#[test]
fn icons_placement_inside_border() {
	assert_eq!(
		icons_placement(15, 340, 68),
		ImagePlacement {
			x: 15,
			y: 15,
			width: 340,
			height: 68
		}
	);
	let c = Coordinate::new(full_hd(), 5, 48, 15, 10);
	let (w, h) = icons_extent(c.item_size, 5);
	assert_eq!(15 + w + 15, c.width);
	assert_eq!(15 + h + 15, c.height);
}

#[test]
fn more_apps_never_give_larger_icons() {
	let monitor = MonitorRect {
		left: 0,
		top: 0,
		right: 800,
		bottom: 300,
	};
	let mut last = i32::MAX;
	for n in 1..=60 {
		let c = Coordinate::new(monitor, n, 48, 15, 10);
		assert!(c.icon_size <= last);
		last = c.icon_size;
	}
	assert_eq!(Coordinate::new(monitor, 1, 48, 15, 10).icon_size, 48);
	assert_eq!(Coordinate::new(monitor, 60, 48, 15, 10).icon_size, 25);
}
