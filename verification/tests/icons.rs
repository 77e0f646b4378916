use painter::icons::{color_to_bgr, highlighted_indices, IconsLayout, Rect};

fn sample_layout() -> IconsLayout {
	IconsLayout::new(48, 10, 340, 68, 10, 8, 0xA6DAFF, 0xd0e5f4)
}

#[test]
fn color_to_bgr_swaps_red_and_blue() {
	assert_eq!(color_to_bgr(0xA6DAFF), 0xFFDAA6);
	assert_eq!(color_to_bgr(0xd0e5f4), 0xF4E5D0);
	assert_eq!(color_to_bgr(0x12345678), 0x785634);
	assert_eq!(color_to_bgr(0), 0);
}

#[test]
fn color_to_bgr_twice_gives_the_color_back() {
	for c in [0xA6DAFFu32, 0xd0e5f4, 0x010203, 0xFFFFFF, 0xAB123456] {
		assert_eq!(color_to_bgr(color_to_bgr(c)), c & 0xFFFFFF);
	}
}

#[test]
fn highlighted_indices_selected_then_hovered() {
	assert_eq!(highlighted_indices(2, Some(5)), vec![2, 5]);
	assert_eq!(highlighted_indices(2, Some(2)), vec![2]);
	assert_eq!(highlighted_indices(7, None), vec![7]);
}

#[test]
fn icons_layout_scales_by_six() {
	let l = sample_layout();
	assert_eq!(l.width, 340);
	assert_eq!(l.height, 68);
	assert_eq!(l.scaled_width, 2040);
	assert_eq!(l.scaled_height, 408);
	assert_eq!(l.scaled_hover_corner_radius, 60);
	assert_eq!(l.scaled_icon_corner_radius, 48);
	assert_eq!(l.scaled_border_size, 60);
	assert_eq!(l.scaled_icon_inner_size, 288);
	assert_eq!(l.scaled_icon_outer_size, 408);
	assert_eq!(l.fg_color_bgr, 0xFFDAA6);
	assert_eq!(l.bg_color_bgr, 0xF4E5D0);
	// The scaled grid of five cells fills the scaled bitmap.
	assert_eq!(l.scaled_icon_outer_size * 5, l.scaled_width);
}

#[test]
fn checked_icons_layout() {
	assert_eq!(
		IconsLayout::checked_new(48, 10, 340, 68, 10, 8, 0xA6DAFF, 0xd0e5f4),
		Some(sample_layout())
	);
	assert_eq!(
		IconsLayout::checked_new(48, 10, i32::MAX / 5, 68, 10, 8, 0, 0),
		None
	);
	assert_eq!(
		IconsLayout::checked_new(i32::MAX / 6, 10, 340, 68, 10, 8, 0, 0),
		None
	);
}

#[test]
fn background_covers_scaled_bitmap() {
	assert_eq!(
		sample_layout().background_rect(),
		Rect {
			left: 0,
			top: 0,
			right: 2040,
			bottom: 408
		}
	);
}

#[test]
fn highlight_rects_of_selected_and_hovered() {
	let l = sample_layout();
	assert!(l.highlight_rects_in_range(2, Some(12)));
	assert_eq!(
		l.highlight_rects(2, Some(12)),
		vec![
			Rect {
				left: 816,
				top: 0,
				right: 1224,
				bottom: 408
			},
			Rect {
				left: 816,
				top: 408,
				right: 1224,
				bottom: 816
			},
		]
	);
	assert_eq!(l.highlight_rects(3, Some(3)), vec![l.highlight_rect(3)]);
	assert_eq!(l.highlight_rects(0, None), vec![Rect { left: 0, top: 0, right: 408, bottom: 408 }]);
}

#[test]
fn highlight_rects_out_of_range() {
	let l = IconsLayout::new(i32::MAX / 11, 0, 10, 10, 0, 0, 0, 0);
	assert!(l.highlight_rects_in_range(0, None));
	assert!(!l.highlight_rects_in_range(0, Some(1)));
}

#[test]
fn icon_rects_inset_in_cells() {
	let l = sample_layout();
	assert!(l.icon_rects_in_range(12));
	let rects = l.icon_rects(12);
	assert_eq!(rects.len(), 12);
	assert_eq!(
		rects[0],
		Rect {
			left: 60,
			top: 60,
			right: 348,
			bottom: 348
		}
	);
	assert_eq!(
		rects[1],
		Rect {
			left: 468,
			top: 60,
			right: 756,
			bottom: 348
		}
	);
	assert_eq!(
		rects[11],
		Rect {
			left: 468,
			top: 468,
			right: 756,
			bottom: 756
		}
	);
	for (i, icon) in rects.iter().enumerate() {
		let cell = l.highlight_rect(i);
		assert!(cell.left <= icon.left && icon.right <= cell.right);
		assert!(cell.top <= icon.top && icon.bottom <= cell.bottom);
		assert_eq!(*icon, l.icon_rect(i));
	}
	assert!(l.icon_rects(0).is_empty());
}

#[test]
fn drawn_cell_is_six_times_the_click_cell() {
	// With icons of 48 padded by 10 the click cells are 68 wide, from the border.
	let l = sample_layout();
	for i in 0..25usize {
		let cell = l.highlight_rect(i);
		let click_left = 68 * (i as i32 % 10);
		let click_top = 68 * (i as i32 / 10);
		assert_eq!(cell.left, 6 * click_left);
		assert_eq!(cell.top, 6 * click_top);
	}
}

#[test]
fn icon_rects_out_of_range() {
	let l = IconsLayout::new(i32::MAX / 11, 0, 10, 10, 0, 0, 0, 0);
	assert!(l.icon_rects_in_range(1));
	assert!(!l.icon_rects_in_range(2));
}
