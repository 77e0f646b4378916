use painter::icons::Rect;
use painter::shape::round_rect_arcs;
use painter::window::{Background, PainterState};

#[test]
fn new_painter_is_hidden() {
	assert_eq!(
		PainterState::new(true),
		PainterState {
			rounded_corner: true,
			show: false
		}
	);
}

#[test]
fn paint_shows_once() {
	let mut s = PainterState::new(false);
	assert!(s.paint());
	assert!(s.show);
	assert!(!s.paint());
	assert!(s.show);
	assert!(!s.rounded_corner);
}

#[test]
fn unpaint_then_paint_shows_again() {
	let mut s = PainterState::new(true);
	assert!(s.paint());
	s.unpaint();
	assert!(!s.show);
	assert!(s.paint());
	assert!(s.rounded_corner);
}

#[test]
fn corner_radius_only_when_rounded() {
	assert_eq!(PainterState::new(true).corner_radius(22), 22);
	assert_eq!(PainterState::new(false).corner_radius(22), 0);
}

#[test]
fn background_rounded_or_plain() {
	assert_eq!(
		PainterState::new(true).background(370, 98, 15),
		Background::Rounded(round_rect_arcs(0, 0, 370, 98, 15))
	);
	assert_eq!(
		PainterState::new(false).background(370, 98, 15),
		Background::Plain(Rect {
			left: 0,
			top: 0,
			right: 370,
			bottom: 98
		})
	);
}
