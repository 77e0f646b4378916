use painter::shape::{round_rect_arcs, PathArc};

#[test]
fn round_rect_arcs_go_around_the_corners() {
	let arcs = round_rect_arcs(0, 0, 370, 98, 15);
	assert_eq!(
		arcs,
		vec![
			PathArc { x: 0, y: 0, width: 15, height: 15, start_angle: 180, sweep_angle: 90 },
			PathArc { x: 355, y: 0, width: 15, height: 15, start_angle: 270, sweep_angle: 90 },
			PathArc { x: 355, y: 83, width: 15, height: 15, start_angle: 0, sweep_angle: 90 },
			PathArc { x: 0, y: 83, width: 15, height: 15, start_angle: 90, sweep_angle: 90 },
		]
	);
	let total: i32 = arcs.iter().map(|a| a.sweep_angle).sum();
	assert_eq!(total, 360);
	for a in &arcs {
		assert!(a.x >= 0 && a.x + a.width <= 370 && a.y >= 0 && a.y + a.height <= 98);
	}
}

#[test]
fn round_rect_arcs_with_offset_and_zero_radius() {
	let arcs = round_rect_arcs(10, 20, 110, 220, 0);
	assert_eq!(arcs[0], PathArc { x: 10, y: 20, width: 0, height: 0, start_angle: 180, sweep_angle: 90 });
	assert_eq!(arcs[2], PathArc { x: 110, y: 220, width: 0, height: 0, start_angle: 0, sweep_angle: 90 });
}

#[test]
fn round_rect_arcs_never_overflow() {
	let arcs = round_rect_arcs(0, 0, i32::MIN, i32::MIN, i32::MAX);
	assert_eq!(arcs[2].x, i32::MIN as i64 - i32::MAX as i64);
	assert_eq!(arcs[2].y, i32::MIN as i64 - i32::MAX as i64);
}
