use skyview_geometry::angle::{fold_label_rotation, to_dms, HALF_PI_UAS, PI_UAS, UAS_PER_DEG};
use skyview_geometry::grid::{
    grid_layout, grid_step, label_is_shifted, meridian_arc, meridian_positions, parallel_arc,
    parallel_positions, select_grid_step, vertex_offsets, BoundingBox, EDGE_EPSILON_UAS,
    NUM_GRID_STEPS,
};
use skyview_geometry::subdivision::{ArcView, LonLat, Segment};

const UAS_PER_RAD: f64 = 206_264_806_247.096_36;

fn deg(d: i64) -> i64 {
    d * UAS_PER_DEG
}

#[test]
fn grid_step_table_is_decreasing() {
    assert_eq!(grid_step(0), 72_000_000_000);
    assert_eq!(grid_step(NUM_GRID_STEPS - 1), 1);
    for i in 1..NUM_GRID_STEPS {
        assert!(grid_step(i) < grid_step(i - 1));
        assert!(grid_step(i - 1) <= 3 * grid_step(i));
    }
}

#[test]
fn select_grid_step_ten_degrees() {
    // 2 degrees already gives 5 lines, so the coarser 5 degrees is chosen.
    assert_eq!(select_grid_step(deg(10) as u64, 6), deg(5) as u64);
}

#[test]
fn select_grid_step_wide_view_takes_coarsest() {
    assert_eq!(select_grid_step(deg(180) as u64, 6), deg(20) as u64);
}

#[test]
fn select_grid_step_tiny_view_takes_finest() {
    assert_eq!(select_grid_step(3, 6), 1);
    assert_eq!(select_grid_step(0, 6), 1);
}

#[test]
fn select_grid_step_single_line_target() {
    // With a target of one line, the first step that fits at all stops the scan.
    assert_eq!(select_grid_step(deg(15) as u64, 1), deg(20) as u64);
    assert_eq!(select_grid_step(deg(7) as u64, 1), deg(10) as u64);
}

#[test]
fn select_grid_step_sweep_stays_under_target() {
    let max_lines: usize = 6;
    let mut fov_rad = 0.0000005_f64;
    while fov_rad <= 20.0 {
        let fov = (fov_rad * UAS_PER_RAD) as u64;
        let step = select_grid_step(fov, max_lines);
        if fov / grid_step(0) <= (max_lines as u64) + 1 {
            assert!(fov / step <= (max_lines as u64) + 1, "fov {} rad gives {} lines", fov_rad, fov / step);
        }
        fov_rad *= 1.07;
    }
}

#[test]
fn view_of_ten_degrees_has_one_meridian_and_one_parallel() {
    let b = BoundingBox {
        lon_min: -deg(5),
        lon_max: deg(5),
        lat_min: -deg(5),
        lat_max: deg(5),
        all_lon: false,
        contains_pole: false,
    };
    let g = grid_layout(&b, 6);
    assert_eq!(g.step_lon, deg(5) as u64);
    assert_eq!(g.step_lat, deg(5) as u64);
    // The candidate at -5 degrees lies on the edge of the view; inside it
    // only the lines through the center are left.
    assert_eq!(g.meridians, vec![-deg(5), 0]);
    assert_eq!(g.parallels, vec![-deg(5), 0]);

    let mut sub = meridian_arc(g.meridians[1], b.lat_min, b.lat_max);
    let straight = ArcView {
        start_visible: true,
        mid_visible: true,
        end_visible: true,
        turn: 0,
        first_len2: 100,
        second_len2: 100,
    };
    while !sub.is_done() {
        sub.examine(straight);
    }
    assert!(!sub.segments().is_empty());
    let mut sub = parallel_arc(g.parallels[1], b.lon_min, b.lon_max);
    while !sub.is_done() {
        sub.examine(straight);
    }
    let segs: &Vec<Segment> = sub.segments();
    assert!(!segs.is_empty());
    assert_eq!(segs[0].from, LonLat { lon: b.lon_min, lat: 0 });
    assert_eq!(segs[segs.len() - 1].to, LonLat { lon: b.lon_max, lat: 0 });
}

#[test]
fn view_just_under_ten_degrees_uses_two_degree_step() {
    let half = deg(5) - 36_000_000;
    let b = BoundingBox {
        lon_min: -half,
        lon_max: half,
        lat_min: -half,
        lat_max: half,
        all_lon: false,
        contains_pole: false,
    };
    let g = grid_layout(&b, 6);
    assert_eq!(g.step_lon, deg(2) as u64);
    assert_eq!(g.meridians, vec![-deg(4), -deg(2), 0, deg(2), deg(4)]);
}

#[test]
fn meridians_start_rounded_toward_zero() {
    let b = BoundingBox {
        lon_min: -deg(7),
        lon_max: deg(12),
        lat_min: -deg(10),
        lat_max: deg(10),
        all_lon: false,
        contains_pole: false,
    };
    assert_eq!(meridian_positions(&b, deg(5) as u64), vec![-deg(5), 0, deg(5), deg(10)]);
}

#[test]
fn full_turn_does_not_repeat_first_meridian() {
    let b = BoundingBox {
        lon_min: 0,
        lon_max: deg(360),
        lat_min: -deg(90),
        lat_max: deg(90),
        all_lon: true,
        contains_pole: true,
    };
    let m = meridian_positions(&b, deg(20) as u64);
    assert_eq!(m.len(), 18);
    assert_eq!(m[17], deg(340));
}

#[test]
fn parallels_skip_poles() {
    let b = BoundingBox {
        lon_min: 0,
        lon_max: deg(360),
        lat_min: -HALF_PI_UAS,
        lat_max: HALF_PI_UAS,
        all_lon: true,
        contains_pole: true,
    };
    let p = parallel_positions(&b, deg(20) as u64);
    assert_eq!(p[0], -deg(80));
    assert_eq!(*p.last().unwrap(), deg(80));
    assert_eq!(p.len(), 9);
    // A step that lands on the north pole is pulled back off it.
    let p = parallel_positions(&b, deg(30) as u64);
    assert_eq!(p, vec![-deg(60), -deg(30), 0, deg(30), deg(60)]);
    assert!(HALF_PI_UAS - EDGE_EPSILON_UAS > deg(60));
}

#[test]
fn label_rotation_folds_into_quarter_turns() {
    assert_eq!(fold_label_rotation(0), 0);
    assert_eq!(fold_label_rotation(HALF_PI_UAS), HALF_PI_UAS);
    assert_eq!(fold_label_rotation(-HALF_PI_UAS), HALF_PI_UAS);
    assert_eq!(fold_label_rotation(PI_UAS), 0);
    assert_eq!(fold_label_rotation(-PI_UAS), 0);
    assert_eq!(fold_label_rotation(deg(135)), -deg(45));
    assert_eq!(fold_label_rotation(-deg(135)), deg(45));
}

#[test]
fn label_rotation_random_directions() {
    let mut state: u64 = 0x2545_f491_4f6c_dd1d;
    for _ in 0..1000 {
        state = state.wrapping_mul(6364136223846793005).wrapping_add(1442695040888963407);
        let angle = ((state >> 11) as f64 / (1u64 << 53) as f64) * std::f64::consts::TAU;
        let (x, y) = (angle.cos(), angle.sin());
        let raw = if y > 0.0 { x.acos() } else { -x.acos() };
        let rot = fold_label_rotation((raw * UAS_PER_RAD) as i64);
        assert!(rot > -HALF_PI_UAS && rot <= HALF_PI_UAS);
    }
}

#[test]
fn dms_parts() {
    let a = -(deg(12) + 34 * 60_000_000 + 56 * 1_000_000 + 789);
    let d = to_dms(a);
    assert!(d.negative);
    assert_eq!((d.degrees, d.minutes, d.seconds, d.micros), (12, 34, 56, 789));
    let d = to_dms(deg(1));
    assert!(!d.negative);
    assert_eq!((d.degrees, d.minutes, d.seconds, d.micros), (1, 0, 0, 0));
}

#[test]
fn labels_shift_except_all_sky_and_polar_parallels() {
    assert!(label_is_shifted(false, false, true));
    assert!(!label_is_shifted(false, true, false));
    assert!(!label_is_shifted(true, false, true));
    assert!(label_is_shifted(true, false, false));
}

#[test]
fn vertex_offsets_are_running_sums() {
    assert_eq!(vertex_offsets(&vec![4, 0, 6, 2]), vec![0, 4, 4, 10]);
    assert!(vertex_offsets(&vec![]).is_empty());
}
