use skyview_geometry::cuts::{cut_limits, first_and_last_percent};
use skyview_geometry::shader::{
    Aitoff, AzimuthalEquidistant, GridShaderProjection, Gnomonic, Mercator, Mollweide, Orthographic,
};

#[test]
fn percent_cuts_pick_order_statistics() {
    let mut v: Vec<i32> = vec![9, 3, 7, 1, 5, 8, 2, 6, 4, 0];
    let r = first_and_last_percent(&mut v, 10, 90);
    assert_eq!(r.start, 1);
    assert_eq!(r.end, 9);
    assert_eq!(v[9], 9);
    let mut sorted = v.clone();
    sorted.sort();
    assert_eq!(sorted, (0..10).collect::<Vec<i32>>());
}

#[test]
fn percent_cuts_negative_percent_is_minimum() {
    let mut v: Vec<u8> = vec![200, 13, 77, 13, 250];
    let r = first_and_last_percent(&mut v, -5, 50);
    assert_eq!(r.start, 13);
    assert_eq!(r.end, 77);
}

#[test]
fn percent_cuts_single_value() {
    let mut v: Vec<i16> = vec![-4];
    let r = first_and_last_percent(&mut v, 0, 99);
    assert_eq!((r.start, r.end), (-4, -4));
}

#[test]
fn cut_limits_min_and_max() {
    let v: Vec<i32> = vec![4, -2, 9, 9, -2, 0];
    let r = cut_limits(&v);
    assert_eq!((r.start, r.end), (-2, 9));
}

#[test]
fn cut_limits_empty_is_default() {
    let v: Vec<u16> = vec![];
    let r = cut_limits(&v);
    assert_eq!((r.start, r.end), (0, 0));
    let v: Vec<i32> = vec![];
    assert_eq!(cut_limits(&v), 0..0);
}

#[test]
fn percent_cuts_partition_around_last_index() {
    let mut v: Vec<i32> = vec![4, 1, 3, 2];
    let r = first_and_last_percent(&mut v, 25, 75);
    assert_eq!((r.start, r.end), (2, 4));
    assert_eq!(v[3], 4);
    assert!(v[..3].iter().all(|&x| x <= 4));
}

#[test]
fn grid_shaders_per_projection() {
    assert_eq!(Aitoff::get_grid_shader().fragment, "GridAitoffFS");
    assert_eq!(Mollweide::get_grid_shader().fragment, "GridMollFS");
    assert_eq!(AzimuthalEquidistant::get_grid_shader().fragment, "GridOrthoFS");
    assert_eq!(Gnomonic::get_grid_shader().fragment, "GridOrthoFS");
    assert_eq!(Mercator::get_grid_shader().fragment, "GridMercatorFS");
    assert_eq!(Orthographic::get_grid_shader().fragment, "GridOrthoFS");
    assert_eq!(Orthographic::get_grid_shader().vertex, "GridVS");
}
