use skyview_geometry::coverage::{
    keep_projected, ndc_ring, next_coverage_depth, Coverage, FieldOfViewVertices, MIN_COVERAGE_CELLS,
    NUM_VERTICES,
};

#[test]
fn allsky_has_twelve_base_cells() {
    let c = Coverage::allsky();
    assert_eq!(c.depth(), 0);
    assert_eq!(c.size(), 12);
    for i in 0..12u64 {
        assert!(c.contains(i));
    }
    assert!(!c.contains(12));
}

#[test]
fn covering_unions_without_duplicates() {
    let c = Coverage::covering(3, &vec![9, 7, 5, 5], &vec![11, 9], 6);
    assert_eq!(c.depth(), 3);
    assert_eq!(c.cells(), &vec![5, 6, 7, 9, 11]);
    let c = Coverage::covering(3, &vec![2], &vec![], 2);
    assert_eq!(c.cells(), &vec![2]);
}

#[test]
fn coverage_deepens_while_too_small() {
    let c = Coverage::covering(0, &vec![4], &vec![4, 5], 4);
    assert_eq!(next_coverage_depth(&c), Some(1));
    let cells: Vec<u64> = (0..MIN_COVERAGE_CELLS as u64).collect();
    let c = Coverage::covering(4, &cells, &vec![], 0);
    assert_eq!(next_coverage_depth(&c), None);
}

#[test]
fn coverage_stops_at_deepest_depth() {
    let c = Coverage::covering(28, &vec![1], &vec![], 1);
    assert_eq!(next_coverage_depth(&c), Some(29));
    let c = Coverage::covering(29, &vec![1], &vec![], 1);
    assert_eq!(next_coverage_depth(&c), None);
}

#[test]
fn wide_aperture_falls_back_to_allsky() {
    let mut f: FieldOfViewVertices<(i64, i64)> = FieldOfViewVertices::new();
    let verts = vec![(0, 0), (1, 0), (1, 1), (0, 1)];
    let cov = Coverage::covering(5, &vec![100, 101], &vec![], 101);
    f.set_great_circles(200, 100, verts.clone(), (0, 0), &vec![100, 102, 103, 100], 104, cov.clone());
    assert!(f.get_vertices().is_none());
    assert_eq!(f.get_depth(), 0);
    assert_eq!(f.get_coverage().cells(), Coverage::allsky().cells());

    f.set_great_circles(100, 100, verts, (0, 0), &vec![100, 102, 103, 100], 104, cov);
    assert!(f.get_vertices().is_none());
    assert_eq!(f.get_coverage().size(), 12);
}

#[test]
fn narrow_aperture_keeps_polygon_and_covers_vertices() {
    let mut f: FieldOfViewVertices<(i64, i64)> = FieldOfViewVertices::new();
    let verts = vec![(0, 0), (1, 0), (1, 1), (0, 1)];
    let cov = Coverage::covering(5, &vec![100, 101], &vec![], 101);
    f.set_great_circles(50, 100, verts.clone(), (1, 1), &vec![102, 100, 103, 100], 104, cov);
    assert_eq!(f.get_vertices(), Some(&verts));
    assert_eq!(f.get_depth(), 5);
    assert_eq!(f.get_coverage().cells(), &vec![100, 101, 102, 103, 104]);
    assert_eq!(f.get_interior(), Some(&(1, 1)));

    // Too few vertices: the whole sky again.
    let cov = Coverage::covering(5, &vec![100], &vec![], 100);
    f.set_great_circles(50, 100, vec![(0, 0), (1, 1)], (0, 0), &vec![100, 100], 100, cov);
    assert!(f.get_vertices().is_none());
    assert!(f.get_interior().is_none());
    assert_eq!(f.get_depth(), 0);
}

#[test]
fn deeper_covering_stays_inside_coarser() {
    let coarse = Coverage::covering(1, &vec![3, 4], &vec![5], 4);
    let fine = Coverage::covering(2, &vec![12, 13, 17], &vec![21], 16);
    for c in fine.cells() {
        assert!(coarse.contains(c / 4));
    }
}

#[test]
fn failed_samples_are_dropped() {
    let s = vec![Some(1), None, Some(3), None, None, Some(6)];
    assert_eq!(keep_projected(&s), vec![1, 3, 6]);
    let none: Vec<Option<i32>> = vec![None, None];
    assert!(keep_projected(&none).is_empty());
}

#[test]
fn screen_ring_goes_round_the_edges() {
    let r = ndc_ring();
    assert_eq!(r.len(), NUM_VERTICES);
    assert_eq!(r[0], (-11, -11));
    assert_eq!(r[1], (-9, -11));
    assert_eq!(r[11], (11, -11));
    assert_eq!(r[22], (11, 11));
    assert_eq!(r[33], (-11, 11));
    assert_eq!(r[43], (-11, -9));
    for &(x, y) in r.iter() {
        assert!(x == -11 || x == 11 || y == -11 || y == 11);
    }
}
