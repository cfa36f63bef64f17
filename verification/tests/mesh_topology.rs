use vg::mesh::{icosahedron_faces, room_for, Subdivision};

#[test]
fn middle_reuses_edge_midpoints() {
    let mut s = Subdivision::new(3);
    let a = s.middle(0, 1);
    assert_eq!(a, 3);
    let b = s.middle(1, 0);
    assert_eq!(b, 3);
    let c = s.middle(2, 1);
    assert_eq!(c, 4);
    assert_eq!(s.midpoints(), &vec![(0, 1), (1, 2)]);
    assert_eq!(s.vertex_count(), 5);
}

#[test]
fn one_triangle_splits_into_four() {
    let mut s = Subdivision::new(3);
    let out = s.subdivide(&vec![0, 1, 2]);
    // a = mid(0,1) = 3, b = mid(1,2) = 4, c = mid(2,0) = 5
    assert_eq!(out, vec![0, 3, 5, 1, 4, 3, 2, 5, 4, 3, 4, 5]);
    assert_eq!(s.midpoints(), &vec![(0, 1), (1, 2), (0, 2)]);
}

#[test]
fn shared_edges_are_split_once() {
    let mut s = Subdivision::new(4);
    let out = s.subdivide(&vec![0, 1, 2, 2, 1, 3]);
    assert_eq!(out.len(), 24);
    // five distinct edges
    assert_eq!(s.vertex_count(), 9);
    // the second triangle reuses the midpoint of edge 1-2 (vertex 5)
    assert_eq!(&out[12..], &[2, 5, 8, 1, 7, 5, 3, 8, 7, 5, 7, 8]);
}

#[test]
fn trailing_partial_triangle_is_ignored() {
    let mut s = Subdivision::new(3);
    let out = s.subdivide(&vec![0, 1, 2, 0]);
    assert_eq!(out.len(), 12);
}

#[test]
fn icosphere_counts() {
    let faces = icosahedron_faces();
    assert_eq!(faces.len(), 60);
    assert!(room_for(12, 60, 3));
    let mut s = Subdivision::new(12);
    let out = s.subdivide_levels(faces.clone(), 0);
    assert_eq!(out, faces);
    let out = s.subdivide_levels(faces, 2);
    assert_eq!(out.len(), 60 * 16);
    // an icosphere of level 2 has 162 vertices
    assert_eq!(s.vertex_count(), 162);
    assert!(out.iter().all(|&i| i < 162));
    for (j, (a, b)) in s.midpoints().iter().enumerate() {
        assert!(a <= b && (*b as usize) < 12 + j);
    }
}

#[test]
fn room_runs_out() {
    assert!(room_for(12, 60, 0));
    assert!(!room_for(u32::MAX - 2, 3, 1));
    assert!(!room_for(12, 60, 40));
}

#[test]
fn icosahedron_table() {
    assert_eq!(
        icosahedron_faces(),
        vec![
            0, 11, 5, 0, 5, 1, 0, 1, 7, 0, 7, 10, 0, 10, 11, 1, 5, 9, 5, 11, 4, 11, 10, 2, 10, 7,
            6, 7, 1, 8, 3, 9, 4, 3, 4, 2, 3, 2, 6, 3, 6, 8, 3, 8, 9, 4, 9, 5, 2, 4, 11, 6, 2, 10,
            8, 6, 7, 9, 8, 1,
        ]
    );
}

#[test]
fn icosphere_vertex_counts_by_level() {
    for level in 0..5usize {
        let mut s = Subdivision::new(12);
        let out = s.subdivide_levels(icosahedron_faces(), level);
        assert_eq!(out.len(), 60 * 4usize.pow(level as u32));
        assert_eq!(s.vertex_count() as usize, 10 * 4usize.pow(level as u32) + 2);
    }
}

#[test]
fn middle_hit_leaves_midpoints_alone() {
    let mut s = Subdivision::new(4);
    assert_eq!(s.middle(3, 1), 4);
    assert_eq!(s.middle(0, 2), 5);
    let before = s.midpoints().clone();
    assert_eq!(s.middle(1, 3), 4);
    assert_eq!(s.midpoints(), &before);
    assert_eq!(s.middle(2, 0), 5);
    assert_eq!(s.midpoints(), &before);
}
