use xr_chaperone::mesh::{build_mesh_layout, GridVertex};

fn check_well_formed(vertices: &[GridVertex], indices: &[u32]) {
    assert_eq!(indices.len() % 6, 0);
    for block in indices.chunks(6) {
        let tl = block[0];
        let a = vertices[tl as usize];
        let s = a.cols + 1;
        assert_eq!(block, &[tl, tl + s, tl + s + 1, tl, tl + s + 1, tl + 1]);
        assert!(a.col < a.cols);
        let corner = |k: u32| vertices[k as usize];
        assert_eq!(corner(tl + 1), GridVertex { col: a.col + 1, ..a });
        assert_eq!(corner(tl + s), GridVertex { row: a.row + 1, ..a });
        assert_eq!(corner(tl + s + 1), GridVertex { row: a.row + 1, col: a.col + 1, ..a });
    }
    for &i in indices {
        assert!((i as usize) < vertices.len());
    }
    for t in indices.chunks(3) {
        assert!(t[0] != t[1] && t[1] != t[2] && t[0] != t[2]);
        for &a in t {
            for &b in t {
                let (va, vb) = (vertices[a as usize], vertices[b as usize]);
                assert_eq!(va.edge, vb.edge);
                assert!((va.row as i64 - vb.row as i64).abs() <= 1);
                assert!((va.col as i64 - vb.col as i64).abs() <= 1);
            }
        }
    }
}

#[test]
fn square_with_one_cell_per_wall() {
    let layout = build_mesh_layout(&vec![Some(1), Some(1), Some(1), Some(1)], 1).unwrap();
    assert_eq!(layout.vertices.len(), 16);
    assert_eq!(layout.indices.len(), 24);
    assert_eq!(&layout.indices[0..6], &[0, 2, 3, 0, 3, 1]);
    assert_eq!(&layout.indices[6..12], &[4, 6, 7, 4, 7, 5]);
    assert_eq!(layout.vertices[0], GridVertex { edge: 0, row: 0, col: 0, cols: 1 });
    assert_eq!(layout.vertices[1], GridVertex { edge: 0, row: 0, col: 1, cols: 1 });
    assert_eq!(layout.vertices[2], GridVertex { edge: 0, row: 1, col: 0, cols: 1 });
    assert_eq!(layout.vertices[4], GridVertex { edge: 1, row: 0, col: 0, cols: 1 });
    check_well_formed(&layout.vertices, &layout.indices);
}

#[test]
fn wall_of_two_by_three_cells() {
    let layout = build_mesh_layout(&vec![Some(3), Some(1), Some(1)], 2).unwrap();
    // First wall: 3 rows of 4 vertices, 6 cells.
    assert_eq!(layout.vertices.len(), 12 + 6 + 6);
    assert_eq!(layout.indices.len(), 6 * (6 + 2 + 2));
    // Cell in row 1, column 2: top-left vertex 1 * 4 + 2 = 6, stride 4.
    let k = 6 * (1 * 3 + 2);
    assert_eq!(&layout.indices[k..k + 6], &[6, 10, 11, 6, 11, 7]);
    assert_eq!(layout.vertices[11], GridVertex { edge: 0, row: 2, col: 3, cols: 3 });
    check_well_formed(&layout.vertices, &layout.indices);
}

#[test]
fn short_polygon_has_empty_mesh() {
    let layout = build_mesh_layout(&vec![Some(4), Some(4)], 3).unwrap();
    assert!(layout.vertices.is_empty());
    assert!(layout.indices.is_empty());
    let empty = build_mesh_layout(&vec![], 3).unwrap();
    assert!(empty.vertices.is_empty() && empty.indices.is_empty());
}

#[test]
fn degenerate_edges_are_skipped() {
    let layout = build_mesh_layout(&vec![Some(1), None, Some(1), None], 1).unwrap();
    assert_eq!(layout.vertices.len(), 8);
    assert_eq!(layout.vertices[4].edge, 2);
    assert_eq!(&layout.indices[6..12], &[4, 6, 7, 4, 7, 5]);
    check_well_formed(&layout.vertices, &layout.indices);
}

#[test]
fn zero_counts_use_one_cell() {
    let a = build_mesh_layout(&vec![Some(0), Some(0), Some(0)], 0).unwrap();
    let b = build_mesh_layout(&vec![Some(1), Some(1), Some(1)], 1).unwrap();
    assert_eq!(a.vertices, b.vertices);
    assert_eq!(a.indices, b.indices);
}

#[test]
fn too_many_vertices_is_refused() {
    assert!(build_mesh_layout(&vec![Some(65535), Some(1), Some(1)], 65536).is_none());
    assert!(build_mesh_layout(&vec![None, None, Some(u32::MAX)], u32::MAX).is_none());
}

#[test]
fn all_walls_are_well_formed() {
    let layout = build_mesh_layout(&vec![Some(5), Some(2), None, Some(7), Some(1)], 4).unwrap();
    assert_eq!(layout.vertices.len(), 5 * (6 + 3 + 8 + 2));
    assert_eq!(layout.indices.len(), 6 * 4 * (5 + 2 + 7 + 1));
    check_well_formed(&layout.vertices, &layout.indices);
}
