use minimesh::{to_tris, Mesh, MeshError};

fn square() -> Mesh<[f64; 3]> {
    let vertices = vec![
        [0.0, 0.0, 0.0],
        [1.0, 0.0, 0.0],
        [1.0, 1.0, 0.0],
        [0.0, 1.0, 0.0],
    ];
    Mesh::new(vertices, vec![0, 1, 2, 0, 2, 3]).unwrap()
}

fn close(a: [f64; 3], b: [f64; 3]) -> bool {
    (0..3).all(|i| (a[i] - b[i]).abs() < 1e-9)
}

#[test]
fn to_tris_groups_in_threes() {
    assert_eq!(to_tris(vec![0, 1, 2, 3, 4, 5]), vec![[0, 1, 2], [3, 4, 5]]);
    assert_eq!(to_tris(vec![]), Vec::<[usize; 3]>::new());
}

#[test]
fn new_keeps_vertices_and_groups_indices() {
    let m = square();
    assert_eq!(m.vertices.len(), 4);
    assert_eq!(m.tris, vec![[0, 1, 2], [0, 2, 3]]);
}

#[test]
fn new_rejects_index_count_not_multiple_of_three() {
    let r = Mesh::new(vec![[0.0f64; 3]; 3], vec![0, 1]);
    assert_eq!(r.err(), Some(MeshError::IndexCountError));
}

#[test]
fn new_rejects_out_of_range_index() {
    let r = Mesh::new(vec![[0.0f64; 3]; 3], vec![0, 1, 3]);
    assert_eq!(r.err(), Some(MeshError::IndexError));
}

#[test]
fn new_empty_has_nothing() {
    let m: Mesh<[f64; 3]> = Mesh::new_empty();
    assert!(m.vertices.is_empty());
    assert!(m.tris.is_empty());
}

#[test]
fn tri_coords_returns_corners() {
    let m = square();
    assert_eq!(m.tri_coords(1), vec![[0.0, 0.0, 0.0], [1.0, 1.0, 0.0], [0.0, 1.0, 0.0]]);
}

#[test]
fn triangle_from_verts_appends_or_rejects() {
    let mut m = square();
    assert_eq!(m.triangle_from_verts(3, 2, 1), Ok(()));
    assert_eq!(m.tris.len(), 3);
    assert_eq!(m.tris[2], [3, 2, 1]);
    assert_eq!(m.triangle_from_verts(0, 4, 1), Err(MeshError::IndexError));
    assert_eq!(m.tris.len(), 3);
}

#[test]
fn merge_counts_offsets_and_drains() {
    let mut a = square();
    let mut b = Mesh::new(
        vec![[5.0, 0.0, 0.0], [6.0, 0.0, 0.0], [5.0, 1.0, 0.0]],
        vec![0, 1, 2, 2, 1, 0],
    )
    .unwrap();
    a.merge(&mut b);
    assert_eq!(a.vertices.len(), 4 + 3);
    assert_eq!(a.tris.len(), 2 + 2);
    assert_eq!(a.tris[2], [4, 5, 6]);
    assert_eq!(a.tris[3], [6, 5, 4]);
    assert_eq!(a.vertices[4], [5.0, 0.0, 0.0]);
    assert!(b.vertices.is_empty());
    assert!(b.tris.is_empty());
    assert_eq!(a.tri_coords(2), vec![[5.0, 0.0, 0.0], [6.0, 0.0, 0.0], [5.0, 1.0, 0.0]]);
}

#[test]
fn merge_into_empty_keeps_indices() {
    let mut a: Mesh<[f64; 3]> = Mesh::new_empty();
    let mut b = square();
    a.merge(&mut b);
    assert_eq!(a.tris, vec![[0, 1, 2], [0, 2, 3]]);
    assert_eq!(a.vertices.len(), 4);
}

#[test]
fn translate_then_back_restores_vertices() {
    let mut m = square();
    let before = m.vertices.clone();
    let d = [0.25, -3.5, 7.0];
    m.map_vertices(|p: [f64; 3]| [p[0] + d[0], p[1] + d[1], p[2] + d[2]]);
    assert!(close(m.vertices[2], [1.25, -2.5, 7.0]));
    m.map_vertices(|p: [f64; 3]| [p[0] - d[0], p[1] - d[1], p[2] - d[2]]);
    for (p, q) in m.vertices.iter().zip(before.iter()) {
        assert!(close(*p, *q));
    }
    assert_eq!(m.tris, vec![[0, 1, 2], [0, 2, 3]]);
}

#[test]
fn rotate_by_identity_leaves_vertices() {
    let mut m = square();
    let before = m.vertices.clone();
    let r = [[1.0, 0.0, 0.0], [0.0, 1.0, 0.0], [0.0, 0.0, 1.0]];
    m.map_vertices(|p: [f64; 3]| {
        let mut q = [0.0; 3];
        for i in 0..3 {
            q[i] = r[i][0] * p[0] + r[i][1] * p[1] + r[i][2] * p[2];
        }
        q
    });
    for (p, q) in m.vertices.iter().zip(before.iter()) {
        assert!(close(*p, *q));
    }
}

#[test]
fn copy_to_point_moves_mesh_and_appends_copy() {
    let mut m = square();
    m.copy_to_point(|p: [f64; 3]| [p[0] + 10.0, p[1], p[2]]);
    assert_eq!(m.vertices.len(), 8);
    assert_eq!(m.tris.len(), 4);
    assert!(close(m.vertices[1], [11.0, 0.0, 0.0]));
    assert!(close(m.vertices[5], [1.0, 0.0, 0.0]));
    assert_eq!(m.tris, vec![[0, 1, 2], [0, 2, 3], [4, 5, 6], [4, 6, 7]]);
}

#[test]
fn facets_and_from_facets_agree() {
    let m = square();
    let f = m.facets();
    assert_eq!(f.len(), 2);
    assert_eq!(f[1], [[0.0, 0.0, 0.0], [1.0, 1.0, 0.0], [0.0, 1.0, 0.0]]);
    let rebuilt = Mesh::from_facets(f.clone());
    assert_eq!(rebuilt.vertices.len(), 6);
    assert_eq!(rebuilt.tris, vec![[0, 1, 2], [3, 4, 5]]);
    assert_eq!(rebuilt.facets(), f);
}

#[test]
fn unit_cube_has_thirty_six_vertices() {
    let c = |x: f64, y: f64, z: f64| [x, y, z];
    let faces = vec![
        [c(0., 0., 0.), c(0., 1., 0.), c(1., 1., 0.)],
        [c(0., 0., 0.), c(1., 1., 0.), c(1., 0., 0.)],
        [c(0., 0., 1.), c(1., 0., 1.), c(1., 1., 1.)],
        [c(0., 0., 1.), c(1., 1., 1.), c(0., 1., 1.)],
        [c(0., 0., 0.), c(1., 0., 0.), c(1., 0., 1.)],
        [c(0., 0., 0.), c(1., 0., 1.), c(0., 0., 1.)],
        [c(0., 1., 0.), c(0., 1., 1.), c(1., 1., 1.)],
        [c(0., 1., 0.), c(1., 1., 1.), c(1., 1., 0.)],
        [c(0., 0., 0.), c(0., 0., 1.), c(0., 1., 1.)],
        [c(0., 0., 0.), c(0., 1., 1.), c(0., 1., 0.)],
        [c(1., 0., 0.), c(1., 1., 0.), c(1., 1., 1.)],
        [c(1., 0., 0.), c(1., 1., 1.), c(1., 0., 1.)],
    ];
    let m = Mesh::from_facets(faces);
    assert_eq!(m.tris.len(), 12);
    assert_eq!(m.vertices.len(), 36);
    assert_eq!(m.tris[11], [33, 34, 35]);
}
