use gravity::mesh::select_triangles;

#[test]
fn nothing_kept_gives_no_mesh() {
    assert!(select_triangles(&vec![0, 1, 2, 2, 3, 0], &vec![false, false]).is_none());
    assert!(select_triangles(&vec![], &vec![]).is_none());
}

#[test]
fn kept_triangles_get_their_own_vertices() {
    let indices = vec![0, 1, 2, 2, 3, 0, 4, 5, 6, 9];
    let sel = select_triangles(&indices, &vec![false, true, true]).unwrap();
    assert_eq!(sel.indices, vec![[0, 1, 2], [3, 4, 5]]);
    assert_eq!(sel.sources, vec![2, 3, 0, 4, 5, 6]);
}

#[test]
fn a_single_kept_triangle() {
    let sel = select_triangles(&vec![7, 8, 9], &vec![true]).unwrap();
    assert_eq!(sel.indices, vec![[0, 1, 2]]);
    assert_eq!(sel.sources, vec![7, 8, 9]);
}
