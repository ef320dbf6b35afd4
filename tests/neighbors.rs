use cube_life::codec::encode;
use cube_life::neighbors::neighbor_ids;

#[test]
fn corner_has_seven_neighbors_in_order() {
    let ids = neighbor_ids(0, 0, 0, 3);
    let expected = vec![
        encode(1, 0, 0),
        encode(0, 1, 0),
        encode(1, 1, 0),
        encode(0, 0, 1),
        encode(1, 0, 1),
        encode(0, 1, 1),
        encode(1, 1, 1),
    ];
    assert_eq!(ids, expected);
}

#[test]
fn edge_face_and_interior_counts() {
    assert_eq!(neighbor_ids(1, 0, 0, 3).len(), 11);
    assert_eq!(neighbor_ids(1, 1, 0, 3).len(), 17);
    assert_eq!(neighbor_ids(1, 1, 1, 3).len(), 26);
    assert_eq!(neighbor_ids(2, 2, 2, 3).len(), 7);
    assert_eq!(neighbor_ids(7, 14, 0, 15).len(), 11);
}

#[test]
fn single_cell_lattice_has_no_neighbors() {
    assert!(neighbor_ids(0, 0, 0, 1).is_empty());
}

#[test]
fn two_cell_edge_lattice_corner() {
    assert_eq!(neighbor_ids(1, 0, 1, 2).len(), 7);
}

#[test]
fn interior_neighbors_exclude_self() {
    let ids = neighbor_ids(2, 2, 2, 5);
    assert!(!ids.contains(&encode(2, 2, 2)));
    assert!(ids.contains(&encode(1, 1, 1)));
    assert!(ids.contains(&encode(3, 3, 3)));
    assert!(!ids.contains(&encode(4, 2, 2)));
}

#[test]
fn neighbor_relation_is_symmetric() {
    let n = 4u8;
    for x in 0..n {
        for y in 0..n {
            for z in 0..n {
                for b in neighbor_ids(x, y, z, n) {
                    let (bx, by, bz) = cube_life::codec::decode(b);
                    assert!(neighbor_ids(bx, by, bz, n).contains(&encode(x, y, z)));
                }
            }
        }
    }
}
