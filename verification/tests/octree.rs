use voxel_world::octree::{Octree, OctreeError};

/// A cube of side `n` whose cells all hold `v`.
fn filled(n: usize, v: u8) -> Vec<Vec<Vec<u8>>> {
    vec![vec![vec![v; n]; n]; n]
}

/// A cube of side `n` with a different value in most cells.
fn varied(n: usize) -> Vec<Vec<Vec<u8>>> {
    let mut volume = filled(n, 0);
    for x in 0..n {
        for y in 0..n {
            for z in 0..n {
                volume[x][y][z] = ((x * 31 + y * 17 + z * 7 + x * y * z) % 5) as u8;
            }
        }
    }
    volume
}

/// Reads the cell `(x, y, z)` out of a tree that covers the box with lowest
/// corner `origin` and the extents `extent`.
fn read(tree: &Octree<u8>, origin: [usize; 3], extent: [usize; 3], cell: [usize; 3]) -> u8 {
    match tree {
        Octree::Uniform { content } => *content,
        Octree::Subdivised { childs } => {
            assert_eq!(childs.len(), 8);
            let mut index = 0;
            let mut child_origin = origin;
            let mut child_extent = extent;
            for axis in 0..3 {
                let half = extent[axis] / 2;
                if cell[axis] < origin[axis] + half {
                    child_extent[axis] = half;
                } else {
                    child_origin[axis] = origin[axis] + half;
                    child_extent[axis] = extent[axis] - half;
                    index += 4 >> axis;
                }
            }
            read(&childs[index], child_origin, child_extent, cell)
        }
    }
}

fn assert_round_trip(volume: Vec<Vec<Vec<u8>>>) {
    let n = volume.len();
    let tree = Octree::from(volume.clone()).unwrap();
    for x in 0..n {
        for y in 0..n {
            for z in 0..n {
                assert_eq!(read(&tree, [0, 0, 0], [n, n, n], [x, y, z]), volume[x][y][z]);
            }
        }
    }
}

fn leaf(tree: &Octree<u8>) -> u8 {
    match tree {
        Octree::Uniform { content } => *content,
        Octree::Subdivised { .. } => panic!("expected a leaf"),
    }
}

#[test]
fn it_works() {
    assert!(Octree::from(filled(1, 0)).is_ok());
}

#[test]
fn uniform_volume_is_a_single_leaf_for_every_side() {
    for n in 1..=9 {
        let tree = Octree::from(filled(n, 42)).unwrap();
        assert!(matches!(tree, Octree::Uniform { content: 42 }));
    }
    let tree = Octree::from(filled(16, 3)).unwrap();
    assert!(matches!(tree, Octree::Uniform { content: 3 }));
}

#[test]
fn volume_of_side_one_is_a_leaf() {
    for v in [0u8, 1, 7, 255] {
        let tree = Octree::from(vec![vec![vec![v]]]).unwrap();
        assert_eq!(leaf(&tree), v);
    }
}

#[test]
fn volume_with_unequal_sides_is_refused() {
    let tall = vec![vec![vec![0u8; 2]; 3]; 2];
    assert!(matches!(Octree::from(tall), Err(OctreeError::NotCubic)));
    let deep = vec![vec![vec![0u8; 3]; 2]; 2];
    assert!(matches!(Octree::from(deep), Err(OctreeError::NotCubic)));
    let wide = vec![vec![vec![0u8; 2]; 2]; 3];
    assert!(matches!(Octree::from(wide), Err(OctreeError::NotCubic)));
    let chunk_shaped = vec![vec![vec![1u8; 16]; 128]; 16];
    assert_eq!(Octree::from(chunk_shaped).err(), Some(OctreeError::NotCubic));
}

#[test]
fn ragged_volume_is_refused() {
    let mut short_line = filled(3, 1);
    short_line[2][1].pop();
    assert_eq!(Octree::from(short_line).err(), Some(OctreeError::NotCubic));
    let mut short_plane = filled(3, 1);
    short_plane[1].pop();
    assert_eq!(Octree::from(short_plane).err(), Some(OctreeError::NotCubic));
    let mut long_line = filled(2, 1);
    long_line[0][0].push(1);
    assert_eq!(Octree::from(long_line).err(), Some(OctreeError::NotCubic));
}

#[test]
fn empty_volume_is_refused() {
    let nothing: Vec<Vec<Vec<u8>>> = Vec::new();
    assert_eq!(Octree::from(nothing).err(), Some(OctreeError::NotCubic));
    let no_planes: Vec<Vec<Vec<u8>>> = vec![Vec::new()];
    assert_eq!(Octree::from(no_planes).err(), Some(OctreeError::NotCubic));
}

#[test]
fn mixed_volume_has_eight_children_in_octant_order() {
    let mut volume = filled(2, 0);
    for x in 0..2 {
        for y in 0..2 {
            for z in 0..2 {
                volume[x][y][z] = (10 + 4 * x + 2 * y + z) as u8;
            }
        }
    }
    let tree = Octree::from(volume).unwrap();
    match tree {
        Octree::Subdivised { childs } => {
            assert_eq!(childs.len(), 8);
            for i in 0..8 {
                assert_eq!(leaf(&childs[i]), 10 + i as u8);
            }
        }
        Octree::Uniform { .. } => panic!("expected a subdivision"),
    }
}

#[test]
fn one_odd_cell_subdivides_only_its_octant() {
    let mut volume = filled(4, 0);
    volume[3][0][2] = 9;
    let tree = Octree::from(volume).unwrap();
    let Octree::Subdivised { childs } = tree else { panic!("expected a subdivision") };
    assert_eq!(childs.len(), 8);
    for i in [0, 1, 2, 3, 4, 6, 7] {
        assert_eq!(leaf(&childs[i]), 0);
    }
    // The cell lies in the octant high in x, low in y, high in z.
    let Octree::Subdivised { childs: inner } = &childs[5] else { panic!("expected a subdivision") };
    assert_eq!(inner.len(), 8);
    for i in 0..8 {
        // Inside that octant it is high in x, low in y and low in z.
        assert_eq!(leaf(&inner[i]), if i == 4 { 9 } else { 0 });
    }
}

#[test]
fn odd_side_is_cut_at_the_lower_half() {
    // Side 3 is cut into a low part of 1 and a high part of 2.
    let mut volume = filled(3, 0);
    volume[0][0][0] = 5;
    let tree = Octree::from(volume).unwrap();
    let Octree::Subdivised { childs } = tree else { panic!("expected a subdivision") };
    assert_eq!(leaf(&childs[0]), 5);
    for i in 1..8 {
        assert_eq!(leaf(&childs[i]), 0);
    }
}

#[test]
fn octant_without_cells_is_a_leaf_with_the_first_value_of_its_parent() {
    // In a cube of side 3 the octant low in x and y and high in z is a
    // column of two cells. Cut again, its low halves along x and y are empty.
    let mut volume = filled(3, 0);
    volume[0][0][1] = 7;
    volume[0][0][2] = 8;
    let tree = Octree::from(volume).unwrap();
    let Octree::Subdivised { childs } = tree else { panic!("expected a subdivision") };
    let Octree::Subdivised { childs: column } = &childs[1] else {
        panic!("expected a subdivision")
    };
    assert_eq!(column.len(), 8);
    for i in 0..6 {
        assert_eq!(leaf(&column[i]), 7);
    }
    assert_eq!(leaf(&column[6]), 7);
    assert_eq!(leaf(&column[7]), 8);
}

#[test]
fn tree_reproduces_every_cell() {
    for n in 1..=9 {
        assert_round_trip(varied(n));
    }
    let mut checker = filled(6, 0);
    for x in 0..6 {
        for y in 0..6 {
            for z in 0..6 {
                checker[x][y][z] = ((x + y + z) % 2) as u8;
            }
        }
    }
    assert_round_trip(checker);
}

#[test]
fn get_reads_every_cell_back() {
    for n in 1..=9 {
        let volume = varied(n);
        let tree = Octree::from(volume.clone()).unwrap();
        for x in 0..n {
            for y in 0..n {
                for z in 0..n {
                    assert_eq!(tree.get(n, x, y, z), volume[x][y][z]);
                }
            }
        }
    }
}

#[test]
fn get_descends_by_octant() {
    let mut volume = filled(4, 0);
    volume[3][0][2] = 9;
    let tree = Octree::from(volume).unwrap();
    assert_eq!(tree.get(4, 3, 0, 2), 9);
    assert_eq!(tree.get(4, 3, 0, 3), 0);
    assert_eq!(tree.get(4, 2, 0, 2), 0);
    assert_eq!(tree.get(4, 3, 1, 2), 0);
    assert_eq!(tree.get(4, 0, 3, 1), 0);
    assert_eq!((Octree::Uniform { content: 6u8 }).get(8, 7, 7, 7), 6);
}

#[test]
fn same_volume_gives_same_tree() {
    let first = Octree::from(varied(5)).unwrap();
    let second = Octree::from(varied(5)).unwrap();
    assert_eq!(first.string_repr(), second.string_repr());
}

#[test]
fn string_repr_of_a_leaf_is_its_content() {
    assert_eq!(Octree::from(filled(4, 12)).unwrap().string_repr(), "12");
    assert_eq!((Octree::Uniform { content: -3i32 }).string_repr(), "-3");
}

#[test]
fn string_repr_of_a_subdivision_lists_its_children() {
    let mut volume = filled(2, 0);
    for x in 0..2 {
        for y in 0..2 {
            for z in 0..2 {
                volume[x][y][z] = (1 + 4 * x + 2 * y + z) as u8;
            }
        }
    }
    assert_eq!(Octree::from(volume).unwrap().string_repr(), "S(1,2,3,4,5,6,7,8)");
}

#[test]
fn string_repr_nests() {
    let mut volume = filled(4, 0);
    volume[3][0][2] = 9;
    assert_eq!(
        Octree::from(volume).unwrap().string_repr(),
        "S(0,0,0,0,0,S(0,0,0,0,9,0,0,0),0,0)"
    );
}

#[test]
fn octree_compresses_other_value_types() {
    let volume = vec![
        vec![vec![true, true], vec![true, true]],
        vec![vec![true, false], vec![true, true]],
    ];
    assert_eq!(
        Octree::from(volume).unwrap().string_repr(),
        "S(true,true,true,true,true,false,true,true)"
    );
}
