use voxel_world::chunk::{Chunk, LocalPos, HEIGHT, WIDTH};
use voxel_world::voxel::{BasicSet, Voxel, VoxelSet};
use voxel_world::world::{ChunkPos, VoxelWorld, WorldPos};

type Cells = [[[u8; WIDTH]; HEIGHT]; WIDTH];

fn cells(id: u8) -> Cells {
    [[[id; WIDTH]; HEIGHT]; WIDTH]
}

fn chunk(id: u8) -> Chunk<BasicSet> {
    Chunk::new(cells(id))
}

/// A chunk of air but for one cell.
fn chunk_with(x: usize, y: usize, z: usize, id: u8) -> Chunk<BasicSet> {
    let mut voxels = cells(0);
    voxels[x][y][z] = id;
    Chunk::new(voxels)
}

/// A table of `rows` by `columns` chunks, each filled with `id`.
fn table(rows: usize, columns: usize, id: u8) -> Vec<Vec<Chunk<BasicSet>>> {
    let mut quadrant = Vec::new();
    for _ in 0..rows {
        let mut line = Vec::new();
        for _ in 0..columns {
            line.push(chunk(id));
        }
        quadrant.push(line);
    }
    quadrant
}

fn empty_world() -> VoxelWorld<BasicSet> {
    VoxelWorld::new([Vec::new(), Vec::new(), Vec::new(), Vec::new()])
}

#[test]
fn basic_set_resolves_every_id() {
    assert_eq!(BasicSet::get_voxel_by_id(0), Voxel::Air);
    assert_eq!(BasicSet::get_voxel_by_id(1), Voxel::Grass);
    for id in 2..=255u8 {
        assert_eq!(BasicSet::get_voxel_by_id(id), Voxel::Error);
    }
}

#[test]
fn basic_set_sees_through_air_only() {
    assert!(BasicSet::is_transparent(0));
    for id in 1..=255u8 {
        assert!(!BasicSet::is_transparent(id));
    }
    assert_eq!(BasicSet::get_default_voxel_id(), 0);
}

#[test]
fn only_air_has_no_faces() {
    assert!(!Voxel::Air.has_faces());
    assert!(Voxel::Grass.has_faces());
    assert!(Voxel::Error.has_faces());
}

#[test]
fn chunk_reads_back_what_it_was_built_from() {
    let mut voxels = cells(0);
    voxels[0][0][0] = 1;
    voxels[15][127][15] = 2;
    voxels[3][100][9] = 1;
    let chunk: Chunk<BasicSet> = Chunk::new(voxels);
    assert_eq!(chunk.get_voxel_id(LocalPos::new(0, 0, 0)), 1);
    assert_eq!(chunk.get_voxel_id(LocalPos::new(15, 127, 15)), 2);
    assert_eq!(chunk.get_voxel_id(LocalPos::new(3, 100, 9)), 1);
    assert_eq!(chunk.get_voxel_id(LocalPos::new(9, 100, 3)), 0);
    assert_eq!(chunk.get_voxel(LocalPos::new(0, 0, 0)), Voxel::Grass);
    assert_eq!(chunk.get_voxel(LocalPos::new(15, 127, 15)), Voxel::Error);
    assert_eq!(chunk.get_voxel(LocalPos::new(1, 1, 1)), Voxel::Air);
}

#[test]
fn clone_voxels_copies_the_chunk() {
    let mut voxels = cells(0);
    for x in 0..WIDTH {
        for y in 0..HEIGHT {
            for z in 0..WIDTH {
                voxels[x][y][z] = ((x + 3 * y + 5 * z) % 3) as u8;
            }
        }
    }
    let chunk: Chunk<BasicSet> = Chunk::new(voxels);
    let volume = chunk.clone_voxels();
    assert_eq!(volume.len(), WIDTH);
    for x in 0..WIDTH {
        assert_eq!(volume[x].len(), HEIGHT);
        for y in 0..HEIGHT {
            assert_eq!(volume[x][y].len(), WIDTH);
            for z in 0..WIDTH {
                assert_eq!(volume[x][y][z], voxels[x][y][z]);
            }
        }
    }
}

#[test]
fn quadrant_follows_the_signs_of_the_chunk_position() {
    assert_eq!(VoxelWorld::<BasicSet>::chunk_pos_signature(ChunkPos::new(5, -3)), (true, false));
    assert_eq!(VoxelWorld::<BasicSet>::chunk_pos_signature(ChunkPos::new(0, 0)), (true, true));
    assert_eq!(VoxelWorld::<BasicSet>::chunk_pos_signature(ChunkPos::new(-1, 0)), (false, true));
    assert_eq!(VoxelWorld::<BasicSet>::chunk_pos_signature(ChunkPos::new(-7, -9)), (false, false));

    // Each quadrant gets a table of its own size, to tell them apart.
    let world = VoxelWorld::new([table(1, 1, 1), table(2, 1, 1), table(3, 1, 1), table(4, 1, 1)]);
    for magnitude in [1, 5, 1000, i32::MAX] {
        assert_eq!(world.get_quadrant(ChunkPos::new(magnitude, magnitude)).len(), 1);
        assert_eq!(world.get_quadrant(ChunkPos::new(-magnitude, magnitude)).len(), 2);
        assert_eq!(world.get_quadrant(ChunkPos::new(-magnitude, -magnitude)).len(), 3);
        assert_eq!(world.get_quadrant(ChunkPos::new(magnitude, -magnitude)).len(), 4);
    }
    assert_eq!(world.get_quadrant(ChunkPos::new(5, -3)).len(), 4);
    assert_eq!(world.get_quadrant(ChunkPos::new(0, 0)).len(), 1);
    assert_eq!(world.get_quadrant(ChunkPos::new(0, -1)).len(), 4);
    assert_eq!(world.get_quadrant(ChunkPos::new(-1, 0)).len(), 2);
    assert_eq!(world.get_quadrant(ChunkPos::new(i32::MIN, i32::MIN)).len(), 3);
}

#[test]
fn chunk_is_found_by_the_magnitudes_of_its_position() {
    let mut south_east = table(6, 4, 0);
    south_east[5][3] = chunk(1);
    let world = VoxelWorld::new([Vec::new(), Vec::new(), Vec::new(), south_east]);
    let found = world.get_chunk(ChunkPos::new(5, -3)).unwrap();
    assert_eq!(found.get_voxel_id(LocalPos::new(0, 0, 0)), 1);
    let other = world.get_chunk(ChunkPos::new(3, -3)).unwrap();
    assert_eq!(other.get_voxel_id(LocalPos::new(0, 0, 0)), 0);
    // The same magnitudes with other signs fall in other quadrants.
    assert!(world.get_chunk(ChunkPos::new(5, 3)).is_none());
    assert!(world.get_chunk(ChunkPos::new(-5, 3)).is_none());
    assert!(world.get_chunk(ChunkPos::new(-5, -3)).is_none());
}

#[test]
fn chunk_outside_the_table_is_absent() {
    let world = VoxelWorld::new([table(2, 3, 1), Vec::new(), Vec::new(), Vec::new()]);
    assert!(world.get_chunk(ChunkPos::new(1, 2)).is_some());
    assert!(world.get_chunk(ChunkPos::new(2, 0)).is_none());
    assert!(world.get_chunk(ChunkPos::new(0, 3)).is_none());
    assert!(world.get_chunk(ChunkPos::new(i32::MAX, 0)).is_none());
    assert!(world.get_chunk(ChunkPos::new(i32::MIN, i32::MIN)).is_none());
    assert!(empty_world().get_chunk(ChunkPos::new(0, 0)).is_none());
}

#[test]
fn ragged_table_holds_what_each_row_reaches() {
    let mut quadrant = table(2, 1, 1);
    quadrant[1].push(chunk(1));
    let world = VoxelWorld::new([quadrant, Vec::new(), Vec::new(), Vec::new()]);
    assert!(world.get_chunk(ChunkPos::new(0, 0)).is_some());
    assert!(world.get_chunk(ChunkPos::new(0, 1)).is_none());
    assert!(world.get_chunk(ChunkPos::new(1, 1)).is_some());
}

#[test]
fn negative_coordinate_maps_to_the_chunk_below_zero() {
    // Global x = -1 is the last cell of chunk -1 and not a cell of chunk 0.
    let mut north_west = table(2, 1, 0);
    north_west[1][0] = chunk_with(15, 3, 0, 1);
    let mut north_east = table(1, 1, 0);
    north_east[0][0] = chunk_with(1, 3, 0, 2);
    let world = VoxelWorld::new([north_east, north_west, Vec::new(), Vec::new()]);
    assert_eq!(world.get_voxel_id(WorldPos::new(-1, 3, 0)), 1);
    assert_eq!(world.get_voxel_id(WorldPos::new(1, 3, 0)), 2);
    assert_eq!(world.get_voxel_id(WorldPos::new(-2, 3, 0)), 0);
    assert_eq!(world.get_voxel_id(WorldPos::new(-15, 3, 0)), 0);
    assert_eq!(world.get_voxel(WorldPos::new(-1, 3, 0)), Voxel::Grass);
}

#[test]
fn coordinates_split_by_floor_on_both_axes() {
    let mut south_west = table(3, 3, 0);
    // Chunk (-2, -1): x in -32..-16, z in -16..0.
    south_west[2][1] = chunk_with(0, 10, 15, 1);
    let world = VoxelWorld::new([Vec::new(), Vec::new(), south_west, Vec::new()]);
    assert_eq!(world.get_voxel_id(WorldPos::new(-32, 10, -1)), 1);
    assert_eq!(world.get_voxel_id(WorldPos::new(-31, 10, -1)), 0);
    assert_eq!(world.get_voxel_id(WorldPos::new(-32, 10, -2)), 0);
    assert_eq!(world.get_voxel_id(WorldPos::new(-16, 10, -1)), 0);
    assert_eq!(world.get_voxel_id(WorldPos::new(-32, 10, -16)), 0);
}

#[test]
fn positive_coordinates_split_by_the_width() {
    let mut north_east = table(3, 2, 0);
    north_east[2][1] = chunk_with(5, 127, 0, 1);
    let world = VoxelWorld::new([north_east, Vec::new(), Vec::new(), Vec::new()]);
    assert_eq!(world.get_voxel_id(WorldPos::new(37, 127, 16)), 1);
    assert_eq!(world.get_voxel_id(WorldPos::new(37, 126, 16)), 0);
    assert_eq!(world.get_voxel_id(WorldPos::new(5, 127, 0)), 0);
}

#[test]
fn space_without_a_chunk_reads_as_default() {
    let world = VoxelWorld::new([table(1, 1, 1), Vec::new(), Vec::new(), Vec::new()]);
    assert_eq!(world.get_voxel_id(WorldPos::new(0, 0, 0)), 1);
    assert_eq!(world.get_voxel_id(WorldPos::new(16, 0, 0)), 0);
    assert_eq!(world.get_voxel_id(WorldPos::new(0, 0, 16)), 0);
    assert_eq!(world.get_voxel_id(WorldPos::new(-1, 0, 0)), 0);
    assert_eq!(world.get_voxel_id(WorldPos::new(0, 0, -1)), 0);
    assert_eq!(world.get_voxel_id(WorldPos::new(i32::MAX, 5, i32::MIN)), 0);
    assert_eq!(world.get_voxel_id(WorldPos::new(i32::MIN, 5, i32::MAX)), 0);
    assert_eq!(world.get_voxel(WorldPos::new(100, 5, 100)), Voxel::Air);
    assert_eq!(empty_world().get_voxel_id(WorldPos::new(0, 0, 0)), 0);
}

#[test]
fn space_above_and_below_the_world_reads_as_default() {
    let world = VoxelWorld::new([table(1, 1, 1), Vec::new(), Vec::new(), Vec::new()]);
    assert_eq!(world.get_voxel_id(WorldPos::new(3, 0, 3)), 1);
    assert_eq!(world.get_voxel_id(WorldPos::new(3, 127, 3)), 1);
    assert_eq!(world.get_voxel_id(WorldPos::new(3, -1, 3)), 0);
    assert_eq!(world.get_voxel_id(WorldPos::new(3, 128, 3)), 0);
    assert_eq!(world.get_voxel_id(WorldPos::new(3, i32::MIN, 3)), 0);
    assert_eq!(world.get_voxel_id(WorldPos::new(3, i32::MAX, 3)), 0);
    assert_eq!(world.get_voxel(WorldPos::new(3, 128, 3)), Voxel::Air);
}

#[test]
fn unknown_id_reads_as_the_error_voxel() {
    let world = VoxelWorld::new([table(1, 1, 200), Vec::new(), Vec::new(), Vec::new()]);
    assert_eq!(world.get_voxel_id(WorldPos::new(1, 1, 1)), 200);
    assert_eq!(world.get_voxel(WorldPos::new(1, 1, 1)), Voxel::Error);
}
