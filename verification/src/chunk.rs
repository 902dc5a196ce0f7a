//! The chunk: a dense block of voxel ids, the unit in which the world is
//! stored.

use crate::voxel::{Voxel, VoxelSet};
use vstd::prelude::*;

verus! {

/// Extent of a chunk along x and along z.
pub const WIDTH: usize = 16;

/// Extent of a chunk along y.
pub const HEIGHT: usize = 128;

/// A cell of a chunk, counted from the chunk's lowest corner.
#[derive(Clone, Copy, Debug, PartialEq, Eq, Structural)]
pub struct LocalPos {
    pub x: u32,
    pub y: u32,
    pub z: u32,
}

impl LocalPos {
    /// The position lies inside a chunk.
    pub open spec fn in_chunk(self) -> bool {
        self.x < WIDTH && self.y < HEIGHT && self.z < WIDTH
    }

    pub fn new(x: u32, y: u32, z: u32) -> (pos: LocalPos)
        ensures
            pos == (LocalPos { x, y, z }),
    {
        LocalPos { x, y, z }
    }
}

/// A dense block of `WIDTH` x `HEIGHT` x `WIDTH` voxel ids.
pub struct Chunk<T: VoxelSet> {
    voxels: [[[T::Id; WIDTH]; HEIGHT]; WIDTH],
}

impl<T: VoxelSet> Chunk<T> {
    /// The id stored for the cell `(x, y, z)`.
    pub closed spec fn voxel_at(&self, x: int, y: int, z: int) -> T::Id {
        self.voxels[x][y][z]
    }

    /// Create chunk from voxel list
    pub fn new(voxels: [[[T::Id; WIDTH]; HEIGHT]; WIDTH]) -> (chunk: Self)
        ensures
            forall|x: int, y: int, z: int|
                0 <= x < WIDTH && 0 <= y < HEIGHT && 0 <= z < WIDTH ==> #[trigger] chunk.voxel_at(
                    x,
                    y,
                    z,
                ) == voxels[x][y][z],
    {
        Self { voxels }
    }

    /// Return voxel id in chunk coordinates
    pub fn get_voxel_id(&self, pos: LocalPos) -> (voxel_id: T::Id)
        requires
            pos.in_chunk(),
        ensures
            voxel_id == self.voxel_at(pos.x as int, pos.y as int, pos.z as int),
    {
        self.voxels[pos.x as usize][pos.y as usize][pos.z as usize]
    }

    /// Return voxel in chunk coordinates
    pub fn get_voxel(&self, pos: LocalPos) -> (voxel: Voxel)
        requires
            pos.in_chunk(),
        ensures
            voxel == T::voxel_of(self.voxel_at(pos.x as int, pos.y as int, pos.z as int)),
    {
        T::get_voxel_by_id(self.get_voxel_id(pos))
    }

    /// Clone chunk content into a new dynamic array
    pub fn clone_voxels(&self) -> (volume: Vec<Vec<Vec<T::Id>>>)
        ensures
            volume.len() == WIDTH,
            forall|x: int| 0 <= x < WIDTH ==> (#[trigger] volume[x]).len() == HEIGHT,
            forall|x: int, y: int|
                0 <= x < WIDTH && 0 <= y < HEIGHT ==> (#[trigger] volume[x][y]).len() == WIDTH,
            forall|x: int, y: int, z: int|
                0 <= x < WIDTH && 0 <= y < HEIGHT && 0 <= z < WIDTH ==> #[trigger] volume[x][y][z]
                    == self.voxel_at(x, y, z),
    {
        let mut volume: Vec<Vec<Vec<T::Id>>> = Vec::new();
        let mut x: usize = 0;
        while x < WIDTH
            invariant
                x <= WIDTH,
                volume.len() == x,
                forall|i: int| 0 <= i < x ==> (#[trigger] volume[i]).len() == HEIGHT,
                forall|i: int, j: int|
                    0 <= i < x && 0 <= j < HEIGHT ==> (#[trigger] volume[i][j]).len() == WIDTH,
                forall|i: int, j: int, k: int|
                    0 <= i < x && 0 <= j < HEIGHT && 0 <= k < WIDTH ==> #[trigger] volume[i][j][k]
                        == self.voxel_at(i, j, k),
            decreases WIDTH - x,
        {
            let mut surface: Vec<Vec<T::Id>> = Vec::new();
            let mut y: usize = 0;
            while y < HEIGHT
                invariant
                    x < WIDTH,
                    y <= HEIGHT,
                    surface.len() == y,
                    forall|j: int| 0 <= j < y ==> (#[trigger] surface[j]).len() == WIDTH,
                    forall|j: int, k: int|
                        0 <= j < y && 0 <= k < WIDTH ==> #[trigger] surface[j][k] == self.voxel_at(
                            x as int,
                            j,
                            k,
                        ),
                decreases HEIGHT - y,
            {
                let mut line: Vec<T::Id> = Vec::new();
                let mut z: usize = 0;
                while z < WIDTH
                    invariant
                        x < WIDTH,
                        y < HEIGHT,
                        z <= WIDTH,
                        line.len() == z,
                        forall|k: int|
                            0 <= k < z ==> #[trigger] line[k] == self.voxel_at(
                                x as int,
                                y as int,
                                k,
                            ),
                    decreases WIDTH - z,
                {
                    line.push(self.get_voxel_id(LocalPos::new(x as u32, y as u32, z as u32)));
                    z += 1;
                }
                surface.push(line);
                y += 1;
            }
            volume.push(surface);
            x += 1;
        }
        volume
    }
}

} // verus!
