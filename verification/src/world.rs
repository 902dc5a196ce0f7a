//! The world: chunks on an unbounded plane, the voxel at any position, and
//! the visible surface of a chunk.

use crate::chunk::{Chunk, LocalPos, HEIGHT, WIDTH};
use crate::mesh::{MeshBuffer, MeshModel, Vertex};
use crate::surface::{
    assemble, assembled_counts, assembled_face, assembled_flat_normals,
    assembled_triangle_normal, candidate, candidate_count, candidate_lies_in_chunk, candidates,
    candidates_of_cell, cell_number, faces_of_cell, filter_keeps_all, filter_keeps_none, side,
    Face,
};
use crate::voxel::{Orientation, Voxel, VoxelSet};
use vstd::prelude::*;

verus! {

/// `i64::div_euclid`, for a positive divisor: the quotient of Euclidean
/// division, which rounds towards negative infinity. With a positive divisor
/// the call neither overflows nor divides by zero.
pub assume_specification[ i64::div_euclid ](lhs: i64, rhs: i64) -> (quotient: i64)
    requires
        rhs > 0,
    ensures
        quotient == lhs as int / rhs as int,
;

/// `i64::rem_euclid`, for a positive divisor: the least non-negative
/// remainder of the division.
pub assume_specification[ i64::rem_euclid ](lhs: i64, rhs: i64) -> (remainder: i64)
    requires
        rhs > 0,
    ensures
        remainder == lhs as int % rhs as int,
;

/// `i64::abs`: the absolute value. `i64::MIN` has none in `i64` and is left
/// out.
pub assume_specification[ i64::abs ](value: i64) -> (magnitude: i64)
    requires
        value != i64::MIN,
    ensures
        magnitude == vstd::math::abs(value as int),
;

/// The chunk coordinate that holds the global coordinate `x`: `x` divided by
/// the chunk width, rounded towards negative infinity.
pub open spec fn chunk_coord(x: int) -> int {
    x / WIDTH as int
}

/// Where the global coordinate `x` lies inside its chunk: the remainder of
/// `x` by the chunk width, never negative.
pub open spec fn local_coord(x: int) -> int {
    x % WIDTH as int
}

/// Which of the four quadrants holds the chunk `(cx, cz)`, by the signs of
/// its coordinates, zero counting as positive:
/// `(+, +)` is 0, `(-, +)` is 1, `(-, -)` is 2 and `(+, -)` is 3.
pub open spec fn quadrant_index(cx: int, cz: int) -> int {
    if cx >= 0 {
        if cz >= 0 {
            0
        } else {
            3
        }
    } else {
        if cz >= 0 {
            1
        } else {
            2
        }
    }
}

/// The position of a chunk on the plane, in chunks.
#[derive(Clone, Copy, Debug, PartialEq, Eq, Structural)]
pub struct ChunkPos {
    pub x: i32,
    pub z: i32,
}

impl ChunkPos {
    pub fn new(x: i32, z: i32) -> (pos: ChunkPos)
        ensures
            pos == (ChunkPos { x, z }),
    {
        ChunkPos { x, z }
    }
}

/// The position of a voxel in the world, in voxels.
#[derive(Clone, Copy, Debug, PartialEq, Eq, Structural)]
pub struct WorldPos {
    pub x: i32,
    pub y: i32,
    pub z: i32,
}

impl WorldPos {
    pub fn new(x: i32, y: i32, z: i32) -> (pos: WorldPos)
        ensures
            pos == (WorldPos { x, y, z }),
    {
        WorldPos { x, y, z }
    }
}

/// An unbounded plane of chunks, `HEIGHT` voxels tall. Each quadrant of the
/// plane has a table of its chunks, indexed by the magnitudes of their chunk
/// coordinates; what a table does not reach holds no chunk.
pub struct VoxelWorld<T: VoxelSet> {
    /// Sorted in trigonometric order
    pub quadrants: [Vec<Vec<Chunk<T>>>; 4],
}

impl<T: VoxelSet> VoxelWorld<T> {
    /// The table of the quadrant that holds the chunk `(cx, cz)`.
    pub open spec fn quadrant_of(&self, cx: int, cz: int) -> Vec<Vec<Chunk<T>>> {
        self.quadrants[quadrant_index(cx, cz)]
    }

    /// Whether the world holds a chunk at `(cx, cz)`.
    pub open spec fn has_chunk(&self, cx: int, cz: int) -> bool {
        let quadrant = self.quadrant_of(cx, cz);
        let i = vstd::math::abs(cx) as int;
        let j = vstd::math::abs(cz) as int;
        i < quadrant.len() && j < quadrant[i].len()
    }

    /// The chunk at `(cx, cz)`, where the world holds one.
    pub open spec fn chunk_at(&self, cx: int, cz: int) -> Chunk<T> {
        self.quadrant_of(cx, cz)[vstd::math::abs(cx) as int][vstd::math::abs(cz) as int]
    }

    /// The id read at the global position `(x, y, z)`: the cell of the chunk
    /// that holds it, or the catalog's default id above and below the world
    /// and where no chunk is held.
    pub open spec fn voxel_id_at(&self, x: int, y: int, z: int) -> T::Id {
        if y < 0 || y >= HEIGHT {
            T::default_id()
        } else if self.has_chunk(chunk_coord(x), chunk_coord(z)) {
            self.chunk_at(chunk_coord(x), chunk_coord(z)).voxel_at(
                local_coord(x),
                y,
                local_coord(z),
            )
        } else {
            T::default_id()
        }
    }

    pub fn new(quadrants: [Vec<Vec<Chunk<T>>>; 4]) -> (world: Self)
        ensures
            world.quadrants == quadrants,
    {
        Self { quadrants }
    }

    /// The signs of a chunk position, zero counting as positive.
    pub fn chunk_pos_signature(pos: ChunkPos) -> (signs: (bool, bool))
        ensures
            signs == (pos.x >= 0, pos.z >= 0),
    {
        (pos.x >= 0, pos.z >= 0)
    }

    /// The table of the quadrant that a chunk position falls in.
    pub fn get_quadrant(&self, pos: ChunkPos) -> (quadrant: &Vec<Vec<Chunk<T>>>)
        ensures
            *quadrant == self.quadrant_of(pos.x as int, pos.z as int),
    {
        self.quadrant_for(pos.x as i64, pos.z as i64)
    }

    fn quadrant_for(&self, cx: i64, cz: i64) -> (quadrant: &Vec<Vec<Chunk<T>>>)
        ensures
            *quadrant == self.quadrant_of(cx as int, cz as int),
    {
        if cx >= 0 {
            if cz >= 0 {
                &self.quadrants[0]
            } else {
                &self.quadrants[3]
            }
        } else {
            if cz >= 0 {
                &self.quadrants[1]
            } else {
                &self.quadrants[2]
            }
        }
    }

    /// The chunk at a chunk position, or `None` where the world holds none.
    pub fn get_chunk(&self, pos: ChunkPos) -> (chunk: Option<&Chunk<T>>)
        ensures
            chunk is Some <==> self.has_chunk(pos.x as int, pos.z as int),
            chunk matches Some(c) ==> *c == self.chunk_at(pos.x as int, pos.z as int),
    {
        self.chunk_for(pos.x as i64, pos.z as i64)
    }

    fn chunk_for(&self, cx: i64, cz: i64) -> (chunk: Option<&Chunk<T>>)
        requires
            cx != i64::MIN && cz != i64::MIN,
        ensures
            chunk is Some <==> self.has_chunk(cx as int, cz as int),
            chunk matches Some(c) ==> *c == self.chunk_at(cx as int, cz as int),
    {
        let quadrant = self.quadrant_for(cx, cz);
        let i = cx.abs() as u64;
        let j = cz.abs() as u64;
        if quadrant.len() as u64 > i {
            if quadrant[i as usize].len() as u64 > j {
                return Some(&quadrant[i as usize][j as usize]);
            }
        }
        None
    }

    /// The kind of voxel at a global position.
    pub fn get_voxel(&self, pos: WorldPos) -> (voxel: Voxel)
        ensures
            voxel == T::voxel_of(self.voxel_id_at(pos.x as int, pos.y as int, pos.z as int)),
    {
        T::get_voxel_by_id(self.get_voxel_id(pos))
    }

    /// The id at a global position. Outside the height of the world, and
    /// where no chunk is held, this is the catalog's default id.
    pub fn get_voxel_id(&self, pos: WorldPos) -> (voxel_id: T::Id)
        ensures
            voxel_id == self.voxel_id_at(pos.x as int, pos.y as int, pos.z as int),
            pos.y < 0 || pos.y >= HEIGHT ==> voxel_id == T::default_id(),
            !self.has_chunk(chunk_coord(pos.x as int), chunk_coord(pos.z as int)) ==> voxel_id
                == T::default_id(),
    {
        self.id_at(pos.x as i64, pos.y as i64, pos.z as i64)
    }

    fn id_at(&self, x: i64, y: i64, z: i64) -> (voxel_id: T::Id)
        ensures
            voxel_id == self.voxel_id_at(x as int, y as int, z as int),
    {
        let cx = x.div_euclid(WIDTH as i64);
        let cz = z.div_euclid(WIDTH as i64);

        if y < 0 || y >= HEIGHT as i64 {
            return T::get_default_voxel_id();
        }
        let voxel_pos_in_chunk = LocalPos::new(
            x.rem_euclid(WIDTH as i64) as u32,
            y as u32,
            z.rem_euclid(WIDTH as i64) as u32,
        );
        if let Some(chunk) = self.chunk_for(cx, cz) {
            chunk.get_voxel_id(voxel_pos_in_chunk)
        } else {
            T::get_default_voxel_id()
        }
    }

    /// Whether a face of the chunk at `pos` is seen: the voxel of its cell
    /// has faces, and the neighbour that the face looks at, read through
    /// the world, is transparent.
    pub open spec fn shows(&self, pos: ChunkPos, face: Face) -> bool {
        let x = pos.x * WIDTH + face.x;
        let z = pos.z * WIDTH + face.z;
        let towards = face.orientation.direction();
        &&& T::transparent(self.voxel_id_at(x + towards.x, face.y + towards.y, z + towards.z))
        &&& T::voxel_of(self.voxel_id_at(x, face.y, z)).has_faces()
    }

    /// Those of `faces` that are seen, in their order.
    pub open spec fn visible_among(&self, pos: ChunkPos, faces: Seq<Face>) -> Seq<Face> {
        faces.filter(|face: Face| self.shows(pos, face))
    }

    /// The faces of the chunk at `pos` that are seen, in the order of the
    /// sweep.
    pub open spec fn visible_faces(&self, pos: ChunkPos) -> Seq<Face> {
        self.visible_among(pos, candidates())
    }

    /// The surface of the chunk at `pos`: the mesh of its visible faces,
    /// with flat normals.
    pub open spec fn chunk_mesh(&self, pos: ChunkPos) -> MeshModel {
        assemble(self.visible_faces(pos)).with_flat_normals()
    }

    /// The world holds a chunk at `(cx, cz)` and every cell of it holds
    /// `id`.
    pub open spec fn chunk_filled_with(&self, cx: int, cz: int, id: T::Id) -> bool {
        &&& self.has_chunk(cx, cz)
        &&& forall|x: int, y: int, z: int|
            0 <= x < WIDTH && 0 <= y < HEIGHT && 0 <= z < WIDTH ==> #[trigger] self.chunk_at(
                cx,
                cz,
            ).voxel_at(x, y, z) == id
    }

    /// The chunk at `pos` and its four neighbours on the plane are all
    /// filled with `id`.
    pub open spec fn enclosed_in(&self, pos: ChunkPos, id: T::Id) -> bool {
        &&& self.chunk_filled_with(pos.x as int, pos.z as int, id)
        &&& self.chunk_filled_with(pos.x + 1, pos.z as int, id)
        &&& self.chunk_filled_with(pos.x - 1, pos.z as int, id)
        &&& self.chunk_filled_with(pos.x as int, pos.z + 1, id)
        &&& self.chunk_filled_with(pos.x as int, pos.z - 1, id)
    }

    /// Looking at one more face adds it where it is seen.
    proof fn visible_among_push(&self, pos: ChunkPos, faces: Seq<Face>, face: Face)
        ensures
            self.visible_among(pos, faces.push(face)) == if self.shows(pos, face) {
                self.visible_among(pos, faces).push(face)
            } else {
                self.visible_among(pos, faces)
            },
            self.visible_among(pos, faces).len() <= faces.len(),
    {
        faces.lemma_filter_push(face, |face: Face| self.shows(pos, face));
        faces.lemma_filter_len(|face: Face| self.shows(pos, face));
    }

    /// Looks at one side of one cell and adds its face to the mesh where it
    /// is seen.
    fn sweep_side(
        &self,
        mesh: &mut MeshBuffer,
        pos: ChunkPos,
        x: usize,
        y: usize,
        z: usize,
        orientation: Orientation,
        voxel: Voxel,
        Ghost(k): Ghost<int>,
    )
        requires
            x < WIDTH && y < HEIGHT && z < WIDTH,
            0 <= k < candidate_count(),
            candidate(k) == (Face { x: x as int, y: y as int, z: z as int, orientation }),
            voxel == T::voxel_of(
                self.voxel_id_at(pos.x * WIDTH + x, y as int, pos.z * WIDTH + z),
            ),
            old(mesh)@ == assemble(self.visible_among(pos, candidates().take(k))),
        ensures
            final(mesh)@ == assemble(self.visible_among(pos, candidates().take(k + 1))),
    {
        let ghost face = candidate(k);
        let ghost seen = self.visible_among(pos, candidates().take(k));
        proof {
            assert(candidates().take(k + 1) =~= candidates().take(k).push(face));
            self.visible_among_push(pos, candidates().take(k), face);
            assembled_counts(seen);
        }
        let (dx, dy, dz) = orientation.step();
        let gx = pos.x as i64 * WIDTH as i64 + x as i64;
        let gz = pos.z as i64 * WIDTH as i64 + z as i64;
        if T::is_transparent(self.id_at(gx + dx, y as i64 + dy, gz + dz)) {
            let quad = voxel.get_face_mesh(orientation);
            let moved = quad.translated_by(Vertex::new(x as i32, y as i32, z as i32));
            mesh.merge(moved);
            proof {
                if voxel.has_faces() {
                    assert(seen.push(face).drop_last() =~= seen);
                    assert(moved@ == face.model());
                } else {
                    assert(moved@.positions =~= Seq::empty());
                    assert(mesh@.positions =~= assemble(seen).positions);
                    assert(mesh@.indices =~= assemble(seen).indices);
                    assert(mesh@.normals =~= assemble(seen).normals);
                }
            }
        }
    }

    /// The surface of the chunk at a chunk position.
    ///
    /// Every cell of the chunk is visited, x outermost and z innermost, and
    /// its six sides are looked at: north, south, east, west, up, down. A
    /// side gets a face where the voxel of the cell has faces and the
    /// neighbour on that side, read through the world and so also across
    /// the borders of the chunk, is transparent. Every face has four
    /// vertices and two triangles of its own, placed in the coordinates of
    /// the chunk, and every vertex gets the flat normal of its face.
    pub fn create_chunk_mesh(&self, pos: ChunkPos) -> (mesh: MeshBuffer)
        ensures
            mesh@ == self.chunk_mesh(pos),
            mesh@.well_formed(),
            mesh@.positions.len() == 4 * self.visible_faces(pos).len(),
            mesh@.indices.len() == 6 * self.visible_faces(pos).len(),
            mesh@.normals.len() == mesh@.positions.len(),
    {
        let mut mesh = MeshBuffer::new();
        let ghost mut k: int = 0;
        proof {
            assert(self.visible_among(pos, candidates().take(0)) =~= Seq::empty()) by {
                candidates().take(0).lemma_filter_len(|face: Face| self.shows(pos, face));
            }
        }
        let mut x: usize = 0;
        while x < WIDTH
            invariant
                x <= WIDTH,
                k == 6 * (x * HEIGHT * WIDTH),
                mesh@ == assemble(self.visible_among(pos, candidates().take(k))),
            decreases WIDTH - x,
        {
            let mut y: usize = 0;
            while y < HEIGHT
                invariant
                    x < WIDTH,
                    y <= HEIGHT,
                    k == 6 * ((x * HEIGHT + y) * WIDTH),
                    mesh@ == assemble(self.visible_among(pos, candidates().take(k))),
                decreases HEIGHT - y,
            {
                let mut z: usize = 0;
                while z < WIDTH
                    invariant
                        x < WIDTH,
                        y < HEIGHT,
                        z <= WIDTH,
                        k == 6 * ((x * HEIGHT + y) * WIDTH + z),
                        mesh@ == assemble(self.visible_among(pos, candidates().take(k))),
                    decreases WIDTH - z,
                {
                    let gx = pos.x as i64 * WIDTH as i64 + x as i64;
                    let gz = pos.z as i64 * WIDTH as i64 + z as i64;
                    let voxel = T::get_voxel_by_id(self.id_at(gx, y as i64, gz));
                    self.sweep_side(&mut mesh, pos, x, y, z, Orientation::North, voxel, Ghost(k));
                    self.sweep_side(
                        &mut mesh,
                        pos,
                        x,
                        y,
                        z,
                        Orientation::South,
                        voxel,
                        Ghost(k + 1),
                    );
                    self.sweep_side(
                        &mut mesh,
                        pos,
                        x,
                        y,
                        z,
                        Orientation::East,
                        voxel,
                        Ghost(k + 2),
                    );
                    self.sweep_side(
                        &mut mesh,
                        pos,
                        x,
                        y,
                        z,
                        Orientation::West,
                        voxel,
                        Ghost(k + 3),
                    );
                    self.sweep_side(&mut mesh, pos, x, y, z, Orientation::Up, voxel, Ghost(k + 4));
                    self.sweep_side(
                        &mut mesh,
                        pos,
                        x,
                        y,
                        z,
                        Orientation::Down,
                        voxel,
                        Ghost(k + 5),
                    );
                    proof {
                        k = k + 6;
                    }
                    z += 1;
                }
                y += 1;
            }
            x += 1;
        }
        proof {
            let faces = self.visible_faces(pos);
            assert(candidates().take(k) =~= candidates());
            assembled_counts(faces);
            assert forall|t: int| 0 <= t < assemble(faces).triangles() implies (
            #[trigger] assemble(faces).triangle_normal(t)).fits() by {
                assembled_triangle_normal(faces, t);
            }
            assembled_flat_normals(faces);
        }
        mesh.with_computed_flat_normals()
    }
}

/// The split of a global coordinate into a chunk coordinate and a place in
/// the chunk is Euclidean: the place is never negative, also for negative
/// coordinates, and no other split `(c, l)` has its place inside the chunk.
pub proof fn coordinate_split_is_euclidean(x: int, c: int, l: int)
    ensures
        0 <= local_coord(x) < WIDTH,
        x == chunk_coord(x) * WIDTH + local_coord(x),
        0 <= l < WIDTH && x == c * WIDTH + l ==> c == chunk_coord(x) && l == local_coord(x),
{
}

/// The quadrant of a chunk follows from the signs of its coordinates alone,
/// whatever their magnitudes.
pub proof fn quadrant_follows_signs(ax: int, az: int, bx: int, bz: int)
    requires
        (ax >= 0) == (bx >= 0),
        (az >= 0) == (bz >= 0),
    ensures
        quadrant_index(ax, az) == quadrant_index(bx, bz),
        0 <= quadrant_index(ax, az) < 4,
{
}

/// A position above or below the world, or in a chunk that the world does
/// not hold, reads as the catalog's default id.
pub proof fn unheld_space_reads_default<T: VoxelSet>(world: VoxelWorld<T>, x: int, y: int, z: int)
    requires
        y < 0 || y >= HEIGHT || !world.has_chunk(chunk_coord(x), chunk_coord(z)),
    ensures
        world.voxel_id_at(x, y, z) == T::default_id(),
{
}

/// In a chunk filled with one opaque id, among neighbours filled with the
/// same id, no face between two voxels is seen: a face that is seen lies on
/// top of the world and looks up, or at its bottom and looks down, and it
/// is seen because the catalog's default id is transparent.
pub proof fn enclosed_chunk_shows_only_top_and_bottom<T: VoxelSet>(
    world: VoxelWorld<T>,
    pos: ChunkPos,
    id: T::Id,
    k: int,
)
    requires
        world.enclosed_in(pos, id),
        !T::transparent(id),
        0 <= k < candidate_count(),
        world.shows(pos, candidate(k)),
    ensures
        T::transparent(T::default_id()),
        T::voxel_of(id).has_faces(),
        (candidate(k).orientation == Orientation::Up && candidate(k).y == HEIGHT - 1) || (
        candidate(k).orientation == Orientation::Down && candidate(k).y == 0),
{
    let face = candidate(k);
    let towards = face.orientation.direction();
    let x = pos.x * WIDTH + face.x;
    let z = pos.z * WIDTH + face.z;
    candidate_lies_in_chunk(k);
    assert(chunk_coord(x) == pos.x && local_coord(x) == face.x);
    assert(chunk_coord(z) == pos.z && local_coord(z) == face.z);
    assert(world.voxel_id_at(x, face.y, z) == id);
    let nx = x + towards.x;
    let ny = face.y + towards.y;
    let nz = z + towards.z;
    assert(pos.x - 1 <= chunk_coord(nx) <= pos.x + 1);
    assert(pos.z - 1 <= chunk_coord(nz) <= pos.z + 1);
    assert(chunk_coord(nx) == pos.x || chunk_coord(nz) == pos.z);
    assert(0 <= local_coord(nx) < WIDTH && 0 <= local_coord(nz) < WIDTH);
    if 0 <= ny < HEIGHT {
        assert(world.chunk_filled_with(chunk_coord(nx), chunk_coord(nz), id));
        assert(world.voxel_id_at(nx, ny, nz) == id);
    }
}

/// A chunk filled with one opaque id, among neighbours filled with the same
/// id, has an empty surface, where the catalog's default id, which is read
/// above and below the world, is opaque too.
pub proof fn enclosed_chunk_has_no_faces<T: VoxelSet>(
    world: VoxelWorld<T>,
    pos: ChunkPos,
    id: T::Id,
)
    requires
        world.enclosed_in(pos, id),
        !T::transparent(id),
        !T::transparent(T::default_id()),
    ensures
        world.visible_faces(pos).len() == 0,
        world.chunk_mesh(pos) == MeshModel::empty(),
{
    let seen = world.visible_faces(pos);
    if seen.len() > 0 {
        let face = seen[0];
        assert(seen.contains(face));
        candidates().lemma_filter_contains_rev(|face: Face| world.shows(pos, face), face);
        let k = choose|k: int| 0 <= k < candidates().len() && candidates()[k] == face;
        enclosed_chunk_shows_only_top_and_bottom(world, pos, id, k);
    }
    assert(world.chunk_mesh(pos).normals =~= Seq::empty());
}

/// A face is part of the surface of a chunk exactly when it is a face of one
/// of the chunk's cells and is seen.
pub proof fn face_is_extracted_iff_seen<T: VoxelSet>(
    world: VoxelWorld<T>,
    pos: ChunkPos,
    face: Face,
)
    ensures
        world.visible_faces(pos).contains(face) <==> candidates().contains(face)
            && world.shows(pos, face),
{
    let all = candidates();
    let seen = |face: Face| world.shows(pos, face);
    if all.filter(seen).contains(face) {
        all.lemma_filter_contains_rev(seen, face);
    }
    if all.contains(face) && world.shows(pos, face) {
        let k = choose|k: int| 0 <= k < all.len() && all[k] == face;
        all.lemma_filter_contains(seen, k);
    }
}

/// Every vertex of the surface of a chunk is a corner of one of the cells of
/// the chunk, in the coordinates of the chunk.
pub proof fn surface_lies_in_chunk<T: VoxelSet>(world: VoxelWorld<T>, pos: ChunkPos, v: int)
    requires
        0 <= v < world.chunk_mesh(pos).positions.len(),
    ensures
        0 <= world.chunk_mesh(pos).positions[v].x <= WIDTH,
        0 <= world.chunk_mesh(pos).positions[v].y <= HEIGHT,
        0 <= world.chunk_mesh(pos).positions[v].z <= WIDTH,
{
    let all = candidates();
    let faces = world.visible_faces(pos);
    assembled_counts(faces);
    let k = v / 4;
    let j = v % 4;
    let face = faces[k];
    assert(faces.contains(face));
    all.lemma_filter_contains_rev(|face: Face| world.shows(pos, face), face);
    let i = choose|i: int| 0 <= i < all.len() && all[i] == face;
    candidate_lies_in_chunk(i);
    assembled_face(faces, k);
    let corner = face.orientation.corners()[j];
    assert(assemble(faces).positions[4 * k + j] == corner.plus(face.cell()));
    assert(0 <= corner.x <= 1 && 0 <= corner.y <= 1 && 0 <= corner.z <= 1);
}

/// A voxel with faces whose six neighbours are transparent, in a chunk
/// whose other voxels have no faces, is all that is seen of the chunk: six
/// faces, one for each side, with 24 vertices and 36 indices.
pub proof fn lone_voxel_shows_six_faces<T: VoxelSet>(
    world: VoxelWorld<T>,
    pos: ChunkPos,
    x: int,
    y: int,
    z: int,
)
    requires
        0 <= x < WIDTH,
        0 <= y < HEIGHT,
        0 <= z < WIDTH,
        forall|orientation: Orientation|
            T::transparent(
                world.voxel_id_at(
                    pos.x * WIDTH + x + (#[trigger] orientation.direction()).x,
                    y + orientation.direction().y,
                    pos.z * WIDTH + z + orientation.direction().z,
                ),
            ),
        forall|a: int, b: int, c: int|
            0 <= a < WIDTH && 0 <= b < HEIGHT && 0 <= c < WIDTH ==> (T::voxel_of(
                #[trigger] world.voxel_id_at(pos.x * WIDTH + a, b, pos.z * WIDTH + c),
            ).has_faces() <==> a == x && b == y && c == z),
    ensures
        world.visible_faces(pos) == faces_of_cell(x, y, z),
        world.chunk_mesh(pos).positions.len() == 24,
        world.chunk_mesh(pos).indices.len() == 36,
        world.chunk_mesh(pos).normals.len() == 24,
{
    let all = candidates();
    let seen = |face: Face| world.shows(pos, face);
    let n = cell_number(x, y, z);
    candidates_of_cell(x, y, z);
    assert(candidate_count() == 196608) by (nonlinear_arith);
    assert(HEIGHT * WIDTH == 2048) by (nonlinear_arith);
    let before = all.subrange(0, 6 * n);
    let own = all.subrange(6 * n, 6 * n + 6);
    let after = all.subrange(6 * n + 6, all.len() as int);
    assert(all =~= before + own + after);
    assert forall|i: int| 0 <= i < before.len() implies !seen(#[trigger] before[i]) by {
        let face = candidate(i);
        assert(before[i] == face);
        candidate_lies_in_chunk(i);
        assert(i / 6 < n);
        assert(!(face.x == x && face.y == y && face.z == z));
        assert(!T::voxel_of(
            world.voxel_id_at(pos.x * WIDTH + face.x, face.y, pos.z * WIDTH + face.z),
        ).has_faces());
    }
    assert forall|i: int| 0 <= i < after.len() implies !seen(#[trigger] after[i]) by {
        let face = candidate(6 * n + 6 + i);
        assert(after[i] == face);
        candidate_lies_in_chunk(6 * n + 6 + i);
        assert((6 * n + 6 + i) / 6 > n);
        assert(!(face.x == x && face.y == y && face.z == z));
        assert(!T::voxel_of(
            world.voxel_id_at(pos.x * WIDTH + face.x, face.y, pos.z * WIDTH + face.z),
        ).has_faces());
    }
    assert forall|i: int| 0 <= i < own.len() implies seen(#[trigger] own[i]) by {
        let face = own[i];
        assert(face == (Face { x, y, z, orientation: side(i) }));
        assert(T::voxel_of(
            world.voxel_id_at(pos.x * WIDTH + x, y, pos.z * WIDTH + z),
        ).has_faces());
        let towards = face.orientation.direction();
    }
    filter_keeps_none(before, seen);
    filter_keeps_none(after, seen);
    filter_keeps_all(own, seen);
    Seq::filter_distributes_over_add(before, own, seen);
    Seq::filter_distributes_over_add(before + own, after, seen);
    assert(all.filter(seen) =~= own);
    assembled_counts(own);
    assembled_flat_normals(own);
}

} // verus!
