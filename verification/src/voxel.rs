//! Voxels, their catalogs and the faces of a single voxel.

use crate::mesh::{MeshBuffer, MeshModel, Point, Vertex};
use vstd::prelude::*;

verus! {

/// The six axis-aligned directions a voxel face can look in.
#[derive(Clone, Copy, Debug, PartialEq, Eq, Structural)]
pub enum Orientation {
    /// X+
    North,
    /// X-
    South,
    /// Z+
    East,
    /// Z-
    West,
    /// Y+
    Up,
    /// Y-
    Down,
}

impl Orientation {
    /// The unit direction that a face with this orientation looks in, which
    /// is also the step from a voxel to its neighbour on that side.
    pub open spec fn direction(self) -> Point {
        match self {
            Orientation::North => Point { x: 1, y: 0, z: 0 },
            Orientation::South => Point { x: -1, y: 0, z: 0 },
            Orientation::East => Point { x: 0, y: 0, z: 1 },
            Orientation::West => Point { x: 0, y: 0, z: -1 },
            Orientation::Up => Point { x: 0, y: 1, z: 0 },
            Orientation::Down => Point { x: 0, y: -1, z: 0 },
        }
    }

    /// The step from a voxel to its neighbour on this side.
    pub fn step(self) -> (step: (i64, i64, i64))
        ensures
            step.0 == self.direction().x,
            step.1 == self.direction().y,
            step.2 == self.direction().z,
    {
        match self {
            Orientation::North => (1, 0, 0),
            Orientation::South => (-1, 0, 0),
            Orientation::East => (0, 0, 1),
            Orientation::West => (0, 0, -1),
            Orientation::Up => (0, 1, 0),
            Orientation::Down => (0, -1, 0),
        }
    }

    /// The four corners of the face of the unit voxel at the origin.
    pub open spec fn corners(self) -> Seq<Point> {
        match self {
            Orientation::North => seq![
                Point { x: 1, y: 0, z: 0 },
                Point { x: 1, y: 0, z: 1 },
                Point { x: 1, y: 1, z: 1 },
                Point { x: 1, y: 1, z: 0 },
            ],
            Orientation::South => seq![
                Point { x: 0, y: 0, z: 0 },
                Point { x: 0, y: 0, z: 1 },
                Point { x: 0, y: 1, z: 1 },
                Point { x: 0, y: 1, z: 0 },
            ],
            Orientation::East => seq![
                Point { x: 0, y: 0, z: 1 },
                Point { x: 0, y: 1, z: 1 },
                Point { x: 1, y: 1, z: 1 },
                Point { x: 1, y: 0, z: 1 },
            ],
            Orientation::West => seq![
                Point { x: 0, y: 0, z: 0 },
                Point { x: 0, y: 1, z: 0 },
                Point { x: 1, y: 1, z: 0 },
                Point { x: 1, y: 0, z: 0 },
            ],
            Orientation::Up => seq![
                Point { x: 0, y: 1, z: 0 },
                Point { x: 1, y: 1, z: 0 },
                Point { x: 1, y: 1, z: 1 },
                Point { x: 0, y: 1, z: 1 },
            ],
            Orientation::Down => seq![
                Point { x: 0, y: 0, z: 0 },
                Point { x: 1, y: 0, z: 0 },
                Point { x: 1, y: 0, z: 1 },
                Point { x: 0, y: 0, z: 1 },
            ],
        }
    }

    /// The two triangles of the face, as indices into its corners, wound so
    /// that both look outwards.
    pub open spec fn winding(self) -> Seq<int> {
        match self {
            Orientation::North | Orientation::East | Orientation::Up => seq![0, 2, 1, 0, 3, 2],
            Orientation::South | Orientation::West | Orientation::Down => seq![0, 1, 2, 0, 2, 3],
        }
    }

    /// The face of the unit voxel at the origin: four vertices, two
    /// triangles, no normals yet.
    pub open spec fn face(self) -> MeshModel {
        MeshModel { positions: self.corners(), indices: self.winding(), normals: Seq::empty() }
    }
}

/// The kinds of voxel a catalog can resolve an id to.
#[derive(Clone, Copy, Debug, PartialEq, Eq, Structural)]
pub enum Voxel {
    Air,
    Grass,
    /// What an id resolves to when the catalog does not know it. Such a
    /// voxel is drawn like any other voxel with faces, so that data that
    /// cannot be resolved shows up in the surface and never stops its
    /// extraction.
    Error,
}

impl Voxel {
    /// Whether this kind of voxel is drawn at all.
    pub open spec fn spec_has_faces(&self) -> bool {
        *self != Voxel::Air
    }

    /// Every kind but `Air` has faces.
    #[verifier::when_used_as_spec(spec_has_faces)]
    pub fn has_faces(&self) -> (b: bool)
        ensures
            b == self.spec_has_faces(),
    {
        match self {
            Voxel::Air => false,
            _ => true,
        }
    }

    /// What the voxel shows on one side: the face of that orientation, or
    /// nothing for a voxel without faces.
    pub open spec fn face_model(self, orientation: Orientation) -> MeshModel {
        if self.has_faces() {
            orientation.face()
        } else {
            MeshModel::empty()
        }
    }

    /// The voxel alone at the origin: its faces to the south, north, east
    /// and west, up and down, in this order.
    pub open spec fn mesh_model(self) -> MeshModel {
        MeshModel::empty().merged(self.face_model(Orientation::South)).merged(
            self.face_model(Orientation::North),
        ).merged(self.face_model(Orientation::East)).merged(
            self.face_model(Orientation::West),
        ).merged(self.face_model(Orientation::Up)).merged(self.face_model(Orientation::Down))
    }

    /// The mesh of the voxel alone at the origin, with all six faces.
    pub fn get_mesh(&self) -> (mesh: MeshBuffer)
        ensures
            mesh@ == self.mesh_model(),
    {
        let mut mesh = MeshBuffer::new();
        mesh.merge(self.get_face_mesh(Orientation::South));
        mesh.merge(self.get_face_mesh(Orientation::North));
        mesh.merge(self.get_face_mesh(Orientation::East));
        mesh.merge(self.get_face_mesh(Orientation::West));
        mesh.merge(self.get_face_mesh(Orientation::Up));
        mesh.merge(self.get_face_mesh(Orientation::Down));
        mesh
    }

    /// The face that the voxel shows on one side, for the unit voxel at the
    /// origin. A voxel without faces shows nothing.
    pub fn get_face_mesh(&self, orientation: Orientation) -> (mesh: MeshBuffer)
        ensures
            mesh@ == self.face_model(orientation),
            mesh@.well_formed(),
            mesh@.positions.len() <= 4,
    {
        if !self.has_faces() {
            return MeshBuffer::new();
        }
        let (positions, indices) = match orientation {
            Orientation::North => (
                vec![
                    Vertex::new(1, 0, 0),
                    Vertex::new(1, 0, 1),
                    Vertex::new(1, 1, 1),
                    Vertex::new(1, 1, 0),
                ],
                vec![0u32, 2, 1, 0, 3, 2],
            ),
            Orientation::South => (
                vec![
                    Vertex::new(0, 0, 0),
                    Vertex::new(0, 0, 1),
                    Vertex::new(0, 1, 1),
                    Vertex::new(0, 1, 0),
                ],
                vec![0u32, 1, 2, 0, 2, 3],
            ),
            Orientation::East => (
                vec![
                    Vertex::new(0, 0, 1),
                    Vertex::new(0, 1, 1),
                    Vertex::new(1, 1, 1),
                    Vertex::new(1, 0, 1),
                ],
                vec![0u32, 2, 1, 0, 3, 2],
            ),
            Orientation::West => (
                vec![
                    Vertex::new(0, 0, 0),
                    Vertex::new(0, 1, 0),
                    Vertex::new(1, 1, 0),
                    Vertex::new(1, 0, 0),
                ],
                vec![0u32, 1, 2, 0, 2, 3],
            ),
            Orientation::Up => (
                vec![
                    Vertex::new(0, 1, 0),
                    Vertex::new(1, 1, 0),
                    Vertex::new(1, 1, 1),
                    Vertex::new(0, 1, 1),
                ],
                vec![0u32, 2, 1, 0, 3, 2],
            ),
            Orientation::Down => (
                vec![
                    Vertex::new(0, 0, 0),
                    Vertex::new(1, 0, 0),
                    Vertex::new(1, 0, 1),
                    Vertex::new(0, 0, 1),
                ],
                vec![0u32, 1, 2, 0, 2, 3],
            ),
        };
        let mesh = MeshBuffer { positions, indices, normals: Vec::new() };
        assert(mesh@.positions =~= orientation.corners());
        assert(mesh@.indices =~= orientation.winding());
        assert(mesh@.normals =~= Seq::empty());
        mesh
    }
}

/// A catalog of voxels: what each id stands for, which ids can be seen
/// through, and the id that stands for empty space. All three are total.
pub trait VoxelSet {
    type Id: Copy + Clone + PartialEq + core::fmt::Debug;

    /// The kind of voxel that an id stands for.
    spec fn voxel_of(voxel_id: Self::Id) -> Voxel;

    /// Whether a voxel with this id lets its neighbours' faces be seen.
    spec fn transparent(voxel_id: Self::Id) -> bool;

    /// The id read where the world holds nothing.
    spec fn default_id() -> Self::Id;

    fn get_voxel_by_id(voxel_id: Self::Id) -> (voxel: Voxel)
        ensures
            voxel == Self::voxel_of(voxel_id),
    ;

    fn is_transparent(voxel_id: Self::Id) -> (b: bool)
        ensures
            b == Self::transparent(voxel_id),
    ;

    /// Used in the generation of a chunk mesh
    fn get_default_voxel_id() -> (voxel_id: Self::Id)
        ensures
            voxel_id == Self::default_id(),
    ;
}

/// The catalog of the three basic voxels: 0 is air, 1 is grass, and every
/// other id is unknown.
pub struct BasicSet;

impl VoxelSet for BasicSet {
    type Id = u8;

    open spec fn voxel_of(voxel_id: u8) -> Voxel {
        if voxel_id == 0 {
            Voxel::Air
        } else if voxel_id == 1 {
            Voxel::Grass
        } else {
            Voxel::Error
        }
    }

    open spec fn transparent(voxel_id: u8) -> bool {
        voxel_id == 0
    }

    open spec fn default_id() -> u8 {
        0
    }

    fn get_voxel_by_id(voxel_id: u8) -> (voxel: Voxel) {
        match voxel_id {
            0 => Voxel::Air,
            1 => Voxel::Grass,
            _ => Voxel::Error,
        }
    }

    fn is_transparent(voxel_id: u8) -> (b: bool) {
        match voxel_id {
            0 => true,
            _ => false,
        }
    }

    fn get_default_voxel_id() -> (voxel_id: u8) {
        0
    }
}

} // verus!
