//! A sparse, unbounded world of voxels and its visible surface.
//!
//! The world is a plane of fixed-size [`chunk`]s, addressed through four
//! growable tables, one for each quadrant ([`world`]). A [`voxel`] catalog
//! says what the ids stored in the chunks stand for. The surface of a chunk
//! is extracted as a [`mesh`] of quads, one for each side of a voxel that
//! borders a transparent neighbour, also across the borders of chunks;
//! [`surface`] says what the mesh of a sequence of faces is. Apart from the
//! world, [`octree`] compresses a dense cubic volume of any values into
//! uniform leaves and eight-way subdivisions.
//!
//! Positions, vertices and normals are whole numbers: every vertex of a
//! surface is a corner of a voxel.

pub mod chunk;
pub mod mesh;
pub mod octree;
pub mod surface;
pub mod voxel;
pub mod world;
