//! Triangle meshes over whole-numbered vertices: what a mesh holds, and how
//! meshes are moved, joined and given flat normals.

use vstd::prelude::*;

verus! {

/// A point or a direction in space, in whole voxels.
pub struct Point {
    pub x: int,
    pub y: int,
    pub z: int,
}

impl Point {
    pub open spec fn zero() -> Point {
        Point { x: 0, y: 0, z: 0 }
    }

    pub open spec fn plus(self, other: Point) -> Point {
        Point { x: self.x + other.x, y: self.y + other.y, z: self.z + other.z }
    }

    pub open spec fn minus(self, other: Point) -> Point {
        Point { x: self.x - other.x, y: self.y - other.y, z: self.z - other.z }
    }

    /// The cross product of two directions.
    pub open spec fn cross(self, other: Point) -> Point {
        Point {
            x: self.y * other.z - self.z * other.y,
            y: self.z * other.x - self.x * other.z,
            z: self.x * other.y - self.y * other.x,
        }
    }

    /// Every coordinate fits in an `i32`.
    pub open spec fn fits(self) -> bool {
        &&& i32::MIN <= self.x <= i32::MAX
        &&& i32::MIN <= self.y <= i32::MAX
        &&& i32::MIN <= self.z <= i32::MAX
    }
}

/// A vertex position or a normal of a mesh, in whole voxels.
#[derive(Clone, Copy, Debug, PartialEq, Eq, Structural)]
pub struct Vertex {
    pub x: i32,
    pub y: i32,
    pub z: i32,
}

impl View for Vertex {
    type V = Point;

    open spec fn view(&self) -> Point {
        Point { x: self.x as int, y: self.y as int, z: self.z as int }
    }
}

impl Vertex {
    pub fn new(x: i32, y: i32, z: i32) -> (vertex: Vertex)
        ensures
            vertex == (Vertex { x, y, z }),
    {
        Vertex { x, y, z }
    }
}

/// What a mesh holds: its vertex positions, its triangles as triples of
/// indices into the positions, and one normal for each vertex once the
/// normals have been computed (none before).
pub struct MeshModel {
    pub positions: Seq<Point>,
    pub indices: Seq<int>,
    pub normals: Seq<Point>,
}

impl MeshModel {
    /// The mesh without vertices.
    pub open spec fn empty() -> MeshModel {
        MeshModel { positions: Seq::empty(), indices: Seq::empty(), normals: Seq::empty() }
    }

    /// The indices come in triples, each names a vertex of the mesh, and
    /// there are normals for all vertices or for none.
    pub open spec fn well_formed(self) -> bool {
        &&& self.indices.len() % 3 == 0
        &&& forall|i: int|
            0 <= i < self.indices.len() ==> 0 <= #[trigger] self.indices[i] < self.positions.len()
        &&& self.normals.len() == 0 || self.normals.len() == self.positions.len()
    }

    /// The number of triangles.
    pub open spec fn triangles(self) -> int {
        self.indices.len() as int / 3
    }

    /// The mesh with every vertex moved by `by`.
    pub open spec fn translated(self, by: Point) -> MeshModel {
        MeshModel {
            positions: self.positions.map_values(|p: Point| p.plus(by)),
            indices: self.indices,
            normals: self.normals,
        }
    }

    /// This mesh followed by `other`: the vertices and normals of `other`
    /// come after those of `self`, and the triangles of `other` are
    /// renumbered to name the same vertices as before.
    pub open spec fn merged(self, other: MeshModel) -> MeshModel {
        MeshModel {
            positions: self.positions + other.positions,
            indices: self.indices + other.indices.map_values(
                |i: int| i + self.positions.len(),
            ),
            normals: self.normals + other.normals,
        }
    }

    /// The flat normal of triangle `t`: the cross product of its first two
    /// edges, which stands on the side from which its vertices are seen
    /// counter-clockwise.
    pub open spec fn triangle_normal(self, t: int) -> Point {
        let a = self.positions[self.indices[3 * t]];
        let b = self.positions[self.indices[3 * t + 1]];
        let c = self.positions[self.indices[3 * t + 2]];
        b.minus(a).cross(c.minus(a))
    }

    /// The normals after the first `t` triangles have given theirs to their
    /// vertices. A vertex of several triangles has the normal of the last; a
    /// vertex of none has the zero direction.
    pub open spec fn normals_after(self, t: int) -> Seq<Point>
        decreases t,
    {
        if t <= 0 {
            Seq::new(self.positions.len(), |v: int| Point::zero())
        } else {
            let normal = self.triangle_normal(t - 1);
            self.normals_after(t - 1).update(self.indices[3 * (t - 1)], normal).update(
                self.indices[3 * (t - 1) + 1],
                normal,
            ).update(self.indices[3 * (t - 1) + 2], normal)
        }
    }

    /// The mesh with a flat normal for every vertex.
    pub open spec fn with_flat_normals(self) -> MeshModel {
        MeshModel {
            positions: self.positions,
            indices: self.indices,
            normals: self.normals_after(self.triangles()),
        }
    }
}

/// The buffers of a triangle mesh.
#[derive(Clone, Debug, PartialEq, Eq)]
pub struct MeshBuffer {
    pub positions: Vec<Vertex>,
    pub indices: Vec<u32>,
    pub normals: Vec<Vertex>,
}

impl View for MeshBuffer {
    type V = MeshModel;

    open spec fn view(&self) -> MeshModel {
        MeshModel {
            positions: self.positions@.map_values(|v: Vertex| v@),
            indices: self.indices@.map_values(|i: u32| i as int),
            normals: self.normals@.map_values(|v: Vertex| v@),
        }
    }
}

impl MeshBuffer {
    /// The mesh without vertices.
    pub fn new() -> (mesh: MeshBuffer)
        ensures
            mesh@ == MeshModel::empty(),
    {
        let mesh = MeshBuffer { positions: Vec::new(), indices: Vec::new(), normals: Vec::new() };
        assert(mesh@.positions =~= Seq::empty());
        assert(mesh@.indices =~= Seq::empty());
        assert(mesh@.normals =~= Seq::empty());
        mesh
    }

    /// The number of vertices.
    pub fn count_vertices(&self) -> (count: usize)
        ensures
            count == self@.positions.len(),
    {
        self.positions.len()
    }

    /// Appends `other` to this mesh, renumbering its triangles.
    pub fn merge(&mut self, other: MeshBuffer)
        requires
            other@.well_formed(),
            old(self)@.positions.len() + other@.positions.len() <= u32::MAX,
        ensures
            final(self)@ == old(self)@.merged(other@),
    {
        let ghost before = self@;
        let ghost added = other@;
        let ghost old_indices = self.indices@;
        let offset = self.positions.len();
        let MeshBuffer { positions, indices, normals } = other;
        let mut positions = positions;
        let mut normals = normals;
        self.positions.append(&mut positions);
        self.normals.append(&mut normals);
        assert(self@.positions =~= before.positions + added.positions);
        assert(self@.normals =~= before.normals + added.normals);
        let ghost new_positions = self.positions@;
        let ghost new_normals = self.normals@;
        let count = indices.len();
        let mut i: usize = 0;
        while i < count
            invariant
                i <= count,
                count == indices.len(),
                indices@.map_values(|i: u32| i as int) == added.indices,
                added.well_formed(),
                offset + added.positions.len() <= u32::MAX,
                offset == before.positions.len(),
                self.positions@ == new_positions,
                self.normals@ == new_normals,
                self.indices@.len() == old_indices.len() + i,
                forall|k: int| 0 <= k < old_indices.len() ==> self.indices@[k] == old_indices[k],
                forall|k: int|
                    0 <= k < i ==> #[trigger] self.indices@[old_indices.len() + k]
                        == added.indices[k] + offset,
            decreases count - i,
        {
            let index = indices[i];
            assert(added.indices[i as int] == index as int);
            self.indices.push(index + offset as u32);
            i += 1;
        }
        let ghost merged = before.merged(added).indices;
        assert(self@.indices.len() == merged.len());
        assert forall|k: int| 0 <= k < merged.len() implies self@.indices[k] == merged[k] by {
            if k >= old_indices.len() {
                let j = k - old_indices.len();
                assert(self.indices@[old_indices.len() + j] == added.indices[j] + offset);
            }
        }
        assert(self@.indices =~= merged);
    }

    /// The mesh with every vertex moved by `offset`.
    pub fn translated_by(self, offset: Vertex) -> (mesh: MeshBuffer)
        requires
            forall|i: int|
                0 <= i < self@.positions.len() ==> (#[trigger] self@.positions[i]).plus(
                    offset@,
                ).fits(),
        ensures
            mesh@ == self@.translated(offset@),
    {
        let ghost moved = self@.translated(offset@);
        let count = self.positions.len();
        let mut positions: Vec<Vertex> = Vec::new();
        let mut i: usize = 0;
        while i < count
            invariant
                i <= count,
                count == self.positions.len(),
                moved == self@.translated(offset@),
                forall|k: int|
                    0 <= k < self@.positions.len() ==> (#[trigger] self@.positions[k]).plus(
                        offset@,
                    ).fits(),
                positions.len() == i,
                forall|k: int| 0 <= k < i ==> (#[trigger] positions[k])@ == moved.positions[k],
            decreases count - i,
        {
            let p = self.positions[i];
            assert(self@.positions[i as int] == p@);
            positions.push(Vertex::new(p.x + offset.x, p.y + offset.y, p.z + offset.z));
            i += 1;
        }
        let mesh = MeshBuffer { positions, indices: self.indices, normals: self.normals };
        assert(mesh@.positions =~= moved.positions);
        mesh
    }

    /// The mesh with a flat normal for every vertex: each triangle in turn
    /// gives its normal to its three vertices.
    pub fn with_computed_flat_normals(self) -> (mesh: MeshBuffer)
        requires
            self@.well_formed(),
            forall|t: int|
                0 <= t < self@.triangles() ==> (#[trigger] self@.triangle_normal(t)).fits(),
        ensures
            mesh@ == self@.with_flat_normals(),
    {
        let ghost model = self@;
        let vertices = self.positions.len();
        let mut normals: Vec<Vertex> = Vec::new();
        let mut v: usize = 0;
        while v < vertices
            invariant
                v <= vertices,
                normals.len() == v,
                forall|k: int| 0 <= k < v ==> (#[trigger] normals[k])@ == Point::zero(),
            decreases vertices - v,
        {
            normals.push(Vertex::new(0, 0, 0));
            v += 1;
        }
        assert(normals@.map_values(|n: Vertex| n@) =~= model.normals_after(0));
        let triangles = self.indices.len() / 3;
        let mut t: usize = 0;
        while t < triangles
            invariant
                t <= triangles,
                model == self@,
                model.well_formed(),
                triangles == model.triangles(),
                triangles == self.indices.len() / 3,
                forall|k: int|
                    0 <= k < model.triangles() ==> (#[trigger] model.triangle_normal(k)).fits(),
                normals.len() == self.positions.len(),
                normals@.map_values(|n: Vertex| n@) == model.normals_after(t as int),
            decreases triangles - t,
        {
            let ghost before = normals@.map_values(|n: Vertex| n@);
            let i0 = self.indices[3 * t] as usize;
            let i1 = self.indices[3 * t + 1] as usize;
            let i2 = self.indices[3 * t + 2] as usize;
            assert(model.indices[3 * t] == i0 && model.indices[3 * t + 1] == i1 && model.indices[3
                * t + 2] == i2);
            let a = self.positions[i0];
            let b = self.positions[i1];
            let c = self.positions[i2];
            assert(model.positions[i0 as int] == a@ && model.positions[i1 as int] == b@
                && model.positions[i2 as int] == c@);
            assert(model.triangle_normal(t as int).fits());
            let normal = flat_normal(a, b, c);
            normals.set(i0, normal);
            normals.set(i1, normal);
            normals.set(i2, normal);
            assert(normals@.map_values(|n: Vertex| n@) =~= before.update(
                i0 as int,
                normal@,
            ).update(i1 as int, normal@).update(i2 as int, normal@));
            t += 1;
        }
        MeshBuffer { positions: self.positions, indices: self.indices, normals }
    }
}

/// The flat normal of the triangle `a`, `b`, `c`.
fn flat_normal(a: Vertex, b: Vertex, c: Vertex) -> (normal: Vertex)
    requires
        b@.minus(a@).cross(c@.minus(a@)).fits(),
    ensures
        normal@ == b@.minus(a@).cross(c@.minus(a@)),
{
    let ux: i128 = b.x as i128 - a.x as i128;
    let uy: i128 = b.y as i128 - a.y as i128;
    let uz: i128 = b.z as i128 - a.z as i128;
    let vx: i128 = c.x as i128 - a.x as i128;
    let vy: i128 = c.y as i128 - a.y as i128;
    let vz: i128 = c.z as i128 - a.z as i128;
    proof {
        product_is_bounded(uy as int, vz as int);
        product_is_bounded(uz as int, vy as int);
        product_is_bounded(uz as int, vx as int);
        product_is_bounded(ux as int, vz as int);
        product_is_bounded(ux as int, vy as int);
        product_is_bounded(uy as int, vx as int);
    }
    let x: i128 = uy * vz - uz * vy;
    let y: i128 = uz * vx - ux * vz;
    let z: i128 = ux * vy - uy * vx;
    Vertex::new(x as i32, y as i32, z as i32)
}

/// The product of two differences of `i32` values stays far inside `i128`.
proof fn product_is_bounded(a: int, b: int)
    requires
        -0x1_0000_0000 <= a <= 0x1_0000_0000,
        -0x1_0000_0000 <= b <= 0x1_0000_0000,
    ensures
        -0x1_0000_0000_0000_0000 <= a * b <= 0x1_0000_0000_0000_0000,
{
    assert(-0x1_0000_0000_0000_0000 <= a * b <= 0x1_0000_0000_0000_0000) by (nonlinear_arith)
        requires
            -0x1_0000_0000 <= a <= 0x1_0000_0000,
            -0x1_0000_0000 <= b <= 0x1_0000_0000,
    ;
}

} // verus!
