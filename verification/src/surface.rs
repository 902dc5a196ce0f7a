//! The faces of the cells of a chunk and the mesh that a sequence of faces
//! makes.

use crate::chunk::{HEIGHT, WIDTH};
use crate::mesh::{MeshModel, Point};
use crate::voxel::Orientation;
use vstd::prelude::*;

verus! {

/// One face of a voxel: the cell that the voxel fills and the side of it.
pub struct Face {
    pub x: int,
    pub y: int,
    pub z: int,
    pub orientation: Orientation,
}

impl Face {
    /// The lowest corner of the cell.
    pub open spec fn cell(self) -> Point {
        Point { x: self.x, y: self.y, z: self.z }
    }

    /// The face as a mesh: the face of the unit voxel, moved to the cell.
    pub open spec fn model(self) -> MeshModel {
        self.orientation.face().translated(self.cell())
    }
}

/// The six orientations in the order in which the faces of a voxel are
/// looked at: north, south, east, west, up, down.
pub open spec fn side(i: int) -> Orientation {
    if i == 0 {
        Orientation::North
    } else if i == 1 {
        Orientation::South
    } else if i == 2 {
        Orientation::East
    } else if i == 3 {
        Orientation::West
    } else if i == 4 {
        Orientation::Up
    } else {
        Orientation::Down
    }
}

/// The number of faces that the cells of a chunk have.
pub open spec fn candidate_count() -> int {
    6 * WIDTH * HEIGHT * WIDTH
}

/// Face number `k` of a chunk. The cells are counted with x outermost and z
/// innermost, and each cell has its six sides in the order of [`side`].
pub open spec fn candidate(k: int) -> Face {
    let cell = k / 6;
    Face {
        x: cell / (HEIGHT * WIDTH) as int,
        y: (cell / WIDTH as int) % HEIGHT as int,
        z: cell % WIDTH as int,
        orientation: side(k % 6),
    }
}

/// All faces of all cells of a chunk, in the order of [`candidate`].
pub open spec fn candidates() -> Seq<Face> {
    Seq::new(candidate_count() as nat, |k: int| candidate(k))
}

/// The number of the cell `(x, y, z)` of a chunk in the order of the sweep.
pub open spec fn cell_number(x: int, y: int, z: int) -> int {
    (x * HEIGHT + y) * WIDTH + z
}

/// The six faces of the cell `(x, y, z)`, in the order of [`side`].
pub open spec fn faces_of_cell(x: int, y: int, z: int) -> Seq<Face> {
    Seq::new(6, |i: int| Face { x, y, z, orientation: side(i) })
}

/// Face number `k` of a chunk is side `k % 6` of the cell with the number
/// `k / 6`, which lies inside the chunk.
pub proof fn candidate_lies_in_chunk(k: int)
    requires
        0 <= k < candidate_count(),
    ensures
        0 <= candidate(k).x < WIDTH,
        0 <= candidate(k).y < HEIGHT,
        0 <= candidate(k).z < WIDTH,
        k / 6 == cell_number(candidate(k).x, candidate(k).y, candidate(k).z),
        candidate(k).orientation == side(k % 6),
{
    let cell = k / 6;
    let face = candidate(k);
    assert(candidate_count() == 196608) by (nonlinear_arith);
    assert(HEIGHT * WIDTH == 2048) by (nonlinear_arith);
    assert(0 <= cell < 32768);
    assert(face.x == cell / 2048);
    assert(face.y == (cell / 16) % 128);
    assert(face.z == cell % 16);
    assert(cell / 2048 == (cell / 16) / 128);
    assert(cell_number(face.x, face.y, face.z) == face.x * 2048 + face.y * 16 + face.z);
}

/// The faces of a chunk are those of its cells, one cell after the other.
pub proof fn candidates_of_cell(x: int, y: int, z: int)
    requires
        0 <= x < WIDTH,
        0 <= y < HEIGHT,
        0 <= z < WIDTH,
    ensures
        0 <= 6 * cell_number(x, y, z),
        6 * cell_number(x, y, z) + 6 <= candidate_count(),
        candidates().subrange(6 * cell_number(x, y, z), 6 * cell_number(x, y, z) + 6)
            == faces_of_cell(x, y, z),
{
    let n = cell_number(x, y, z);
    assert(candidate_count() == 196608) by (nonlinear_arith);
    assert(HEIGHT * WIDTH == 2048) by (nonlinear_arith);
    assert(n == x * 2048 + y * 16 + z);
    assert forall|i: int| 0 <= i < 6 implies candidates().subrange(6 * n, 6 * n + 6)[i]
        == faces_of_cell(x, y, z)[i] by {
        assert(candidates().subrange(6 * n, 6 * n + 6)[i] == candidate(6 * n + i));
        assert((6 * n + i) / 6 == n);
        assert((6 * n + i) % 6 == i);
    }
    assert(candidates().subrange(6 * n, 6 * n + 6) =~= faces_of_cell(x, y, z));
}

/// What is kept of a sequence of which nothing is wanted.
pub(crate) proof fn filter_keeps_none<A>(s: Seq<A>, wanted: spec_fn(A) -> bool)
    requires
        forall|i: int| 0 <= i < s.len() ==> !wanted(#[trigger] s[i]),
    ensures
        s.filter(wanted) == Seq::<A>::empty(),
    decreases s.len(),
{
    reveal(Seq::filter);
    if s.len() > 0 {
        filter_keeps_none(s.drop_last(), wanted);
    }
}

/// What is kept of a sequence of which everything is wanted.
pub(crate) proof fn filter_keeps_all<A>(s: Seq<A>, wanted: spec_fn(A) -> bool)
    requires
        forall|i: int| 0 <= i < s.len() ==> wanted(#[trigger] s[i]),
    ensures
        s.filter(wanted) == s,
    decreases s.len(),
{
    reveal(Seq::filter);
    if s.len() > 0 {
        filter_keeps_all(s.drop_last(), wanted);
        assert(s.drop_last().push(s.last()) =~= s);
    }
}

/// The mesh of a sequence of faces: one after the other, each with four
/// vertices and two triangles of its own.
pub open spec fn assemble(faces: Seq<Face>) -> MeshModel
    decreases faces.len(),
{
    if faces.len() == 0 {
        MeshModel::empty()
    } else {
        assemble(faces.drop_last()).merged(faces.last().model())
    }
}

/// A mesh of faces has four vertices and six indices for each face, is well
/// formed and has no normals.
pub proof fn assembled_counts(faces: Seq<Face>)
    ensures
        assemble(faces).positions.len() == 4 * faces.len(),
        assemble(faces).indices.len() == 6 * faces.len(),
        assemble(faces).triangles() == 2 * faces.len(),
        assemble(faces).normals.len() == 0,
        assemble(faces).well_formed(),
    decreases faces.len(),
{
    if faces.len() > 0 {
        assembled_counts(faces.drop_last());
        let last = faces.last().model();
        assert(last.positions.len() == 4);
        assert(last.indices.len() == 6);
        assert(forall|i: int| 0 <= i < 6 ==> 0 <= #[trigger] last.indices[i] < 4);
    }
}

/// In a mesh of faces, face `k` owns the vertices `4k .. 4k + 4`, which are
/// the corners of its orientation moved to its cell, and the indices
/// `6k .. 6k + 6`, which are the winding of its orientation over its own
/// vertices. So no two faces share a vertex.
pub proof fn assembled_face(faces: Seq<Face>, k: int)
    requires
        0 <= k < faces.len(),
    ensures
        forall|j: int|
            0 <= j < 4 ==> #[trigger] assemble(faces).positions[4 * k + j]
                == faces[k].orientation.corners()[j].plus(faces[k].cell()),
        forall|j: int|
            0 <= j < 6 ==> #[trigger] assemble(faces).indices[6 * k + j]
                == faces[k].orientation.winding()[j] + 4 * k,
    decreases faces.len(),
{
    let prefix = faces.drop_last();
    let last = faces.last().model();
    assembled_counts(prefix);
    assert(last.positions.len() == 4);
    assert(last.indices.len() == 6);
    if k < faces.len() - 1 {
        assembled_face(prefix, k);
        assert(prefix[k] == faces[k]);
        assert forall|j: int| 0 <= j < 4 implies #[trigger] assemble(faces).positions[4 * k + j]
            == faces[k].orientation.corners()[j].plus(faces[k].cell()) by {
            assert(assemble(faces).positions[4 * k + j] == assemble(prefix).positions[4 * k + j]);
        }
        assert forall|j: int| 0 <= j < 6 implies #[trigger] assemble(faces).indices[6 * k + j]
            == faces[k].orientation.winding()[j] + 4 * k by {
            assert(assemble(faces).indices[6 * k + j] == assemble(prefix).indices[6 * k + j]);
        }
    } else {
        assert forall|j: int| 0 <= j < 4 implies #[trigger] assemble(faces).positions[4 * k + j]
            == faces[k].orientation.corners()[j].plus(faces[k].cell()) by {
            assert(assemble(faces).positions[4 * k + j] == last.positions[j]);
        }
        assert forall|j: int| 0 <= j < 6 implies #[trigger] assemble(faces).indices[6 * k + j]
            == faces[k].orientation.winding()[j] + 4 * k by {
            assert(assemble(faces).indices[6 * k + j] == last.indices[j] + 4 * k);
        }
    }
}

/// Both triangles of every face of a mesh of faces have the direction of
/// the face as their flat normal: a unit vector that points away from the
/// voxel.
pub proof fn assembled_triangle_normal(faces: Seq<Face>, t: int)
    requires
        0 <= t < 2 * faces.len(),
    ensures
        assemble(faces).triangle_normal(t) == faces[t / 2].orientation.direction(),
{
    let mesh = assemble(faces);
    let k = t / 2;
    let first = 3 * (t % 2);
    let face = faces[k];
    let corners = face.orientation.corners();
    let winding = face.orientation.winding();
    assembled_counts(faces);
    assembled_face(faces, k);
    assert(3 * t == 6 * k + first);
    assert(mesh.indices[6 * k + first] == winding[first] + 4 * k);
    assert(mesh.indices[6 * k + (first + 1)] == winding[first + 1] + 4 * k);
    assert(mesh.indices[6 * k + (first + 2)] == winding[first + 2] + 4 * k);
    let i0 = winding[first];
    let i1 = winding[first + 1];
    let i2 = winding[first + 2];
    assert(0 <= i0 < 4 && 0 <= i1 < 4 && 0 <= i2 < 4);
    assert(mesh.positions[4 * k + i0] == corners[i0].plus(face.cell()));
    assert(mesh.positions[4 * k + i1] == corners[i1].plus(face.cell()));
    assert(mesh.positions[4 * k + i2] == corners[i2].plus(face.cell()));
    let u = corners[i1].minus(corners[i0]);
    let v = corners[i2].minus(corners[i0]);
    assert(corners[i1].plus(face.cell()).minus(corners[i0].plus(face.cell())) == u);
    assert(corners[i2].plus(face.cell()).minus(corners[i0].plus(face.cell())) == v);
    assert(u.cross(v) == face.orientation.direction()) by {
        unit_face_normals(face.orientation, first);
    }
}

/// The product of two numbers that are each -1, 0 or 1.
spec fn sign_product(a: int, b: int) -> int {
    if a == 0 || b == 0 {
        0
    } else if a == b {
        1
    } else {
        -1
    }
}

proof fn product_of_signs(a: int, b: int)
    by (nonlinear_arith)
    requires
        -1 <= a <= 1,
        -1 <= b <= 1,
    ensures
        a * b == sign_product(a, b),
{
}

/// The cross product of two directions whose coordinates are each -1, 0 or 1.
proof fn cross_of_signs(u: Point, v: Point)
    requires
        -1 <= u.x <= 1 && -1 <= u.y <= 1 && -1 <= u.z <= 1,
        -1 <= v.x <= 1 && -1 <= v.y <= 1 && -1 <= v.z <= 1,
    ensures
        u.cross(v) == (Point {
            x: sign_product(u.y, v.z) - sign_product(u.z, v.y),
            y: sign_product(u.z, v.x) - sign_product(u.x, v.z),
            z: sign_product(u.x, v.y) - sign_product(u.y, v.x),
        }),
{
    product_of_signs(u.y, v.z);
    product_of_signs(u.z, v.y);
    product_of_signs(u.z, v.x);
    product_of_signs(u.x, v.z);
    product_of_signs(u.x, v.y);
    product_of_signs(u.y, v.x);
}

/// Both triangles of the face of the unit voxel have the direction of the
/// face as their flat normal.
proof fn unit_face_normals(orientation: Orientation, first: int)
    requires
        first == 0 || first == 3,
    ensures
        ({
            let corners = orientation.corners();
            let winding = orientation.winding();
            let a = corners[winding[first]];
            let b = corners[winding[first + 1]];
            let c = corners[winding[first + 2]];
            b.minus(a).cross(c.minus(a)) == orientation.direction()
        }),
{
    let corners = orientation.corners();
    let winding = orientation.winding();
    assert(corners.len() == 4 && winding.len() == 6);
    let a = corners[0];
    let b = corners[1];
    let c = corners[2];
    let d = corners[3];
    cross_of_signs(b.minus(a), c.minus(a));
    cross_of_signs(c.minus(a), b.minus(a));
    cross_of_signs(c.minus(a), d.minus(a));
    cross_of_signs(d.minus(a), c.minus(a));
    match orientation {
        Orientation::North => {
            assert(a == (Point { x: 1, y: 0, z: 0 }));
            assert(b == (Point { x: 1, y: 0, z: 1 }));
            assert(c == (Point { x: 1, y: 1, z: 1 }));
            assert(d == (Point { x: 1, y: 1, z: 0 }));
            assert(winding[0] == 0 && winding[1] == 2 && winding[2] == 1);
            assert(winding[3] == 0 && winding[4] == 3 && winding[5] == 2);
        },
        Orientation::South => {
            assert(a == (Point { x: 0, y: 0, z: 0 }));
            assert(b == (Point { x: 0, y: 0, z: 1 }));
            assert(c == (Point { x: 0, y: 1, z: 1 }));
            assert(d == (Point { x: 0, y: 1, z: 0 }));
            assert(winding[0] == 0 && winding[1] == 1 && winding[2] == 2);
            assert(winding[3] == 0 && winding[4] == 2 && winding[5] == 3);
        },
        Orientation::East => {
            assert(a == (Point { x: 0, y: 0, z: 1 }));
            assert(b == (Point { x: 0, y: 1, z: 1 }));
            assert(c == (Point { x: 1, y: 1, z: 1 }));
            assert(d == (Point { x: 1, y: 0, z: 1 }));
            assert(winding[0] == 0 && winding[1] == 2 && winding[2] == 1);
            assert(winding[3] == 0 && winding[4] == 3 && winding[5] == 2);
        },
        Orientation::West => {
            assert(a == (Point { x: 0, y: 0, z: 0 }));
            assert(b == (Point { x: 0, y: 1, z: 0 }));
            assert(c == (Point { x: 1, y: 1, z: 0 }));
            assert(d == (Point { x: 1, y: 0, z: 0 }));
            assert(winding[0] == 0 && winding[1] == 1 && winding[2] == 2);
            assert(winding[3] == 0 && winding[4] == 2 && winding[5] == 3);
        },
        Orientation::Up => {
            assert(a == (Point { x: 0, y: 1, z: 0 }));
            assert(b == (Point { x: 1, y: 1, z: 0 }));
            assert(c == (Point { x: 1, y: 1, z: 1 }));
            assert(d == (Point { x: 0, y: 1, z: 1 }));
            assert(winding[0] == 0 && winding[1] == 2 && winding[2] == 1);
            assert(winding[3] == 0 && winding[4] == 3 && winding[5] == 2);
        },
        Orientation::Down => {
            assert(a == (Point { x: 0, y: 0, z: 0 }));
            assert(b == (Point { x: 1, y: 0, z: 0 }));
            assert(c == (Point { x: 1, y: 0, z: 1 }));
            assert(d == (Point { x: 0, y: 0, z: 1 }));
            assert(winding[0] == 0 && winding[1] == 1 && winding[2] == 2);
            assert(winding[3] == 0 && winding[4] == 2 && winding[5] == 3);
        },
    }
}

/// The flat normals of a mesh of faces: every vertex has the direction of
/// the face that owns it.
pub proof fn assembled_flat_normals(faces: Seq<Face>)
    ensures
        assemble(faces).with_flat_normals().normals == Seq::new(
            4 * faces.len(),
            |v: int| faces[v / 4].orientation.direction(),
        ),
{
    let mesh = assemble(faces);
    assembled_counts(faces);
    normals_after_faces(faces, faces.len() as int);
    assert(mesh.with_flat_normals().normals =~= Seq::new(
        4 * faces.len(),
        |v: int| faces[v / 4].orientation.direction(),
    ));
}

/// After the triangles of the first `m` faces, the vertices of those faces
/// have their normals and the others have none yet.
proof fn normals_after_faces(faces: Seq<Face>, m: int)
    requires
        0 <= m <= faces.len(),
    ensures
        assemble(faces).normals_after(2 * m).len() == 4 * faces.len(),
        forall|v: int|
            0 <= v < 4 * faces.len() ==> #[trigger] assemble(faces).normals_after(2 * m)[v] == (if v
                < 4 * m {
                faces[v / 4].orientation.direction()
            } else {
                Point::zero()
            }),
    decreases m,
{
    let mesh = assemble(faces);
    assembled_counts(faces);
    if m > 0 {
        let k = m - 1;
        normals_after_faces(faces, k);
        assembled_face(faces, k);
        assembled_triangle_normal(faces, 2 * k);
        assembled_triangle_normal(faces, 2 * k + 1);
        let winding = faces[k].orientation.winding();
        let normal = faces[k].orientation.direction();
        let start = mesh.normals_after(2 * k);
        assert(mesh.indices[6 * k + 0] == winding[0] + 4 * k);
        assert(mesh.indices[6 * k + 1] == winding[1] + 4 * k);
        assert(mesh.indices[6 * k + 2] == winding[2] + 4 * k);
        assert(mesh.indices[6 * k + 3] == winding[3] + 4 * k);
        assert(mesh.indices[6 * k + 4] == winding[4] + 4 * k);
        assert(mesh.indices[6 * k + 5] == winding[5] + 4 * k);
        let middle = start.update(winding[0] + 4 * k, normal).update(
            winding[1] + 4 * k,
            normal,
        ).update(winding[2] + 4 * k, normal);
        assert(mesh.normals_after(2 * k + 1) == middle) by {
            assert(3 * ((2 * k + 1) - 1) == 6 * k + 0);
            assert(mesh.triangle_normal((2 * k + 1) - 1) == normal);
        }
        let end = middle.update(winding[3] + 4 * k, normal).update(
            winding[4] + 4 * k,
            normal,
        ).update(winding[5] + 4 * k, normal);
        assert(mesh.normals_after(2 * m) == end) by {
            assert(2 * m - 1 == 2 * k + 1);
            assert(3 * ((2 * m) - 1) == 6 * k + 3);
            assert(mesh.triangle_normal((2 * m) - 1) == normal);
        }
        assert forall|v: int| 0 <= v < 4 * faces.len() implies #[trigger] mesh.normals_after(
            2 * m,
        )[v] == (if v < 4 * m {
            faces[v / 4].orientation.direction()
        } else {
            Point::zero()
        }) by {
            if 4 * k <= v < 4 * m {
                assert(v / 4 == k);
                assert(winding[0] == 0 && winding[3] == 0);
                assert(winding[1] + winding[2] == 3);
                assert(winding[4] + winding[5] == 5);
                assert(v == winding[0] + 4 * k || v == winding[1] + 4 * k || v == winding[2] + 4
                    * k || v == winding[4] + 4 * k || v == winding[5] + 4 * k);
            } else {
                assert(end[v] == start[v]);
            }
        }
    }
}

} // verus!
