//! Compression of a dense cubic volume into an octree, in which a box that
//! holds one value is a single leaf.

use vstd::prelude::*;
use vstd::std_specs::cmp::PartialEqSpec;
use vstd::string::to_string_from_display_ensures;
use vstd::string::StringExecFns;

verus! {

/// A dense volume as nested sequences, indexed `[x][y][z]`.
pub type Volume<T> = Seq<Seq<Seq<T>>>;

/// The cells of a nested vector, as a [`Volume`].
pub open spec fn volume_of<T>(v: Vec<Vec<Vec<T>>>) -> Volume<T> {
    Seq::new(v.len() as nat, |x: int| Seq::new(v[x].len() as nat, |y: int| v[x][y]@))
}

/// A volume is cubic when it has at least one cell and the same extent along
/// all three axes, in every row and column.
pub open spec fn is_cubic<T>(vol: Volume<T>) -> bool {
    &&& vol.len() >= 1
    &&& forall|x: int| 0 <= x < vol.len() ==> (#[trigger] vol[x]).len() == vol.len()
    &&& forall|x: int, y: int|
        0 <= x < vol.len() && 0 <= y < vol[x].len() ==> (#[trigger] vol[x][y]).len() == vol.len()
}

/// An axis-aligned box of cells: its lowest corner and its extent along each
/// axis. An extent of zero makes the box empty.
pub struct Region {
    pub x: int,
    pub y: int,
    pub z: int,
    pub dx: int,
    pub dy: int,
    pub dz: int,
}

impl Region {
    /// The box with lowest corner `(x, y, z)` and extents `dx`, `dy`, `dz`.
    pub open spec fn new(x: int, y: int, z: int, dx: int, dy: int, dz: int) -> Region {
        Region { x, y, z, dx, dy, dz }
    }

    /// The cube of side `n` whose lowest corner is the origin.
    pub open spec fn cube(n: int) -> Region {
        Region { x: 0, y: 0, z: 0, dx: n, dy: n, dz: n }
    }

    pub open spec fn is_empty(self) -> bool {
        self.dx <= 0 || self.dy <= 0 || self.dz <= 0
    }

    pub open spec fn contains(self, x: int, y: int, z: int) -> bool {
        &&& self.x <= x < self.x + self.dx
        &&& self.y <= y < self.y + self.dy
        &&& self.z <= z < self.z + self.dz
    }

    /// The box lies inside a cubic volume of side `n`.
    pub open spec fn within(self, n: int) -> bool {
        &&& 0 <= self.x && 0 <= self.dx && self.x + self.dx <= n
        &&& 0 <= self.y && 0 <= self.dy && self.y + self.dy <= n
        &&& 0 <= self.z && 0 <= self.dz && self.z + self.dz <= n
    }

    /// Octant `i` of the box, for `i` in `0..8`. Each axis is cut at half its
    /// extent, rounded down; the bits of `i` choose the low (0) or high (1)
    /// part along x (bit 2), y (bit 1) and z (bit 0).
    pub open spec fn octant(self, i: int) -> Region {
        let hx = self.dx / 2;
        let hy = self.dy / 2;
        let hz = self.dz / 2;
        Region {
            x: if i / 4 == 0 { self.x } else { self.x + hx },
            y: if (i / 2) % 2 == 0 { self.y } else { self.y + hy },
            z: if i % 2 == 0 { self.z } else { self.z + hz },
            dx: if i / 4 == 0 { hx } else { self.dx - hx },
            dy: if (i / 2) % 2 == 0 { hy } else { self.dy - hy },
            dz: if i % 2 == 0 { hz } else { self.dz - hz },
        }
    }

    /// The octant that holds the cell `(x, y, z)`.
    pub open spec fn octant_index(self, x: int, y: int, z: int) -> int {
        (if x < self.x + self.dx / 2 { 0int } else { 4int })
        + (if y < self.y + self.dy / 2 { 0int } else { 2int })
        + (if z < self.z + self.dz / 2 { 0int } else { 1int })
    }
}

/// The cell at the lowest corner of a box.
pub open spec fn first_cell<T>(vol: Volume<T>, r: Region) -> T {
    vol[r.x][r.y][r.z]
}

/// Every cell of the box holds the same value as its first cell.
pub open spec fn region_uniform<T>(vol: Volume<T>, r: Region) -> bool {
    forall|x: int, y: int, z: int|
        r.contains(x, y, z) ==> #[trigger] vol[x][y][z] == first_cell(vol, r)
}

/// Why an octree could not be built.
#[derive(Clone, Copy, Debug, PartialEq, Eq, Structural)]
pub enum OctreeError {
    /// The volume is empty or its extents along the three axes differ.
    NotCubic,
}

/// A volume compressed into uniform leaves and eight-way subdivisions.
#[derive(Debug)]
pub enum Octree<T> {
    /// The eight octants of the volume, x outermost and z innermost, low
    /// before high.
    Subdivised { childs: Vec<Octree<T>> },
    /// The whole volume holds `content`.
    Uniform { content: T },
}

impl<T> Octree<T> {
    /// Every subdivision has exactly eight children.
    pub open spec fn well_formed(&self) -> bool
        decreases self,
    {
        match self {
            Octree::Uniform { .. } => true,
            Octree::Subdivised { childs } => {
                &&& childs.len() == 8
                &&& forall|i: int| 0 <= i < childs.len() ==> (#[trigger] childs[i]).well_formed()
            },
        }
    }

    /// This tree is the compression of box `r` of `vol`: a leaf where the box
    /// is uniform, eight children where it is not. A box without cells is a
    /// leaf that holds `fill`.
    pub open spec fn encodes(&self, vol: Volume<T>, r: Region, fill: T) -> bool
        decreases self,
    {
        match self {
            Octree::Uniform { content } => {
                if r.is_empty() {
                    *content == fill
                } else {
                    region_uniform(vol, r) && *content == first_cell(vol, r)
                }
            },
            Octree::Subdivised { childs } => {
                &&& !r.is_empty()
                &&& !region_uniform(vol, r)
                &&& childs.len() == 8
                &&& forall|i: int|
                    0 <= i < childs.len() ==> (#[trigger] childs[i]).encodes(
                        vol,
                        r.octant(i),
                        first_cell(vol, r),
                    )
            },
        }
    }

    /// The two trees have the same shape and hold the same values.
    pub open spec fn same_as(&self, other: &Octree<T>) -> bool
        decreases self,
    {
        match self {
            Octree::Uniform { content } => other is Uniform && other->content == *content,
            Octree::Subdivised { childs } => {
                &&& other is Subdivised
                &&& other->childs.len() == childs.len()
                &&& forall|i: int|
                    0 <= i < childs.len() ==> (#[trigger] childs[i]).same_as(&other->childs[i])
            },
        }
    }

    /// The value that the tree holds for cell `(x, y, z)` of the box `r` it
    /// covers.
    pub open spec fn value_at(&self, r: Region, x: int, y: int, z: int) -> T
        decreases self,
    {
        match self {
            Octree::Uniform { content } => *content,
            Octree::Subdivised { childs } => {
                let i = r.octant_index(x, y, z);
                if 0 <= i < childs.len() {
                    childs[i].value_at(r.octant(i), x, y, z)
                } else {
                    arbitrary()
                }
            },
        }
    }
}

/// `==` on `T` decides equality of values.
pub open spec fn eq_decides_equality<T: PartialEq>() -> bool {
    &&& T::obeys_eq_spec()
    &&& forall|a: T, b: T| #[trigger] a.eq_spec(&b) <==> a == b
}

/// Whether a nested vector is a cubic volume.
fn is_cube<T>(value: &Vec<Vec<Vec<T>>>) -> (b: bool)
    ensures
        b == is_cubic(volume_of(*value)),
{
    let n = value.len();
    if n == 0 {
        return false;
    }
    let ghost vol = volume_of(*value);
    let mut x: usize = 0;
    while x < n
        invariant
            x <= n,
            n == value.len(),
            vol == volume_of(*value),
            forall|i: int| 0 <= i < x ==> (#[trigger] vol[i]).len() == n,
            forall|i: int, j: int|
                0 <= i < x && 0 <= j < vol[i].len() ==> (#[trigger] vol[i][j]).len() == n,
        decreases n - x,
    {
        if value[x].len() != n {
            assert(vol[x as int].len() != vol.len());
            return false;
        }
        let mut y: usize = 0;
        while y < n
            invariant
                y <= n,
                x < n,
                n == value.len(),
                value[x as int].len() == n,
                vol == volume_of(*value),
                forall|j: int| 0 <= j < y ==> (#[trigger] vol[x as int][j]).len() == n,
            decreases n - y,
        {
            if value[x][y].len() != n {
                assert(vol[x as int][y as int].len() != vol.len());
                return false;
            }
            y += 1;
        }
        x += 1;
    }
    true
}

/// Whether every cell of a box holds the value of its first cell.
fn is_uniform<T: PartialEq + Copy>(
    value: &Vec<Vec<Vec<T>>>,
    x: usize,
    y: usize,
    z: usize,
    dx: usize,
    dy: usize,
    dz: usize,
) -> (b: bool)
    requires
        eq_decides_equality::<T>(),
        is_cubic(volume_of(*value)),
        Region::new(x as int, y as int, z as int, dx as int, dy as int, dz as int).within(
            value.len() as int,
        ),
        dx > 0 && dy > 0 && dz > 0,
    ensures
        b == region_uniform(
            volume_of(*value),
            Region::new(x as int, y as int, z as int, dx as int, dy as int, dz as int),
        ),
{
    let ghost vol = volume_of(*value);
    let ghost r = Region::new(x as int, y as int, z as int, dx as int, dy as int, dz as int);
    assert(vol[x as int].len() == value.len());
    assert(vol[x as int][y as int].len() == value.len());
    let first = value[x][y][z];
    let mut i: usize = x;
    while i < x + dx
        invariant
            x <= i <= x + dx,
            eq_decides_equality::<T>(),
            is_cubic(vol),
            vol == volume_of(*value),
            r == Region::new(x as int, y as int, z as int, dx as int, dy as int, dz as int),
            r.within(value.len() as int),
            first == first_cell(vol, r),
            forall|a: int, b: int, c: int|
                r.contains(a, b, c) && a < i ==> #[trigger] vol[a][b][c] == first,
        decreases x + dx - i,
    {
        let mut j: usize = y;
        while j < y + dy
            invariant
                x <= i < x + dx,
                y <= j <= y + dy,
                eq_decides_equality::<T>(),
                is_cubic(vol),
                vol == volume_of(*value),
                r == Region::new(x as int, y as int, z as int, dx as int, dy as int, dz as int),
                r.within(value.len() as int),
                first == first_cell(vol, r),
                forall|a: int, b: int, c: int|
                    r.contains(a, b, c) && a < i ==> #[trigger] vol[a][b][c] == first,
                forall|b: int, c: int|
                    r.contains(i as int, b, c) && b < j ==> #[trigger] vol[i as int][b][c] == first,
            decreases y + dy - j,
        {
            let mut k: usize = z;
            while k < z + dz
                invariant
                    x <= i < x + dx,
                    y <= j < y + dy,
                    z <= k <= z + dz,
                    eq_decides_equality::<T>(),
                    is_cubic(vol),
                    vol == volume_of(*value),
                    r == Region::new(x as int, y as int, z as int, dx as int, dy as int, dz as int),
                    r.within(value.len() as int),
                    first == first_cell(vol, r),
                    forall|a: int, b: int, c: int|
                        r.contains(a, b, c) && a < i ==> #[trigger] vol[a][b][c] == first,
                    forall|b: int, c: int|
                        r.contains(i as int, b, c) && b < j ==> #[trigger] vol[i as int][b][c]
                            == first,
                    forall|c: int|
                        z <= c < k ==> #[trigger] vol[i as int][j as int][c] == first,
                decreases z + dz - k,
            {
                assert(vol[i as int].len() == value.len());
                assert(vol[i as int][j as int].len() == value.len());
                if !(value[i][j][k] == first) {
                    assert(r.contains(i as int, j as int, k as int));
                    assert(vol[i as int][j as int][k as int] != first_cell(vol, r));
                    return false;
                }
                k += 1;
            }
            j += 1;
        }
        i += 1;
    }
    true
}

/// Compresses one box of a cubic volume.
fn build<T: PartialEq + Copy>(
    value: &Vec<Vec<Vec<T>>>,
    x: usize,
    y: usize,
    z: usize,
    dx: usize,
    dy: usize,
    dz: usize,
    fill: T,
) -> (tree: Octree<T>)
    requires
        eq_decides_equality::<T>(),
        is_cubic(volume_of(*value)),
        Region::new(x as int, y as int, z as int, dx as int, dy as int, dz as int).within(
            value.len() as int,
        ),
    ensures
        tree.well_formed(),
        tree.encodes(
            volume_of(*value),
            Region::new(x as int, y as int, z as int, dx as int, dy as int, dz as int),
            fill,
        ),
    decreases dx + dy + dz,
{
    let ghost vol = volume_of(*value);
    let ghost r = Region::new(x as int, y as int, z as int, dx as int, dy as int, dz as int);
    if dx == 0 || dy == 0 || dz == 0 {
        return Octree::Uniform { content: fill };
    }
    assert(vol[x as int].len() == value.len());
    assert(vol[x as int][y as int].len() == value.len());
    let first = value[x][y][z];
    if is_uniform(value, x, y, z, dx, dy, dz) {
        return Octree::Uniform { content: first };
    }
    assert(dx >= 2 || dy >= 2 || dz >= 2) by {
        if dx == 1 && dy == 1 && dz == 1 {
            assert(region_uniform(vol, r));
        }
    }
    let hx = dx / 2;
    let hy = dy / 2;
    let hz = dz / 2;
    let mut childs: Vec<Octree<T>> = Vec::new();
    let mut i: usize = 0;
    while i < 8
        invariant
            i <= 8,
            childs.len() == i,
            eq_decides_equality::<T>(),
            is_cubic(vol),
            vol == volume_of(*value),
            r == Region::new(x as int, y as int, z as int, dx as int, dy as int, dz as int),
            r.within(value.len() as int),
            dx >= 2 || dy >= 2 || dz >= 2,
            hx == dx / 2 && hy == dy / 2 && hz == dz / 2,
            first == first_cell(vol, r),
            forall|j: int| 0 <= j < i ==> (#[trigger] childs[j]).well_formed(),
            forall|j: int| 0 <= j < i ==> (#[trigger] childs[j]).encodes(vol, r.octant(j), first),
        decreases 8 - i,
    {
        let (cx, cdx) = if i / 4 == 0 { (x, hx) } else { (x + hx, dx - hx) };
        let (cy, cdy) = if (i / 2) % 2 == 0 { (y, hy) } else { (y + hy, dy - hy) };
        let (cz, cdz) = if i % 2 == 0 { (z, hz) } else { (z + hz, dz - hz) };
        assert(r.octant(i as int) == Region::new(
            cx as int,
            cy as int,
            cz as int,
            cdx as int,
            cdy as int,
            cdz as int,
        ));
        let child = build(value, cx, cy, cz, cdx, cdy, cdz, first);
        childs.push(child);
        i += 1;
    }
    Octree::Subdivised { childs }
}

impl<T: PartialEq + Copy> Octree<T> {
    /// Compresses a dense cubic volume, indexed `[x][y][z]`, into an octree.
    ///
    /// A volume that is uniform becomes one leaf. Any other is cut at half
    /// its side along each axis into eight octants, each compressed in turn;
    /// an octant without cells is a leaf that holds the first cell of the box
    /// it was cut from. A volume that is empty or not cubic is refused.
    pub fn from(value: Vec<Vec<Vec<T>>>) -> (result: Result<Octree<T>, OctreeError>)
        requires
            eq_decides_equality::<T>(),
        ensures
            result is Ok <==> is_cubic(volume_of(value)),
            result matches Err(e) ==> e == OctreeError::NotCubic,
            result matches Ok(tree) ==> tree.well_formed() && tree.encodes(
                volume_of(value),
                Region::cube(value.len() as int),
                volume_of(value)[0][0][0],
            ),
            result matches Ok(tree) ==> (tree is Uniform <==> region_uniform(
                volume_of(value),
                Region::cube(value.len() as int),
            )),
            result matches Ok(tree) ==> forall|x: int, y: int, z: int|
                Region::cube(value.len() as int).contains(x, y, z) ==> #[trigger] tree.value_at(
                    Region::cube(value.len() as int),
                    x,
                    y,
                    z,
                ) == volume_of(value)[x][y][z],
    {
        if !is_cube(&value) {
            return Err(OctreeError::NotCubic);
        }
        let n = value.len();
        let ghost vol = volume_of(value);
        let ghost whole = Region::cube(n as int);
        assert(vol[0].len() == n);
        assert(vol[0][0].len() == n);
        let first = value[0][0][0];
        let tree = build(&value, 0, 0, 0, n, n, n, first);
        assert forall|x: int, y: int, z: int|
            whole.contains(x, y, z) implies #[trigger] tree.value_at(whole, x, y, z)
            == vol[x][y][z] by {
            tree_reproduces_volume(tree, vol, whole, first, x, y, z);
        }
        Ok(tree)
    }
}

impl<T: Copy> Octree<T> {
    /// The value that the tree holds for the cell `(x, y, z)` of the cube of
    /// side `side` that it covers. For a tree made by [`Octree::from`] this
    /// is the cell of the volume.
    pub fn get(&self, side: usize, x: usize, y: usize, z: usize) -> (value: T)
        requires
            self.well_formed(),
        ensures
            value == self.value_at(Region::cube(side as int), x as int, y as int, z as int),
    {
        self.get_in(0, 0, 0, side, side, side, x, y, z)
    }

    /// The value that the tree holds for a cell, where the tree covers the
    /// box with lowest corner `(x0, y0, z0)` and extents `dx`, `dy`, `dz`.
    fn get_in(
        &self,
        x0: usize,
        y0: usize,
        z0: usize,
        dx: usize,
        dy: usize,
        dz: usize,
        x: usize,
        y: usize,
        z: usize,
    ) -> (value: T)
        requires
            self.well_formed(),
            x0 + dx <= usize::MAX && y0 + dy <= usize::MAX && z0 + dz <= usize::MAX,
        ensures
            value == self.value_at(
                Region::new(x0 as int, y0 as int, z0 as int, dx as int, dy as int, dz as int),
                x as int,
                y as int,
                z as int,
            ),
        decreases self,
    {
        match self {
            Octree::Uniform { content } => *content,
            Octree::Subdivised { childs } => {
                let hx = dx / 2;
                let hy = dy / 2;
                let hz = dz / 2;
                let high_x = x >= x0 + hx;
                let high_y = y >= y0 + hy;
                let high_z = z >= z0 + hz;
                let (cx, cdx) = if high_x { (x0 + hx, dx - hx) } else { (x0, hx) };
                let (cy, cdy) = if high_y { (y0 + hy, dy - hy) } else { (y0, hy) };
                let (cz, cdz) = if high_z { (z0 + hz, dz - hz) } else { (z0, hz) };
                let mut i: usize = 0;
                if high_x {
                    i += 4;
                }
                if high_y {
                    i += 2;
                }
                if high_z {
                    i += 1;
                }
                childs[i].get_in(cx, cy, cz, cdx, cdy, cdz, x, y, z)
            },
        }
    }
}

/// A volume in which every cell holds `v` compresses to the single leaf
/// `Uniform { content: v }`, whatever its side.
pub proof fn uniform_volume_is_one_leaf<T>(tree: Octree<T>, vol: Volume<T>, v: T, fill: T)
    requires
        is_cubic(vol),
        forall|x: int, y: int, z: int|
            0 <= x < vol.len() && 0 <= y < vol.len() && 0 <= z < vol.len()
                ==> #[trigger] vol[x][y][z] == v,
        tree.encodes(vol, Region::cube(vol.len() as int), fill),
    ensures
        tree == (Octree::Uniform { content: v }),
{
    let r = Region::cube(vol.len() as int);
    assert(r.contains(0, 0, 0));
    assert(vol[0][0][0] == v);
    assert(region_uniform(vol, r));
}

/// A volume of side 1 compresses to one leaf that holds its only cell.
pub proof fn unit_volume_is_one_leaf<T>(tree: Octree<T>, vol: Volume<T>, fill: T)
    requires
        is_cubic(vol),
        vol.len() == 1,
        tree.encodes(vol, Region::cube(1), fill),
    ensures
        tree == (Octree::Uniform { content: vol[0][0][0] }),
{
    assert(region_uniform(vol, Region::cube(1)));
}

/// A cubic volume that holds two different values compresses to a
/// subdivision with exactly eight children, child `i` being the compression
/// of octant `i`.
pub proof fn mixed_volume_is_subdivided<T>(tree: Octree<T>, vol: Volume<T>, fill: T)
    requires
        is_cubic(vol),
        exists|x: int, y: int, z: int|
            0 <= x < vol.len() && 0 <= y < vol.len() && 0 <= z < vol.len()
                && #[trigger] vol[x][y][z] != vol[0][0][0],
        tree.encodes(vol, Region::cube(vol.len() as int), fill),
    ensures
        tree is Subdivised,
        tree->childs.len() == 8,
        forall|i: int|
            0 <= i < 8 ==> (#[trigger] tree->childs[i]).encodes(
                vol,
                Region::cube(vol.len() as int).octant(i),
                vol[0][0][0],
            ),
{
    let r = Region::cube(vol.len() as int);
    let (x, y, z) = choose|x: int, y: int, z: int|
        0 <= x < vol.len() && 0 <= y < vol.len() && 0 <= z < vol.len()
            && #[trigger] vol[x][y][z] != vol[0][0][0];
    assert(r.contains(x, y, z));
    assert(!region_uniform(vol, r));
}

/// The eight octants of a box tile it: a cell lies in octant `i` exactly
/// when it lies in the box and `i` is its octant index. So no cell of the
/// box is left out, none is covered twice, and no octant reaches outside.
pub proof fn octants_tile_region(r: Region, x: int, y: int, z: int)
    requires
        r.dx >= 0 && r.dy >= 0 && r.dz >= 0,
    ensures
        0 <= r.octant_index(x, y, z) < 8,
        forall|i: int|
            0 <= i < 8 ==> (#[trigger] r.octant(i).contains(x, y, z) <==> r.contains(x, y, z) && i
                == r.octant_index(x, y, z)),
{
}

/// Reading a tree back gives the volume it was built from: for every cell
/// of the box that the tree encodes, the tree holds the cell's value.
pub proof fn tree_reproduces_volume<T>(
    tree: Octree<T>,
    vol: Volume<T>,
    r: Region,
    fill: T,
    x: int,
    y: int,
    z: int,
)
    requires
        tree.encodes(vol, r, fill),
        r.contains(x, y, z),
    ensures
        tree.value_at(r, x, y, z) == vol[x][y][z],
    decreases tree,
{
    match tree {
        Octree::Uniform { content } => {},
        Octree::Subdivised { childs } => {
            let i = r.octant_index(x, y, z);
            octants_tile_region(r, x, y, z);
            assert(r.octant(i).contains(x, y, z));
            tree_reproduces_volume(childs[i], vol, r.octant(i), first_cell(vol, r), x, y, z);
        },
    }
}

/// A box has one compression only: two trees that encode the same box are
/// the same tree.
pub proof fn encoding_is_unique<T>(
    a: Octree<T>,
    b: Octree<T>,
    vol: Volume<T>,
    r: Region,
    fill: T,
)
    requires
        a.encodes(vol, r, fill),
        b.encodes(vol, r, fill),
    ensures
        a.same_as(&b),
    decreases a,
{
    match a {
        Octree::Uniform { content } => {},
        Octree::Subdivised { childs } => {
            assert forall|i: int| 0 <= i < childs.len() implies (#[trigger] childs[i]).same_as(
                &b->childs[i],
            ) by {
                encoding_is_unique(childs[i], b->childs[i], vol, r.octant(i), first_cell(vol, r));
            }
        },
    }
}

/// The texts of the parts, in order, with a comma between neighbours.
pub open spec fn comma_joined(parts: Seq<Seq<char>>) -> Seq<char>
    decreases parts.len(),
{
    if parts.len() == 0 {
        Seq::empty()
    } else if parts.len() == 1 {
        parts[0]
    } else {
        comma_joined(parts.drop_last()) + seq![','] + parts.last()
    }
}

impl<T: core::fmt::Display> Octree<T> {
    /// `s` is a text of this tree: for a leaf a text that `to_string` gives
    /// for its content, for a subdivision `S(` and `)` around the texts of
    /// its children, separated by commas.
    pub open spec fn has_repr(&self, s: Seq<char>) -> bool
        decreases self,
    {
        match self {
            Octree::Uniform { content } => exists|text: String|
                #[trigger] to_string_from_display_ensures::<T>(content, text) && text@ == s,
            Octree::Subdivised { childs } => exists|parts: Seq<Seq<char>>|
                {
                    &&& parts.len() == childs.len()
                    &&& forall|i: int|
                        0 <= i < childs.len() ==> (#[trigger] childs[i]).has_repr(parts[i])
                    &&& s == seq!['S', '('] + #[trigger] comma_joined(parts) + seq![')']
                },
        }
    }

    /// The tree as text: a leaf as its content, a subdivision as
    /// `S(c0,c1,c2,c3,c4,c5,c6,c7)` over the texts of its children.
    pub fn string_repr(&self) -> (s: String)
        ensures
            self.has_repr(s@),
        decreases self,
    {
        match self {
            Octree::Uniform { content } => {
                let text = content.to_string();
                assert(to_string_from_display_ensures::<T>(content, text));
                text
            },
            Octree::Subdivised { childs } => {
                let mut out = String::from_str("S(");
                proof {
                    reveal_strlit("S(");
                    reveal_strlit(",");
                }
                assert(out@ == seq!['S', '(']);
                let ghost mut parts: Seq<Seq<char>> = Seq::empty();
                let mut i: usize = 0;
                while i < childs.len()
                    invariant
                        i <= childs.len(),
                        self is Subdivised,
                        self->childs == *childs,
                        parts.len() == i,
                        forall|j: int| 0 <= j < i ==> (#[trigger] childs[j]).has_repr(parts[j]),
                        out@ == seq!['S', '('] + comma_joined(parts),
                        ","@ == seq![','],
                    decreases childs.len() - i,
                {
                    if i > 0 {
                        out.append(",");
                    }
                    let part = childs[i].string_repr();
                    out.append(part.as_str());
                    proof {
                        let longer = parts.push(part@);
                        assert(longer.drop_last() == parts);
                        assert(longer.last() == part@);
                        parts = longer;
                    }
                    i += 1;
                }
                out.append(")");
                proof {
                    reveal_strlit(")");
                    assert(out@ == seq!['S', '('] + comma_joined(parts) + seq![')']);
                }
                out
            },
        }
    }
}

} // verus!
