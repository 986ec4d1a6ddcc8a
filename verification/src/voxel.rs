//! A solid of cubes for a mesh of triangles, and the panels of its surface.
use crate::binary64::{Binary64, INFINITE_MAGNITUDE};
use crate::config::CollisionPanel;
use crate::elementary::Elementary;
use crate::literal::{
    num, D0, D0_002, D0_316624790355, D0_381966011250105, D0_5, D0_618033988749895, D1, D12_9898,
    D1EM12, D1EM18, D1EM9, D1_2, D43758_5453, D78_233, M1,
};
use crate::vector::Vec3;
use vstd::prelude::*;

verus! {

/// Fewest and most cubes along the longest side.
pub const MIN_RES: usize = 4;

pub const MAX_RES: usize = 24;

/// Most cubes along a side: the longest one may need one more by rounding.
pub const MAX_CELLS: usize = 25;

/// A triangle by the places of its corners.
pub type Triangle = [usize; 3];

impl Binary64 {
    /// The smallest whole number that is not below `self`.
    pub open spec fn ceiling(self) -> Binary64 {
        self.negated().floored().negated()
    }

    /// The smallest whole number that is not below `self`.
    pub fn ceil(self) -> (r: Binary64)
        ensures
            r == self.ceiling(),
    {
        self.neg().floor().neg()
    }

    /// The largest whole number up to `cap` that is not above `self`; zero
    /// below one and for NaN.
    pub open spec fn steps(self, cap: nat) -> nat
        decreases cap,
    {
        if cap == 0 {
            0
        } else if Binary64::integer(cap).not_above(self) {
            cap
        } else {
            self.steps((cap - 1) as nat)
        }
    }

    /// The largest whole number up to `cap` that is not above `self`; zero
    /// below one and for NaN.
    pub fn whole_steps(self, cap: usize) -> (r: usize)
        ensures
            r == self.steps(cap as nat),
            r <= cap,
    {
        let mut k: usize = cap;
        while k > 0 && !Binary64::from_u64(k as u64).le(self)
            invariant
                k <= cap,
                self.steps(cap as nat) == self.steps(k as nat),
            decreases k,
        {
            k = k - 1;
        }
        k
    }
}

/// The box about some points.
#[derive(Clone, Copy, Debug, PartialEq, Eq, Structural)]
pub struct Bounds {
    pub low: Vec3,
    pub high: Vec3,
}

/// A box with one more point.
pub open spec fn stretched(b: Bounds, p: Vec3) -> Bounds {
    Bounds {
        low: Vec3 { x: b.low.x.smaller(p.x), y: b.low.y.smaller(p.y), z: b.low.z.smaller(p.z) },
        high: Vec3 { x: b.high.x.larger(p.x), y: b.high.y.larger(p.y), z: b.high.z.larger(p.z) },
    }
}

/// A box with one more point.
pub fn bounds_with(b: Bounds, p: Vec3) -> (r: Bounds)
    ensures
        r == stretched(b, p),
{
    Bounds {
        low: Vec3 { x: b.low.x.min(p.x), y: b.low.y.min(p.y), z: b.low.z.min(p.z) },
        high: Vec3 { x: b.high.x.max(p.x), y: b.high.y.max(p.y), z: b.high.z.max(p.z) },
    }
}

/// The box about no point.
pub open spec fn empty_bounds() -> Bounds {
    let inf = num(INFINITE_MAGNITUDE);
    Bounds {
        low: Vec3 { x: inf, y: inf, z: inf },
        high: Vec3 { x: inf.negated(), y: inf.negated(), z: inf.negated() },
    }
}

/// The box about no point.
pub fn no_bounds() -> (r: Bounds)
    ensures
        r == empty_bounds(),
{
    let inf: Binary64 = num(INFINITE_MAGNITUDE);
    Bounds {
        low: Vec3 { x: inf, y: inf, z: inf },
        high: Vec3 { x: inf.neg(), y: inf.neg(), z: inf.neg() },
    }
}

/// The box about the first `n` points.
pub open spec fn bounds_of(points: Seq<Vec3>, n: nat) -> Bounds
    decreases n,
{
    if n == 0 {
        empty_bounds()
    } else {
        stretched(bounds_of(points, (n - 1) as nat), points[n - 1])
    }
}

/// The sides of a box, none too small to divide by.
pub open spec fn sides_of(b: Bounds) -> Vec3 {
    Vec3 {
        x: b.high.x.difference(b.low.x).larger(num(D1EM9)),
        y: b.high.y.difference(b.low.y).larger(num(D1EM9)),
        z: b.high.z.difference(b.low.z).larger(num(D1EM9)),
    }
}

/// The sides of a box, none too small to divide by.
pub fn sides(b: Bounds) -> (r: Vec3)
    ensures
        r == sides_of(b),
{
    Vec3 {
        x: b.high.x.minus(b.low.x).max(num(D1EM9)),
        y: b.high.y.minus(b.low.y).max(num(D1EM9)),
        z: b.high.z.minus(b.low.z).max(num(D1EM9)),
    }
}

/// A grid of cubes.
#[derive(Clone, Copy, Debug, PartialEq, Eq, Structural)]
pub struct Grid {
    /// The corner of the first cube.
    pub low: Vec3,
    /// The side of a cube.
    pub cell: Binary64,
    pub nx: usize,
    pub ny: usize,
    pub nz: usize,
}

/// Cubes along a side.
pub open spec fn cells_along(side: Binary64, cell: Binary64) -> usize {
    let n = side.quotient(cell).ceiling().steps(MAX_CELLS as nat);
    if n == 0 {
        1
    } else {
        n as usize
    }
}

/// The grid about some points: `resolution` cubes, from 4 to 24, along the
/// longest side.
pub open spec fn grid_of(points: Seq<Vec3>, resolution: usize) -> Grid {
    let b = bounds_of(points, points.len());
    let s = sides_of(b);
    let res = if resolution < MIN_RES {
        MIN_RES
    } else if resolution > MAX_RES {
        MAX_RES
    } else {
        resolution
    };
    let cell = s.x.larger(s.y).larger(s.z).quotient(Binary64::integer(res as nat));
    Grid {
        low: b.low,
        cell,
        nx: cells_along(s.x, cell),
        ny: cells_along(s.y, cell),
        nz: cells_along(s.z, cell),
    }
}

fn count_along(side: Binary64, cell: Binary64) -> (r: usize)
    ensures
        r == cells_along(side, cell),
        1 <= r <= MAX_CELLS,
{
    let n: usize = side.over(cell).ceil().whole_steps(MAX_CELLS);
    if n == 0 {
        1
    } else {
        n
    }
}

impl Grid {
    pub open spec fn wf(self) -> bool {
        &&& 1 <= self.nx <= MAX_CELLS
        &&& 1 <= self.ny <= MAX_CELLS
        &&& 1 <= self.nz <= MAX_CELLS
    }

    /// The number of cubes.
    pub open spec fn size(self) -> nat {
        (self.nx * self.ny * self.nz) as nat
    }

    /// The place of a cube along each side; cubes are numbered along the first
    /// side, then the second, then the third.
    pub open spec fn place(self, idx: int) -> (int, int, int) {
        (
            idx % self.nx as int,
            (idx / self.nx as int) % self.ny as int,
            idx / (self.nx * self.ny),
        )
    }

    /// The grid about some points.
    pub fn about(points: &[Vec3], resolution: usize) -> (r: Self)
        ensures
            r == grid_of(points@, resolution),
            r.wf(),
    {
        let mut b: Bounds = no_bounds();
        let mut i: usize = 0;
        while i < points.len()
            invariant
                i <= points@.len(),
                b == bounds_of(points@, i as nat),
            decreases points@.len() - i,
        {
            b = bounds_with(b, points[i]);
            i += 1;
        }
        let s: Vec3 = sides(b);
        let res: usize = if resolution < MIN_RES {
            MIN_RES
        } else if resolution > MAX_RES {
            MAX_RES
        } else {
            resolution
        };
        let cell: Binary64 = s.x.max(s.y).max(s.z).over(Binary64::from_u64(res as u64));
        Grid {
            low: b.low,
            cell,
            nx: count_along(s.x, cell),
            ny: count_along(s.y, cell),
            nz: count_along(s.z, cell),
        }
    }

    /// The middle of the cube at a place.
    pub open spec fn middle(self, i: u64, j: u64, k: u64) -> Vec3 {
        Vec3 {
            x: self.low.x.sum(Binary64::integer(i as nat).sum(num(D0_5)).product(self.cell)),
            y: self.low.y.sum(Binary64::integer(j as nat).sum(num(D0_5)).product(self.cell)),
            z: self.low.z.sum(Binary64::integer(k as nat).sum(num(D0_5)).product(self.cell)),
        }
    }

    /// The middle of the cube at a place.
    pub fn centre(self, i: u64, j: u64, k: u64) -> (r: Vec3)
        ensures
            r == self.middle(i, j, k),
    {
        Vec3 {
            x: self.low.x.plus(Binary64::from_u64(i).plus(num(D0_5)).times(self.cell)),
            y: self.low.y.plus(Binary64::from_u64(j).plus(num(D0_5)).times(self.cell)),
            z: self.low.z.plus(Binary64::from_u64(k).plus(num(D0_5)).times(self.cell)),
        }
    }
}

/// The plane of a triangle: the points whose product with the normal is the
/// offset.
#[derive(Clone, Copy, Debug, PartialEq, Eq, Structural)]
pub struct Plane {
    pub normal: Vec3,
    pub offset: Binary64,
}

/// The corners of a triangle.
#[derive(Clone, Copy, Debug, PartialEq, Eq, Structural)]
pub struct Corners {
    pub a: Vec3,
    pub b: Vec3,
    pub c: Vec3,
}

/// Whether the corners of all triangles are among the points.
pub open spec fn indexed(points: Seq<Vec3>, triangles: Seq<Triangle>) -> bool {
    forall|t: int|
        #![trigger triangles[t]]
        0 <= t < triangles.len() ==> triangles[t]@[0] < points.len() && triangles[t]@[1]
            < points.len() && triangles[t]@[2] < points.len()
}

/// The corners of a triangle.
pub open spec fn corners_of(points: Seq<Vec3>, t: Triangle) -> Corners {
    Corners { a: points[t@[0] as int], b: points[t@[1] as int], c: points[t@[2] as int] }
}

fn corners(points: &[Vec3], t: &Triangle) -> (r: Corners)
    requires
        t@[0] < points@.len(),
        t@[1] < points@.len(),
        t@[2] < points@.len(),
    ensures
        r == corners_of(points@, *t),
{
    Corners { a: points[t[0]], b: points[t[1]], c: points[t[2]] }
}

/// The plane through the corners.
pub open spec fn plane_of(t: Corners) -> Plane {
    let n = t.b.difference(t.a).outer(t.c.difference(t.a));
    Plane { normal: n, offset: n.inner(t.a) }
}

/// The plane through the corners.
pub fn plane_through(t: Corners) -> (r: Plane)
    ensures
        r == plane_of(t),
{
    let n: Vec3 = t.b.minus(t.a).cross(t.c.minus(t.a));
    Plane { normal: n, offset: n.dot(t.a) }
}

/// The columns of cubes that a triangle may cover: from the first up to, but
/// not with, the second.
#[derive(Clone, Copy, Debug, PartialEq, Eq, Structural)]
pub struct Footprint {
    pub j0: usize,
    pub j1: usize,
    pub k0: usize,
    pub k1: usize,
}

/// The columns that a triangle may cover.
pub open spec fn footprint_of(g: Grid, t: Corners) -> Footprint {
    let ymin = t.a.y.smaller(t.b.y).smaller(t.c.y);
    let ymax = t.a.y.larger(t.b.y).larger(t.c.y);
    let zmin = t.a.z.smaller(t.b.z).smaller(t.c.z);
    let zmax = t.a.z.larger(t.b.z).larger(t.c.z);
    Footprint {
        j0: ymin.difference(g.low.y).quotient(g.cell).difference(num(D1EM9)).floored().steps(
            g.ny as nat,
        ) as usize,
        j1: ymax.difference(g.low.y).quotient(g.cell).sum(num(D1EM9)).ceiling().steps(
            g.ny as nat,
        ) as usize,
        k0: zmin.difference(g.low.z).quotient(g.cell).difference(num(D1EM9)).floored().steps(
            g.nz as nat,
        ) as usize,
        k1: zmax.difference(g.low.z).quotient(g.cell).sum(num(D1EM9)).ceiling().steps(
            g.nz as nat,
        ) as usize,
    }
}

/// The columns that a triangle may cover.
fn footprint(g: &Grid, t: &Corners) -> (r: Footprint)
    ensures
        r == footprint_of(*g, *t),
        r.j0 <= g.ny && r.j1 <= g.ny && r.k0 <= g.nz && r.k1 <= g.nz,
{
    let ymin: Binary64 = t.a.y.min(t.b.y).min(t.c.y);
    let ymax: Binary64 = t.a.y.max(t.b.y).max(t.c.y);
    let zmin: Binary64 = t.a.z.min(t.b.z).min(t.c.z);
    let zmax: Binary64 = t.a.z.max(t.b.z).max(t.c.z);
    let eps: Binary64 = num(D1EM9);
    Footprint {
        j0: ymin.minus(g.low.y).over(g.cell).minus(eps).floor().whole_steps(g.ny),
        j1: ymax.minus(g.low.y).over(g.cell).plus(eps).ceil().whole_steps(g.ny),
        k0: zmin.minus(g.low.z).over(g.cell).minus(eps).floor().whole_steps(g.nz),
        k1: zmax.minus(g.low.z).over(g.cell).plus(eps).ceil().whole_steps(g.nz),
    }
}

impl Footprint {
    /// Whether a column is among them.
    pub open spec fn covers(self, j: int, k: int) -> bool {
        self.j0 <= j < self.j1 && self.k0 <= k < self.k1
    }
}

/// Whether a point lies in a triangle, seen along the first axis.
pub open spec fn shadows(py: Binary64, pz: Binary64, t: Corners) -> bool {
    let s1 = t.b.y.difference(t.a.y).product(pz.difference(t.a.z)).difference(
        t.b.z.difference(t.a.z).product(py.difference(t.a.y)),
    );
    let s2 = t.c.y.difference(t.b.y).product(pz.difference(t.b.z)).difference(
        t.c.z.difference(t.b.z).product(py.difference(t.b.y)),
    );
    let s3 = t.a.y.difference(t.c.y).product(pz.difference(t.c.z)).difference(
        t.a.z.difference(t.c.z).product(py.difference(t.c.y)),
    );
    !((s1.below(num(D0)) || s2.below(num(D0)) || s3.below(num(D0)))
        && (num(D0).below(s1) || num(D0).below(s2) || num(D0).below(s3)))
}

/// Whether a point lies in a triangle, seen along the first axis: on the same
/// side of all three edges, or on one.
pub fn inside_yz(py: Binary64, pz: Binary64, t: Corners) -> (r: bool)
    ensures
        r == shadows(py, pz, t),
{
    let s1: Binary64 = t.b.y.minus(t.a.y).times(pz.minus(t.a.z)).minus(t.b.z.minus(t.a.z).times(py.minus(t.a.y)));
    let s2: Binary64 = t.c.y.minus(t.b.y).times(pz.minus(t.b.z)).minus(t.c.z.minus(t.b.z).times(py.minus(t.b.y)));
    let s3: Binary64 = t.a.y.minus(t.c.y).times(pz.minus(t.c.z)).minus(t.a.z.minus(t.c.z).times(py.minus(t.c.y)));
    !((s1.lt(num(D0)) || s2.lt(num(D0)) || s3.lt(num(D0)))
        && (s1.gt(num(D0)) || s2.gt(num(D0)) || s3.gt(num(D0))))
}

/// Whether a ray along the first axis from a point meets a triangle ahead.
pub open spec fn met_by(t: Corners, from: Vec3) -> bool {
    let p = plane_of(t);
    let ahead = p.offset.difference(p.normal.y.product(from.y)).difference(p.normal.z.product(from.z)).quotient(
        p.normal.x,
    ).difference(from.x);
    !(p.normal.inner(p.normal).below(num(D1EM18))
        || p.normal.x.absolute().below(num(D1EM12)))
        && num(D1EM9).below(ahead)
        && shadows(from.y, from.z, t)
}

/// Whether a ray along the first axis from a point meets a triangle ahead. One
/// without area, or along the ray, is not met.
pub fn ray_hits(t: Corners, from: Vec3) -> (r: bool)
    ensures
        r == met_by(t, from),
{
    let p: Plane = plane_through(t);
    let ahead: Binary64 = p.offset.minus(p.normal.y.times(from.y)).minus(p.normal.z.times(from.z)).over(p.normal.x).minus(
        from.x,
    );
    !(p.normal.dot(p.normal).lt(num(D1EM18)) || p.normal.x.abs().lt(num(D1EM12)))
        && ahead.gt(num(D1EM9))
        && inside_yz(from.y, from.z, t)
}

/// The argument of the sine that scatters the ray of a cube.
pub open spec fn scatter_at(a: u64, b: u64, c: u64) -> Binary64 {
    let x = Binary64::integer(a as nat).product(num(D0_618033988749895)).sum(
        Binary64::integer(b as nat).product(num(D0_381966011250105)),
    ).sum(Binary64::integer(c as nat).product(num(D0_316624790355)));
    x.product(num(D12_9898)).sum(num(D78_233))
}

/// The argument of the sine that scatters the ray of a cube.
pub fn scatter_argument(a: u64, b: u64, c: u64) -> (r: Binary64)
    ensures
        r == scatter_at(a, b, c),
{
    let x: Binary64 = Binary64::from_u64(a).times(num(D0_618033988749895)).plus(
        Binary64::from_u64(b).times(num(D0_381966011250105)),
    ).plus(Binary64::from_u64(c).times(num(D0_316624790355)));
    x.times(num(D12_9898)).plus(num(D78_233))
}

/// The scatter of a ray, from zero to one, given the sine of its argument.
pub open spec fn scattered(sine: Binary64) -> Binary64 {
    let x = sine.product(num(D43758_5453));
    x.difference(x.floored())
}

/// The scatter of a ray, from zero to one, given the sine of its argument.
pub fn scatter(sine: Binary64) -> (r: Binary64)
    ensures
        r == scattered(sine),
{
    let x: Binary64 = sine.times(num(D43758_5453));
    x.minus(x.floor())
}

/// The arguments of the two sines of a cube.
pub open spec fn scatter_terms(g: Grid, idx: int) -> (Binary64, Binary64) {
    let (i, j, k) = g.place(idx);
    (
        scatter_at(i as u64, (j + 1) as u64, (k + 7) as u64),
        scatter_at((i + 5) as u64, (j + 3) as u64, (k + 1) as u64),
    )
}

/// The start of the ray of a cube: its middle, scattered across the ray.
pub open spec fn ray_start(g: Grid, idx: int, sines: (Binary64, Binary64)) -> Vec3 {
    let (i, j, k) = g.place(idx);
    let c = g.middle(i as u64, j as u64, k as u64);
    let off = g.cell.product(num(D0_002));
    Vec3 {
        x: c.x,
        y: c.y.sum(scattered(sines.0).difference(num(D0_5)).product(off)),
        z: c.z.sum(scattered(sines.1).difference(num(D0_5)).product(off)),
    }
}

/// Whether a triangle counts for a cube: it may cover the column of the cube,
/// and the ray of the cube meets it.
pub open spec fn crosses(
    points: Seq<Vec3>,
    t: Triangle,
    g: Grid,
    idx: int,
    sines: (Binary64, Binary64),
) -> bool {
    let (i, j, k) = g.place(idx);
    &&& footprint_of(g, corners_of(points, t)).covers(j, k)
    &&& met_by(corners_of(points, t), ray_start(g, idx, sines))
}

/// The number of the first `n` triangles that count for a cube.
pub open spec fn crossings(
    points: Seq<Vec3>,
    triangles: Seq<Triangle>,
    g: Grid,
    idx: int,
    sines: (Binary64, Binary64),
    n: nat,
) -> nat
    decreases n,
{
    if n == 0 {
        0
    } else {
        let before = crossings(points, triangles, g, idx, sines, (n - 1) as nat);
        if crosses(points, triangles[n - 1], g, idx, sines) {
            before + 1
        } else {
            before
        }
    }
}

/// Whether a cube is in the solid: its ray leaves the surface an odd number of
/// times.
pub open spec fn is_solid(
    points: Seq<Vec3>,
    triangles: Seq<Triangle>,
    g: Grid,
    idx: int,
    sines: (Binary64, Binary64),
) -> bool {
    crossings(points, triangles, g, idx, sines, triangles.len()) % 2 == 1
}

/// The triangles among the first `n` that may cover a column.
pub open spec fn column_of(
    points: Seq<Vec3>,
    triangles: Seq<Triangle>,
    g: Grid,
    j: int,
    k: int,
    n: nat,
) -> Seq<usize>
    decreases n,
{
    if n == 0 {
        Seq::empty()
    } else {
        let before = column_of(points, triangles, g, j, k, (n - 1) as nat);
        if footprint_of(g, corners_of(points, triangles[n - 1])).covers(j, k) {
            before.push((n - 1) as usize)
        } else {
            before
        }
    }
}

/// Whether the columns hold the triangles among the first `n` that may cover
/// them.
pub open spec fn sorted_into(
    columns: Seq<Vec<usize>>,
    points: Seq<Vec3>,
    triangles: Seq<Triangle>,
    g: Grid,
    n: nat,
) -> bool {
    &&& columns.len() == g.ny * g.nz
    &&& forall|j: int, k: int|
        #![trigger columns[k * g.ny + j]]
        0 <= j < g.ny && 0 <= k < g.nz ==> columns[k * g.ny + j]@ == column_of(
            points,
            triangles,
            g,
            j,
            k,
            n,
        )
}

proof fn lemma_column_index(g: Grid, j: int, k: int)
    requires
        0 <= j < g.ny,
        0 <= k < g.nz,
    ensures
        0 <= k * g.ny + j < g.ny * g.nz,
{
    assert(k * g.ny + j < g.ny * g.nz) by (nonlinear_arith)
        requires
            0 <= j < g.ny,
            0 <= k < g.nz,
    ;
    assert(0 <= k * g.ny) by (nonlinear_arith)
        requires
            0 <= k,
            0 <= g.ny,
    ;
}

proof fn lemma_column_unique(g: Grid, j: int, k: int, m: int, l: int)
    requires
        0 <= j < g.ny,
        0 <= m < g.ny,
        k * g.ny + j == l * g.ny + m,
    ensures
        j == m,
        k == l,
{
    let n = g.ny as int;
    assert(j - m == (l - k) * n) by (nonlinear_arith)
        requires
            k * n + j == l * n + m,
    ;
    if k < l {
        assert((l - k) * n >= n) by (nonlinear_arith)
            requires
                l - k >= 1,
                n >= 1,
        ;
    } else if l < k {
        assert((l - k) * n <= -n) by (nonlinear_arith)
            requires
                l - k <= -1,
                n >= 1,
        ;
    } else {
        assert((l - k) * n == 0) by (nonlinear_arith)
            requires
                l - k == 0,
        ;
    }
}

/// The columns with one more triangle.
#[verifier::spinoff_prover]
#[verifier::rlimit(60)]
fn sort_triangle(
    columns: &mut Vec<Vec<usize>>,
    points: &[Vec3],
    triangles: &[Triangle],
    g: &Grid,
    ti: usize,
)
    requires
        g.wf(),
        ti < triangles@.len(),
        indexed(points@, triangles@),
        sorted_into(old(columns)@, points@, triangles@, *g, ti as nat),
    ensures
        sorted_into(final(columns)@, points@, triangles@, *g, (ti + 1) as nat),
{
    let t: Corners = corners(points, &triangles[ti]);
    let f: Footprint = footprint(g, &t);
    let ghost first = columns@;
    let mut k: usize = f.k0;
    while k < f.k1
        invariant
            g.wf(),
            ti < triangles@.len(),
            f == footprint_of(*g, corners_of(points@, triangles@[ti as int])),
            f.j0 <= g.ny && f.j1 <= g.ny && f.k0 <= g.nz && f.k1 <= g.nz,
            f.k0 <= k,
            k <= f.k1 || k == f.k0,
            sorted_into(first, points@, triangles@, *g, ti as nat),
            columns@.len() == g.ny * g.nz,
            forall|a: int, b: int|
                #![trigger columns@[b * g.ny + a]]
                0 <= a < g.ny && 0 <= b < g.nz ==> columns@[b * g.ny + a]@ == if f.covers(a, b)
                    && b < k {
                    first[b * g.ny + a]@.push(ti)
                } else {
                    first[b * g.ny + a]@
                },
        decreases f.k1 - k,
    {
        let mut j: usize = f.j0;
        while j < f.j1
            invariant
                g.wf(),
                ti < triangles@.len(),
                f.j0 <= g.ny && f.j1 <= g.ny && f.k0 <= g.nz && f.k1 <= g.nz,
                f.k0 <= k < f.k1,
                f.j0 <= j,
                j <= f.j1 || j == f.j0,
                columns@.len() == g.ny * g.nz,
                forall|a: int, b: int|
                    #![trigger columns@[b * g.ny + a]]
                    0 <= a < g.ny && 0 <= b < g.nz ==> columns@[b * g.ny + a]@ == if f.covers(
                        a,
                        b,
                    ) && (b < k || (b == k && a < j)) {
                        first[b * g.ny + a]@.push(ti)
                    } else {
                        first[b * g.ny + a]@
                    },
            decreases f.j1 - j,
        {
            proof {
                lemma_column_index(*g, j as int, k as int);
                assert(k * g.ny <= 625) by (nonlinear_arith)
                    requires
                        k <= 25,
                        g.ny <= 25,
                ;
            }
            let place: usize = k * g.ny + j;
            let ghost before = columns@;
            columns[place].push(ti);
            proof {
                assert(columns@ =~= before.update(place as int, columns@[place as int]));
                assert forall|a: int, b: int|
                    #![trigger columns@[b * g.ny + a]]
                    0 <= a < g.ny && 0 <= b < g.nz implies columns@[b * g.ny + a]@ == if f.covers(
                    a,
                    b,
                ) && (b < k || (b == k && a < j + 1)) {
                    first[b * g.ny + a]@.push(ti)
                } else {
                    first[b * g.ny + a]@
                } by {
                    lemma_column_index(*g, a, b);
                    if b * g.ny + a == place {
                        lemma_column_unique(*g, a, b, j as int, k as int);
                        assert(before[b * g.ny + a]@ == first[b * g.ny + a]@);
                    } else {
                        assert(columns@[b * g.ny + a] == before[b * g.ny + a]);
                    }
                }
            }
            j += 1;
        }
        k += 1;
    }
    proof {
        assert forall|a: int, b: int|
            #![trigger columns@[b * g.ny + a]]
            0 <= a < g.ny && 0 <= b < g.nz implies columns@[b * g.ny + a]@ == column_of(
            points@,
            triangles@,
            *g,
            a,
            b,
            (ti + 1) as nat,
        ) by {
            assert(first[b * g.ny + a]@ == column_of(points@, triangles@, *g, a, b, ti as nat));
        }
    }
}

/// The triangles that may cover each column.
fn columns_of(points: &[Vec3], triangles: &[Triangle], g: &Grid) -> (r: Vec<Vec<usize>>)
    requires
        g.wf(),
        indexed(points@, triangles@),
    ensures
        sorted_into(r@, points@, triangles@, *g, triangles@.len()),
{
    let mut columns: Vec<Vec<usize>> = Vec::new();
    proof {
        assert(g.ny * g.nz <= 625) by (nonlinear_arith)
            requires
                g.ny <= 25,
                g.nz <= 25,
        ;
    }
    let n: usize = g.ny * g.nz;
    let mut c: usize = 0;
    while c < n
        invariant
            c <= n,
            columns@.len() == c,
            forall|i: int| 0 <= i < c ==> (#[trigger] columns@[i])@ == Seq::<usize>::empty(),
        decreases n - c,
    {
        columns.push(Vec::new());
        c += 1;
    }
    proof {
        assert forall|j: int, k: int|
            #![trigger columns@[k * g.ny + j]]
            0 <= j < g.ny && 0 <= k < g.nz implies columns@[k * g.ny + j]@ == column_of(
            points@,
            triangles@,
            *g,
            j,
            k,
            0,
        ) by {
            lemma_column_index(*g, j, k);
        }
    }
    let mut ti: usize = 0;
    while ti < triangles.len()
        invariant
            ti <= triangles@.len(),
            g.wf(),
            indexed(points@, triangles@),
            sorted_into(columns@, points@, triangles@, *g, ti as nat),
        decreases triangles@.len() - ti,
    {
        sort_triangle(&mut columns, points, triangles, g, ti);
        ti += 1;
    }
    columns
}

/// The number of triangles of a column, up to the place `m`, that a ray meets.
spec fn met_in(
    points: Seq<Vec3>,
    triangles: Seq<Triangle>,
    column: Seq<usize>,
    from: Vec3,
    m: nat,
) -> nat
    decreases m,
{
    if m == 0 {
        0
    } else {
        let before = met_in(points, triangles, column, from, (m - 1) as nat);
        if met_by(corners_of(points, triangles[column[m - 1] as int]), from) {
            before + 1
        } else {
            before
        }
    }
}

proof fn lemma_met_prefix(
    points: Seq<Vec3>,
    triangles: Seq<Triangle>,
    column: Seq<usize>,
    x: usize,
    from: Vec3,
    m: nat,
)
    requires
        m <= column.len(),
    ensures
        met_in(points, triangles, column.push(x), from, m) == met_in(
            points,
            triangles,
            column,
            from,
            m,
        ),
    decreases m,
{
    if m > 0 {
        lemma_met_prefix(points, triangles, column, x, from, (m - 1) as nat);
    }
}

proof fn lemma_met_counts(
    points: Seq<Vec3>,
    triangles: Seq<Triangle>,
    g: Grid,
    idx: int,
    sines: (Binary64, Binary64),
    n: nat,
)
    requires
        n <= triangles.len() <= usize::MAX,
    ensures
        ({
            let (i, j, k) = g.place(idx);
            let column = column_of(points, triangles, g, j, k, n);
            met_in(points, triangles, column, ray_start(g, idx, sines), column.len())
                == crossings(points, triangles, g, idx, sines, n)
        }),
        ({
            let (i, j, k) = g.place(idx);
            let column = column_of(points, triangles, g, j, k, n);
            column.len() <= n && forall|c: int| 0 <= c < column.len() ==> #[trigger] column[c] < n
        }),
    decreases n,
{
    if n > 0 {
        lemma_met_counts(points, triangles, g, idx, sines, (n - 1) as nat);
        let (i, j, k) = g.place(idx);
        let before = column_of(points, triangles, g, j, k, (n - 1) as nat);
        if footprint_of(g, corners_of(points, triangles[n - 1])).covers(j, k) {
            let x = (n - 1) as usize;
            lemma_met_prefix(
                points,
                triangles,
                before,
                x,
                ray_start(g, idx, sines),
                before.len(),
            );
            assert(before.push(x).last() == x);
        }
    }
}

proof fn lemma_place(g: Grid, idx: int)
    requires
        g.wf(),
        0 <= idx < g.size(),
    ensures
        ({
            let (i, j, k) = g.place(idx);
            &&& 0 <= i < g.nx
            &&& 0 <= j < g.ny
            &&& 0 <= k < g.nz
            &&& idx == k * (g.nx * g.ny) + j * g.nx + i
        }),
{
    let nx = g.nx as int;
    let ny = g.ny as int;
    let nz = g.nz as int;
    let area = nx * ny;
    assert(area >= 1) by (nonlinear_arith)
        requires
            nx >= 1,
            ny >= 1,
            area == nx * ny,
    ;
    let row = idx / nx;
    vstd::arithmetic::div_mod::lemma_fundamental_div_mod(idx, nx);
    vstd::arithmetic::div_mod::lemma_fundamental_div_mod(row, ny);
    vstd::arithmetic::div_mod::lemma_div_denominator(idx, nx, ny);
    vstd::arithmetic::div_mod::lemma_mod_bound(idx, nx);
    vstd::arithmetic::div_mod::lemma_mod_bound(row, ny);
    let k = idx / area;
    assert(row / ny == k);
    vstd::arithmetic::div_mod::lemma_div_pos_is_pos(idx, area);
    assert(k < nz) by {
        vstd::arithmetic::div_mod::lemma_fundamental_div_mod(idx, area);
        vstd::arithmetic::div_mod::lemma_mod_bound(idx, area);
        assert(idx < nz * area) by (nonlinear_arith)
            requires
                idx < nx * ny * nz,
                area == nx * ny,
        ;
        assert(k < nz) by (nonlinear_arith)
            requires
                idx == area * k + idx % area,
                0 <= idx % area,
                idx < nz * area,
                area >= 1,
        ;
    }
    assert(idx == k * (nx * ny) + (row % ny) * nx + idx % nx) by (nonlinear_arith)
        requires
            idx == nx * row + idx % nx,
            row == ny * k + row % ny,
    ;
}

proof fn lemma_size(g: Grid)
    requires
        g.wf(),
    ensures
        1 <= g.size() <= 15625,
        g.nx * g.ny <= 625,
        1 <= g.nx * g.ny,
{
    assert(1 <= g.nx * g.ny <= 625) by (nonlinear_arith)
        requires
            1 <= g.nx <= 25,
            1 <= g.ny <= 25,
    ;
    let a = g.nx * g.ny;
    assert(1 <= a * g.nz <= 15625) by (nonlinear_arith)
        requires
            1 <= a <= 625,
            1 <= g.nz <= 25,
    ;
}

impl Grid {
    fn count(&self) -> (r: usize)
        requires
            self.wf(),
        ensures
            r == self.size(),
    {
        proof {
            lemma_size(*self);
        }
        self.nx * self.ny * self.nz
    }

    fn place_of(&self, idx: usize) -> (r: (usize, usize, usize))
        requires
            self.wf(),
            idx < self.size(),
        ensures
            (r.0 as int, r.1 as int, r.2 as int) == self.place(idx as int),
            r.0 < self.nx && r.1 < self.ny && r.2 < self.nz,
    {
        proof {
            lemma_size(*self);
            lemma_place(*self, idx as int);
        }
        (idx % self.nx, (idx / self.nx) % self.ny, idx / (self.nx * self.ny))
    }
}

/// The arguments of the two sines of a cube.
pub fn scatter_arguments(g: &Grid, idx: usize) -> (r: (Binary64, Binary64))
    requires
        g.wf(),
        idx < g.size(),
    ensures
        r == scatter_terms(*g, idx as int),
{
    let (i, j, k) = g.place_of(idx);
    (
        scatter_argument(i as u64, (j + 1) as u64, (k + 7) as u64),
        scatter_argument((i + 5) as u64, (j + 3) as u64, (k + 1) as u64),
    )
}

/// Which cubes are in the solid, given the sines of each.
pub open spec fn solid_of(
    points: Seq<Vec3>,
    triangles: Seq<Triangle>,
    g: Grid,
    sines: Seq<(Binary64, Binary64)>,
) -> Seq<bool> {
    Seq::new(g.size(), |idx: int| is_solid(points, triangles, g, idx, sines[idx]))
}

/// Which cubes are in the solid.
#[verifier::spinoff_prover]
#[verifier::rlimit(40)]
pub fn classify(
    points: &[Vec3],
    triangles: &[Triangle],
    g: &Grid,
    sines: &[(Binary64, Binary64)],
) -> (r: Vec<bool>)
    requires
        g.wf(),
        indexed(points@, triangles@),
        sines@.len() == g.size(),
    ensures
        r@ =~= solid_of(points@, triangles@, *g, sines@),
{
    let columns: Vec<Vec<usize>> = columns_of(points, triangles, g);
    let n: usize = g.count();
    let total: usize = triangles.len();
    let mut r: Vec<bool> = Vec::new();
    let mut idx: usize = 0;
    while idx < n
        invariant
            idx <= n,
            total == triangles@.len(),
            n == g.size(),
            g.wf(),
            indexed(points@, triangles@),
            sines@.len() == g.size(),
            sorted_into(columns@, points@, triangles@, *g, triangles@.len()),
            r@.len() == idx,
            forall|i: int|
                0 <= i < idx ==> #[trigger] r@[i] == is_solid(
                    points@,
                    triangles@,
                    *g,
                    i,
                    sines@[i],
                ),
        decreases n - idx,
    {
        let (i, j, k) = g.place_of(idx);
        let s: (Binary64, Binary64) = sines[idx];
        let c: Vec3 = g.centre(i as u64, j as u64, k as u64);
        let off: Binary64 = g.cell.times(num(D0_002));
        let from: Vec3 = Vec3 {
            x: c.x,
            y: c.y.plus(scatter(s.0).minus(num(D0_5)).times(off)),
            z: c.z.plus(scatter(s.1).minus(num(D0_5)).times(off)),
        };
        proof {
            assert(from == ray_start(*g, idx as int, s));
            lemma_column_index(*g, j as int, k as int);
            lemma_size(*g);
            assert(k * g.ny <= 625) by (nonlinear_arith)
                requires
                    k <= 25,
                    g.ny <= 25,
            ;
            lemma_met_counts(points@, triangles@, *g, idx as int, s, triangles@.len());
        }
        let column: &Vec<usize> = &columns[k * g.ny + j];
        let mut met: usize = 0;
        let mut m: usize = 0;
        while m < column.len()
            invariant
                m <= column@.len(),
                indexed(points@, triangles@),
                forall|c: int| 0 <= c < column@.len() ==> #[trigger] column@[c] < triangles@.len(),
                met <= m,
                met == met_in(points@, triangles@, column@, from, m as nat),
            decreases column@.len() - m,
        {
            let t: Corners = corners(points, &triangles[column[m]]);
            if ray_hits(t, from) {
                met += 1;
            }
            m += 1;
        }
        r.push(met % 2 == 1);
        idx += 1;
    }
    r
}

/// The cube beyond a face: along the first side, back along it, and so on.
pub open spec fn neighbour(g: Grid, idx: int, face: int) -> Option<int> {
    let (i, j, k) = g.place(idx);
    if face == 0 {
        if i + 1 < g.nx {
            Some(idx + 1)
        } else {
            None
        }
    } else if face == 1 {
        if i > 0 {
            Some(idx - 1)
        } else {
            None
        }
    } else if face == 2 {
        if j + 1 < g.ny {
            Some(idx + g.nx)
        } else {
            None
        }
    } else if face == 3 {
        if j > 0 {
            Some(idx - g.nx)
        } else {
            None
        }
    } else if face == 4 {
        if k + 1 < g.nz {
            Some(idx + g.nx * g.ny)
        } else {
            None
        }
    } else {
        if k > 0 {
            Some(idx - g.nx * g.ny)
        } else {
            None
        }
    }
}

/// Whether a face of a cube is on the surface of the solid.
pub open spec fn exposed(g: Grid, solid: Seq<bool>, idx: int, face: int) -> bool {
    &&& solid[idx]
    &&& match neighbour(g, idx, face) {
        Some(n) => !solid[n],
        None => true,
    }
}

/// The outward direction of a face.
pub open spec fn outward(face: usize) -> Vec3 {
    if face == 0 {
        Vec3 { x: num(D1), y: num(D0), z: num(D0) }
    } else if face == 1 {
        Vec3 { x: num(M1), y: num(D0), z: num(D0) }
    } else if face == 2 {
        Vec3 { x: num(D0), y: num(D1), z: num(D0) }
    } else if face == 3 {
        Vec3 { x: num(D0), y: num(M1), z: num(D0) }
    } else if face == 4 {
        Vec3 { x: num(D0), y: num(D0), z: num(D1) }
    } else {
        Vec3 { x: num(D0), y: num(D0), z: num(M1) }
    }
}

/// The outward direction of a face.
pub fn face_normal(face: usize) -> (r: Vec3)
    ensures
        r == outward(face),
{
    if face == 0 {
        Vec3 { x: num(D1), y: num(D0), z: num(D0) }
    } else if face == 1 {
        Vec3 { x: num(M1), y: num(D0), z: num(D0) }
    } else if face == 2 {
        Vec3 { x: num(D0), y: num(D1), z: num(D0) }
    } else if face == 3 {
        Vec3 { x: num(D0), y: num(M1), z: num(D0) }
    } else if face == 4 {
        Vec3 { x: num(D0), y: num(D0), z: num(D1) }
    } else {
        Vec3 { x: num(D0), y: num(D0), z: num(M1) }
    }
}

/// The middle of a face of the cube at a place.
pub open spec fn face_middle(g: Grid, i: u64, j: u64, k: u64, face: usize) -> Vec3 {
    let c = g.middle(i, j, k);
    let n = outward(face);
    Vec3 {
        x: c.x.sum(n.x.product(num(D0_5)).product(g.cell)),
        y: c.y.sum(n.y.product(num(D0_5)).product(g.cell)),
        z: c.z.sum(n.z.product(num(D0_5)).product(g.cell)),
    }
}

/// The middle of a face of the cube at a place.
pub fn face_centre(g: Grid, i: u64, j: u64, k: u64, face: usize) -> (r: Vec3)
    ensures
        r == face_middle(g, i, j, k, face),
{
    let c: Vec3 = g.centre(i, j, k);
    let n: Vec3 = face_normal(face);
    Vec3 {
        x: c.x.plus(n.x.times(num(D0_5)).times(g.cell)),
        y: c.y.plus(n.y.times(num(D0_5)).times(g.cell)),
        z: c.z.plus(n.z.times(num(D0_5)).times(g.cell)),
    }
}

/// Whether a panel is that of a face of a cube.
pub open spec fn is_panel(p: CollisionPanel, g: Grid, idx: int, face: int) -> bool {
    let (i, j, k) = g.place(idx);
    let n = outward(face as usize);
    let c = face_middle(g, i as u64, j as u64, k as u64, face as usize);
    &&& p.area == g.cell.product(g.cell)
    &&& p.normal@ =~= seq![n.x, n.y, n.z]
    &&& p.cp@ =~= seq![c.x, c.y, c.z]
    &&& p.cd == num(D1_2)
}

/// A face on the surface.
#[derive(Clone, Copy, Debug, PartialEq, Eq, Structural)]
pub struct Face {
    pub cube: usize,
    pub face: usize,
}

/// The faces on the surface up to a cube and a face of it, in order.
pub open spec fn surface(g: Grid, solid: Seq<bool>, idx: nat, face: nat) -> Seq<Face>
    decreases idx, face,
{
    if face == 0 {
        if idx == 0 {
            Seq::empty()
        } else {
            surface(g, solid, (idx - 1) as nat, 6)
        }
    } else {
        let before = surface(g, solid, idx, (face - 1) as nat);
        if exposed(g, solid, idx as int, face - 1) {
            before.push(Face { cube: idx as usize, face: (face - 1) as usize })
        } else {
            before
        }
    }
}

/// Whether panels are those of the surface of the solid, in order.
pub open spec fn panels_the_surface(
    panels: Seq<CollisionPanel>,
    g: Grid,
    solid: Seq<bool>,
) -> bool {
    let faces = surface(g, solid, g.size(), 0);
    &&& panels.len() == faces.len()
    &&& forall|m: int|
        #![trigger panels[m]]
        0 <= m < panels.len() ==> is_panel(
            panels[m],
            g,
            faces[m].cube as int,
            faces[m].face as int,
        )
}

fn face_exposed(g: &Grid, solid: &[bool], idx: usize, face: usize) -> (r: bool)
    requires
        g.wf(),
        idx < g.size(),
        solid@.len() == g.size(),
        face < 6,
    ensures
        r == exposed(*g, solid@, idx as int, face as int),
{
    if !solid[idx] {
        return false;
    }
    let (i, j, k) = g.place_of(idx);
    proof {
        lemma_size(*g);
        lemma_neighbour(*g, idx as int, face as int);
    }
    if face == 0 {
        !(i + 1 < g.nx) || !solid[idx + 1]
    } else if face == 1 {
        !(i > 0) || !solid[idx - 1]
    } else if face == 2 {
        !(j + 1 < g.ny) || !solid[idx + g.nx]
    } else if face == 3 {
        !(j > 0) || !solid[idx - g.nx]
    } else if face == 4 {
        !(k + 1 < g.nz) || !solid[idx + g.nx * g.ny]
    } else {
        !(k > 0) || !solid[idx - g.nx * g.ny]
    }
}

proof fn lemma_neighbour(g: Grid, idx: int, face: int)
    requires
        g.wf(),
        0 <= idx < g.size(),
        0 <= face < 6,
    ensures
        match neighbour(g, idx, face) {
            Some(n) => 0 <= n < g.size(),
            None => true,
        },
{
    lemma_place(g, idx);
    let (i, j, k) = g.place(idx);
    let nx = g.nx as int;
    let ny = g.ny as int;
    let nz = g.nz as int;
    assert(0 <= j * nx) by (nonlinear_arith)
        requires
            0 <= j,
            1 <= nx,
    ;
    assert(0 <= k * (nx * ny)) by (nonlinear_arith)
        requires
            0 <= k,
            1 <= nx,
            1 <= ny,
    ;
    if j > 0 {
        assert(j * nx >= nx) by (nonlinear_arith)
            requires
                j >= 1,
                nx >= 1,
        ;
    }
    if k > 0 {
        assert(k * (nx * ny) >= nx * ny) by (nonlinear_arith)
            requires
                k >= 1,
                nx >= 1,
                ny >= 1,
        ;
    }
    assert(j + 1 < ny ==> k * (nx * ny) + (j + 1) * nx + i < nx * ny * nz) by {
        if j + 1 < ny {
            lemma_within(nx, ny, nz, i, j + 1, k);
        }
    }
    assert(k + 1 < nz ==> (k + 1) * (nx * ny) + j * nx + i < nx * ny * nz) by {
        if k + 1 < nz {
            lemma_within(nx, ny, nz, i, j, k + 1);
        }
    }
    assert(i + 1 < nx ==> k * (nx * ny) + j * nx + (i + 1) < nx * ny * nz) by {
        if i + 1 < nx {
            lemma_within(nx, ny, nz, i + 1, j, k);
        }
    }
    assert((j + 1) * nx == j * nx + nx) by (nonlinear_arith);
    assert((k + 1) * (nx * ny) == k * (nx * ny) + nx * ny) by (nonlinear_arith);
}

proof fn lemma_within(nx: int, ny: int, nz: int, i: int, j: int, k: int)
    requires
        0 <= i < nx,
        0 <= j < ny,
        0 <= k < nz,
    ensures
        0 <= k * (nx * ny) + j * nx + i < nx * ny * nz,
{
    assert(j * nx + i < ny * nx) by (nonlinear_arith)
        requires
            0 <= i < nx,
            0 <= j < ny,
    ;
    assert(0 <= j * nx) by (nonlinear_arith)
        requires
            0 <= j,
            0 < nx,
    ;
    assert(ny * nx == nx * ny) by (nonlinear_arith);
    let a = nx * ny;
    assert(k * a + a <= nz * a) by (nonlinear_arith)
        requires
            k + 1 <= nz,
            0 <= a,
    ;
    assert(0 <= k * a) by (nonlinear_arith)
        requires
            0 <= k,
            0 <= a,
    ;
    assert(nz * a == nx * ny * nz) by (nonlinear_arith)
        requires
            a == nx * ny,
    ;
}

/// The panels of the surface of a solid, in order.
#[verifier::spinoff_prover]
#[verifier::rlimit(40)]
pub fn surface_panels(g: &Grid, solid: &[bool]) -> (r: Vec<CollisionPanel>)
    requires
        g.wf(),
        solid@.len() == g.size(),
    ensures
        panels_the_surface(r@, *g, solid@),
{
    let n: usize = g.count();
    let mut r: Vec<CollisionPanel> = Vec::new();
    let mut idx: usize = 0;
    while idx < n
        invariant
            idx <= n,
            n == g.size(),
            g.wf(),
            solid@.len() == g.size(),
            r@.len() == surface(*g, solid@, idx as nat, 0).len(),
            forall|m: int|
                #![trigger r@[m]]
                0 <= m < r@.len() ==> is_panel(
                    r@[m],
                    *g,
                    surface(*g, solid@, idx as nat, 0)[m].cube as int,
                    surface(*g, solid@, idx as nat, 0)[m].face as int,
                ),
        decreases n - idx,
    {
        let (i, j, k) = g.place_of(idx);
        let mut face: usize = 0;
        while face < 6
            invariant
                face <= 6,
                idx < n,
                n == g.size(),
                g.wf(),
                solid@.len() == g.size(),
                (i as int, j as int, k as int) == g.place(idx as int),
                r@.len() == surface(*g, solid@, idx as nat, face as nat).len(),
                forall|m: int|
                    #![trigger r@[m]]
                    0 <= m < r@.len() ==> is_panel(
                        r@[m],
                        *g,
                        surface(*g, solid@, idx as nat, face as nat)[m].cube as int,
                        surface(*g, solid@, idx as nat, face as nat)[m].face as int,
                    ),
            decreases 6 - face,
        {
            let ghost faces = surface(*g, solid@, idx as nat, face as nat);
            let ghost next = surface(*g, solid@, idx as nat, (face + 1) as nat);
            let ghost earlier = r@;
            if face_exposed(g, solid, idx, face) {
                let nrm: Vec3 = face_normal(face);
                let c: Vec3 = face_centre(*g, i as u64, j as u64, k as u64, face);
                r.push(
                    CollisionPanel {
                        area: g.cell.times(g.cell),
                        normal: [nrm.x, nrm.y, nrm.z],
                        cp: [c.x, c.y, c.z],
                        cd: num(D1_2),
                    },
                );
                proof {
                    assert(next == faces.push(Face { cube: idx, face }));
                    assert forall|m: int|
                        #![trigger r@[m]]
                        0 <= m < r@.len() implies is_panel(
                        r@[m],
                        *g,
                        next[m].cube as int,
                        next[m].face as int,
                    ) by {
                        if m < earlier.len() {
                            assert(r@[m] == earlier[m]);
                            assert(next[m] == faces[m]);
                        }
                    }
                }
            }
            face += 1;
        }
        idx += 1;
    }
    r
}

/// Whether these are the two sines of a cube.
pub open spec fn sines_taken<M: Elementary>(
    m: M,
    g: Grid,
    idx: int,
    s: (Binary64, Binary64),
) -> bool {
    &&& call_ensures(M::sin, (&m, scatter_terms(g, idx).0), s.0)
    &&& call_ensures(M::sin, (&m, scatter_terms(g, idx).1), s.1)
}

/// Whether these are the sines of all cubes.
pub open spec fn all_sines_taken<M: Elementary>(
    m: M,
    g: Grid,
    sines: Seq<(Binary64, Binary64)>,
) -> bool {
    &&& sines.len() == g.size()
    &&& forall|idx: int|
        #![trigger sines[idx]]
        0 <= idx < g.size() ==> sines_taken(m, g, idx, sines[idx])
}

/// Whether these are the panels of the surface of the solid that a mesh of
/// triangles encloses; there are none without a mesh.
pub open spec fn are_panels<M: Elementary>(
    m: M,
    vertices: Seq<Vec3>,
    triangles: Seq<Triangle>,
    resolution: usize,
    r: Seq<CollisionPanel>,
) -> bool {
    let g = grid_of(vertices, resolution);
    if vertices.len() == 0 || triangles.len() == 0 {
        r.len() == 0
    } else {
        exists|sines: Seq<(Binary64, Binary64)>| #[trigger]
            all_sines_taken(m, g, sines) && panels_the_surface(
                r,
                g,
                solid_of(vertices, triangles, g, sines),
            )
    }
}

/// The panels of the surface of the solid that a mesh of triangles encloses.
/// `resolution` cubes, from 4 to 24, go along its longest side.
pub fn voxelize_panels<M: Elementary>(
    vertices: &[Vec3],
    triangles: &[Triangle],
    resolution: usize,
    m: &M,
) -> (r: Vec<CollisionPanel>)
    requires
        indexed(vertices@, triangles@),
    ensures
        are_panels(*m, vertices@, triangles@, resolution, r@),
{
    if vertices.len() == 0 || triangles.len() == 0 {
        return Vec::new();
    }
    let g: Grid = Grid::about(vertices, resolution);
    let n: usize = g.count();
    let mut sines: Vec<(Binary64, Binary64)> = Vec::new();
    let mut idx: usize = 0;
    while idx < n
        invariant
            idx <= n,
            n == g.size(),
            g.wf(),
            sines@.len() == idx,
            forall|i: int|
                #![trigger sines@[i]]
                0 <= i < idx ==> sines_taken(*m, g, i, sines@[i]),
        decreases n - idx,
    {
        let (a, b) = scatter_arguments(&g, idx);
        let sa: Binary64 = m.sin(a);
        let sb: Binary64 = m.sin(b);
        sines.push((sa, sb));
        idx += 1;
    }
    let solid: Vec<bool> = classify(vertices, triangles, &g, sines.as_slice());
    proof {
        assert(all_sines_taken(*m, g, sines@));
    }
    surface_panels(&g, solid.as_slice())
}

/// The measures of a mesh.
#[derive(Clone, Copy, Debug, PartialEq, Eq, Structural)]
pub struct MeshMetrics {
    /// Area of all triangles (m2).
    pub wetted_area: Binary64,
    /// Area seen along the first axis (m2).
    pub frontal_area: Binary64,
    /// Sides of the box about the corners (m).
    pub size_x: Binary64,
    pub size_y: Binary64,
    pub size_z: Binary64,
}

/// Sums over the triangles.
#[derive(Clone, Copy, Debug, PartialEq, Eq, Structural)]
pub struct MeshSums {
    pub wetted: Binary64,
    pub frontal: Binary64,
    pub bounds: Bounds,
}

/// The sums with one more triangle.
pub open spec fn summed(s: MeshSums, t: Corners) -> MeshSums {
    let n = t.b.difference(t.a).outer(t.c.difference(t.a));
    MeshSums {
        wetted: s.wetted.sum(num(D0_5).product(n.inner(n).root())),
        frontal: s.frontal.sum(n.x.absolute().product(num(D0_5))),
        bounds: stretched(stretched(stretched(s.bounds, t.a), t.b), t.c),
    }
}

/// The sums with one more triangle.
pub fn sums_with(s: MeshSums, t: Corners) -> (r: MeshSums)
    ensures
        r == summed(s, t),
{
    let n: Vec3 = t.b.minus(t.a).cross(t.c.minus(t.a));
    MeshSums {
        wetted: s.wetted.plus(num(D0_5).times(n.dot(n).sqrt())),
        frontal: s.frontal.plus(n.x.abs().times(num(D0_5))),
        bounds: bounds_with(bounds_with(bounds_with(s.bounds, t.a), t.b), t.c),
    }
}

/// The sums over the first `n` triangles.
pub open spec fn sums_of(points: Seq<Vec3>, triangles: Seq<Triangle>, n: nat) -> MeshSums
    decreases n,
{
    if n == 0 {
        MeshSums { wetted: num(D0), frontal: num(D0), bounds: empty_bounds() }
    } else {
        summed(
            sums_of(points, triangles, (n - 1) as nat),
            corners_of(points, triangles[n - 1]),
        )
    }
}

/// The measures that sums give: half of the area seen from both sides, or all
/// of it where none is seen.
pub open spec fn metrics_of(s: MeshSums) -> MeshMetrics {
    let seen = num(D0_5).product(s.frontal);
    let size = sides_of(s.bounds);
    MeshMetrics {
        wetted_area: s.wetted,
        frontal_area: if seen.below(num(D1EM9)) {
            s.wetted.larger(num(D1EM9))
        } else {
            seen
        },
        size_x: size.x,
        size_y: size.y,
        size_z: size.z,
    }
}

/// The measures that sums give: half of the area seen from both sides, or all
/// of it where none is seen.
pub fn metrics_from(s: MeshSums) -> (r: MeshMetrics)
    ensures
        r == metrics_of(s),
{
    let seen: Binary64 = num(D0_5).times(s.frontal);
    let size: Vec3 = sides(s.bounds);
    MeshMetrics {
        wetted_area: s.wetted,
        frontal_area: if seen.lt(num(D1EM9)) {
            s.wetted.max(num(D1EM9))
        } else {
            seen
        },
        size_x: size.x,
        size_y: size.y,
        size_z: size.z,
    }
}

/// The measures of a mesh, whatever the cubes are.
pub fn mesh_metrics(vertices: &[Vec3], triangles: &[Triangle]) -> (r: MeshMetrics)
    requires
        indexed(vertices@, triangles@),
    ensures
        r == metrics_of(sums_of(vertices@, triangles@, triangles@.len())),
{
    let mut s: MeshSums = MeshSums { wetted: num(D0), frontal: num(D0), bounds: no_bounds() };
    let mut i: usize = 0;
    while i < triangles.len()
        invariant
            i <= triangles@.len(),
            indexed(vertices@, triangles@),
            s == sums_of(vertices@, triangles@, i as nat),
        decreases triangles@.len() - i,
    {
        s = sums_with(s, corners(vertices, &triangles[i]));
        i += 1;
    }
    metrics_from(s)
}

/// The number of cubes, up to `n`, with a face on the surface.
pub open spec fn exposures(g: Grid, solid: Seq<bool>, face: int, n: nat) -> nat
    decreases n,
{
    if n == 0 {
        0
    } else {
        exposures(g, solid, face, (n - 1) as nat) + if exposed(g, solid, n - 1, face) {
            1nat
        } else {
            0nat
        }
    }
}

/// Whether a cube and the one `stride` behind it are both in the solid and
/// next to each other.
spec fn joined_back(g: Grid, solid: Seq<bool>, axis: int, idx: int) -> bool {
    solid[idx] && match neighbour(g, idx, 2 * axis + 1) {
        Some(n) => solid[n],
        None => false,
    }
}

spec fn joined_ahead(g: Grid, solid: Seq<bool>, axis: int, idx: int) -> bool {
    solid[idx] && match neighbour(g, idx, 2 * axis) {
        Some(n) => solid[n],
        None => false,
    }
}

spec fn stride(g: Grid, axis: int) -> int {
    if axis == 0 {
        1
    } else if axis == 1 {
        g.nx as int
    } else {
        g.nx * g.ny
    }
}

/// Cubes up to `n` in the solid whose cube ahead, or behind, is in the solid.
spec fn joins(g: Grid, solid: Seq<bool>, axis: int, ahead: bool, n: nat) -> nat
    decreases n,
{
    if n == 0 {
        0
    } else {
        let yes = if ahead {
            joined_ahead(g, solid, axis, n - 1)
        } else {
            joined_back(g, solid, axis, n - 1)
        };
        joins(g, solid, axis, ahead, (n - 1) as nat) + if yes {
            1nat
        } else {
            0nat
        }
    }
}

spec fn solids(solid: Seq<bool>, n: nat) -> nat
    decreases n,
{
    if n == 0 {
        0
    } else {
        solids(solid, (n - 1) as nat) + if solid[n - 1] {
            1nat
        } else {
            0nat
        }
    }
}

proof fn lemma_exposures(g: Grid, solid: Seq<bool>, axis: int, n: nat)
    requires
        0 <= axis < 3,
    ensures
        exposures(g, solid, 2 * axis, n) + joins(g, solid, axis, true, n) == solids(solid, n),
        exposures(g, solid, 2 * axis + 1, n) + joins(g, solid, axis, false, n) == solids(
            solid,
            n,
        ),
    decreases n,
{
    if n > 0 {
        lemma_exposures(g, solid, axis, (n - 1) as nat);
    }
}

/// The place after a stride.
proof fn lemma_stride(g: Grid, axis: int, idx: int)
    requires
        g.wf(),
        0 <= axis < 3,
        0 <= idx < g.size(),
        idx + stride(g, axis) < g.size(),
    ensures
        neighbour(g, idx, 2 * axis) is Some <==> neighbour(
            g,
            idx + stride(g, axis),
            2 * axis + 1,
        ) is Some,
        neighbour(g, idx, 2 * axis) is Some ==> neighbour(g, idx, 2 * axis) == Some(
            idx + stride(g, axis),
        ) && neighbour(g, idx + stride(g, axis), 2 * axis + 1) == Some(idx),
{
    let s = stride(g, axis);
    lemma_place(g, idx);
    lemma_place(g, idx + s);
    let (i, j, k) = g.place(idx);
    let (a, b, c) = g.place(idx + s);
    let nx = g.nx as int;
    let ny = g.ny as int;
    if axis == 0 {
        if i + 1 < nx {
            lemma_unique_place(g, i + 1, j, k, a, b, c);
        } else if j + 1 < ny {
            assert((j + 1) * nx == j * nx + nx) by (nonlinear_arith);
            lemma_unique_place(g, 0, j + 1, k, a, b, c);
        } else {
            assert((k + 1) * (nx * ny) == k * (nx * ny) + nx * ny) by (nonlinear_arith);
            assert(j * nx + nx == nx * ny) by (nonlinear_arith)
                requires
                    j + 1 == ny,
            ;
            lemma_unique_place(g, 0, 0, k + 1, a, b, c);
        }
    } else if axis == 1 {
        if j + 1 < ny {
            assert((j + 1) * nx == j * nx + nx) by (nonlinear_arith);
            lemma_unique_place(g, i, j + 1, k, a, b, c);
        } else {
            assert((k + 1) * (nx * ny) == k * (nx * ny) + nx * ny) by (nonlinear_arith);
            assert(j * nx + nx == nx * ny) by (nonlinear_arith)
                requires
                    j + 1 == ny,
            ;
            lemma_unique_place(g, i, 0, k + 1, a, b, c);
        }
    } else {
        assert((k + 1) * (nx * ny) == k * (nx * ny) + nx * ny) by (nonlinear_arith);
        lemma_unique_place(g, i, j, k + 1, a, b, c);
    }
}

proof fn lemma_unique_place(g: Grid, i: int, j: int, k: int, a: int, b: int, c: int)
    requires
        g.wf(),
        0 <= i < g.nx,
        0 <= j < g.ny,
        0 <= a < g.nx,
        0 <= b < g.ny,
        k * (g.nx * g.ny) + j * g.nx + i == c * (g.nx * g.ny) + b * g.nx + a,
    ensures
        (i, j, k) == (a, b, c),
{
    let nx = g.nx as int;
    let ny = g.ny as int;
    let r = j + k * ny;
    let s = b + c * ny;
    assert(k * (nx * ny) + j * nx == r * nx) by (nonlinear_arith)
        requires
            r == j + k * ny,
    ;
    assert(c * (nx * ny) + b * nx == s * nx) by (nonlinear_arith)
        requires
            s == b + c * ny,
    ;
    vstd::arithmetic::div_mod::lemma_fundamental_div_mod_converse(r * nx + i, nx, r, i);
    vstd::arithmetic::div_mod::lemma_fundamental_div_mod_converse(s * nx + a, nx, s, a);
    vstd::arithmetic::div_mod::lemma_fundamental_div_mod_converse(r, ny, k, j);
    vstd::arithmetic::div_mod::lemma_fundamental_div_mod_converse(s, ny, c, b);
}

proof fn lemma_shifted_joins(g: Grid, solid: Seq<bool>, axis: int, n: nat)
    requires
        g.wf(),
        0 <= axis < 3,
        solid.len() == g.size(),
        n + stride(g, axis) <= g.size(),
    ensures
        joins(g, solid, axis, false, (n + stride(g, axis)) as nat) == joins(
            g,
            solid,
            axis,
            true,
            n,
        ),
    decreases n,
{
    let s = stride(g, axis);
    lemma_size(g);
    if n == 0 {
        lemma_first_joins(g, solid, axis, s as nat);
    } else {
        lemma_shifted_joins(g, solid, axis, (n - 1) as nat);
        lemma_stride(g, axis, n - 1);
        assert((n + s - 1) as nat == (n - 1 + s) as nat);
    }
}

proof fn lemma_first_joins(g: Grid, solid: Seq<bool>, axis: int, n: nat)
    requires
        g.wf(),
        0 <= axis < 3,
        n <= stride(g, axis),
        stride(g, axis) <= g.size(),
    ensures
        joins(g, solid, axis, false, n) == 0,
    decreases n,
{
    if n > 0 {
        lemma_first_joins(g, solid, axis, (n - 1) as nat);
        let idx = n - 1;
        lemma_place(g, idx);
        let (i, j, k) = g.place(idx);
        let nx = g.nx as int;
        let ny = g.ny as int;
        assert(0 <= j * nx) by (nonlinear_arith)
            requires
                0 <= j,
                1 <= nx,
        ;
        if k > 0 {
            assert(k * (nx * ny) >= nx * ny) by (nonlinear_arith)
                requires
                    k >= 1,
                    nx >= 1,
                    ny >= 1,
            ;
            assert(nx * ny >= nx) by (nonlinear_arith)
                requires
                    nx >= 1,
                    ny >= 1,
            ;
        } else {
            assert(k * (nx * ny) == 0) by (nonlinear_arith)
                requires
                    k == 0,
            ;
        }
        if j > 0 {
            assert(j * nx >= nx) by (nonlinear_arith)
                requires
                    j >= 1,
                    nx >= 1,
            ;
        }
    }
}

proof fn lemma_last_joins(g: Grid, solid: Seq<bool>, axis: int, n: nat)
    requires
        g.wf(),
        0 <= axis < 3,
        g.size() - stride(g, axis) <= n <= g.size(),
        stride(g, axis) <= g.size(),
    ensures
        joins(g, solid, axis, true, n) == joins(
            g,
            solid,
            axis,
            true,
            (g.size() - stride(g, axis)) as nat,
        ),
    decreases n,
{
    let s = stride(g, axis);
    if n > g.size() - s {
        lemma_last_joins(g, solid, axis, (n - 1) as nat);
        let idx = n - 1;
        lemma_neighbour(g, idx, 2 * axis);
        assert(neighbour(g, idx, 2 * axis) is None);
    }
}

/// The surface is closed: along each axis as many faces point one way as the
/// other.
pub proof fn opposite_faces_balance(g: Grid, solid: Seq<bool>, axis: int)
    requires
        g.wf(),
        solid.len() == g.size(),
        0 <= axis < 3,
    ensures
        exposures(g, solid, 2 * axis, g.size()) == exposures(g, solid, 2 * axis + 1, g.size()),
{
    let s = stride(g, axis);
    lemma_size(g);
    assert(s <= g.size()) by {
        let a = g.nx * g.ny;
        assert(a <= a * g.nz) by (nonlinear_arith)
            requires
                1 <= a,
                1 <= g.nz,
        ;
        assert(g.nx <= a) by (nonlinear_arith)
            requires
                1 <= g.nx,
                1 <= g.ny,
                a == g.nx * g.ny,
        ;
    }
    let n = (g.size() - s) as nat;
    lemma_shifted_joins(g, solid, axis, n);
    lemma_last_joins(g, solid, axis, g.size());
    lemma_exposures(g, solid, axis, g.size());
}

/// A stretched box holds the point and what it held.
pub proof fn boxes_hold_their_points(b: Bounds, p: Vec3)
    requires
        crate::vector::is_finite(p),
    ensures
        ({
            let s = stretched(b, p);
            &&& s.low.x.not_above(p.x) && s.low.y.not_above(p.y) && s.low.z.not_above(p.z)
            &&& p.x.not_above(s.high.x) && p.y.not_above(s.high.y) && p.z.not_above(s.high.z)
            &&& !b.low.x.nan() ==> s.low.x.not_above(b.low.x)
            &&& !b.low.y.nan() ==> s.low.y.not_above(b.low.y)
            &&& !b.low.z.nan() ==> s.low.z.not_above(b.low.z)
            &&& !b.high.x.nan() ==> b.high.x.not_above(s.high.x)
            &&& !b.high.y.nan() ==> b.high.y.not_above(s.high.y)
            &&& !b.high.z.nan() ==> b.high.z.not_above(s.high.z)
        }),
{
}

/// Opposite faces look opposite ways, and what is next to a cube across a face
/// has the cube next to it across the opposite face.
pub proof fn neighbours_face_each_other(g: Grid, idx: int)
    requires
        g.wf(),
        0 <= idx < g.size(),
    ensures
        outward(0).x == outward(1).x.negated(),
        outward(2).y == outward(3).y.negated(),
        outward(4).z == outward(5).z.negated(),
        neighbour(g, idx, 0) matches Some(n) ==> neighbour(g, n, 1) == Some(idx),
        neighbour(g, idx, 2) matches Some(n) ==> neighbour(g, n, 3) == Some(idx),
        neighbour(g, idx, 4) matches Some(n) ==> neighbour(g, n, 5) == Some(idx),
{
    let n = g.nx as int;
    let m = g.ny as int;
    if idx % n + 1 < n {
        assert((idx + 1) % n == idx % n + 1) by (nonlinear_arith)
            requires
                n > 0,
                0 <= idx,
                idx % n + 1 < n,
        ;
    }
    let j = idx / n;
    assert((idx + n) / n == j + 1) by (nonlinear_arith)
        requires
            n > 0,
            j == idx / n,
    ;
    if j % m + 1 < m {
        assert((j + 1) % m == j % m + 1) by (nonlinear_arith)
            requires
                m > 0,
                j % m + 1 < m,
        ;
    }
    let plane = n * m;
    assert(plane > 0) by (nonlinear_arith)
        requires
            n > 0,
            m > 0,
            plane == n * m,
    ;
    assert((idx + plane) / plane == idx / plane + 1) by (nonlinear_arith)
        requires
            plane > 0,
    ;
    assert(idx / plane >= 0) by (nonlinear_arith)
        requires
            plane > 0,
            0 <= idx,
    ;
}

/// The middles of cubes further along an axis lie further along it.
pub proof fn cubes_lie_in_order(g: Grid, i: u64, j: u64, k: u64, l: u64)
    requires
        g.low.x.finite() && g.low.y.finite() && g.low.z.finite(),
        g.cell.finite() && num(D0).not_above(g.cell),
        i <= l && j <= l && k <= l,
        Binary64::integer(l as nat).sum(num(D0_5)).finite(),
        Binary64::integer(i as nat).sum(num(D0_5)).finite(),
        Binary64::integer(j as nat).sum(num(D0_5)).finite(),
        Binary64::integer(k as nat).sum(num(D0_5)).finite(),
        Binary64::integer(l as nat).sum(num(D0_5)).product(g.cell).finite(),
        Binary64::integer(i as nat).sum(num(D0_5)).product(g.cell).finite(),
        Binary64::integer(j as nat).sum(num(D0_5)).product(g.cell).finite(),
        Binary64::integer(k as nat).sum(num(D0_5)).product(g.cell).finite(),
    ensures
        g.middle(i, j, k).x.not_above(g.middle(l, j, k).x),
        g.middle(i, j, k).y.not_above(g.middle(i, l, k).y),
        g.middle(i, j, k).z.not_above(g.middle(i, j, l).z),
        g.low.x.not_above(g.middle(i, j, k).x),
        g.low.y.not_above(g.middle(i, j, k).y),
        g.low.z.not_above(g.middle(i, j, k).z),
{
    lemma_further(g.low.x, g.cell, i, l);
    lemma_further(g.low.y, g.cell, j, l);
    lemma_further(g.low.z, g.cell, k, l);
}

proof fn lemma_further(low: Binary64, cell: Binary64, i: u64, l: u64)
    requires
        low.finite(),
        cell.finite() && num(D0).not_above(cell),
        i <= l,
        Binary64::integer(l as nat).sum(num(D0_5)).finite(),
        Binary64::integer(i as nat).sum(num(D0_5)).finite(),
        Binary64::integer(l as nat).sum(num(D0_5)).product(cell).finite(),
        Binary64::integer(i as nat).sum(num(D0_5)).product(cell).finite(),
    ensures
        low.sum(Binary64::integer(i as nat).sum(num(D0_5)).product(cell)).not_above(
            low.sum(Binary64::integer(l as nat).sum(num(D0_5)).product(cell)),
        ),
        low.not_above(low.sum(Binary64::integer(i as nat).sum(num(D0_5)).product(cell))),
{
    let (a, b) = (Binary64::integer(i as nat), Binary64::integer(l as nat));
    crate::rounding::counts_keep_order(i as nat, l as nat);
    crate::rounding::counts_keep_order(0, i as nat);
    crate::rounding::sums_keep_order(a, b, num(D0_5));
    crate::rounding::sums_keep_signs(a, num(D0_5));
    let (p, q) = (a.sum(num(D0_5)), b.sum(num(D0_5)));
    crate::rounding::factors_keep_order(cell, p, q);
    crate::rounding::products_keep_signs(p, cell);
    let (s, t) = (p.product(cell), q.product(cell));
    crate::rounding::sums_are_numbers(low, s);
    crate::rounding::sums_are_numbers(low, t);
    crate::rounding::sums_of_ordered_terms(low, low, s, t);
    crate::rounding::sums_are_numbers(low, num(D0));
    crate::rounding::zeros_keep_signs(low, num(D0));
    crate::rounding::sums_of_ordered_terms(low, low, num(D0), s);
}

/// The middle of a face lies out of its cube, the way the face looks.
pub proof fn faces_lie_outwards(g: Grid, i: u64, j: u64, k: u64)
    requires
        crate::vector::is_finite(g.middle(i, j, k)),
        g.cell.finite() && num(D0).not_above(g.cell),
    ensures
        ({
            let c = g.middle(i, j, k);
            &&& c.x.not_above(face_middle(g, i, j, k, 0).x)
            &&& face_middle(g, i, j, k, 1).x.not_above(c.x)
            &&& c.y.not_above(face_middle(g, i, j, k, 2).y)
            &&& face_middle(g, i, j, k, 3).y.not_above(c.y)
            &&& c.z.not_above(face_middle(g, i, j, k, 4).z)
            &&& face_middle(g, i, j, k, 5).z.not_above(c.z)
        }),
{
    let c = g.middle(i, j, k);
    lemma_out(c.x, g.cell);
    lemma_out(c.y, g.cell);
    lemma_out(c.z, g.cell);
}

proof fn lemma_out(c: Binary64, cell: Binary64)
    requires
        c.finite(),
        cell.finite() && num(D0).not_above(cell),
    ensures
        c.not_above(c.sum(num(D1).product(num(D0_5)).product(cell))),
        c.sum(num(M1).product(num(D0_5)).product(cell)).not_above(c),
{
    crate::rounding::one_is_neutral(num(D0_5));
    crate::rounding::negated_factors(num(D0_5), num(D1));
    crate::rounding::products_commute(num(M1), num(D0_5));
    assert(num(M1) == num(D1).negated());
    let h = num(D0_5);
    let (p, q) = (h.product(cell), h.negated().product(cell));
    crate::rounding::fractions_shrink(cell, h);
    crate::rounding::products_commute(cell, h);
    crate::rounding::products_are_numbers(h.negated(), cell);
    crate::rounding::products_keep_signs(h.negated(), cell);
    crate::rounding::negated_factors(cell, h);
    crate::rounding::products_commute(cell, h.negated());
    crate::rounding::sums_are_numbers(c, p);
    crate::rounding::sums_are_numbers(c, q);
    crate::rounding::sums_are_numbers(c, num(D0));
    crate::rounding::zeros_keep_signs(c, num(D0));
    crate::rounding::sums_of_ordered_terms(c, c, num(D0), p);
    crate::rounding::sums_of_ordered_terms(c, c, q, num(D0));
}

/// Triangles add surface, whichever way they are turned.
pub proof fn triangles_add_surface(s: MeshSums, t: Corners)
    requires
        s.frontal.finite() && num(D0).not_above(s.frontal),
        t.b.difference(t.a).outer(t.c.difference(t.a)).x.finite(),
    ensures
        s.frontal.not_above(summed(s, t).frontal),
{
    let n = t.b.difference(t.a).outer(t.c.difference(t.a)).x.absolute();
    crate::rounding::fractions_shrink(n, num(D0_5));
    crate::rounding::sums_grow(s.frontal, n.product(num(D0_5)));
}

} // verus!
