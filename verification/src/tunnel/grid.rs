//! The flow on a grid, and between its points.
use super::body::{body_factors, body_flow, body_terms, BodyFactors};
use super::vortex::{filaments_induced, shed_induced, ShedVortex, VortexSegment};
use crate::elementary::ElementarySingle;
use crate::literal::{D0, D0_5, D1, M24, M6_5};
use crate::single::{sgl, Single, Vector};
use vstd::prelude::*;

verus! {

/// Points along each side of the grid.
pub const NX: usize = 77;

pub const NY: usize = 27;

pub const NZ: usize = 27;

/// All points.
pub const POINTS: usize = 56133;

/// The flow at the points of a grid with half a metre between them.
#[derive(Clone, Debug)]
pub struct FlowGrid {
    /// The flow, along the first side, then the second, then the third; none
    /// before it is built.
    pub data: Vec<Vector>,
}

/// Axes of the aircraft in the tunnel: forward, up and right.
#[derive(Clone, Copy, Debug, PartialEq, Eq, Structural)]
pub struct Axes {
    pub fwd: Vector,
    pub up: Vector,
    pub right: Vector,
}

/// A point of the grid.
pub open spec fn point_of(i: u64, j: u64, k: u64) -> Vector {
    Vector {
        x: sgl(M24).sum(Single::integer(i as nat).product(sgl(D0_5))),
        y: sgl(M6_5).sum(Single::integer(j as nat).product(sgl(D0_5))),
        z: sgl(M6_5).sum(Single::integer(k as nat).product(sgl(D0_5))),
    }
}

/// A point of the grid.
pub fn grid_point(i: u64, j: u64, k: u64) -> (r: Vector)
    ensures
        r == point_of(i, j, k),
{
    Vector {
        x: sgl(M24).plus(Single::from_u64(i).times(sgl(D0_5))),
        y: sgl(M6_5).plus(Single::from_u64(j).times(sgl(D0_5))),
        z: sgl(M6_5).plus(Single::from_u64(k).times(sgl(D0_5))),
    }
}

/// A point in the axes of the aircraft.
pub open spec fn along_axes(p: Vector, axes: Axes) -> Vector {
    Vector {
        x: p.x.product(axes.fwd.x).sum(p.y.product(axes.fwd.y)).sum(p.z.product(axes.fwd.z)),
        y: p.x.product(axes.up.x).sum(p.y.product(axes.up.y)).sum(p.z.product(axes.up.z)),
        z: p.x.product(axes.right.x).sum(p.y.product(axes.right.y)).sum(p.z.product(axes.right.z)),
    }
}

/// A point in the axes of the aircraft.
pub fn in_axes(p: Vector, axes: Axes) -> (r: Vector)
    ensures
        r == along_axes(p, axes),
{
    Vector {
        x: p.x.times(axes.fwd.x).plus(p.y.times(axes.fwd.y)).plus(p.z.times(axes.fwd.z)),
        y: p.x.times(axes.up.x).plus(p.y.times(axes.up.y)).plus(p.z.times(axes.up.z)),
        z: p.x.times(axes.right.x).plus(p.y.times(axes.right.y)).plus(p.z.times(axes.right.z)),
    }
}

/// The flow where the stream is disturbed, in the axes of the aircraft.
pub open spec fn disturbed_by(wind: Vector, axes: Axes, pert: Vector) -> Vector {
    wind.sum(axes.fwd.scaled(pert.x)).sum(axes.up.scaled(pert.y)).sum(axes.right.scaled(pert.z))
}

/// The flow where the stream is disturbed, in the axes of the aircraft.
pub fn disturbed(wind: Vector, axes: Axes, pert: Vector) -> (r: Vector)
    ensures
        r == disturbed_by(wind, axes, pert),
{
    wind.plus(axes.fwd.times(pert.x)).plus(axes.up.times(pert.y)).plus(axes.right.times(pert.z))
}

/// The place of a number along each side.
pub open spec fn place(n: int) -> (int, int, int) {
    (n % NX as int, (n / NX as int) % NY as int, n / (NX * NY))
}

/// A point of the grid by its number.
pub open spec fn numbered(n: int) -> Vector {
    let (i, j, k) = place(n);
    point_of(i as u64, j as u64, k as u64)
}

/// The stream about the aircraft: its velocity, its speed, the time and the
/// angle of attack.
#[derive(Clone, Copy, Debug, PartialEq, Eq, Structural)]
pub struct Stream {
    pub wind: Vector,
    pub speed: Single,
    pub time: Single,
    pub alpha: Single,
}

/// The flow at a point, with what the body, the filaments and the shed
/// vortices add to the stream.
pub open spec fn flow_at(
    local: Vector,
    factors: BodyFactors,
    stream: Stream,
    axes: Axes,
    filaments: Seq<VortexSegment>,
    shed: Seq<ShedVortex>,
) -> Vector {
    disturbed_by(
        stream.wind,
        axes,
        super::body::flow_about(local, stream.speed, stream.alpha, factors).sum(
            super::vortex::induced_by(local, filaments, filaments.len()),
        ).sum(super::vortex::shed_by(local, shed, shed.len())),
    )
}

/// Whether these are the values that the flow about the body is made of at
/// each point.
pub open spec fn factors_taken<E: ElementarySingle>(
    e: E,
    time: Single,
    axes: Axes,
    all: Seq<BodyFactors>,
) -> bool {
    &&& all.len() == POINTS
    &&& forall|n: int|
        #![trigger all[n]]
        0 <= n < POINTS ==> super::body::are_body_factors(
            e,
            super::body::terms_at(along_axes(numbered(n), axes), time),
            all[n],
        )
}

/// The flow at each point.
pub open spec fn flows(
    all: Seq<BodyFactors>,
    stream: Stream,
    axes: Axes,
    filaments: Seq<VortexSegment>,
    shed: Seq<ShedVortex>,
) -> Seq<Vector> {
    Seq::new(
        POINTS as nat,
        |n: int| flow_at(along_axes(numbered(n), axes), all[n], stream, axes, filaments, shed),
    )
}

/// One vector on the way to another.
pub open spec fn between(a: Vector, b: Vector, f: Single) -> Vector {
    a.sum(b.difference(a).scaled(f))
}

/// One vector on the way to another.
pub fn lerp(a: Vector, b: Vector, f: Single) -> (r: Vector)
    ensures
        r == between(a, b, f),
{
    a.plus(b.minus(a).times(f))
}

/// A place between the points: the point before it, and how far beyond.
#[derive(Clone, Copy, Debug, PartialEq, Eq, Structural)]
pub struct Spot {
    pub i: usize,
    pub f: Single,
}

/// The place of a number of steps along a side of `n` points; none outside.
pub open spec fn spot_of(d: Single, n: usize) -> Option<Spot> {
    if d.below(sgl(D0)) || Single::integer((n - 2) as nat).below(d) {
        None
    } else {
        let i = d.wide.steps((n - 2) as nat);
        Some(Spot { i: i as usize, f: d.difference(Single::integer(i)) })
    }
}

fn spot(d: Single, n: usize) -> (r: Option<Spot>)
    requires
        n >= 2,
    ensures
        r == spot_of(d, n),
        r matches Some(s) ==> s.i + 2 <= n,
{
    if d.lt(sgl(D0)) || d.gt(Single::from_u64((n - 2) as u64)) {
        None
    } else {
        let i: usize = d.wide.whole_steps(n - 2);
        Some(Spot { i, f: d.minus(Single::from_u64(i as u64)) })
    }
}

/// The number of a point.
pub open spec fn number(i: int, j: int, k: int) -> int {
    (k * NY + j) * NX + i
}

/// The flow between the points about a place.
pub open spec fn blended(data: Seq<Vector>, x: Spot, y: Spot, z: Spot) -> Vector {
    let at = |i: int, j: int, k: int| data[number(x.i + i, y.i + j, z.i + k)];
    let c00 = between(at(0, 0, 0), at(1, 0, 0), x.f);
    let c10 = between(at(0, 1, 0), at(1, 1, 0), x.f);
    let c01 = between(at(0, 0, 1), at(1, 0, 1), x.f);
    let c11 = between(at(0, 1, 1), at(1, 1, 1), x.f);
    between(between(c00, c10, y.f), between(c01, c11, y.f), z.f)
}

/// The steps from the first point of the grid to a point.
pub open spec fn grid_steps(p: Vector) -> Vector {
    Vector {
        x: p.x.difference(sgl(M24)).quotient(sgl(D0_5)),
        y: p.y.difference(sgl(M6_5)).quotient(sgl(D0_5)),
        z: p.z.difference(sgl(M6_5)).quotient(sgl(D0_5)),
    }
}

/// The steps from the first point of the grid to a point.
pub fn steps_to(p: Vector) -> (r: Vector)
    ensures
        r == grid_steps(p),
{
    Vector {
        x: p.x.minus(sgl(M24)).over(sgl(D0_5)),
        y: p.y.minus(sgl(M6_5)).over(sgl(D0_5)),
        z: p.z.minus(sgl(M6_5)).over(sgl(D0_5)),
    }
}

/// The flow at a place: blended within the grid, else the given one.
pub open spec fn sampled(data: Seq<Vector>, p: Vector, fallback: Vector) -> Vector {
    let d = grid_steps(p);
    match (spot_of(d.x, NX), spot_of(d.y, NY), spot_of(d.z, NZ)) {
        (Some(x), Some(y), Some(z)) => blended(data, x, y, z),
        _ => fallback,
    }
}

impl FlowGrid {
    /// A grid without flow.
    pub fn new() -> (r: Self)
        ensures
            r.data@.len() == 0,
    {
        FlowGrid { data: Vec::new() }
    }

    /// Whether the flow has been built.
    pub open spec fn built(self) -> bool {
        self.data@.len() == POINTS
    }

    /// Whether the grid holds the flow with what the body, the filaments and
    /// the shed vortices add to the stream.
    pub open spec fn holds<E: ElementarySingle>(
        self,
        stream: Stream,
        axes: Axes,
        filaments: Seq<VortexSegment>,
        shed: Seq<ShedVortex>,
        e: E,
    ) -> bool {
        exists|all: Seq<BodyFactors>| #[trigger]
            factors_taken(e, stream.time, axes, all) && self.data@ == flows(
                all,
                stream,
                axes,
                filaments,
                shed,
            )
    }

    /// Builds the flow.
    #[verifier::spinoff_prover]
    #[verifier::rlimit(40)]
    pub fn build<E: ElementarySingle>(
        &mut self,
        stream: Stream,
        axes: Axes,
        filaments: &[VortexSegment],
        shed: &[ShedVortex],
        e: &E,
    )
        ensures
            final(self).built(),
            final(self).holds(stream, axes, filaments@, shed@, *e),
    {
        let mut data: Vec<Vector> = Vec::new();
        let ghost mut all: Seq<BodyFactors> = Seq::empty();
        let mut n: usize = 0;
        while n < POINTS
            invariant
                n <= POINTS,
                data@.len() == n,
                all.len() == n,
                forall|m: int|
                    #![trigger all[m]]
                    0 <= m < n ==> super::body::are_body_factors(
                        *e,
                        super::body::terms_at(along_axes(numbered(m), axes), stream.time),
                        all[m],
                    ),
                forall|m: int|
                    #![trigger data@[m]]
                    0 <= m < n ==> data@[m] == flow_at(
                        along_axes(numbered(m), axes),
                        all[m],
                        stream,
                        axes,
                        filaments@,
                        shed@,
                    ),
            decreases POINTS - n,
        {
            let i: usize = n % NX;
            let j: usize = (n / NX) % NY;
            let k: usize = n / (NX * NY);
            let local: Vector = in_axes(grid_point(i as u64, j as u64, k as u64), axes);
            let f: BodyFactors = body_factors(e, body_terms(local, stream.time));
            let pert: Vector = body_flow(local, stream.speed, stream.alpha, f).plus(
                filaments_induced(local, filaments),
            ).plus(shed_induced(local, shed));
            let ghost before = all;
            proof {
                all = all.push(f);
                assert forall|m: int|
                    #![trigger all[m]]
                    0 <= m < n + 1 implies super::body::are_body_factors(
                    *e,
                    super::body::terms_at(along_axes(numbered(m), axes), stream.time),
                    all[m],
                ) by {
                    if m < n {
                        assert(all[m] == before[m]);
                    }
                }
            }
            data.push(disturbed(stream.wind, axes, pert));
            n += 1;
        }
        self.data = data;
        proof {
            assert(factors_taken(*e, stream.time, axes, all));
            assert(self.data@ =~= flows(all, stream, axes, filaments@, shed@));
        }
    }

    /// The flow at a place: blended between the points about it, or the given
    /// one outside the grid.
    pub fn sample(&self, p: Vector, fallback: Vector) -> (r: Vector)
        requires
            self.built(),
        ensures
            r == sampled(self.data@, p, fallback),
    {
        let d: Vector = steps_to(p);
        match (spot(d.x, NX), spot(d.y, NY), spot(d.z, NZ)) {
            (Some(x), Some(y), Some(z)) => {
                let b: usize = (z.i * NY + y.i) * NX + x.i;
                let up: usize = b + NX;
                let on: usize = b + NX * NY;
                let over: usize = on + NX;
                let c00: Vector = lerp(self.data[b], self.data[b + 1], x.f);
                let c10: Vector = lerp(self.data[up], self.data[up + 1], x.f);
                let c01: Vector = lerp(self.data[on], self.data[on + 1], x.f);
                let c11: Vector = lerp(self.data[over], self.data[over + 1], x.f);
                proof {
                    let (i, j, k) = (x.i as int, y.i as int, z.i as int);
                    assert(number(i, j, k) == b && number(i + 1, j, k) == b + 1);
                    assert(number(i, j + 1, k) == up && number(i + 1, j + 1, k) == up + 1);
                    assert(number(i, j, k + 1) == on && number(i + 1, j, k + 1) == on + 1);
                    assert(number(i, j + 1, k + 1) == over);
                    assert(number(i + 1, j + 1, k + 1) == over + 1);
                }
                lerp(lerp(c00, c10, y.f), lerp(c01, c11, y.f), z.f)
            },
            _ => fallback,
        }
    }
}

/// Whether a number of steps leads out of a side of `n` points, where the flow
/// is not known.
pub open spec fn beyond(d: Single, n: usize) -> bool {
    d.below(sgl(D0)) || Single::integer((n - 2) as nat).below(d)
}

/// Places outside the grid feel the stream alone, on whichever side they lie.
pub proof fn outside_is_free_stream(data: Seq<Vector>, p: Vector, fallback: Vector)
    requires
        beyond(grid_steps(p).x, NX) || beyond(grid_steps(p).y, NY) || beyond(grid_steps(p).z, NZ),
    ensures
        sampled(data, p, fallback) == fallback,
{
}

/// A step from one value to another goes the way of the other, and further for
/// a larger share; no share is no step.
pub proof fn blends_go_from_one_to_the_other(a: Vector, b: Vector, f: Single, g: Single)
    requires
        crate::single::is_held(a) && crate::single::is_held(b),
        f.held() && g.held() && sgl(D0).not_above(f) && f.not_above(g),
        ({
            let d = b.difference(a);
            &&& d.x.wide.finite() && d.y.wide.finite() && d.z.wide.finite()
            &&& d.x.product(g).wide.finite() && d.y.product(g).wide.finite() && d.z.product(
                g,
            ).wide.finite()
            &&& d.x.product(f).wide.finite() && d.y.product(f).wide.finite() && d.z.product(
                f,
            ).wide.finite()
        }),
    ensures
        steps_towards(a.x, b.x, between(a, b, f).x, between(a, b, g).x),
        steps_towards(a.y, b.y, between(a, b, f).y, between(a, b, g).y),
        steps_towards(a.z, b.z, between(a, b, f).z, between(a, b, g).z),
        f.wide.zero() ==> between(a, b, f).x.same(a.x) && between(a, b, f).y.same(a.y) && between(
            a,
            b,
            f,
        ).z.same(a.z),
{
    lemma_blend(a.x, b.x, f, g);
    lemma_blend(a.y, b.y, f, g);
    lemma_blend(a.z, b.z, f, g);
}

/// Whether two numbers lie from one towards another, the second no less far.
pub open spec fn steps_towards(a: Single, b: Single, near: Single, far: Single) -> bool {
    &&& a.not_above(b) ==> a.not_above(near) && near.not_above(far)
    &&& b.not_above(a) ==> near.not_above(a) && far.not_above(near)
}

proof fn lemma_blend(a: Single, b: Single, f: Single, g: Single)
    requires
        a.held() && b.held(),
        f.held() && g.held() && sgl(D0).not_above(f) && f.not_above(g),
        b.difference(a).wide.finite(),
        b.difference(a).product(f).wide.finite() && b.difference(a).product(g).wide.finite(),
    ensures
        steps_towards(
            a,
            b,
            a.sum(b.difference(a).product(f)),
            a.sum(b.difference(a).product(g)),
        ),
        f.wide.zero() ==> a.sum(b.difference(a).product(f)).same(a),
{
    let d = b.difference(a);
    crate::single::zero_is_held();
    crate::single::differences_tell_the_order(b, a);
    crate::single::products_follow_their_factors(f, d, d);
    crate::single::terms_shift_their_way(a, d.product(f));
    if a.not_above(b) {
        crate::single::products_follow_their_factors(d, f, g);
        crate::single::sums_follow_their_terms(a, a, d.product(f), d.product(g));
    }
    if b.not_above(a) {
        crate::rounding::products_keep_order(d.wide, f.wide, g.wide);
        crate::single::narrowing_keeps_order(d.wide.product(g.wide), d.wide.product(f.wide));
        crate::single::sums_follow_their_terms(a, a, d.product(g), d.product(f));
    }
}

/// Places further along an axis are further along the grid.
pub proof fn grids_run_along_the_axes(p: Vector, q: Vector)
    requires
        crate::single::is_held(p) && crate::single::is_held(q),
        p.x.not_above(q.x) && p.y.not_above(q.y) && p.z.not_above(q.z),
        p.x.difference(sgl(M24)).wide.finite() && q.x.difference(sgl(M24)).wide.finite(),
        p.y.difference(sgl(M6_5)).wide.finite() && q.y.difference(sgl(M6_5)).wide.finite(),
        p.z.difference(sgl(M6_5)).wide.finite() && q.z.difference(sgl(M6_5)).wide.finite(),
    ensures
        grid_steps(p).x.not_above(grid_steps(q).x),
        grid_steps(p).y.not_above(grid_steps(q).y),
        grid_steps(p).z.not_above(grid_steps(q).z),
        p.x == sgl(M24) ==> grid_steps(p).x.wide.zero(),
        p.y == sgl(M6_5) ==> grid_steps(p).y.wide.zero(),
        p.z == sgl(M6_5) ==> grid_steps(p).z.wide.zero(),
{
    reveal(crate::binary64::Binary64::narrowed);
    lemma_steps(p.x, q.x, sgl(M24));
    lemma_steps(p.y, q.y, sgl(M6_5));
    lemma_steps(p.z, q.z, sgl(M6_5));
}

proof fn lemma_steps(a: Single, b: Single, start: Single)
    requires
        a.held() && b.held() && start.wide.finite(),
        a.not_above(b),
        a.difference(start).wide.finite() && b.difference(start).wide.finite(),
    ensures
        a.difference(start).quotient(sgl(D0_5)).not_above(
            b.difference(start).quotient(sgl(D0_5)),
        ),
        a == start ==> a.difference(start).quotient(sgl(D0_5)).wide.zero(),
{
    reveal(crate::binary64::Binary64::narrowed);
    crate::single::zero_is_held();
    crate::single::sums_follow_their_terms(a, b, start, start);
    crate::single::differences_tell_the_order(a, start);
    crate::single::quotients_follow_their_dividends(
        a.difference(start),
        b.difference(start),
        sgl(D0_5),
    );
}

/// In axes that are those of the tunnel a disturbance adds to the wind as it is,
/// each part on its own axis.
pub proof fn disturbances_add_to_the_wind(wind: Vector, axes: Axes, pert: Vector)
    requires
        crate::single::is_held(wind) && crate::single::is_held(pert),
        axes.fwd == (Vector { x: sgl(D1), y: sgl(D0), z: sgl(D0) }),
        axes.up == (Vector { x: sgl(D0), y: sgl(D1), z: sgl(D0) }),
        axes.right == (Vector { x: sgl(D0), y: sgl(D0), z: sgl(D1) }),
    ensures
        sgl(D0).not_above(pert.x) && pert.y.wide.zero() && pert.z.wide.zero()
            ==> wind.x.not_above(disturbed_by(wind, axes, pert).x),
        pert.x.not_above(sgl(D0)) && pert.y.wide.zero() && pert.z.wide.zero() ==> disturbed_by(
            wind,
            axes,
            pert,
        ).x.not_above(wind.x),
{
    crate::single::zero_is_held();
    let (o, z) = (sgl(D1), sgl(D0));
    crate::rounding::one_is_neutral(pert.x.wide);
    crate::single::products_follow_their_factors(z, pert.y, pert.y);
    crate::single::products_follow_their_factors(z, pert.z, pert.z);
    let a = wind.x.sum(o.product(pert.x));
    let b = a.sum(z.product(pert.y));
    assert(o.product(pert.x) == pert.x);
    crate::single::terms_shift_their_way(wind.x, pert.x);
    crate::single::sums_follow_their_terms(wind.x, wind.x, pert.x, pert.x);
    if pert.y.wide.zero() && pert.z.wide.zero() {
        lemma_kept_order(wind.x, a, z.product(pert.y));
        lemma_kept_order(wind.x, b, z.product(pert.z));
    }
}

/// Adding zero keeps the order to a number of single precision.
proof fn lemma_kept_order(x: Single, a: Single, zero: Single)
    requires
        x.held(),
        !a.wide.nan(),
        zero.wide.zero(),
    ensures
        x.not_above(a) ==> x.not_above(a.sum(zero)),
        a.not_above(x) ==> a.sum(zero).not_above(x),
        !a.sum(zero).wide.nan(),
{
    crate::rounding::zeros_keep_signs(a.wide, zero.wide);
    crate::single::narrowing_keeps_signs(a.wide.sum(zero.wide));
    if x.not_above(a) {
        crate::single::narrowing_keeps_order(x.wide, a.wide.sum(zero.wide));
    }
    if a.not_above(x) {
        crate::single::narrowing_keeps_order(a.wide.sum(zero.wide), x.wide);
    }
}

} // verus!
