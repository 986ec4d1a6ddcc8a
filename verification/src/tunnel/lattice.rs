//! Lifting surfaces as a lattice of vortices.
use super::linear::solve_linear;
use super::vortex::{biot_savart_seg, biot_savart_semi, filaments_induced, wake_length, VortexSegment};
use crate::literal::{
    D0, D0_01, D0_25, D0_4, D0_5, D0_55, D0_6, D0_65, D0_75, D0_8, D1, D13, D1EM3, D1EM6, D1_8,
    D2, D5, D5_5, M1, M2_05, M3, M5_5,
};
use crate::single::{sgl, Single, Vector};
use vstd::prelude::*;

verus! {

/// The most stations of a surface.
pub const MAX_STATIONS: usize = 0x7FFF;

/// Stations of the wing and of a fin of the tail.
pub const WING_STATIONS: usize = 14;

pub const TAIL_STATIONS: usize = 6;

/// A lifting surface: panels between stations along its span.
#[derive(Clone, Debug)]
pub struct VlmSurface {
    /// The stations.
    pub span: Vec<Single>,
    /// Chord, and its quarter and three-quarter points, at each station.
    pub chord: Vec<Single>,
    pub qc_x: Vec<Single>,
    pub tc_x: Vec<Single>,
    /// Normal of each panel.
    pub normals: Vec<Vector>,
    /// Flow through each panel that the vortices have to cancel.
    pub rhs: Vec<Single>,
    /// Circulation at each station.
    pub gamma: Vec<Single>,
    /// Direction of the wake.
    pub wake_dir: Vector,
    pub n_panels: usize,
    pub offset: Vector,
}

/// The share of the span at a station.
pub open spec fn share_of(y: Single, first: Single, last: Single) -> Single {
    y.difference(first).quotient(last.difference(first).absolute().larger(sgl(D1EM3))).clamped(
        sgl(D0),
        sgl(D1),
    )
}

/// The share of the span at a station.
pub fn span_share(y: Single, first: Single, last: Single) -> (r: Single)
    ensures
        r == share_of(y, first, last),
{
    proof {
        crate::single::limits_are_ordered();
    }
    y.minus(first).over(last.minus(first).abs().max(sgl(D1EM3))).clamp(sgl(D0), sgl(D1))
}

/// The chord at a share of the span.
pub open spec fn chord_of(root: Single, tip: Single, t: Single) -> Single {
    root.sum(tip.difference(root).product(t))
}

/// The chord at a share of the span.
pub fn chord_at(root: Single, tip: Single, t: Single) -> (r: Single)
    ensures
        r == chord_of(root, tip, t),
{
    root.plus(tip.minus(root).times(t))
}

/// The place of a vortex or a control point: along the chord, along the span.
#[derive(Clone, Copy, Debug, PartialEq, Eq, Structural)]
pub struct Bound {
    pub a: Vector,
    pub b: Vector,
}

/// The velocity, along a normal, that the vortex of a panel of unit strength
/// and its two trails induce at a point.
pub open spec fn influence_of(cp: Vector, normal: Vector, bound: Bound, wake: Vector) -> Single {
    let v_bound = super::vortex::segment_flow(cp, VortexSegment { a: bound.a, b: bound.b, gamma: sgl(D1) });
    let v_a = super::vortex::ray_flow(cp, bound.b, wake, sgl(D1));
    let v_b = super::vortex::ray_flow(cp, bound.a, wake, sgl(M1));
    v_bound.sum(v_a).sum(v_b).inner(normal)
}

/// The velocity, along a normal, that the vortex of a panel of unit strength
/// and its two trails induce at a point.
pub fn influence(cp: Vector, normal: Vector, bound: Bound, wake: Vector) -> (r: Single)
    ensures
        r == influence_of(cp, normal, bound, wake),
{
    let v_bound: Vector = biot_savart_seg(cp, VortexSegment { a: bound.a, b: bound.b, gamma: sgl(D1) });
    let v_a: Vector = biot_savart_semi(cp, bound.b, wake, sgl(D1));
    let v_b: Vector = biot_savart_semi(cp, bound.a, wake, sgl(M1));
    v_bound.plus(v_a).plus(v_b).dot(normal)
}

/// The flow through a panel that the vortices have to cancel.
pub open spec fn through_of(
    normal: Vector,
    speed: Single,
    cosine: Single,
    sine: Single,
) -> Single {
    (Vector { x: speed.product(cosine), y: speed.product(sine), z: sgl(D0) }).inner(normal).negated()
}

/// The flow through a panel that the vortices have to cancel, given cosine and
/// sine of the angle of attack.
pub fn through_flow(normal: Vector, speed: Single, cosine: Single, sine: Single) -> (r: Single)
    ensures
        r == through_of(normal, speed, cosine, sine),
{
    (Vector { x: speed.times(cosine), y: speed.times(sine), z: sgl(D0) }).dot(normal).neg()
}

/// The pressure coefficient where the flow has a speed along the stream and an
/// induced velocity.
pub open spec fn pressure_of(speed: Single, induced: Vector) -> Single {
    let v = (Vector { x: speed, y: sgl(D0), z: sgl(D0) }).sum(induced);
    sgl(D1).difference(v.inner(v).quotient(speed.product(speed).larger(sgl(D1EM6)))).clamped(
        sgl(M3),
        sgl(D2),
    )
}

/// The pressure coefficient where the flow has a speed along the stream and an
/// induced velocity.
pub fn pressure_coefficient(speed: Single, induced: Vector) -> (r: Single)
    ensures
        r == pressure_of(speed, induced),
{
    proof {
        crate::single::limits_are_ordered();
    }
    let v: Vector = (Vector { x: speed, y: sgl(D0), z: sgl(D0) }).plus(induced);
    sgl(D1).minus(v.dot(v).over(speed.times(speed).max(sgl(D1EM6)))).clamp(sgl(M3), sgl(D2))
}

/// The pressure at a panel.
#[derive(Clone, Copy, Debug, PartialEq, Eq, Structural)]
pub struct CpSample {
    pub pos: Vector,
    pub normal: Vector,
    pub cp: Single,
}

impl VlmSurface {
    pub open spec fn wf(self) -> bool {
        &&& self.n_panels < MAX_STATIONS
        &&& self.span@.len() == self.n_panels + 1
        &&& self.chord@.len() == self.n_panels + 1
        &&& self.qc_x@.len() == self.n_panels + 1
        &&& self.tc_x@.len() == self.n_panels + 1
        &&& self.gamma@.len() == self.n_panels + 1
        &&& self.normals@.len() == self.n_panels
        &&& self.rhs@.len() == self.n_panels
    }

    /// The vortex of a panel.
    pub open spec fn bound(self, j: int) -> Bound {
        Bound {
            a: Vector { x: self.qc_x@[j], y: self.span@[j], z: self.offset.z },
            b: Vector { x: self.qc_x@[j], y: self.span@[j + 1], z: self.offset.z },
        }
    }

    /// The control point of a panel.
    pub open spec fn control(self, i: int) -> Vector {
        Vector {
            x: self.tc_x@[i],
            y: self.span@[i].sum(self.span@[i + 1]).product(sgl(D0_5)),
            z: self.offset.z,
        }
    }

    fn bound_at(&self, j: usize) -> (r: Bound)
        requires
            self.wf(),
            j < self.n_panels,
        ensures
            r == self.bound(j as int),
    {
        Bound {
            a: Vector { x: self.qc_x[j], y: self.span[j], z: self.offset.z },
            b: Vector { x: self.qc_x[j], y: self.span[j + 1], z: self.offset.z },
        }
    }

    fn control_at(&self, i: usize) -> (r: Vector)
        requires
            self.wf(),
            i < self.n_panels,
        ensures
            r == self.control(i as int),
    {
        Vector {
            x: self.tc_x[i],
            y: self.span[i].plus(self.span[i + 1]).times(sgl(D0_5)),
            z: self.offset.z,
        }
    }

    /// Whether the surface has the given stations, chords from root to tip along
    /// them, no circulation, and a wake straight back.
    pub open spec fn laid_out(
        self,
        ys: Seq<Single>,
        root: Single,
        tip: Single,
        offset: Vector,
    ) -> bool {
        &&& self.span@ =~= ys
        &&& forall|i: int|
            #![trigger self.chord@[i]]
            0 <= i < ys.len() ==> self.chord@[i] == chord_of(
                root,
                tip,
                share_of(ys[i], ys[0], ys.last()),
            )
        &&& forall|i: int|
            #![trigger self.qc_x@[i]]
            0 <= i < ys.len() ==> self.qc_x@[i] == offset.x.difference(
                self.chord@[i].product(sgl(D0_25)),
            )
        &&& forall|i: int|
            #![trigger self.tc_x@[i]]
            0 <= i < ys.len() ==> self.tc_x@[i] == offset.x.difference(
                self.chord@[i].product(sgl(D0_75)),
            )
        &&& forall|i: int| 0 <= i < self.n_panels ==> #[trigger] self.rhs@[i] == sgl(D0)
        &&& forall|i: int| 0 <= i <= self.n_panels ==> #[trigger] self.gamma@[i] == sgl(D0)
        &&& self.wake_dir == (Vector { x: sgl(M1), y: sgl(D0), z: sgl(D0) })
        &&& self.offset == offset
    }

    /// A flat surface with the given stations; the chord goes from root to tip
    /// along the span.
    pub fn new(
        y_stations: &[Single],
        root_chord: Single,
        tip_chord: Single,
        offset: Vector,
    ) -> (r: Self)
        requires
            1 <= y_stations@.len() <= MAX_STATIONS,
        ensures
            r.wf(),
            r.laid_out(y_stations@, root_chord, tip_chord, offset),
            forall|i: int|
                0 <= i < r.n_panels ==> #[trigger] r.normals@[i] == (Vector {
                    x: sgl(D0),
                    y: sgl(D1),
                    z: sgl(D0),
                }),
    {
        let n: usize = y_stations.len();
        let first: Single = y_stations[0];
        let last: Single = y_stations[n - 1];
        let mut span: Vec<Single> = Vec::new();
        let mut chord: Vec<Single> = Vec::new();
        let mut qc_x: Vec<Single> = Vec::new();
        let mut tc_x: Vec<Single> = Vec::new();
        let mut gamma: Vec<Single> = Vec::new();
        let mut normals: Vec<Vector> = Vec::new();
        let mut rhs: Vec<Single> = Vec::new();
        let mut i: usize = 0;
        while i < n
            invariant
                i <= n,
                n == y_stations@.len(),
                1 <= n,
                first == y_stations@[0],
                last == y_stations@.last(),
                span@ =~= y_stations@.take(i as int),
                chord@.len() == i,
                qc_x@.len() == i,
                tc_x@.len() == i,
                gamma@.len() == i,
                normals@.len() == if i < n {
                    i as int
                } else {
                    n - 1
                },
                rhs@.len() == normals@.len(),
                forall|k: int|
                    #![trigger chord@[k]]
                    0 <= k < i ==> chord@[k] == chord_of(
                        root_chord,
                        tip_chord,
                        share_of(y_stations@[k], first, last),
                    ),
                forall|k: int|
                    #![trigger qc_x@[k]]
                    0 <= k < i ==> qc_x@[k] == offset.x.difference(
                        chord@[k].product(sgl(D0_25)),
                    ),
                forall|k: int|
                    #![trigger tc_x@[k]]
                    0 <= k < i ==> tc_x@[k] == offset.x.difference(
                        chord@[k].product(sgl(D0_75)),
                    ),
                forall|k: int|
                    0 <= k < normals@.len() ==> #[trigger] normals@[k] == (Vector {
                        x: sgl(D0),
                        y: sgl(D1),
                        z: sgl(D0),
                    }),
                forall|k: int| 0 <= k < rhs@.len() ==> #[trigger] rhs@[k] == sgl(D0),
                forall|k: int| 0 <= k < i ==> #[trigger] gamma@[k] == sgl(D0),
            decreases n - i,
        {
            let y: Single = y_stations[i];
            let c: Single = chord_at(root_chord, tip_chord, span_share(y, first, last));
            span.push(y);
            chord.push(c);
            qc_x.push(offset.x.minus(c.times(sgl(D0_25))));
            tc_x.push(offset.x.minus(c.times(sgl(D0_75))));
            gamma.push(sgl(D0));
            if i + 1 < n {
                normals.push(Vector { x: sgl(D0), y: sgl(D1), z: sgl(D0) });
                rhs.push(sgl(D0));
            }
            i += 1;
        }
        VlmSurface {
            span,
            chord,
            qc_x,
            tc_x,
            normals,
            rhs,
            gamma,
            wake_dir: Vector { x: sgl(M1), y: sgl(D0), z: sgl(D0) },
            n_panels: n - 1,
            offset,
        }
    }

    /// The influence of each panel on each control point, row by row.
    pub open spec fn influences(self) -> Seq<Single> {
        Seq::new(
            (self.n_panels * self.n_panels) as nat,
            |k: int|
                influence_of(
                    self.control(k / self.n_panels as int),
                    self.normals@[k / self.n_panels as int],
                    self.bound(k % self.n_panels as int),
                    self.wake_dir,
                ),
        )
    }

    /// The flow through each panel.
    pub open spec fn throughs(self, speed: Single, cosine: Single, sine: Single) -> Seq<Single> {
        Seq::new(
            self.n_panels as nat,
            |i: int| through_of(self.normals@[i], speed, cosine, sine),
        )
    }

    /// The same surface, but for circulation and flow.
    pub open spec fn same_shape(self, other: VlmSurface) -> bool {
        &&& self.span == other.span
        &&& self.chord == other.chord
        &&& self.qc_x == other.qc_x
        &&& self.tc_x == other.tc_x
        &&& self.normals == other.normals
        &&& self.wake_dir == other.wake_dir
        &&& self.n_panels == other.n_panels
        &&& self.offset == other.offset
    }

    /// Whether this is `before` with the circulation at which no flow passes
    /// through a panel; there is none without wind.
    pub open spec fn solved(
        self,
        before: VlmSurface,
        cosine: Single,
        sine: Single,
        speed: Single,
    ) -> bool {
        &&& self.same_shape(before)
        &&& before.n_panels == 0 || speed.below(sgl(D0_5)) ==> (forall|i: int|
            0 <= i <= before.n_panels ==> #[trigger] self.gamma@[i] == sgl(D0))
        &&& !(before.n_panels == 0 || speed.below(sgl(D0_5))) ==> {
            &&& self.rhs@ == before.throughs(speed, cosine, sine)
            &&& self.gamma@ == super::linear::solution(
                before.influences(),
                before.throughs(speed, cosine, sine),
                before.n_panels as nat,
            ).push(before.gamma@.last())
        }
    }

    /// Solves for the circulation at which no flow passes through a panel,
    /// given cosine and sine of the angle of attack; there is none without
    /// wind.
    #[verifier::spinoff_prover]
    #[verifier::rlimit(60)]
    pub fn solve(&mut self, cosine: Single, sine: Single, speed: Single)
        requires
            old(self).wf(),
        ensures
            final(self).wf(),
            final(self).solved(*old(self), cosine, sine, speed),
    {
        let n: usize = self.n_panels;
        if n == 0 || speed.lt(sgl(D0_5)) {
            let mut i: usize = 0;
            while i < self.gamma.len()
                invariant
                    i <= self.gamma@.len(),
                    self.gamma@.len() == old(self).gamma@.len(),
                    self.same_shape(*old(self)),
                    self.rhs == old(self).rhs,
                    forall|k: int| 0 <= k < i ==> #[trigger] self.gamma@[k] == sgl(D0),
                decreases self.gamma@.len() - i,
            {
                self.gamma.set(i, sgl(D0));
                i += 1;
            }
            return;
        }
        proof {
            assert(n * n <= 0x3FFF_0001) by (nonlinear_arith)
                requires
                    n <= 0x7FFF,
            ;
        }
        let total: usize = n * n;
        let mut aic: Vec<Single> = Vec::new();
        let mut k: usize = 0;
        while k < total
            invariant
                k <= total,
                total == n * n,
                n == self.n_panels,
                n > 0,
                self.wf(),
                *self == *old(self),
                aic@.len() == k,
                aic@ =~= self.influences().take(k as int),
            decreases total - k,
        {
            let i: usize = k / n;
            let j: usize = k % n;
            proof {
                assert(k / n < n) by (nonlinear_arith)
                    requires
                        k < n * n,
                        n > 0,
                ;
            }
            let cp: Vector = self.control_at(i);
            let bound: Bound = self.bound_at(j);
            aic.push(influence(cp, self.normals[i], bound, self.wake_dir));
            k += 1;
        }
        let mut rhs: Vec<Single> = Vec::new();
        let mut i: usize = 0;
        while i < n
            invariant
                i <= n,
                n == self.n_panels,
                self.wf(),
                rhs@.len() == i,
                rhs@ =~= self.throughs(speed, cosine, sine).take(i as int),
            decreases n - i,
        {
            rhs.push(through_flow(self.normals[i], speed, cosine, sine));
            i += 1;
        }
        let ghost before = self.gamma@;
        solve_linear(aic.as_slice(), rhs.as_slice(), &mut self.gamma, n);
        proof {
            assert(aic@ =~= old(self).influences());
            assert(rhs@ =~= old(self).throughs(speed, cosine, sine));
            assert(self.gamma@.skip(n as int) =~= before.skip(n as int));
            assert(self.gamma@[n as int] == self.gamma@.skip(n as int)[0]);
            assert(before[n as int] == before.skip(n as int)[0]);
            assert(self.gamma@ =~= self.gamma@.take(n as int).push(before[n as int]));
        }
        self.rhs = rhs;
    }

    /// The strength of the vortex that trails from a station.
    pub open spec fn trail(self, j: int) -> Single {
        let change = if j == 0 {
            self.gamma@[1].difference(self.gamma@[0])
        } else if j == self.n_panels {
            self.gamma@[j].difference(self.gamma@[j - 1])
        } else {
            self.gamma@[j + 1].difference(self.gamma@[j - 1])
        };
        change.product(sgl(D0_5))
    }

    /// The vortex that trails from a station.
    pub open spec fn trailing(self, te_x: Single, j: int) -> VortexSegment {
        let a = Vector { x: te_x, y: self.span@[j], z: self.offset.z };
        VortexSegment {
            a,
            b: a.sum(self.wake_dir.scaled(super::vortex::wake_len())),
            gamma: self.trail(j),
        }
    }

    /// The vortices that trail from the first `n` stations, without weak ones.
    pub open spec fn trails(self, te_x: Single, n: nat) -> Seq<VortexSegment>
        decreases n,
    {
        if n == 0 {
            Seq::empty()
        } else {
            let before = self.trails(te_x, (n - 1) as nat);
            if sgl(D0_01).below(self.trail(n - 1).absolute()) {
                before.push(self.trailing(te_x, n - 1))
            } else {
                before
            }
        }
    }

    /// The vortices that trail from the edge at `te_x`.
    pub fn trailing_filaments(&self, te_x: Single) -> (r: Vec<VortexSegment>)
        requires
            self.wf(),
            self.n_panels >= 1,
        ensures
            r@ == self.trails(te_x, (self.n_panels + 1) as nat),
    {
        let mut r: Vec<VortexSegment> = Vec::new();
        let mut j: usize = 0;
        while j <= self.n_panels
            invariant
                j <= self.n_panels + 1,
                self.wf(),
                self.n_panels >= 1,
                r@ == self.trails(te_x, j as nat),
            decreases self.n_panels + 1 - j,
        {
            let change: Single = if j == 0 {
                self.gamma[1].minus(self.gamma[0])
            } else if j == self.n_panels {
                self.gamma[j].minus(self.gamma[j - 1])
            } else {
                self.gamma[j + 1].minus(self.gamma[j - 1])
            };
            let strength: Single = change.times(sgl(D0_5));
            if strength.abs().gt(sgl(D0_01)) {
                let a: Vector = Vector { x: te_x, y: self.span[j], z: self.offset.z };
                r.push(
                    VortexSegment {
                        a,
                        b: a.plus(self.wake_dir.times(wake_length())),
                        gamma: strength,
                    },
                );
            }
            j += 1;
        }
        r
    }

    /// The bound vortices of the first `n` panels, without weak ones.
    pub open spec fn bounds(self, n: nat) -> Seq<VortexSegment>
        decreases n,
    {
        if n == 0 {
            Seq::empty()
        } else {
            let before = self.bounds((n - 1) as nat);
            let strength = self.gamma@[n as int].difference(self.gamma@[n - 1]);
            if sgl(D0_01).below(strength.absolute()) {
                before.push(
                    VortexSegment {
                        a: self.bound(n - 1).a,
                        b: self.bound(n - 1).b,
                        gamma: strength,
                    },
                )
            } else {
                before
            }
        }
    }

    /// The bound vortices.
    pub fn bound_segments(&self) -> (r: Vec<VortexSegment>)
        requires
            self.wf(),
        ensures
            r@ == self.bounds(self.n_panels as nat),
    {
        let mut r: Vec<VortexSegment> = Vec::new();
        let mut j: usize = 0;
        while j < self.n_panels
            invariant
                j <= self.n_panels,
                self.wf(),
                r@ == self.bounds(j as nat),
            decreases self.n_panels - j,
        {
            let strength: Single = self.gamma[j + 1].minus(self.gamma[j]);
            if strength.abs().gt(sgl(D0_01)) {
                let b: Bound = self.bound_at(j);
                r.push(VortexSegment { a: b.a, b: b.b, gamma: strength });
            }
            j += 1;
        }
        r
    }

    /// The pressure at a panel in a stream with filaments.
    pub open spec fn pressed(
        self,
        i: int,
        filaments: Seq<VortexSegment>,
        speed: Single,
    ) -> CpSample {
        let at = self.control(i);
        CpSample {
            pos: at,
            normal: self.normals@[i],
            cp: pressure_of(speed, super::vortex::induced_by(at, filaments, filaments.len())),
        }
    }

    /// The pressures at all control points; none without wind.
    pub open spec fn samples(self, filaments: Seq<VortexSegment>, speed: Single) -> Seq<CpSample> {
        if speed.below(sgl(D0_5)) {
            Seq::empty()
        } else {
            Seq::new(self.n_panels as nat, |i: int| self.pressed(i, filaments, speed))
        }
    }

    /// The pressures at the panels in a stream with filaments; none without
    /// wind.
    pub fn pressures(&self, filaments: &[VortexSegment], speed: Single) -> (r: Vec<CpSample>)
        requires
            self.wf(),
        ensures
            r@ =~= self.samples(filaments@, speed),
    {
        let mut r: Vec<CpSample> = Vec::new();
        if speed.lt(sgl(D0_5)) {
            return r;
        }
        let mut i: usize = 0;
        while i < self.n_panels
            invariant
                i <= self.n_panels,
                self.wf(),
                r@ =~= Seq::new(i as nat, |k: int| self.pressed(k, filaments@, speed)),
            decreases self.n_panels - i,
        {
            let at: Vector = self.control_at(i);
            let cp: Single = pressure_coefficient(speed, filaments_induced(at, filaments));
            r.push(CpSample { pos: at, normal: self.normals[i], cp });
            i += 1;
        }
        r
    }
}

/// A station of the wing.
pub open spec fn wing_station_of(i: u64) -> Single {
    let t = Single::integer(i as nat).quotient(sgl(D13));
    sgl(M5_5).sum(t.product(sgl(D2)).product(sgl(D5_5)))
}

/// A station of the wing.
pub fn wing_station(i: u64) -> (r: Single)
    ensures
        r == wing_station_of(i),
{
    let t: Single = Single::from_u64(i).over(sgl(D13));
    sgl(M5_5).plus(t.times(sgl(D2)).times(sgl(D5_5)))
}

/// A station of a fin of the tail, given the sine of its cant.
pub open spec fn fin_station_of(i: u64, side: Single, cant_sine: Single) -> Single {
    let t = Single::integer(i as nat).quotient(sgl(D5));
    sgl(D0_65).sum(side.product(t.product(sgl(D1_8))).product(cant_sine))
}

/// A station of a fin of the tail, given the sine of its cant.
pub fn fin_station(i: u64, side: Single, cant_sine: Single) -> (r: Single)
    ensures
        r == fin_station_of(i, side, cant_sine),
{
    let t: Single = Single::from_u64(i).over(sgl(D5));
    sgl(D0_65).plus(side.times(t.times(sgl(D1_8))).times(cant_sine))
}

impl VlmSurface {
    /// The flat wing.
    pub open spec fn is_wing(self) -> bool {
        &&& self.laid_out(
            Seq::new(WING_STATIONS as nat, |i: int| wing_station_of(i as u64)),
            sgl(D1),
            sgl(D0_6),
            Vector::zero(),
        )
        &&& forall|i: int|
            0 <= i < self.n_panels ==> #[trigger] self.normals@[i] == (Vector {
                x: sgl(D0),
                y: sgl(D1),
                z: sgl(D0),
            })
    }

    /// The canted fin on a side.
    pub open spec fn is_fin(self, side: Single, cant_sine: Single, cant_cosine: Single) -> bool {
        &&& self.laid_out(
            Seq::new(TAIL_STATIONS as nat, |i: int| fin_station_of(i as u64, side, cant_sine)),
            sgl(D0_8),
            sgl(D0_4),
            Vector { x: sgl(M2_05), y: sgl(D0_65), z: side.product(sgl(D0_55)) },
        )
        &&& forall|i: int|
            0 <= i < self.n_panels ==> #[trigger] self.normals@[i] == (Vector {
                x: sgl(D0),
                y: cant_cosine,
                z: side.product(cant_sine),
            })
    }
}

/// The wing.
pub fn wing() -> (r: VlmSurface)
    ensures
        r.wf(),
        r.is_wing(),
{
    let mut ys: Vec<Single> = Vec::new();
    let mut i: usize = 0;
    while i < WING_STATIONS
        invariant
            i <= WING_STATIONS,
            ys@ =~= Seq::new(i as nat, |k: int| wing_station_of(k as u64)),
        decreases WING_STATIONS - i,
    {
        ys.push(wing_station(i as u64));
        i += 1;
    }
    VlmSurface::new(ys.as_slice(), sgl(D1), sgl(D0_6), Vector::zeros())
}

/// A fin of the tail on a side, given sine and cosine of its cant.
pub fn fin(side: Single, cant_sine: Single, cant_cosine: Single) -> (r: VlmSurface)
    ensures
        r.wf(),
        r.is_fin(side, cant_sine, cant_cosine),
{
    let mut ys: Vec<Single> = Vec::new();
    let mut i: usize = 0;
    while i < TAIL_STATIONS
        invariant
            i <= TAIL_STATIONS,
            ys@ =~= Seq::new(i as nat, |k: int| fin_station_of(k as u64, side, cant_sine)),
        decreases TAIL_STATIONS - i,
    {
        ys.push(fin_station(i as u64, side, cant_sine));
        i += 1;
    }
    let mut s: VlmSurface = VlmSurface::new(
        ys.as_slice(),
        sgl(D0_8),
        sgl(D0_4),
        Vector { x: sgl(M2_05), y: sgl(D0_65), z: side.times(sgl(D0_55)) },
    );
    let normal: Vector = Vector { x: sgl(D0), y: cant_cosine, z: side.times(cant_sine) };
    let mut tilted: Vec<Vector> = Vec::new();
    let mut k: usize = 0;
    while k < s.n_panels
        invariant
            k <= s.n_panels,
            tilted@.len() == k,
            forall|m: int| 0 <= m < k ==> #[trigger] tilted@[m] == normal,
        decreases s.n_panels - k,
    {
        tilted.push(normal);
        k += 1;
    }
    s.normals = tilted;
    s
}

/// A pressure coefficient keeps within its limits, but for NaN.
pub proof fn pressures_are_limited(speed: Single, induced: Vector)
    ensures
        ({
            let cp = pressure_of(speed, induced);
            cp.wide.nan() || (sgl(M3).not_above(cp) && cp.not_above(sgl(D2)))
        }),
{
    crate::single::limits_are_ordered();
}

/// A tapered surface gets narrower towards its tip: the chord starts at that of
/// the root, and none further out is longer.
pub proof fn chords_taper(root: Single, tip: Single, near: Single, far: Single)
    requires
        root.held() && tip.held() && near.held() && far.held(),
        tip.not_above(root),
        sgl(D0).not_above(near) && near.not_above(far),
        tip.difference(root).wide.finite(),
        tip.difference(root).product(near).wide.finite(),
        tip.difference(root).product(far).wide.finite(),
    ensures
        chord_of(root, tip, far).not_above(chord_of(root, tip, near)),
        chord_of(root, tip, near).not_above(root),
        near.wide.zero() ==> chord_of(root, tip, near).same(root),
{
    let d = tip.difference(root);
    crate::single::zero_is_held();
    crate::single::differences_tell_the_order(tip, root);
    crate::single::products_follow_their_factors(near, d, d);
    crate::rounding::products_keep_order(d.wide, near.wide, far.wide);
    crate::single::narrowing_keeps_order(d.wide.product(far.wide), d.wide.product(near.wide));
    crate::single::sums_follow_their_terms(root, root, d.product(far), d.product(near));
    crate::single::terms_shift_their_way(root, d.product(near));
}

/// Stations further out have a larger share of the span.
pub proof fn shares_grow_along_the_span(y: Single, further: Single, first: Single, last: Single)
    requires
        y.held() && further.held() && first.held() && last.held(),
        y.not_above(further),
        y.difference(first).wide.finite() && further.difference(first).wide.finite(),
        last.difference(first).wide.finite(),
    ensures
        share_of(y, first, last).not_above(share_of(further, first, last)),
        y == first ==> share_of(y, first, last).wide.zero(),
{
    reveal(crate::binary64::Binary64::narrowed);
    crate::single::zero_is_held();
    crate::single::limits_are_ordered();
    let d = last.difference(first).absolute().larger(sgl(D1EM3));
    crate::single::sums_follow_their_terms(y, further, first, first);
    crate::single::differences_tell_the_order(y, first);
    let (p, q) = (y.difference(first), further.difference(first));
    crate::single::quotients_follow_their_dividends(p, q, d);
    crate::single::quotients_follow_their_dividends(q, q, d);
}

/// A surface that is raised against the wind has to turn it down: the flow to
/// cancel is against that through the panel.
pub proof fn panels_cancel_what_passes(
    normal: Vector,
    speed: Single,
    cosine: Single,
    sine: Single,
)
    requires
        crate::single::is_held(normal),
        speed.held() && cosine.held() && sine.held(),
        speed.product(cosine).held() && speed.product(sine).held(),
    ensures
        normal.x.wide.zero() && normal.z.wide.zero() ==> crate::single::like_product(
            through_of(normal, speed, cosine, sine),
            speed.product(sine).negated(),
            normal.y,
        ),
        normal.y.wide.zero() && normal.z.wide.zero() ==> crate::single::like_product(
            through_of(normal, speed, cosine, sine),
            speed.product(cosine).negated(),
            normal.x,
        ),
{
    crate::single::zero_is_held();
    crate::single::axes_pick_their_parts(
        Vector { x: speed.product(cosine), y: speed.product(sine), z: sgl(D0) },
        normal,
    );
}

/// Faster flow has less pressure: what is induced along the stream lowers the
/// pressure coefficient.
pub proof fn faster_flow_has_less_pressure(speed: Single, slow: Vector, fast: Vector)
    requires
        speed.held() && crate::single::is_held(slow) && crate::single::is_held(fast),
        slow.x.not_above(fast.x) && slow.y == fast.y && slow.z == fast.z,
        ({
            let v = (Vector { x: speed, y: sgl(D0), z: sgl(D0) }).sum(slow);
            let w = (Vector { x: speed, y: sgl(D0), z: sgl(D0) }).sum(fast);
            &&& sgl(D0).not_above(v.x)
            &&& v.x.wide.finite() && v.y.wide.finite() && v.z.wide.finite() && w.x.wide.finite()
            &&& v.x.product(v.x).wide.finite() && w.x.product(w.x).wide.finite()
            &&& v.y.product(v.y).wide.finite() && v.z.product(v.z).wide.finite()
            &&& v.x.product(v.x).sum(v.y.product(v.y)).wide.finite()
            &&& w.x.product(w.x).sum(w.y.product(w.y)).wide.finite()
            &&& v.inner(v).wide.finite() && w.inner(w).wide.finite()
            &&& speed.product(speed).larger(sgl(D1EM6)).wide.finite()
            &&& v.inner(v).quotient(speed.product(speed).larger(sgl(D1EM6))).wide.finite()
            &&& w.inner(w).quotient(speed.product(speed).larger(sgl(D1EM6))).wide.finite()
        }),
    ensures
        pressure_of(speed, fast).not_above(pressure_of(speed, slow)),
{
    reveal(crate::binary64::Binary64::narrowed);
    crate::single::zero_is_held();
    crate::single::limits_are_ordered();
    let still = Vector { x: speed, y: sgl(D0), z: sgl(D0) };
    let (v, w) = (still.sum(slow), still.sum(fast));
    crate::single::sums_follow_their_terms(speed, speed, slow.x, fast.x);
    crate::single::products_follow_their_factors(v.x, v.x, w.x);
    crate::single::products_follow_their_factors(w.x, v.x, w.x);
    let (a, b) = (v.x.product(v.x), w.x.product(w.x));
    let (c, d) = (v.y.product(v.y), v.z.product(v.z));
    crate::single::sums_follow_their_terms(a, b, c, c);
    crate::single::sums_follow_their_terms(a.sum(c), b.sum(c), d, d);
    let k = speed.product(speed).larger(sgl(D1EM6));
    crate::single::quotients_follow_their_dividends(v.inner(v), w.inner(w), k);
    let (p, q) = (v.inner(v).quotient(k), w.inner(w).quotient(k));
    crate::single::sums_follow_their_terms(sgl(D1), sgl(D1), q, p);
    crate::single::sums_follow_their_terms(sgl(D1), sgl(D1), p, p);
}

/// A trailing vortex turns by the change of the circulation along the span, and
/// trails downstream.
pub proof fn trails_turn_by_the_change(s: VlmSurface, j: int)
    requires
        s.wf(),
        0 < j < s.n_panels,
        s.gamma@[j - 1].wide.finite() && s.gamma@[j + 1].wide.finite(),
        s.gamma@[j + 1].difference(s.gamma@[j - 1]).wide.finite(),
    ensures
        s.gamma@[j - 1].not_above(s.gamma@[j + 1]) ==> sgl(D0).not_above(s.trail(j)),
        s.gamma@[j + 1].not_above(s.gamma@[j - 1]) ==> s.trail(j).not_above(sgl(D0)),
{
    reveal(crate::binary64::Binary64::narrowed);
    let (a, b) = (s.gamma@[j - 1], s.gamma@[j + 1]);
    crate::single::differences_tell_the_order(b, a);
    crate::single::products_follow_their_factors(sgl(D0_5), b.difference(a), b.difference(a));
}

/// Control points lie behind their vortices, both behind the leading edge.
pub proof fn control_points_lie_behind(
    s: VlmSurface,
    ys: Seq<Single>,
    root: Single,
    tip: Single,
    offset: Vector,
    i: int,
)
    requires
        s.wf(),
        s.laid_out(ys, root, tip, offset),
        0 <= i < ys.len(),
        offset.x.held(),
        s.chord@[i].held() && sgl(D0).not_above(s.chord@[i]),
    ensures
        s.tc_x@[i].not_above(s.qc_x@[i]),
        s.qc_x@[i].not_above(offset.x),
{
    reveal(crate::binary64::Binary64::narrowed);
    let c = s.chord@[i];
    let (p, q) = (c.product(sgl(D0_25)), c.product(sgl(D0_75)));
    crate::single::products_follow_their_factors(c, sgl(D0_25), sgl(D0_75));
    crate::single::products_follow_their_factors(c, sgl(D0_75), sgl(D0_75));
    crate::rounding::fractions_shrink(c.wide, crate::literal::num(D0_25));
    crate::rounding::fractions_shrink(c.wide, crate::literal::num(D0_75));
    crate::single::narrowing_keeps_order(
        c.wide.product(crate::literal::num(D0_25)),
        c.wide,
    );
    crate::single::narrowing_keeps_order(
        c.wide.product(crate::literal::num(D0_75)),
        c.wide,
    );
    crate::single::zero_is_held();
    crate::single::terms_shift_their_way(offset.x, p);
    crate::single::sums_follow_their_terms(offset.x, offset.x, q, p);
    assert(s.qc_x@[i] == offset.x.difference(s.chord@[i].product(sgl(D0_25))));
    assert(s.tc_x@[i] == offset.x.difference(s.chord@[i].product(sgl(D0_75))));
}

/// Whether the numbers that a station is made of are finite.
pub open spec fn is_station(i: u64) -> bool {
    let t = Single::integer(i as nat).quotient(sgl(D13));
    &&& Single::integer(i as nat).wide.finite()
    &&& t.wide.finite() && t.product(sgl(D2)).wide.finite()
    &&& t.product(sgl(D2)).product(sgl(D5_5)).wide.finite()
}

/// Stations of the wing lie from left to right.
pub proof fn wing_stations_lie_in_order(i: u64, j: u64)
    requires
        i <= j,
        is_station(i) && is_station(j),
    ensures
        wing_station_of(i).not_above(wing_station_of(j)),
{
    reveal(crate::binary64::Binary64::narrowed);
    let (a, b) = (Single::integer(i as nat), Single::integer(j as nat));
    crate::rounding::counts_keep_order(i as nat, j as nat);
    crate::single::narrowing_keeps_order(
        crate::binary64::Binary64::integer(i as nat),
        crate::binary64::Binary64::integer(j as nat),
    );
    crate::single::quotients_follow_their_dividends(a, b, sgl(D13));
    let (s, t) = (a.quotient(sgl(D13)), b.quotient(sgl(D13)));
    crate::single::products_follow_their_factors(sgl(D2), s, t);
    crate::single::products_follow_their_factors(
        sgl(D5_5),
        s.product(sgl(D2)),
        t.product(sgl(D2)),
    );
    crate::single::sums_follow_their_terms(
        sgl(M5_5),
        sgl(M5_5),
        s.product(sgl(D2)).product(sgl(D5_5)),
        t.product(sgl(D2)).product(sgl(D5_5)),
    );
}

} // verus!
