//! Vortices: the velocity that they induce, and those that a body sheds.
use crate::literal::{
    D0, D0_1, D0_15, D0_2, D0_35, D0_4, D0_45, D0_5, D0_6, D0_7, D0_9, D1, D1000, D1EM12, D1EM4, D1EM6,
    D2, D2_5, D3, D300, D3_141592653589793, D4, D40, M1, M2_25, M2_8,
};
use crate::single::{sgl, Single, Vector};
use vstd::prelude::*;

verus! {

/// A straight vortex from `a` to `b`.
#[derive(Clone, Copy, Debug, PartialEq, Eq, Structural)]
pub struct VortexSegment {
    pub a: Vector,
    pub b: Vector,
    pub gamma: Single,
}

/// The square of the radius of the core of a vortex.
pub open spec fn core_area() -> Single {
    sgl(D0_15).product(sgl(D0_15))
}

/// The square of the radius of the core of a vortex.
pub fn core_squared() -> (r: Single)
    ensures
        r == core_area(),
{
    sgl(D0_15).times(sgl(D0_15))
}

/// The length of the wake.
pub open spec fn wake_len() -> Single {
    sgl(D40)
}

/// The length of the wake (m).
pub fn wake_length() -> (r: Single)
    ensures
        r == wake_len(),
{
    sgl(D40)
}

/// The velocity that a segment induces at a point; none close to its ends.
pub open spec fn segment_flow(p: Vector, seg: VortexSegment) -> Vector {
    let r1 = p.difference(seg.a);
    let r2 = p.difference(seg.b);
    let r1_len = r1.length();
    let r2_len = r2.length();
    let dl = seg.b.difference(seg.a);
    let dl_len = dl.length();
    let dl_hat = dl.divided(dl_len);
    let side = dl_hat.outer(r1);
    let h2 = side.inner(side).sum(core_area());
    if r1_len.below(sgl(D1EM6)) || r2_len.below(sgl(D1EM6)) || dl_len.below(sgl(D1EM6))
        || h2.below(sgl(D1EM12)) {
        Vector::zero()
    } else {
        let cos1 = dl_hat.inner(r1).quotient(r1_len);
        let cos2 = dl_hat.inner(r2).quotient(r2_len);
        let coeff = seg.gamma.quotient(sgl(D4).product(sgl(D3_141592653589793)));
        side.scaled(coeff).divided(h2).scaled(cos1.difference(cos2))
    }
}

/// The velocity that a segment induces at a point; none close to its ends.
pub fn biot_savart_seg(p: Vector, seg: VortexSegment) -> (r: Vector)
    ensures
        r == segment_flow(p, seg),
{
    let r1: Vector = p.minus(seg.a);
    let r2: Vector = p.minus(seg.b);
    let r1_len: Single = r1.norm();
    let r2_len: Single = r2.norm();
    let dl: Vector = seg.b.minus(seg.a);
    let dl_len: Single = dl.norm();
    let dl_hat: Vector = dl.over(dl_len);
    let side: Vector = dl_hat.cross(r1);
    let h2: Single = side.dot(side).plus(core_squared());
    if r1_len.lt(sgl(D1EM6)) || r2_len.lt(sgl(D1EM6)) || dl_len.lt(sgl(D1EM6))
        || h2.lt(sgl(D1EM12)) {
        Vector::zeros()
    } else {
        let cos1: Single = dl_hat.dot(r1).over(r1_len);
        let cos2: Single = dl_hat.dot(r2).over(r2_len);
        let coeff: Single = seg.gamma.over(sgl(D4).times(sgl(D3_141592653589793)));
        side.times(coeff).over(h2).times(cos1.minus(cos2))
    }
}

/// The velocity that a vortex from a point to infinity induces; none close to its end.
pub open spec fn ray_flow(p: Vector, a: Vector, dir: Vector, gamma: Single) -> Vector {
    let r = p.difference(a);
    let r_len = r.length();
    let side = dir.outer(r);
    let h2 = side.inner(side).sum(core_area());
    if r_len.below(sgl(D1EM6)) || h2.below(sgl(D1EM12)) {
        Vector::zero()
    } else {
        let along = dir.inner(r).quotient(r_len);
        let coeff = gamma.quotient(sgl(D4).product(sgl(D3_141592653589793)));
        side.scaled(coeff).divided(h2).scaled(sgl(D1).sum(along))
    }
}

/// The velocity that a vortex from a point to infinity induces; none close to
/// its end.
pub fn biot_savart_semi(p: Vector, a: Vector, dir: Vector, gamma: Single) -> (r: Vector)
    ensures
        r == ray_flow(p, a, dir, gamma),
{
    let r: Vector = p.minus(a);
    let r_len: Single = r.norm();
    let side: Vector = dir.cross(r);
    let h2: Single = side.dot(side).plus(core_squared());
    if r_len.lt(sgl(D1EM6)) || h2.lt(sgl(D1EM12)) {
        Vector::zeros()
    } else {
        let along: Single = dir.dot(r).over(r_len);
        let coeff: Single = gamma.over(sgl(D4).times(sgl(D3_141592653589793)));
        side.times(coeff).over(h2).times(sgl(D1).plus(along))
    }
}

/// The velocity at a point with that of one more filament, limited to 300 m/s.
pub open spec fn flow_with(v: Vector, p: Vector, seg: VortexSegment) -> Vector {
    let dl = seg.b.difference(seg.a);
    let more = if wake_len().product(sgl(D0_9)).below(dl.length()) {
        ray_flow(p, seg.a, dl.direction(), seg.gamma)
    } else {
        segment_flow(p, seg)
    };
    let w = v.sum(more);
    if sgl(D300).below(w.length()) {
        w.direction().scaled(sgl(D300))
    } else {
        w
    }
}

/// The velocity at a point with that of one more filament, limited to 300 m/s.
/// A filament as long as the wake reaches to infinity.
pub fn with_filament(v: Vector, p: Vector, seg: VortexSegment) -> (r: Vector)
    ensures
        r == flow_with(v, p, seg),
{
    let dl: Vector = seg.b.minus(seg.a);
    let more: Vector = if dl.norm().gt(wake_length().times(sgl(D0_9))) {
        biot_savart_semi(p, seg.a, dl.normalize(), seg.gamma)
    } else {
        biot_savart_seg(p, seg)
    };
    let w: Vector = v.plus(more);
    if w.norm().gt(sgl(D300)) {
        w.normalize().times(sgl(D300))
    } else {
        w
    }
}

/// The velocity that the first `n` filaments induce at a point.
pub open spec fn induced_by(p: Vector, filaments: Seq<VortexSegment>, n: nat) -> Vector
    decreases n,
{
    if n == 0 {
        Vector::zero()
    } else {
        flow_with(induced_by(p, filaments, (n - 1) as nat), p, filaments[n - 1])
    }
}

/// The velocity that filaments induce at a point.
#[verifier::spinoff_prover]
#[verifier::rlimit(40)]
pub fn filaments_induced(p: Vector, filaments: &[VortexSegment]) -> (r: Vector)
    ensures
        r == induced_by(p, filaments@, filaments@.len()),
{
    let mut v: Vector = Vector::zeros();
    let mut i: usize = 0;
    while i < filaments.len()
        invariant
            i <= filaments@.len(),
            v == induced_by(p, filaments@, i as nat),
        decreases filaments@.len() - i,
    {
        v = with_filament(v, p, filaments[i]);
        i += 1;
    }
    v
}

/// A vortex that was shed.
#[derive(Clone, Copy, Debug, PartialEq, Eq, Structural)]
pub struct ShedVortex {
    pub pos: Vector,
    pub gamma: Single,
    pub age: Single,
    pub lifespan: Single,
}

/// A line turned by a right angle about the stream: without its part along the
/// stream, and at right angles to itself.
pub open spec fn across(r: Vector) -> Vector {
    Vector { x: sgl(D0), y: r.z.negated(), z: r.y }
}

/// The velocity at a point with that of one more shed vortex, which fades with its age.
pub open spec fn shed_flow_with(v: Vector, p: Vector, sv: ShedVortex) -> Vector {
    let age = sv.age.quotient(sv.lifespan).clamped(sgl(D0), sgl(D1));
    let strength = sv.gamma.product(sgl(D1).difference(age.product(sgl(D0_4))));
    let r = p.difference(sv.pos);
    let r2 = r.inner(r).sum(core_area());
    if r2.below(sgl(D1EM4)) {
        v
    } else {
        v.sum(
            across(r).scaled(
                strength.quotient(sgl(D2).product(sgl(D3_141592653589793)).product(r2)),
            ),
        )
    }
}

/// The velocity at a point with that of one more shed vortex, which fades with
/// its age.
pub fn with_shed(v: Vector, p: Vector, sv: ShedVortex) -> (r: Vector)
    ensures
        r == shed_flow_with(v, p, sv),
{
    proof {
        crate::single::limits_are_ordered();
    }
    let age: Single = sv.age.over(sv.lifespan).clamp(sgl(D0), sgl(D1));
    let strength: Single = sv.gamma.times(sgl(D1).minus(age.times(sgl(D0_4))));
    let r: Vector = p.minus(sv.pos);
    let r2: Single = r.dot(r).plus(core_squared());
    let turned: Vector = Vector { x: sgl(D0), y: r.z.neg(), z: r.y };
    if r2.lt(sgl(D1EM4)) {
        v
    } else {
        v.plus(turned.times(strength.over(sgl(D2).times(sgl(D3_141592653589793)).times(r2))))
    }
}

/// The velocity that the first `n` shed vortices induce at a point.
pub open spec fn shed_by(p: Vector, shed: Seq<ShedVortex>, n: nat) -> Vector
    decreases n,
{
    if n == 0 {
        Vector::zero()
    } else {
        shed_flow_with(shed_by(p, shed, (n - 1) as nat), p, shed[n - 1])
    }
}

/// The velocity that shed vortices induce at a point.
#[verifier::spinoff_prover]
#[verifier::rlimit(40)]
pub fn shed_induced(p: Vector, shed: &[ShedVortex]) -> (r: Vector)
    ensures
        r == shed_by(p, shed@, shed@.len()),
{
    let mut v: Vector = Vector::zeros();
    let mut i: usize = 0;
    while i < shed.len()
        invariant
            i <= shed@.len(),
            v == shed_by(p, shed@, i as nat),
        decreases shed@.len() - i,
    {
        v = with_shed(v, p, shed[i]);
        i += 1;
    }
    v
}

/// The most vortices that are followed.
pub const MAX_SHED: usize = 40;

/// The shedding of vortices, from alternating sides.
#[derive(Clone, Debug)]
pub struct Shedding {
    pub vortices: Vec<ShedVortex>,
    /// Seconds since the last.
    pub timer: Single,
    /// Vortices shed so far.
    pub phase: Single,
}

/// The seconds between two vortices.
pub open spec fn period_at(wind_speed: Single) -> Single {
    sgl(D1).quotient(sgl(D0_2).product(wind_speed).quotient(sgl(D0_9)).larger(sgl(D0_1)))
}

/// The seconds between two vortices.
pub fn shedding_period(wind_speed: Single) -> (r: Single)
    ensures
        r == period_at(wind_speed),
{
    sgl(D1).over(sgl(D0_2).times(wind_speed).over(sgl(D0_9)).max(sgl(D0_1)))
}

/// The side from which a vortex is shed.
pub open spec fn shed_side(phase: Single) -> Single {
    if phase.product(sgl(D0_5)).floored().product(sgl(D2)).same(phase) {
        sgl(D1)
    } else {
        sgl(M1)
    }
}

/// The side from which a vortex is shed: one for even numbers, the other for
/// odd ones.
pub fn side_of(phase: Single) -> (r: Single)
    ensures
        r == shed_side(phase),
{
    if phase.times(sgl(D0_5)).floor().times(sgl(D2)).is(phase) {
        sgl(D1)
    } else {
        sgl(M1)
    }
}

/// The vortex that the fuselage sheds.
pub open spec fn from_fuselage(side: Single, wind_speed: Single) -> ShedVortex {
    ShedVortex {
        pos: Vector { x: sgl(M2_8), y: side.product(sgl(D0_45)), z: sgl(D0) },
        gamma: side.product(wind_speed).product(sgl(D0_4)),
        age: sgl(D0),
        lifespan: sgl(D3),
    }
}

/// The vortex that the fuselage sheds.
pub fn fuselage_vortex(side: Single, wind_speed: Single) -> (r: ShedVortex)
    ensures
        r == from_fuselage(side, wind_speed),
{
    ShedVortex {
        pos: Vector { x: sgl(M2_8), y: side.times(sgl(D0_45)), z: sgl(D0) },
        gamma: side.times(wind_speed).times(sgl(D0_4)),
        age: sgl(D0),
        lifespan: sgl(D3),
    }
}

/// The vortex that the nacelle sheds.
pub open spec fn from_nacelle(side: Single, wind_speed: Single) -> ShedVortex {
    ShedVortex {
        pos: Vector { x: sgl(M2_25), y: side.product(sgl(D0_35)), z: sgl(D0) },
        gamma: side.product(wind_speed).product(sgl(D0_4)).product(sgl(D0_6)),
        age: sgl(D0),
        lifespan: sgl(D2_5),
    }
}

/// The vortex that the nacelle sheds.
pub fn nacelle_vortex(side: Single, wind_speed: Single) -> (r: ShedVortex)
    ensures
        r == from_nacelle(side, wind_speed),
{
    ShedVortex {
        pos: Vector { x: sgl(M2_25), y: side.times(sgl(D0_35)), z: sgl(D0) },
        gamma: side.times(wind_speed).times(sgl(D0_4)).times(sgl(D0_6)),
        age: sgl(D0),
        lifespan: sgl(D2_5),
    }
}

/// A vortex after some time, carried downstream.
pub open spec fn drift_of(v: ShedVortex, wind_speed: Single, dt: Single) -> ShedVortex {
    ShedVortex {
        pos: Vector {
            x: v.pos.x.difference(wind_speed.product(dt).product(sgl(D0_7))),
            y: v.pos.y,
            z: v.pos.z,
        },
        age: v.age.sum(dt),
        ..v
    }
}

/// A vortex after some time, carried downstream.
pub fn drifted(v: ShedVortex, wind_speed: Single, dt: Single) -> (r: ShedVortex)
    ensures
        r == drift_of(v, wind_speed, dt),
{
    ShedVortex {
        pos: Vector {
            x: v.pos.x.minus(wind_speed.times(dt).times(sgl(D0_7))),
            y: v.pos.y,
            z: v.pos.z,
        },
        age: v.age.plus(dt),
        ..v
    }
}

/// The vortices that are left after some time, in order.
pub open spec fn survivors(shed: Seq<ShedVortex>, wind_speed: Single, dt: Single) -> Seq<ShedVortex>
    decreases shed.len(),
{
    if shed.len() == 0 {
        Seq::empty()
    } else {
        let before = survivors(shed.drop_last(), wind_speed, dt);
        let v = drift_of(shed.last(), wind_speed, dt);
        if v.age.below(v.lifespan) {
            before.push(v)
        } else {
            before
        }
    }
}

/// The youngest vortices, as many as are followed.
pub open spec fn youngest(shed: Seq<ShedVortex>) -> Seq<ShedVortex> {
    if shed.len() > MAX_SHED {
        shed.skip(shed.len() - MAX_SHED)
    } else {
        shed
    }
}

impl Shedding {
    /// Whether a vortex is due after `dt`.
    pub open spec fn due(self, wind_speed: Single, dt: Single) -> bool {
        period_at(wind_speed).not_above(self.timer.sum(dt))
    }

    /// The vortices before they drift: with two new ones where one is due.
    pub open spec fn with_new(self, wind_speed: Single, dt: Single) -> Seq<ShedVortex> {
        if self.due(wind_speed, dt) {
            let side = shed_side(self.phase.sum(sgl(D1)));
            self.vortices@.push(from_fuselage(side, wind_speed)).push(
                from_nacelle(side, wind_speed),
            )
        } else {
            self.vortices@
        }
    }

    /// Whether this is `before` after vortices were shed, carried and
    /// forgotten over `dt`; nothing happens without wind.
    pub open spec fn updated(self, before: Shedding, wind_speed: Single, dt: Single) -> bool {
        if wind_speed.below(sgl(D1)) {
            &&& self.vortices@ == before.vortices@
            &&& self.timer == before.timer
            &&& self.phase == before.phase
        } else {
            &&& self.vortices@ == youngest(
                survivors(before.with_new(wind_speed, dt), wind_speed, dt),
            )
            &&& self.timer == if before.due(wind_speed, dt) {
                before.timer.sum(dt).difference(period_at(wind_speed))
            } else {
                before.timer.sum(dt)
            }
            &&& self.phase == if before.due(wind_speed, dt) {
                before.phase.sum(sgl(D1))
            } else {
                before.phase
            }
        }
    }

    /// Sheds, carries and forgets vortices over `dt`; nothing happens without
    /// wind.
    pub fn update(&mut self, wind_speed: Single, dt: Single)
        ensures
            final(self).updated(*old(self), wind_speed, dt),
    {
        if wind_speed.lt(sgl(D1)) {
            return;
        }
        self.timer = self.timer.plus(dt);
        let period: Single = shedding_period(wind_speed);
        if self.timer.ge(period) {
            self.timer = self.timer.minus(period);
            self.phase = self.phase.plus(sgl(D1));
            let side: Single = side_of(self.phase);
            self.vortices.push(fuselage_vortex(side, wind_speed));
            self.vortices.push(nacelle_vortex(side, wind_speed));
        }
        let left: Vec<ShedVortex> = surviving(&self.vortices, wind_speed, dt);
        let start: usize = if left.len() > MAX_SHED {
            left.len() - MAX_SHED
        } else {
            0
        };
        let mut kept: Vec<ShedVortex> = Vec::new();
        let mut i: usize = start;
        while i < left.len()
            invariant
                start <= i <= left@.len(),
                kept@ =~= left@.subrange(start as int, i as int),
            decreases left@.len() - i,
        {
            kept.push(left[i]);
            i += 1;
        }
        proof {
            assert(kept@ =~= youngest(left@));
        }
        self.vortices = kept;
    }
}

fn surviving(shed: &Vec<ShedVortex>, wind_speed: Single, dt: Single) -> (r: Vec<ShedVortex>)
    ensures
        r@ == survivors(shed@, wind_speed, dt),
{
    let mut r: Vec<ShedVortex> = Vec::new();
    let mut i: usize = 0;
    while i < shed.len()
        invariant
            i <= shed@.len(),
            r@ == survivors(shed@.take(i as int), wind_speed, dt),
        decreases shed@.len() - i,
    {
        proof {
            assert(shed@.take(i + 1).drop_last() =~= shed@.take(i as int));
        }
        let v: ShedVortex = drifted(shed[i], wind_speed, dt);
        if v.age.lt(v.lifespan) {
            r.push(v);
        }
        i += 1;
    }
    proof {
        assert(shed@.take(i as int) =~= shed@);
    }
    r
}

/// Only vortices within their lifespan are left, never more than are followed.
pub proof fn followed_vortices_are_alive(shed: Seq<ShedVortex>, wind_speed: Single, dt: Single)
    ensures
        youngest(survivors(shed, wind_speed, dt)).len() <= MAX_SHED,
        forall|i: int|
            0 <= i < survivors(shed, wind_speed, dt).len() ==> (#[trigger] survivors(
                shed,
                wind_speed,
                dt,
            )[i]).age.below(survivors(shed, wind_speed, dt)[i].lifespan),
    decreases shed.len(),
{
    if shed.len() > 0 {
        followed_vortices_are_alive(shed.drop_last(), wind_speed, dt);
    }
}

/// Faster wind sheds vortices faster: the time between two does not grow.
pub proof fn faster_wind_sheds_faster(slow: Single, fast: Single)
    requires
        slow.wide.finite() && fast.wide.finite(),
        slow.not_above(fast),
        sgl(D0_2).product(fast).wide.finite() && sgl(D0_2).product(slow).wide.finite(),
    ensures
        sgl(D0).not_above(period_at(fast)),
        period_at(fast).not_above(period_at(slow)),
{
    reveal(crate::binary64::Binary64::narrowed);
    let k = sgl(D0_2);
    crate::single::products_follow_their_factors(k, slow, fast);
    crate::single::quotients_follow_their_dividends(
        k.product(slow),
        k.product(fast),
        sgl(D0_9),
    );
    crate::single::quotients_follow_their_dividends(k.product(fast), k.product(fast), sgl(D0_9));
    let (d, e) = (
        k.product(slow).quotient(sgl(D0_9)).larger(sgl(D0_1)),
        k.product(fast).quotient(sgl(D0_9)).larger(sgl(D0_1)),
    );
    crate::rounding::reciprocals_keep_order(d.wide, e.wide);
    crate::single::zero_is_held();
    crate::single::narrowing_keeps_order(
        crate::literal::num(D1).quotient(e.wide),
        crate::literal::num(D1).quotient(d.wide),
    );
    crate::single::narrowing_keeps_order(
        crate::literal::num(D0),
        crate::literal::num(D1).quotient(e.wide),
    );
}

/// A vortex is shed on its side and turns the way of its side.
pub proof fn vortices_turn_by_their_side(side: Single, wind_speed: Single)
    requires
        side.held() && wind_speed.held(),
        side.product(wind_speed).wide.finite(),
        side.product(wind_speed).product(sgl(D0_4)).wide.finite(),
    ensures
        crate::single::like_product(from_fuselage(side, wind_speed).pos.y, side, sgl(D1)),
        crate::single::like_product(from_nacelle(side, wind_speed).pos.y, side, sgl(D1)),
        crate::single::like_product(from_fuselage(side, wind_speed).gamma, side, wind_speed),
        crate::single::like_product(from_nacelle(side, wind_speed).gamma, side, wind_speed),
        from_fuselage(side, wind_speed).age == sgl(D0),
        from_nacelle(side, wind_speed).age == sgl(D0),
{
    reveal(crate::binary64::Binary64::narrowed);
    crate::single::products_follow_their_factors(side, sgl(D0_45), sgl(D0_45));
    crate::single::products_follow_their_factors(side, sgl(D0_35), sgl(D0_35));
    crate::single::products_follow_their_factors(side, wind_speed, wind_speed);
    let g = side.product(wind_speed);
    crate::single::products_follow_their_factors(g, sgl(D0_4), sgl(D0_4));
    crate::single::products_follow_their_factors(g.product(sgl(D0_4)), sgl(D0_6), sgl(D0_6));
}

/// Vortices are carried downstream, which is against the first axis, and grow
/// older.
pub proof fn vortices_drift_downstream(v: ShedVortex, wind_speed: Single, dt: Single)
    requires
        v.pos.x.held() && v.age.held() && wind_speed.held() && dt.held(),
        sgl(D0).not_above(wind_speed) && sgl(D0).not_above(dt),
        wind_speed.product(dt).wide.finite(),
    ensures
        drift_of(v, wind_speed, dt).pos.x.not_above(v.pos.x),
        v.age.not_above(drift_of(v, wind_speed, dt).age),
        drift_of(v, wind_speed, dt).pos.y == v.pos.y,
        drift_of(v, wind_speed, dt).pos.z == v.pos.z,
        drift_of(v, wind_speed, dt).gamma == v.gamma,
        drift_of(v, wind_speed, dt).lifespan == v.lifespan,
{
    reveal(crate::binary64::Binary64::narrowed);
    crate::single::products_follow_their_factors(wind_speed, dt, dt);
    crate::single::products_follow_their_factors(wind_speed.product(dt), sgl(D0_7), sgl(D0_7));
    crate::single::terms_shift_their_way(
        v.pos.x,
        wind_speed.product(dt).product(sgl(D0_7)),
    );
    crate::single::terms_shift_their_way(v.age, dt);
}

/// What turns about the stream goes from the second axis to the third.
pub proof fn turns_go_from_up_to_right(r: Vector)
    requires
        crate::single::is_held(r),
    ensures
        across(r).x.wide.zero(),
        across(r).z == r.y,
        across(r).y.wide.negative() != r.z.wide.negative(),
        r.z.wide.zero() ==> across(r).y.wide.zero(),
{
    crate::single::zero_is_held();
}

/// The swirl of a filament turns about it: the velocity at a point has, axis by
/// axis, the sign of the circulation and of the vector at right angles to the
/// filament and to the way to the point.
pub proof fn rays_swirl_about_themselves(p: Vector, a: Vector, dir: Vector, gamma: Single)
    requires
        ({
            let r = p.difference(a);
            let side = dir.outer(r);
            let h2 = side.inner(side).sum(core_area());
            let along = dir.inner(r).quotient(r.length());
            let coeff = gamma.quotient(sgl(D4).product(sgl(D3_141592653589793)));
            let turn = side.scaled(coeff);
            let swirl = turn.divided(h2);
            &&& crate::single::is_held(side)
            &&& gamma.wide.finite() && coeff.wide.finite()
            &&& h2.wide.finite() && sgl(D0).below(h2)
            &&& sgl(D1).sum(along).wide.finite() && sgl(D0).not_above(sgl(D1).sum(along))
            &&& turn.x.wide.finite() && turn.y.wide.finite() && turn.z.wide.finite()
            &&& swirl.x.wide.finite() && swirl.y.wide.finite() && swirl.z.wide.finite()
        }),
    ensures
        ({
            let side = dir.outer(p.difference(a));
            let v = ray_flow(p, a, dir, gamma);
            &&& crate::single::like_product(v.x, side.x, gamma)
            &&& crate::single::like_product(v.y, side.y, gamma)
            &&& crate::single::like_product(v.z, side.z, gamma)
        }),
{
    let r = p.difference(a);
    let side = dir.outer(r);
    let h2 = side.inner(side).sum(core_area());
    let along = sgl(D1).sum(dir.inner(r).quotient(r.length()));
    lemma_full_turn();
    crate::single::zero_is_held();
    let turn = sgl(D4).product(sgl(D3_141592653589793));
    crate::single::quotients_follow_their_dividends(gamma, gamma, turn);
    lemma_swirl(side.x, gamma.quotient(turn), gamma, h2, along);
    lemma_swirl(side.y, gamma.quotient(turn), gamma, h2, along);
    lemma_swirl(side.z, gamma.quotient(turn), gamma, h2, along);
}

proof fn lemma_full_turn()
    ensures
        sgl(D4).product(sgl(D3_141592653589793)).wide.finite(),
        sgl(D0).below(sgl(D4).product(sgl(D3_141592653589793))),
{
    reveal(crate::binary64::Binary64::narrowed);
    let (a, b) = (sgl(D4), sgl(D3_141592653589793));
    crate::single::zero_is_held();
    crate::rounding::moderate_products_are_finite(a.wide, b.wide);
    crate::single::products_follow_their_factors(a, sgl(D1), b);
    crate::rounding::one_is_neutral(a.wide);
    let p = a.wide.product(b.wide);
    crate::rounding::factors_keep_order(a.wide, b.wide, sgl(D4).wide);
    crate::rounding::moderate_products_are_finite(a.wide, a.wide);
    crate::rounding::moderate_products_stay_below(a.wide, b.wide);
    crate::single::narrowing_keeps_order(p, crate::literal::num(D1000));
}

proof fn lemma_swirl(side: Single, coeff: Single, gamma: Single, h2: Single, along: Single)
    requires
        side.wide.finite() && coeff.wide.finite() && gamma.wide.finite(),
        crate::single::like_product(coeff, gamma, sgl(D1)),
        h2.wide.finite() && sgl(D0).below(h2),
        along.wide.finite() && sgl(D0).not_above(along),
        side.product(coeff).wide.finite(),
        side.product(coeff).quotient(h2).wide.finite(),
    ensures
        crate::single::like_product(
            side.product(coeff).quotient(h2).product(along),
            side,
            gamma,
        ),
{
    crate::single::zero_is_held();
    crate::single::products_follow_their_factors(side, coeff, coeff);
    let p = side.product(coeff);
    crate::single::quotients_follow_their_dividends(p, p, h2);
    crate::single::products_follow_their_factors(p.quotient(h2), along, along);
}

/// A vortex that is due stays due in a longer step, and an older shedding is due
/// no later.
pub proof fn longer_steps_shed_no_later(
    a: Shedding,
    b: Shedding,
    wind_speed: Single,
    dt: Single,
    longer: Single,
)
    requires
        a.timer.wide.finite() && b.timer.wide.finite(),
        dt.wide.finite() && longer.wide.finite(),
        a.timer.not_above(b.timer),
        dt.not_above(longer),
    ensures
        a.due(wind_speed, dt) ==> b.due(wind_speed, longer),
        a.due(wind_speed, dt) ==> a.with_new(wind_speed, dt).len() == a.vortices@.len() + 2,
        !a.due(wind_speed, dt) ==> a.with_new(wind_speed, dt) == a.vortices@,
{
    crate::single::sums_follow_their_terms(a.timer, b.timer, dt, longer);
}

} // verus!
