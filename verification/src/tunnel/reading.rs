//! What is measured in the wind tunnel.
use crate::aero::Load;
use crate::binary64::Binary64;
use crate::literal::{num, D0, D0_5, D1, D1_225, D3, M3};
use crate::shape::{ImportedAero, WindLoad};
use crate::single::{Single, Vector};
use crate::state::{AircraftState, BodyAxes};
use crate::tunnel::grid::Axes;
use crate::vector::Vec3;
use vstd::prelude::*;

verus! {

/// Sines and cosines of half the angles of an attitude.
#[derive(Clone, Copy, Debug, PartialEq, Eq, Structural)]
pub struct HalfAngles {
    pub sin_roll: Binary64,
    pub cos_roll: Binary64,
    pub sin_pitch: Binary64,
    pub cos_pitch: Binary64,
    pub sin_yaw: Binary64,
    pub cos_yaw: Binary64,
}

/// A quaternion.
#[derive(Clone, Copy, Debug, PartialEq, Eq, Structural)]
pub struct Quaternion {
    pub w: Binary64,
    pub x: Binary64,
    pub y: Binary64,
    pub z: Binary64,
}

/// The quaternion of an attitude.
pub open spec fn quaternion_of(h: HalfAngles) -> Quaternion {
    Quaternion {
        w: h.cos_roll.product(h.cos_pitch).product(h.cos_yaw).sum(
            h.sin_roll.product(h.sin_pitch).product(h.sin_yaw),
        ),
        x: h.sin_roll.product(h.cos_pitch).product(h.cos_yaw).difference(
            h.cos_roll.product(h.sin_pitch).product(h.sin_yaw),
        ),
        y: h.cos_roll.product(h.sin_pitch).product(h.cos_yaw).sum(
            h.sin_roll.product(h.cos_pitch).product(h.sin_yaw),
        ),
        z: h.cos_roll.product(h.cos_pitch).product(h.sin_yaw).difference(
            h.sin_roll.product(h.sin_pitch).product(h.cos_yaw),
        ),
    }
}

/// The quaternion of an attitude.
pub fn euler_to_quat(h: HalfAngles) -> (r: Quaternion)
    ensures
        r == quaternion_of(h),
{
    Quaternion {
        w: h.cos_roll.times(h.cos_pitch).times(h.cos_yaw).plus(
            h.sin_roll.times(h.sin_pitch).times(h.sin_yaw),
        ),
        x: h.sin_roll.times(h.cos_pitch).times(h.cos_yaw).minus(
            h.cos_roll.times(h.sin_pitch).times(h.sin_yaw),
        ),
        y: h.cos_roll.times(h.sin_pitch).times(h.cos_yaw).plus(
            h.sin_roll.times(h.cos_pitch).times(h.sin_yaw),
        ),
        z: h.cos_roll.times(h.cos_pitch).times(h.sin_yaw).minus(
            h.sin_roll.times(h.sin_pitch).times(h.cos_yaw),
        ),
    }
}

/// The stream in the tunnel, by sine and cosine of its heading.
pub open spec fn stream_of(sine: Binary64, cosine: Binary64, speed: Binary64) -> Vec3 {
    (Vec3 { x: cosine.negated(), y: num(D0), z: sine }).scaled(speed)
}

/// The stream in the tunnel, by sine and cosine of its heading.
pub fn flow_wind(sine: Binary64, cosine: Binary64, speed: Binary64) -> (r: Vec3)
    ensures
        r == stream_of(sine, cosine, speed),
{
    (Vec3 { x: cosine.neg(), y: num(D0), z: sine }).times(speed)
}

/// An aircraft at rest, with an attitude.
pub open spec fn turned_by(q: Quaternion) -> AircraftState {
    AircraftState {
        pos_x: num(D0),
        pos_y: num(D0),
        pos_z: num(D0),
        u: num(D0),
        v: num(D0),
        w: num(D0),
        q0: q.w,
        q1: q.x,
        q2: q.y,
        q3: q.z,
        p: num(D0),
        q: num(D0),
        r: num(D0),
    }
}

/// An aircraft at rest, with an attitude.
pub fn turned(q: Quaternion) -> (r: AircraftState)
    ensures
        r == turned_by(q),
{
    AircraftState {
        pos_x: num(D0),
        pos_y: num(D0),
        pos_z: num(D0),
        u: num(D0),
        v: num(D0),
        w: num(D0),
        q0: q.w,
        q1: q.x,
        q2: q.y,
        q3: q.z,
        p: num(D0),
        q: num(D0),
        r: num(D0),
    }
}

/// The stream in body axes.
pub open spec fn stream_along(state: AircraftState, flow: Vec3) -> Vec3 {
    state.attitude().rotated(flow)
}

/// The stream in body axes.
pub fn stream_in_body(state: &AircraftState, flow: Vec3) -> (r: Vec3)
    ensures
        r == stream_along(*state, flow),
{
    state.rotation_earth_to_body().transform_vector(flow)
}

/// The aircraft in the stream: it moves through the air as the stream moves.
pub open spec fn state_in(q: Quaternion, flow: Vec3) -> AircraftState {
    let state = turned_by(q);
    let rel = stream_along(state, flow);
    AircraftState {
        pos_x: state.pos_x,
        pos_y: state.pos_y,
        pos_z: state.pos_z,
        u: rel.x,
        v: rel.y,
        w: rel.z,
        q0: state.q0,
        q1: state.q1,
        q2: state.q2,
        q3: state.q3,
        p: state.p,
        q: state.q,
        r: state.r,
    }
}

/// The aircraft in the stream: it moves through the air as the stream moves.
pub fn attitude_state(q: Quaternion, flow: Vec3) -> (r: AircraftState)
    ensures
        r == state_in(q, flow),
{
    let state: AircraftState = turned(q);
    let rel: Vec3 = stream_in_body(&state, flow);
    AircraftState {
        pos_x: state.pos_x,
        pos_y: state.pos_y,
        pos_z: state.pos_z,
        u: rel.x,
        v: rel.y,
        w: rel.z,
        q0: state.q0,
        q1: state.q1,
        q2: state.q2,
        q3: state.q3,
        p: state.p,
        q: state.q,
        r: state.r,
    }
}

/// What is measured: the force and the moment on the aircraft, and its lift
/// coefficient.
#[derive(Clone, Copy, Debug, PartialEq, Eq, Structural)]
pub struct Reading {
    pub force: Vec3,
    pub moment: Vec3,
    pub cl: Binary64,
}

/// The lift coefficient of a force at a true airspeed.
pub open spec fn coefficient_of(forces: Vec3, tas: Binary64, wing_area: Binary64) -> Binary64 {
    forces.z.negated().quotient(
        num(D0_5).product(num(D1_225)).product(tas).product(tas).product(
            wing_area.larger(num(D1)),
        ),
    ).clamped(num(M3), num(D3))
}

/// The lift coefficient of a force at a true airspeed.
pub fn lift_coefficient(forces: Vec3, tas: Binary64, wing_area: Binary64) -> (r: Binary64)
    ensures
        r == coefficient_of(forces, tas, wing_area),
{
    forces.z.neg().over(
        num(D0_5).times(num(D1_225)).times(tas).times(tas).times(wing_area.max(num(D1))),
    ).clamp(num(M3), num(D3))
}

/// What is measured on an aircraft with a load and the pressure on its shape.
pub open spec fn reading_of(
    load: Load,
    shape: WindLoad,
    tas: Binary64,
    wing_area: Binary64,
) -> Reading {
    Reading {
        force: load.force.sum(shape.force),
        moment: load.moment.sum(shape.moment),
        cl: coefficient_of(load.force.sum(shape.force), tas, wing_area),
    }
}

/// What is measured on an aircraft with a load and the pressure on its shape.
pub fn aircraft_reading(
    load: Load,
    shape: WindLoad,
    tas: Binary64,
    wing_area: Binary64,
) -> (r: Reading)
    ensures
        r == reading_of(load, shape, tas, wing_area),
{
    Reading {
        force: load.force.plus(shape.force),
        moment: load.moment.plus(shape.moment),
        cl: lift_coefficient(load.force.plus(shape.force), tas, wing_area),
    }
}

/// What is measured on an imported shape: its load; it has no lift
/// coefficient.
pub fn shape_reading(aero: &ImportedAero) -> (r: Reading)
    ensures
        r == (Reading { force: aero.force, moment: aero.moment, cl: num(D0) }),
{
    Reading { force: aero.force, moment: aero.moment, cl: num(D0) }
}

/// A vector of the earth in the axes of the scene.
pub open spec fn scene_of(v: Vec3) -> Vector {
    Vector { x: Single::of(v.x), y: Single::of(v.z.negated()), z: Single::of(v.y) }
}

/// A vector of the earth in the axes of the scene.
pub fn in_scene(v: Vec3) -> (r: Vector)
    ensures
        r == scene_of(v),
{
    Vector {
        x: Single::from_wide(v.x),
        y: Single::from_wide(v.z.neg()),
        z: Single::from_wide(v.y),
    }
}

/// The axes of an aircraft in the scene.
pub open spec fn axes_of(state: AircraftState) -> Axes {
    let b = state.axes();
    Axes {
        fwd: scene_of(b.forward).direction(),
        up: scene_of(Vec3 { x: b.down.x.negated(), y: b.down.y.negated(), z: b.down.z.negated() }).direction(),
        right: scene_of(b.right).direction(),
    }
}

/// The axes of an aircraft in the scene.
pub fn attitude_axes(state: &AircraftState) -> (r: Axes)
    ensures
        r == axes_of(*state),
{
    let b: BodyAxes = state.body_axes_in_earth();
    Axes {
        fwd: in_scene(b.forward).normalize(),
        up: in_scene(Vec3 { x: b.down.x.neg(), y: b.down.y.neg(), z: b.down.z.neg() }).normalize(),
        right: in_scene(b.right).normalize(),
    }
}

impl Reading {
    /// Whether any force has been measured.
    pub open spec fn measured(self) -> bool {
        !(self.force.x.same(num(D0)) && self.force.y.same(num(D0)) && self.force.z.same(num(D0)))
    }

    /// Whether any force has been measured.
    pub fn has_aero(&self) -> (r: bool)
        ensures
            r == self.measured(),
    {
        !(self.force.x.is(num(D0)) && self.force.y.is(num(D0)) && self.force.z.is(num(D0)))
    }

    /// Lift, drag, side force, the moments and the lift coefficient; zeros
    /// before a force is measured.
    pub fn get_aero(&self) -> (r: [Binary64; 7])
        ensures
            r@ == if self.measured() {
                seq![
                    self.force.z.negated(),
                    self.force.x.negated(),
                    self.force.y,
                    self.moment.x,
                    self.moment.y,
                    self.moment.z,
                    self.cl,
                ]
            } else {
                Seq::new(7, |i: int| num(D0))
            },
    {
        let zero: Binary64 = num(D0);
        if !self.has_aero() {
            return [zero, zero, zero, zero, zero, zero, zero];
        }
        [
            self.force.z.neg(),
            self.force.x.neg(),
            self.force.y,
            self.moment.x,
            self.moment.y,
            self.moment.z,
            self.cl,
        ]
    }

    /// The magnitudes of lift, drag, side force and lift coefficient; zeros
    /// before a force is measured.
    pub fn get_aero_magnitudes(&self) -> (r: [Binary64; 4])
        ensures
            r@ == if self.measured() {
                seq![
                    self.force.z.negated().absolute(),
                    self.force.x.negated().absolute(),
                    self.force.y.absolute(),
                    self.cl.absolute(),
                ]
            } else {
                Seq::new(4, |i: int| num(D0))
            },
    {
        let zero: Binary64 = num(D0);
        if !self.has_aero() {
            return [zero, zero, zero, zero];
        }
        [self.force.z.neg().abs(), self.force.x.neg().abs(), self.force.y.abs(), self.cl.abs()]
    }
}

/// The lift coefficient stays within its scale.
pub proof fn lift_coefficients_are_limited(forces: Vec3, tas: Binary64, wing_area: Binary64)
    ensures
        ({
            let cl = coefficient_of(forces, tas, wing_area);
            cl.nan() || (num(M3).not_above(cl) && cl.not_above(num(D3)))
        }),
{
}

/// The lift coefficient has the sign of the lift: not negative where the force
/// points up, which is against the z axis, and not positive where it points
/// down.
pub proof fn lift_coefficients_have_the_sign_of_the_lift(
    forces: Vec3,
    tas: Binary64,
    wing_area: Binary64,
)
    requires
        forces.z.finite(),
        tas.finite(),
        wing_area.finite(),
    ensures
        forces.z.below(num(D0)) ==> num(D0).not_above(coefficient_of(forces, tas, wing_area)),
        num(D0).below(forces.z) ==> coefficient_of(forces, tas, wing_area).not_above(num(D0)),
        forces.z.zero() ==> !num(D0).below(coefficient_of(forces, tas, wing_area))
            && !coefficient_of(forces, tas, wing_area).below(num(D0)),
{
    let area = wing_area.larger(num(D1));
    let a = num(D0_5).product(num(D1_225));
    crate::rounding::products_are_numbers(num(D0_5), num(D1_225));
    crate::rounding::fractions_shrink(num(D1_225), num(D0_5));
    crate::rounding::products_commute(num(D0_5), num(D1_225));
    let x = a.product(tas);
    let d = x.product(tas);
    lemma_scale_is_positive(a, tas, area);
    let lift = forces.z.negated();
    let scale = d.product(area);
    if !scale.zero() {
        crate::rounding::quotients_are_numbers(lift, scale);
    }
}

/// A scale of a force is not negative, and a number or of no use.
proof fn lemma_scale_is_positive(a: Binary64, tas: Binary64, area: Binary64)
    requires
        a.finite() && !a.negative(),
        tas.finite(),
        area.finite() && num(D1).not_above(area),
    ensures
        ({
            let scale = a.product(tas).product(tas).product(area);
            !scale.nan() && !scale.negative()
        }),
{
    let x = a.product(tas);
    crate::rounding::products_are_numbers(a, tas);
    let y = x.product(tas);
    if x.finite() {
        crate::rounding::products_are_numbers(x, tas);
    }
    if y.finite() {
        crate::rounding::products_are_numbers(y, area);
    }
}

/// More lift gives no smaller a coefficient, and the coefficient of no lift at
/// all is zero.
pub proof fn more_lift_more_coefficient(
    weak: Vec3,
    strong: Vec3,
    tas: Binary64,
    wing_area: Binary64,
)
    requires
        weak.z.finite() && strong.z.finite(),
        strong.z.not_above(weak.z),
        tas.finite(),
        wing_area.finite(),
        num(D0).below(
            num(D0_5).product(num(D1_225)).product(tas).product(tas).product(
                wing_area.larger(num(D1)),
            ),
        ),
        num(D0_5).product(num(D1_225)).product(tas).product(tas).product(
            wing_area.larger(num(D1)),
        ).finite(),
    ensures
        coefficient_of(weak, tas, wing_area).not_above(coefficient_of(strong, tas, wing_area)),
        weak.z.zero() ==> coefficient_of(weak, tas, wing_area).zero(),
{
    crate::rounding::divisors_keep_order(
        weak.z.negated(),
        strong.z.negated(),
        num(D0_5).product(num(D1_225)).product(tas).product(tas).product(
            wing_area.larger(num(D1)),
        ),
    );
}

/// Drag and lift are shown against the axes of the body, forward and down, and
/// the side force along its axis; what is shown of lift and of its coefficient
/// has the same sign.
pub proof fn shown_forces_agree(load: Load, shape: WindLoad, tas: Binary64, wing_area: Binary64)
    requires
        reading_of(load, shape, tas, wing_area).force.z.finite(),
        !reading_of(load, shape, tas, wing_area).force.z.zero(),
        tas.finite(),
        wing_area.finite(),
    ensures
        ({
            let r = reading_of(load, shape, tas, wing_area);
            let lift = r.force.z.negated();
            &&& num(D0).below(lift) ==> num(D0).not_above(r.cl)
            &&& lift.below(num(D0)) ==> r.cl.not_above(num(D0))
        }),
{
    lift_coefficients_have_the_sign_of_the_lift(
        load.force.sum(shape.force),
        tas,
        wing_area,
    );
}

/// Whether the sines and cosines of half angles are finite, and the angles no
/// more than half a circle.
pub open spec fn are_halves(h: HalfAngles) -> bool {
    &&& h.sin_roll.finite() && h.sin_pitch.finite() && h.sin_yaw.finite()
    &&& h.cos_roll.finite() && h.cos_pitch.finite() && h.cos_yaw.finite()
    &&& num(D0).not_above(h.cos_roll) && num(D0).not_above(h.cos_pitch) && num(D0).not_above(
        h.cos_yaw,
    )
    &&& h.sin_roll.product(h.sin_pitch).finite() && h.sin_roll.product(h.cos_pitch).finite()
    &&& h.cos_roll.product(h.sin_pitch).finite() && h.cos_roll.product(h.cos_pitch).finite()
}

/// The product of three numbers.
proof fn lemma_three(a: Binary64, b: Binary64, c: Binary64)
    requires
        a.finite() && b.finite() && c.finite(),
        a.product(b).finite(),
    ensures
        !a.product(b).product(c).nan(),
        a.zero() || b.zero() || c.zero() ==> a.product(b).product(c).zero(),
        a.product(b).product(c).negative() == ((a.negative() != b.negative()) != c.negative()),
{
    crate::rounding::products_are_numbers(a, b);
    crate::rounding::products_are_numbers(a.product(b), c);
    crate::rounding::products_have_their_signs(a, b);
    crate::rounding::products_have_their_signs(a.product(b), c);
}

/// Roll turns about the first axis, pitch about the second, yaw about the third:
/// of an attitude with one angle alone the entry of its axis has its sign, and
/// the other two vanish.
pub proof fn attitudes_turn_about_their_axes(h: HalfAngles)
    requires
        are_halves(h),
    ensures
        ({
            let q = quaternion_of(h);
            let one = num(D1);
            &&& h.sin_pitch.zero() && h.sin_yaw.zero() ==> crate::rounding::like_product(
                q.x,
                h.sin_roll,
                one,
            ) && q.y.zero() && q.z.zero()
            &&& h.sin_roll.zero() && h.sin_yaw.zero() ==> crate::rounding::like_product(
                q.y,
                h.sin_pitch,
                one,
            ) && q.x.zero() && q.z.zero()
            &&& h.sin_roll.zero() && h.sin_pitch.zero() ==> crate::rounding::like_product(
                q.z,
                h.sin_yaw,
                one,
            ) && q.x.zero() && q.y.zero()
        }),
{
    lemma_attitude_products(h);
    let a = h.sin_roll.product(h.cos_pitch).product(h.cos_yaw);
    let b = h.cos_roll.product(h.sin_pitch).product(h.sin_yaw);
    let c = h.cos_roll.product(h.sin_pitch).product(h.cos_yaw);
    let d = h.sin_roll.product(h.cos_pitch).product(h.sin_yaw);
    let e = h.cos_roll.product(h.cos_pitch).product(h.sin_yaw);
    let f = h.sin_roll.product(h.sin_pitch).product(h.cos_yaw);
    if b.zero() {
        crate::rounding::zeros_keep_signs(a, b);
    }
    if d.zero() {
        crate::rounding::zeros_keep_signs(c, d);
    }
    if f.zero() {
        crate::rounding::zeros_keep_signs(e, f);
    }
}

proof fn lemma_attitude_products(h: HalfAngles)
    requires
        are_halves(h),
    ensures
        ({
            let (p, q, r) = (h.sin_roll, h.sin_pitch, h.sin_yaw);
            let a = p.product(h.cos_pitch).product(h.cos_yaw);
            let b = h.cos_roll.product(q).product(r);
            let c = h.cos_roll.product(q).product(h.cos_yaw);
            let d = p.product(h.cos_pitch).product(r);
            let e = h.cos_roll.product(h.cos_pitch).product(r);
            let f = p.product(q).product(h.cos_yaw);
            &&& crate::rounding::like_product(a, p, num(D1))
            &&& crate::rounding::like_product(b, q, r)
            &&& crate::rounding::like_product(c, q, num(D1))
            &&& crate::rounding::like_product(d, p, r)
            &&& crate::rounding::like_product(e, r, num(D1))
            &&& crate::rounding::like_product(f, p, q)
        }),
{
    lemma_three(h.sin_roll, h.cos_pitch, h.cos_yaw);
    lemma_three(h.cos_roll, h.sin_pitch, h.sin_yaw);
    lemma_three(h.cos_roll, h.sin_pitch, h.cos_yaw);
    lemma_three(h.sin_roll, h.cos_pitch, h.sin_yaw);
    lemma_three(h.cos_roll, h.cos_pitch, h.sin_yaw);
    lemma_three(h.sin_roll, h.sin_pitch, h.cos_yaw);
}

/// Of an attitude with two angles the entry of the third axis has the sign of
/// their product: against it about the first axis and the third, with it about
/// the second. Yaw comes first, then pitch, then roll.
pub proof fn turns_follow_their_order(h: HalfAngles)
    requires
        are_halves(h),
    ensures
        ({
            let q = quaternion_of(h);
            &&& h.sin_roll.zero() ==> crate::rounding::like_product(
                q.x,
                h.sin_pitch.negated(),
                h.sin_yaw,
            )
            &&& h.sin_pitch.zero() ==> crate::rounding::like_product(q.y, h.sin_roll, h.sin_yaw)
            &&& h.sin_yaw.zero() ==> crate::rounding::like_product(
                q.z,
                h.sin_roll.negated(),
                h.sin_pitch,
            )
        }),
{
    lemma_attitude_products(h);
    let a = h.sin_roll.product(h.cos_pitch).product(h.cos_yaw);
    let b = h.cos_roll.product(h.sin_pitch).product(h.sin_yaw);
    let c = h.cos_roll.product(h.sin_pitch).product(h.cos_yaw);
    let d = h.sin_roll.product(h.cos_pitch).product(h.sin_yaw);
    let e = h.cos_roll.product(h.cos_pitch).product(h.sin_yaw);
    let f = h.sin_roll.product(h.sin_pitch).product(h.cos_yaw);
    if h.sin_roll.zero() {
        crate::rounding::zeros_keep_signs(b.negated(), a);
    }
    if h.sin_pitch.zero() {
        crate::rounding::zeros_keep_signs(d, c);
    }
    if h.sin_yaw.zero() {
        crate::rounding::zeros_keep_signs(f.negated(), e);
    }
}

/// The stream blows against the first axis where its heading has a positive
/// cosine, along the third where it has a positive sine, and nowhere else.
pub proof fn streams_blow_where_they_head(sine: Binary64, cosine: Binary64, speed: Binary64)
    requires
        sine.finite() && cosine.finite() && speed.finite(),
    ensures
        crate::rounding::like_product(
            stream_of(sine, cosine, speed).x,
            cosine.negated(),
            speed,
        ),
        crate::rounding::like_product(stream_of(sine, cosine, speed).z, sine, speed),
        stream_of(sine, cosine, speed).y.zero(),
{
    crate::rounding::products_have_their_signs(cosine.negated(), speed);
    crate::rounding::products_have_their_signs(sine, speed);
    crate::rounding::zero_absorbs(num(D0), speed);
}

/// An aircraft that stands upright in the stream moves through the air as the
/// stream does; it stands at the origin and does not turn.
pub proof fn upright_aircraft_move_as_the_stream(q: Quaternion, flow: Vec3)
    requires
        q.w.finite(),
        q.x.zero() && q.y.zero() && q.z.zero(),
        crate::state::attitude_length(turned_by(q)).finite(),
        num(D0).below(crate::state::attitude_length(turned_by(q))),
        turned_by(q).attitude().w.finite(),
        crate::vector::is_finite(flow),
    ensures
        state_in(q, flow).u.same(flow.x),
        state_in(q, flow).v.same(flow.y),
        state_in(q, flow).w.same(flow.z),
        state_in(q, flow).p.zero() && state_in(q, flow).q.zero() && state_in(q, flow).r.zero(),
{
    crate::state::upright_aircraft_see_the_earth(turned_by(q), flow);
}

/// A measured load is that of the air and that of the shape together: what the
/// shape feels shifts each part of it its own way.
pub proof fn readings_add_up(load: Load, shape: WindLoad, tas: Binary64, wing_area: Binary64)
    requires
        crate::vector::is_finite(load.force) && crate::vector::is_finite(load.moment),
        crate::vector::is_finite(shape.force) && crate::vector::is_finite(shape.moment),
    ensures
        ({
            let r = reading_of(load, shape, tas, wing_area);
            &&& shifts(load.force.x, shape.force.x, r.force.x)
            &&& shifts(load.force.y, shape.force.y, r.force.y)
            &&& shifts(load.force.z, shape.force.z, r.force.z)
            &&& shifts(load.moment.x, shape.moment.x, r.moment.x)
            &&& shifts(load.moment.y, shape.moment.y, r.moment.y)
            &&& shifts(load.moment.z, shape.moment.z, r.moment.z)
        }),
{
    lemma_shifts(load.force.x, shape.force.x);
    lemma_shifts(load.force.y, shape.force.y);
    lemma_shifts(load.force.z, shape.force.z);
    lemma_shifts(load.moment.x, shape.moment.x);
    lemma_shifts(load.moment.y, shape.moment.y);
    lemma_shifts(load.moment.z, shape.moment.z);
}

/// Whether a number is shifted the way of another.
pub open spec fn shifts(x: Binary64, by: Binary64, r: Binary64) -> bool {
    &&& num(D0).not_above(by) ==> x.not_above(r)
    &&& by.not_above(num(D0)) ==> r.not_above(x)
}

proof fn lemma_shifts(x: Binary64, by: Binary64)
    requires
        x.finite() && by.finite(),
    ensures
        shifts(x, by, x.sum(by)),
{
    crate::rounding::sums_are_numbers(x, by);
    crate::rounding::sums_are_numbers(x, num(D0));
    crate::rounding::zeros_keep_signs(x, num(D0));
    if num(D0).not_above(by) {
        crate::rounding::sums_of_ordered_terms(x, x, num(D0), by);
    }
    if by.not_above(num(D0)) {
        crate::rounding::sums_of_ordered_terms(x, x, by, num(D0));
    }
}

/// In the scene north is along the first axis, up along the second, east along
/// the third.
pub proof fn scenes_show_up_and_east(v: Vec3)
    requires
        crate::vector::is_finite(v),
    ensures
        scene_of(v).x.wide.negative() == v.x.negative(),
        scene_of(v).y.wide.negative() != v.z.negative(),
        scene_of(v).z.wide.negative() == v.y.negative(),
        v.x.zero() ==> scene_of(v).x.wide.zero(),
        v.y.zero() ==> scene_of(v).z.wide.zero(),
        v.z.zero() ==> scene_of(v).y.wide.zero(),
{
    crate::single::narrowing_keeps_signs(v.x);
    crate::single::narrowing_keeps_signs(v.y);
    crate::single::narrowing_keeps_signs(v.z.negated());
}

} // verus!
