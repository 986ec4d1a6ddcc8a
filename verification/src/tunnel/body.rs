//! The flow about the body of the aircraft: deflection, separation, wake,
//! slipstream and turbulence.
use crate::elementary::ElementarySingle;
use crate::literal::{
    D0, D0_01, D0_02, D0_05, D0_06, D0_08, D0_1, D0_12, D0_15, D0_2, D0_25, D0_28, D0_3, D0_35,
    D0_4, D0_42, D0_45, D0_5, D0_55, D0_6, D0_65, D0_7, D0_75, D0_8, D0_9, D0_95, D1, D1000, D12,
    D15, D1EM3, D1EM4, D1EM6, D1_15, D1_2, D1_3, D1_4, D1_6, D1_7, D1_9, D2, D2_2, D2_25, D2_3,
    D2_4, D2_6, D2_8, D3, D30, D38, D3_4, D3_7, D4, D5, D57_29577951308232, D5_5, D7, D8, D9, M0_55,
    M1, M1_4, M2_38, M2_7, M7,
};
use crate::single::{sgl, Single, Vector};
use vstd::prelude::*;

verus! {

/// The arguments of the functions that the flow at a point is made of.
#[derive(Clone, Copy, Debug, PartialEq, Eq, Structural)]
pub struct BodyTerms {
    /// Exponents of the separated flow.
    pub sep_fall: Single,
    pub sep_spread: Single,
    pub sep_turbulence: Single,
    /// Angles of the separated flow.
    pub sep_wobble: Single,
    pub sep_angle_x: Single,
    pub sep_angle_z: Single,
    pub sep_angle_zt: Single,
    pub sep_angle_y: Single,
    /// Exponents of the wake.
    pub wake_spread: Single,
    pub wake_core: Single,
    /// Angles of the wake.
    pub wake_angle_x: Single,
    pub wake_angle_y: Single,
    pub wake_angle_z: Single,
    /// Exponents of the slipstream.
    pub inflow: Single,
    pub aft: Single,
    pub disk: Single,
    /// Angles of the turbulence.
    pub turb_a: Single,
    pub turb_b: Single,
    pub turb_c: Single,
    pub turb_d: Single,
    pub turb_e: Single,
}

/// The distance of a point from the axis of the separated flow.
pub open spec fn separated_radius(p: Vector) -> Single {
    p.y.difference(sgl(D0_3)).product(p.y.difference(sgl(D0_3))).sum(p.z.product(p.z)).root()
}

/// The distance of a point from the axis of the separated flow.
pub fn separated_distance(p: Vector) -> (r: Single)
    ensures
        r == separated_radius(p),
{
    p.y.minus(sgl(D0_3)).times(p.y.minus(sgl(D0_3))).plus(p.z.times(p.z)).sqrt()
}

/// The distance of a point from the axis of the body.
pub open spec fn axis_radius(p: Vector) -> Single {
    p.y.product(p.y).sum(p.z.product(p.z)).root()
}

/// The distance of a point from the axis of the body.
pub fn axis_distance(p: Vector) -> (r: Single)
    ensures
        r == axis_radius(p),
{
    p.y.times(p.y).plus(p.z.times(p.z)).sqrt()
}

/// The distance of a point from the axis of the propeller.
pub open spec fn prop_radius(p: Vector) -> Single {
    let y = p.y.difference(sgl(D0_08));
    y.product(y).sum(p.z.product(p.z)).root()
}

/// The distance of a point from the axis of the propeller.
pub fn prop_distance(p: Vector) -> (r: Single)
    ensures
        r == prop_radius(p),
{
    let y: Single = p.y.minus(sgl(D0_08));
    y.times(y).plus(p.z.times(p.z)).sqrt()
}

/// The radius of the slipstream, which widens downstream.
pub open spec fn slip_radius_of(p: Vector) -> Single {
    sgl(D0_75).product(
        sgl(D1).sum(
            sgl(D0_05).product(p.x.difference(sgl(M2_38)).clamped(sgl(M7), sgl(D0)).absolute()),
        ),
    )
}

/// The radius of the slipstream, which widens downstream.
pub fn slip_radius(p: Vector) -> (r: Single)
    ensures
        r == slip_radius_of(p),
{
    proof {
        crate::single::limits_are_ordered();
    }
    sgl(D0_75).times(
        sgl(D1).plus(sgl(D0_05).times(p.x.minus(sgl(M2_38)).clamp(sgl(M7), sgl(D0)).abs())),
    )
}

/// The arguments at a point and a time.
pub open spec fn terms_at(p: Vector, t: Single) -> BodyTerms {
    let sep = separated_radius(p);
    let axis = axis_radius(p);
    let prop = prop_radius(p);
    let prx = p.x.difference(sgl(M2_38));
    let slip = slip_radius_of(p);
    BodyTerms {
        sep_fall: sgl(D1).difference(p.x).larger(sgl(D0)).negated().quotient(sgl(D8)),
        sep_spread: sep.product(sep).negated().quotient(sgl(D3).product(sgl(D3))),
        sep_turbulence: p.x.product(p.x).negated().quotient(sgl(D9)),
        sep_wobble: p.x.product(sgl(D1_6)).sum(t.product(sgl(D2))),
        sep_angle_x: p.x.product(sgl(D3)).sum(t.product(sgl(D4))),
        sep_angle_z: p.z.product(sgl(D2_2)),
        sep_angle_zt: p.z.product(sgl(D2_8)).difference(t.product(sgl(D5))),
        sep_angle_y: p.y.product(sgl(D2_4)),
        wake_spread: axis.product(axis).negated().quotient(sgl(D3_4).product(sgl(D3_4))),
        wake_core: axis.product(axis).negated().quotient(sgl(D2).product(sgl(D2))),
        wake_angle_x: p.x.product(sgl(D2_3)),
        wake_angle_y: p.y.product(sgl(D3_7)),
        wake_angle_z: p.z.product(sgl(D1_9)),
        inflow: prx.product(prx).negated().quotient(sgl(D2).product(sgl(D2))),
        aft: prx.product(prx).negated().quotient(sgl(D7).product(sgl(D7))),
        disk: prop.product(prop).negated().quotient(slip.product(slip)),
        turb_a: p.x.product(sgl(D0_55)).sum(p.z.product(sgl(D0_7))).sum(t.product(sgl(D0_9))),
        turb_b: p.y.product(sgl(D0_8)).sum(t.product(sgl(D0_6))),
        turb_c: p.x.product(sgl(D0_4)).difference(t.product(sgl(D0_8))),
        turb_d: p.z.product(sgl(D0_9)),
        turb_e: p.z.product(sgl(D1_4)).sum(t.product(sgl(D1_3))),
    }
}

/// The arguments at a point and a time: exponents of exponentials and angles
/// of sines.
pub fn body_terms(p: Vector, t: Single) -> (r: BodyTerms)
    ensures
        r == terms_at(p, t),
{
    let sep: Single = separated_distance(p);
    let axis: Single = axis_distance(p);
    let prop: Single = prop_distance(p);
    let prx: Single = p.x.minus(sgl(M2_38));
    let slip: Single = slip_radius(p);
    BodyTerms {
        sep_fall: sgl(D1).minus(p.x).max(sgl(D0)).neg().over(sgl(D8)),
        sep_spread: sep.times(sep).neg().over(sgl(D3).times(sgl(D3))),
        sep_turbulence: p.x.times(p.x).neg().over(sgl(D9)),
        sep_wobble: p.x.times(sgl(D1_6)).plus(t.times(sgl(D2))),
        sep_angle_x: p.x.times(sgl(D3)).plus(t.times(sgl(D4))),
        sep_angle_z: p.z.times(sgl(D2_2)),
        sep_angle_zt: p.z.times(sgl(D2_8)).minus(t.times(sgl(D5))),
        sep_angle_y: p.y.times(sgl(D2_4)),
        wake_spread: axis.times(axis).neg().over(sgl(D3_4).times(sgl(D3_4))),
        wake_core: axis.times(axis).neg().over(sgl(D2).times(sgl(D2))),
        wake_angle_x: p.x.times(sgl(D2_3)),
        wake_angle_y: p.y.times(sgl(D3_7)),
        wake_angle_z: p.z.times(sgl(D1_9)),
        inflow: prx.times(prx).neg().over(sgl(D2).times(sgl(D2))),
        aft: prx.times(prx).neg().over(sgl(D7).times(sgl(D7))),
        disk: prop.times(prop).neg().over(slip.times(slip)),
        turb_a: p.x.times(sgl(D0_55)).plus(p.z.times(sgl(D0_7))).plus(t.times(sgl(D0_9))),
        turb_b: p.y.times(sgl(D0_8)).plus(t.times(sgl(D0_6))),
        turb_c: p.x.times(sgl(D0_4)).minus(t.times(sgl(D0_8))),
        turb_d: p.z.times(sgl(D0_9)),
        turb_e: p.z.times(sgl(D1_4)).plus(t.times(sgl(D1_3))),
    }
}

/// The values of the functions of the arguments, and sine and cosine of the
/// cant of the tail.
#[derive(Clone, Copy, Debug, PartialEq, Eq, Structural)]
pub struct BodyFactors {
    /// Exponentials of the exponents and sines of the angles.
    pub of: BodyTerms,
    pub cant_sine: Single,
    pub cant_cosine: Single,
}

/// Whether these are the exponentials of the exponents and the sines of the
/// angles.
pub open spec fn are_factors<E: ElementarySingle>(e: E, t: BodyTerms, f: BodyTerms) -> bool {
    &&& call_ensures(E::exp, (&e, t.sep_fall), f.sep_fall)
    &&& call_ensures(E::exp, (&e, t.sep_spread), f.sep_spread)
    &&& call_ensures(E::exp, (&e, t.sep_turbulence), f.sep_turbulence)
    &&& call_ensures(E::sin, (&e, t.sep_wobble), f.sep_wobble)
    &&& call_ensures(E::sin, (&e, t.sep_angle_x), f.sep_angle_x)
    &&& call_ensures(E::sin, (&e, t.sep_angle_z), f.sep_angle_z)
    &&& call_ensures(E::sin, (&e, t.sep_angle_zt), f.sep_angle_zt)
    &&& call_ensures(E::sin, (&e, t.sep_angle_y), f.sep_angle_y)
    &&& call_ensures(E::exp, (&e, t.wake_spread), f.wake_spread)
    &&& call_ensures(E::exp, (&e, t.wake_core), f.wake_core)
    &&& call_ensures(E::sin, (&e, t.wake_angle_x), f.wake_angle_x)
    &&& call_ensures(E::sin, (&e, t.wake_angle_y), f.wake_angle_y)
    &&& call_ensures(E::sin, (&e, t.wake_angle_z), f.wake_angle_z)
    &&& call_ensures(E::exp, (&e, t.inflow), f.inflow)
    &&& call_ensures(E::exp, (&e, t.aft), f.aft)
    &&& call_ensures(E::exp, (&e, t.disk), f.disk)
    &&& call_ensures(E::sin, (&e, t.turb_a), f.turb_a)
    &&& call_ensures(E::sin, (&e, t.turb_b), f.turb_b)
    &&& call_ensures(E::sin, (&e, t.turb_c), f.turb_c)
    &&& call_ensures(E::sin, (&e, t.turb_d), f.turb_d)
    &&& call_ensures(E::sin, (&e, t.turb_e), f.turb_e)
}

/// The cant of the fins: 38 degrees.
pub open spec fn cant() -> Single {
    super::settings::radians(sgl(D38))
}

/// The cant of the fins: 38 degrees.
pub fn fin_cant() -> (r: Single)
    ensures
        r == cant(),
{
    super::settings::to_radians(sgl(D38))
}

/// Whether these are the values that the flow about the body is made of.
pub open spec fn are_body_factors<E: ElementarySingle>(
    e: E,
    t: BodyTerms,
    f: BodyFactors,
) -> bool {
    &&& are_factors(e, t, f.of)
    &&& call_ensures(E::sin, (&e, cant()), f.cant_sine)
    &&& call_ensures(E::cos, (&e, cant()), f.cant_cosine)
}

/// The values that the flow about the body is made of.
pub fn body_factors<E: ElementarySingle>(e: &E, t: BodyTerms) -> (r: BodyFactors)
    ensures
        are_body_factors(*e, t, r),
{
    let of: BodyTerms = BodyTerms {
        sep_fall: e.exp(t.sep_fall),
        sep_spread: e.exp(t.sep_spread),
        sep_turbulence: e.exp(t.sep_turbulence),
        sep_wobble: e.sin(t.sep_wobble),
        sep_angle_x: e.sin(t.sep_angle_x),
        sep_angle_z: e.sin(t.sep_angle_z),
        sep_angle_zt: e.sin(t.sep_angle_zt),
        sep_angle_y: e.sin(t.sep_angle_y),
        wake_spread: e.exp(t.wake_spread),
        wake_core: e.exp(t.wake_core),
        wake_angle_x: e.sin(t.wake_angle_x),
        wake_angle_y: e.sin(t.wake_angle_y),
        wake_angle_z: e.sin(t.wake_angle_z),
        inflow: e.exp(t.inflow),
        aft: e.exp(t.aft),
        disk: e.exp(t.disk),
        turb_a: e.sin(t.turb_a),
        turb_b: e.sin(t.turb_b),
        turb_c: e.sin(t.turb_c),
        turb_d: e.sin(t.turb_d),
        turb_e: e.sin(t.turb_e),
    };
    BodyFactors { of, cant_sine: e.sin(fin_cant()), cant_cosine: e.cos(fin_cant()) }
}

/// A way out of the body: how far a point is inside, and where to.
#[derive(Clone, Copy, Debug, PartialEq, Eq, Structural)]
pub struct Push {
    pub depth: Single,
    pub dir: Vector,
}

/// The deeper of two ways out.
pub open spec fn deeper_of(a: Push, b: Push) -> Push {
    if a.depth.below(b.depth) {
        b
    } else {
        a
    }
}

/// The deeper of two ways out; the first unless the second is deeper.
pub fn deeper(a: Push, b: Push) -> (r: Push)
    ensures
        r == deeper_of(a, b),
{
    if b.depth.gt(a.depth) {
        b
    } else {
        a
    }
}

/// No way out.
pub open spec fn outside() -> Push {
    Push { depth: sgl(D0), dir: Vector::zero() }
}

/// No way out.
pub fn no_push() -> (r: Push)
    ensures
        r == outside(),
{
    Push { depth: sgl(D0), dir: Vector::zeros() }
}

/// The way out of the fuselage.
pub open spec fn out_of_fuselage(p: Vector) -> Push {
    let rn = p.y.quotient(sgl(D0_45)).product(p.y.quotient(sgl(D0_45))).sum(
        p.z.quotient(sgl(D0_4)).product(p.z.quotient(sgl(D0_4))),
    ).root().larger(sgl(D1EM4));
    let pen = sgl(D1).sum(sgl(D0_12).quotient(sgl(D0_45))).difference(rn);
    let dir = Vector {
        x: sgl(D0),
        y: p.y.quotient(sgl(D0_45).product(sgl(D0_45))),
        z: p.z.quotient(sgl(D0_4).product(sgl(D0_4))),
    };
    if p.x.absolute().not_above(sgl(D2_8).sum(sgl(D0_12))) && sgl(D0).below(pen) {
        Push { depth: pen, dir: dir.divided(rn) }
    } else {
        outside()
    }
}

/// The way out of the fuselage.
pub fn fuselage_push(p: Vector) -> (r: Push)
    ensures
        r == out_of_fuselage(p),
{
    let rn: Single = p.y.over(sgl(D0_45)).times(p.y.over(sgl(D0_45))).plus(
        p.z.over(sgl(D0_4)).times(p.z.over(sgl(D0_4))),
    ).sqrt().max(sgl(D1EM4));
    let pen: Single = sgl(D1).plus(sgl(D0_12).over(sgl(D0_45))).minus(rn);
    let dir: Vector = Vector {
        x: sgl(D0),
        y: p.y.over(sgl(D0_45).times(sgl(D0_45))),
        z: p.z.over(sgl(D0_4).times(sgl(D0_4))),
    };
    if p.x.abs().le(sgl(D2_8).plus(sgl(D0_12))) && pen.gt(sgl(D0)) {
        Push { depth: pen, dir: dir.over(rn) }
    } else {
        no_push()
    }
}

/// The way out of the canopy.
pub open spec fn out_of_canopy(p: Vector) -> Push {
    let cx = p.x.difference(sgl(D0_9));
    let er = cx.quotient(sgl(D0_95)).product(cx.quotient(sgl(D0_95))).sum(
        p.y.difference(sgl(D0_4)).quotient(sgl(D0_28)).product(
            p.y.difference(sgl(D0_4)).quotient(sgl(D0_28)),
        ),
    ).sum(p.z.quotient(sgl(D0_35)).product(p.z.quotient(sgl(D0_35)))).root().larger(
        sgl(D1EM4),
    );
    let pen = sgl(D1).sum(sgl(D0_12).quotient(sgl(D0_28))).difference(er);
    let dir = Vector {
        x: cx.quotient(sgl(D0_95).product(sgl(D0_95))),
        y: p.y.difference(sgl(D0_4)).quotient(sgl(D0_28).product(sgl(D0_28))),
        z: p.z.quotient(sgl(D0_35).product(sgl(D0_35))),
    };
    if sgl(D0).not_above(p.y) && sgl(D0).below(pen) {
        Push { depth: pen, dir: dir.divided(er) }
    } else {
        outside()
    }
}

/// The way out of the canopy.
pub fn canopy_push(p: Vector) -> (r: Push)
    ensures
        r == out_of_canopy(p),
{
    let cx: Single = p.x.minus(sgl(D0_9));
    let er: Single = cx.over(sgl(D0_95)).times(cx.over(sgl(D0_95))).plus(
        p.y.minus(sgl(D0_4)).over(sgl(D0_28)).times(p.y.minus(sgl(D0_4)).over(sgl(D0_28))),
    ).plus(p.z.over(sgl(D0_35)).times(p.z.over(sgl(D0_35)))).sqrt().max(sgl(D1EM4));
    let pen: Single = sgl(D1).plus(sgl(D0_12).over(sgl(D0_28))).minus(er);
    let dir: Vector = Vector {
        x: cx.over(sgl(D0_95).times(sgl(D0_95))),
        y: p.y.minus(sgl(D0_4)).over(sgl(D0_28).times(sgl(D0_28))),
        z: p.z.over(sgl(D0_35).times(sgl(D0_35))),
    };
    if p.y.ge(sgl(D0)) && pen.gt(sgl(D0)) {
        Push { depth: pen, dir: dir.over(er) }
    } else {
        no_push()
    }
}

/// The way out of the wing: up or down where it is thinner, else along the chord.
pub open spec fn out_of_wing(p: Vector) -> Push {
    let along = sgl(D0_5).sum(sgl(D0_12)).difference(p.x.difference(sgl(D0_25)).absolute());
    let thick = sgl(D0_1).sum(sgl(D0_12)).difference(p.y.difference(sgl(D0_15)).absolute());
    if p.x.absolute().not_above(sgl(D1))
        && p.z.absolute().not_above(sgl(D5_5).sum(sgl(D0_2)))
        && sgl(D0).below(along)
        && sgl(D0).below(thick) {
        if thick.below(along) {
            Push {
                depth: along.smaller(thick),
                dir: Vector { x: sgl(D0), y: p.y.difference(sgl(D0_15)).sign(), z: sgl(D0) },
            }
        } else {
            Push {
                depth: along.smaller(thick),
                dir: Vector {
                    x: p.x.difference(sgl(D0_25)).sign().negated(),
                    y: sgl(D0),
                    z: sgl(D0),
                },
            }
        }
    } else {
        outside()
    }
}

/// The way out of the wing: up or down where it is thinner, else along the
/// chord.
pub fn wing_push(p: Vector) -> (r: Push)
    ensures
        r == out_of_wing(p),
{
    let along: Single = sgl(D0_5).plus(sgl(D0_12)).minus(p.x.minus(sgl(D0_25)).abs());
    let thick: Single = sgl(D0_1).plus(sgl(D0_12)).minus(p.y.minus(sgl(D0_15)).abs());
    if p.x.abs().le(sgl(D1)) && p.z.abs().le(sgl(D5_5).plus(sgl(D0_2))) && along.gt(sgl(D0))
        && thick.gt(sgl(D0)) {
        if thick.lt(along) {
            Push {
                depth: along.min(thick),
                dir: Vector { x: sgl(D0), y: p.y.minus(sgl(D0_15)).signum(), z: sgl(D0) },
            }
        } else {
            Push {
                depth: along.min(thick),
                dir: Vector { x: p.x.minus(sgl(D0_25)).signum().neg(), y: sgl(D0), z: sgl(D0) },
            }
        }
    } else {
        no_push()
    }
}

/// The way out of a fin of the tail.
pub open spec fn out_of_fin(
    p: Vector,
    zt: Single,
    cant_sine: Single,
    cant_cosine: Single,
) -> Push {
    let s = zt.negated().sign();
    let nearest = s.product(
        p.y.difference(sgl(D0_65)).product(cant_sine).sum(
            p.z.difference(zt).product(cant_cosine),
        ),
    );
    let along = p.y.difference(sgl(D0_65)).product(cant_cosine).difference(
        p.z.difference(zt).product(cant_sine),
    );
    let pen = sgl(D0_06).sum(sgl(D0_12)).difference(nearest.absolute());
    if sgl(M2_7).not_above(p.x) && p.x.not_above(sgl(M1_4)) && sgl(D0).below(pen)
        && along.absolute().not_above(sgl(D0_45)) {
        Push {
            depth: pen,
            dir: Vector {
                x: sgl(D0),
                y: nearest.sign().product(cant_sine),
                z: nearest.sign().product(cant_cosine),
            },
        }
    } else {
        outside()
    }
}

/// The way out of the fin of the tail at `zt`.
pub fn fin_push(p: Vector, zt: Single, cant_sine: Single, cant_cosine: Single) -> (r: Push)
    ensures
        r == out_of_fin(p, zt, cant_sine, cant_cosine),
{
    let s: Single = zt.neg().signum();
    let nearest: Single = s.times(p.y.minus(sgl(D0_65)).times(cant_sine).plus(p.z.minus(zt).times(cant_cosine)));
    let along: Single = p.y.minus(sgl(D0_65)).times(cant_cosine).minus(p.z.minus(zt).times(cant_sine));
    let pen: Single = sgl(D0_06).plus(sgl(D0_12)).minus(nearest.abs());
    if p.x.ge(sgl(M2_7)) && p.x.le(sgl(M1_4)) && pen.gt(sgl(D0))
        && along.abs().le(sgl(D0_45)) {
        Push {
            depth: pen,
            dir: Vector {
                x: sgl(D0),
                y: nearest.signum().times(cant_sine),
                z: nearest.signum().times(cant_cosine),
            },
        }
    } else {
        no_push()
    }
}

/// The way out of the nacelle.
pub open spec fn out_of_nacelle(p: Vector) -> Push {
    let nr = axis_radius(p).larger(sgl(D1EM4));
    let pen = sgl(D0_42).sum(sgl(D0_12)).difference(nr);
    if p.x.sum(sgl(D2_25)).absolute().not_above(sgl(D1)) && sgl(D0).below(pen) {
        Push {
            depth: pen,
            dir: (Vector { x: sgl(D0), y: p.y, z: p.z }).divided(nr.larger(sgl(D1EM4))),
        }
    } else {
        outside()
    }
}

/// The way out of the nacelle.
pub fn nacelle_push(p: Vector) -> (r: Push)
    ensures
        r == out_of_nacelle(p),
{
    let nr: Single = axis_distance(p).max(sgl(D1EM4));
    let pen: Single = sgl(D0_42).plus(sgl(D0_12)).minus(nr);
    if p.x.plus(sgl(D2_25)).abs().le(sgl(D1)) && pen.gt(sgl(D0)) {
        Push {
            depth: pen,
            dir: (Vector { x: sgl(D0), y: p.y, z: p.z }).over(nr.max(sgl(D1EM4))),
        }
    } else {
        no_push()
    }
}

/// The deepest way out of the parts of the body, the first of equal ones.
pub open spec fn out_of_body(p: Vector, cant_sine: Single, cant_cosine: Single) -> Push {
    let a = deeper_of(outside(), out_of_fuselage(p));
    let b = deeper_of(a, out_of_canopy(p));
    let c = deeper_of(b, out_of_wing(p));
    let d = deeper_of(c, out_of_fin(p, sgl(M0_55), cant_sine, cant_cosine));
    let e = deeper_of(d, out_of_fin(p, sgl(D0_55), cant_sine, cant_cosine));
    deeper_of(e, out_of_nacelle(p))
}

/// The deepest way out of the parts of the body, the first of equal ones.
pub fn body_push(p: Vector, cant_sine: Single, cant_cosine: Single) -> (r: Push)
    ensures
        r == out_of_body(p, cant_sine, cant_cosine),
{
    let a: Push = deeper(no_push(), fuselage_push(p));
    let b: Push = deeper(a, canopy_push(p));
    let c: Push = deeper(b, wing_push(p));
    let d: Push = deeper(c, fin_push(p, sgl(M0_55), cant_sine, cant_cosine));
    let e: Push = deeper(d, fin_push(p, sgl(D0_55), cant_sine, cant_cosine));
    deeper(e, nacelle_push(p))
}

/// The flow with the deflection by the body: out of it, about it, and slowed at the nose.
pub open spec fn deflection(p: Vector, speed: Single, push: Push) -> Vector {
    let intensity = push.depth.quotient(sgl(D0_12).product(sgl(D3))).clamped(sgl(D0), sgl(D1));
    let swirl = Vector { x: sgl(D0), y: push.dir.z.negated(), z: push.dir.y };
    let about = if sgl(D1EM6).below(swirl.length()) {
        swirl.direction()
    } else {
        Vector::zero()
    };
    let v = Vector::zero().sum(push.dir.scaled(speed.product(sgl(D2_6)).product(intensity)));
    let w = v.sum(about.scaled(speed.product(sgl(D1_2)).product(intensity)));
    if sgl(D0).below(push.depth) {
        if sgl(D2_8).product(sgl(D0_5)).below(p.x)
            && p.x.not_above(sgl(D2_8).sum(sgl(D0_12))) {
            Vector { x: w.x.sum(speed.product(sgl(D0_9)).product(intensity)), y: w.y, z: w.z }
        } else {
            w
        }
    } else {
        Vector::zero()
    }
}

/// The flow with the deflection by the body: out of it, about it, and slowed
/// at the nose.
pub fn deflected(p: Vector, speed: Single, push: Push) -> (r: Vector)
    ensures
        r == deflection(p, speed, push),
{
    proof {
        crate::single::limits_are_ordered();
    }
    let intensity: Single = push.depth.over(sgl(D0_12).times(sgl(D3))).clamp(sgl(D0), sgl(D1));
    let swirl: Vector = Vector { x: sgl(D0), y: push.dir.z.neg(), z: push.dir.y };
    let about: Vector = if swirl.norm().gt(sgl(D1EM6)) {
        swirl.normalize()
    } else {
        Vector::zeros()
    };
    let v: Vector = Vector::zeros().plus(push.dir.times(speed.times(sgl(D2_6)).times(intensity)));
    let w: Vector = v.plus(about.times(speed.times(sgl(D1_2)).times(intensity)));
    if push.depth.gt(sgl(D0)) {
        if p.x.gt(sgl(D2_8).times(sgl(D0_5))) && p.x.le(sgl(D2_8).plus(sgl(D0_12))) {
            Vector { x: w.x.plus(speed.times(sgl(D0_9)).times(intensity)), y: w.y, z: w.z }
        } else {
            w
        }
    } else {
        Vector::zeros()
    }
}

/// How far the flow is separated at an angle of attack: from none at 11
/// degrees to all at 15.
pub open spec fn separation_at(alpha: Single) -> Single {
    let deg = alpha.product(sgl(D57_29577951308232)).absolute();
    let ramp = deg.difference(sgl(D15).difference(sgl(D4))).quotient(sgl(D4)).clamped(sgl(D0), sgl(D1));
    ramp.product(ramp).product(sgl(D3).difference(sgl(D2).product(ramp)))
}

/// How far the flow is separated at an angle of attack (rad): from none at 11
/// degrees to all at 15.
pub fn separation(alpha: Single) -> (r: Single)
    ensures
        r == separation_at(alpha),
{
    proof {
        crate::single::limits_are_ordered();
    }
    let deg: Single = alpha.times(sgl(D57_29577951308232)).abs();
    let ramp: Single = deg.minus(sgl(D15).minus(sgl(D4))).over(sgl(D4)).clamp(sgl(D0), sgl(D1));
    ramp.times(ramp).times(sgl(D3).minus(sgl(D2).times(ramp)))
}

/// The flow with the rotor above a stalled wing.
pub open spec fn rotor_on(v: Vector, p: Vector, speed: Single, sep: Single) -> Vector {
    let dx = p.x.difference(sgl(D0_2)).quotient(sgl(D2_2));
    let dy = p.y.difference(sgl(D0_8)).quotient(sgl(D1_4));
    let strength = sep.product(speed);
    if dx.product(dx).sum(dy.product(dy)).below(sgl(D1)) {
        Vector {
            x: v.x.sum(strength.product(dy.negated().product(sgl(D1_2)))),
            y: v.y.sum(strength.product(dx.product(sgl(D2))).product(sep)),
            z: v.z,
        }
    } else {
        v
    }
}

/// The flow with the rotor above a stalled wing.
pub fn with_rotor(v: Vector, p: Vector, speed: Single, sep: Single) -> (r: Vector)
    ensures
        r == rotor_on(v, p, speed, sep),
{
    let dx: Single = p.x.minus(sgl(D0_2)).over(sgl(D2_2));
    let dy: Single = p.y.minus(sgl(D0_8)).over(sgl(D1_4));
    let strength: Single = sep.times(speed);
    if dx.times(dx).plus(dy.times(dy)).lt(sgl(D1)) {
        Vector {
            x: v.x.plus(strength.times(dy.neg().times(sgl(D1_2)))),
            y: v.y.plus(strength.times(dx.times(sgl(D2))).times(sep)),
            z: v.z,
        }
    } else {
        v
    }
}

/// The flow with the wake behind a stalled wing.
pub open spec fn stalled_wake_on(
    v: Vector,
    p: Vector,
    speed: Single,
    sep: Single,
    f: BodyTerms,
) -> Vector {
    let fall = f.sep_fall.product(sep);
    let spread = f.sep_spread;
    let alt = separated_radius(p);
    if p.x.below(sgl(D1)) {
        Vector {
            x: v.x.difference(speed.product(sgl(D0_9)).product(fall).product(spread)),
            y: v.y.sum(
                speed.product(sgl(D0_55)).product(fall).product(spread).product(f.sep_wobble),
            ),
            z: v.z.sum(
                speed.product(sgl(D0_5)).product(fall).product(spread).product(
                    p.z.quotient(alt.sum(sgl(D0_5))),
                ),
            ),
        }
    } else {
        v
    }
}

/// The flow with the wake behind a stalled wing.
pub fn with_stalled_wake(
    v: Vector,
    p: Vector,
    speed: Single,
    sep: Single,
    f: BodyTerms,
) -> (r: Vector)
    ensures
        r == stalled_wake_on(v, p, speed, sep, f),
{
    let fall: Single = f.sep_fall.times(sep);
    let spread: Single = f.sep_spread;
    let alt: Single = separated_distance(p);
    if p.x.lt(sgl(D1)) {
        Vector {
            x: v.x.minus(speed.times(sgl(D0_9)).times(fall).times(spread)),
            y: v.y.plus(speed.times(sgl(D0_55)).times(fall).times(spread).times(f.sep_wobble)),
            z: v.z.plus(
                speed.times(sgl(D0_5)).times(fall).times(spread).times(
                    p.z.over(alt.plus(sgl(D0_5))),
                ),
            ),
        }
    } else {
        v
    }
}

/// The flow with the separation of a stalled wing.
pub open spec fn separation_on(
    v: Vector,
    p: Vector,
    speed: Single,
    sep: Single,
    f: BodyTerms,
) -> Vector {
    let w = stalled_wake_on(rotor_on(v, p, speed, sep), p, speed, sep, f);
    let tu = speed.product(sgl(D0_5)).product(sep).product(f.sep_turbulence);
    if sgl(D0_01).below(sep) {
        Vector {
            x: w.x,
            y: w.y.sum(tu.product(f.sep_angle_x).product(f.sep_angle_z)),
            z: w.z.sum(tu.product(f.sep_angle_zt).product(f.sep_angle_y)),
        }
    } else {
        v
    }
}

/// The flow with the separation of a stalled wing.
pub fn with_separation(
    v: Vector,
    p: Vector,
    speed: Single,
    sep: Single,
    f: BodyTerms,
) -> (r: Vector)
    ensures
        r == separation_on(v, p, speed, sep, f),
{
    let w: Vector = with_stalled_wake(with_rotor(v, p, speed, sep), p, speed, sep, f);
    let tu: Single = speed.times(sgl(D0_5)).times(sep).times(f.sep_turbulence);
    if sep.gt(sgl(D0_01)) {
        Vector {
            x: w.x,
            y: w.y.plus(tu.times(f.sep_angle_x).times(f.sep_angle_z)),
            z: w.z.plus(tu.times(f.sep_angle_zt).times(f.sep_angle_y)),
        }
    } else {
        v
    }
}

/// The flow with the wake behind the body.
pub open spec fn wake_on(v: Vector, p: Vector, speed: Single, f: BodyTerms) -> Vector {
    let breadth = p.x.negated().difference(sgl(D1)).quotient(sgl(D12)).clamped(sgl(D0), sgl(D1));
    let alt = axis_radius(p);
    let wobble = f.wake_angle_x.sum(f.wake_angle_y).sum(f.wake_angle_z).product(sgl(D0_5));
    if p.x.below(sgl(M1)) {
        Vector {
            x: v.x.difference(speed.product(sgl(D1)).product(breadth).product(f.wake_core)),
            y: v.y.sum(
                speed.product(sgl(D0_8)).product(breadth).product(f.wake_spread).product(
                    p.y.quotient(alt.sum(sgl(D0_6))),
                ).product(wobble),
            ),
            z: v.z.sum(
                speed.product(sgl(D0_8)).product(breadth).product(f.wake_spread).product(
                    p.z.quotient(alt.sum(sgl(D0_6))),
                ).product(wobble),
            ),
        }
    } else {
        v
    }
}

/// The flow with the wake behind the body.
pub fn with_wake(v: Vector, p: Vector, speed: Single, f: BodyTerms) -> (r: Vector)
    ensures
        r == wake_on(v, p, speed, f),
{
    proof {
        crate::single::limits_are_ordered();
    }
    let breadth: Single = p.x.neg().minus(sgl(D1)).over(sgl(D12)).clamp(sgl(D0), sgl(D1));
    let alt: Single = axis_distance(p);
    let wobble: Single = f.wake_angle_x.plus(f.wake_angle_y).plus(f.wake_angle_z).times(sgl(D0_5));
    if p.x.lt(sgl(M1)) {
        Vector {
            x: v.x.minus(speed.times(sgl(D1)).times(breadth).times(f.wake_core)),
            y: v.y.plus(
                speed.times(sgl(D0_8)).times(breadth).times(f.wake_spread).times(
                    p.y.over(alt.plus(sgl(D0_6))),
                ).times(wobble),
            ),
            z: v.z.plus(
                speed.times(sgl(D0_8)).times(breadth).times(f.wake_spread).times(
                    p.z.over(alt.plus(sgl(D0_6))),
                ).times(wobble),
            ),
        }
    } else {
        v
    }
}

/// The flow with the slipstream of the propeller.
pub open spec fn slipstream_on(v: Vector, p: Vector, speed: Single, f: BodyTerms) -> Vector {
    let prx = p.x.difference(sgl(M2_38));
    let pry = p.y.difference(sgl(D0_08));
    let pr = prop_radius(p);
    let core = sgl(D0_3).product(sgl(D0_75));
    let core2 = core.product(core);
    let aft = if prx.below(sgl(D0)) {
        f.aft
    } else {
        sgl(D0)
    };
    let rg = sgl(D2).product(core).product(pr).quotient(pr.product(pr).sum(core2));
    let swirl = speed.product(sgl(D1_7)).product(sgl(D1_15)).product(aft).product(f.disk).product(rg);
    let safe = pr.larger(sgl(D1EM3));
    if sgl(D0_02).below(f.disk) {
        Vector {
            x: v.x.difference(
                speed.product(sgl(D1_7)).product(f.disk).product(
                    sgl(D0_25).product(f.inflow).sum(aft),
                ),
            ),
            y: v.y.sum(swirl.product(p.z.negated().quotient(safe))),
            z: v.z.sum(swirl.product(pry.quotient(safe))),
        }
    } else {
        v
    }
}

/// The flow with the slipstream of the propeller.
pub fn with_slipstream(v: Vector, p: Vector, speed: Single, f: BodyTerms) -> (r: Vector)
    ensures
        r == slipstream_on(v, p, speed, f),
{
    let prx: Single = p.x.minus(sgl(M2_38));
    let pry: Single = p.y.minus(sgl(D0_08));
    let pr: Single = prop_distance(p);
    let core: Single = sgl(D0_3).times(sgl(D0_75));
    let core2: Single = core.times(core);
    let aft: Single = if prx.lt(sgl(D0)) {
        f.aft
    } else {
        sgl(D0)
    };
    let rg: Single = sgl(D2).times(core).times(pr).over(pr.times(pr).plus(core2));
    let swirl: Single = speed.times(sgl(D1_7)).times(sgl(D1_15)).times(aft).times(f.disk).times(rg);
    let safe: Single = pr.max(sgl(D1EM3));
    if f.disk.gt(sgl(D0_02)) {
        Vector {
            x: v.x.minus(
                speed.times(sgl(D1_7)).times(f.disk).times(sgl(D0_25).times(f.inflow).plus(aft)),
            ),
            y: v.y.plus(swirl.times(p.z.neg().over(safe))),
            z: v.z.plus(swirl.times(pry.over(safe))),
        }
    } else {
        v
    }
}

/// The flow with the turbulence of the tunnel.
pub open spec fn turbulence_on(v: Vector, speed: Single, f: BodyTerms) -> Vector {
    let tu = speed.product(sgl(D0_3));
    Vector {
        x: v.x.sum(speed.product(sgl(D0_06)).product(f.turb_e)),
        y: v.y.sum(tu.product(f.turb_a).product(f.turb_b)),
        z: v.z.sum(tu.product(f.turb_c).product(f.turb_d)),
    }
}

/// The flow with the turbulence of the tunnel.
pub fn with_turbulence(v: Vector, speed: Single, f: BodyTerms) -> (r: Vector)
    ensures
        r == turbulence_on(v, speed, f),
{
    let tu: Single = speed.times(sgl(D0_3));
    Vector {
        x: v.x.plus(speed.times(sgl(D0_06)).times(f.turb_e)),
        y: v.y.plus(tu.times(f.turb_a).times(f.turb_b)),
        z: v.z.plus(tu.times(f.turb_c).times(f.turb_d)),
    }
}

/// The flow within 1.9 times the wind speed.
pub open spec fn limited_to(v: Vector, speed: Single) -> Vector {
    let max = speed.product(sgl(D1_9));
    if max.below(v.length()) {
        v.direction().scaled(max)
    } else {
        v
    }
}

/// The flow within 1.9 times the wind speed.
pub fn limited(v: Vector, speed: Single) -> (r: Vector)
    ensures
        r == limited_to(v, speed),
{
    let max: Single = speed.times(sgl(D1_9));
    if v.norm().gt(max) {
        v.normalize().times(max)
    } else {
        v
    }
}

/// What the body adds to the stream at a point, in body axes.
pub open spec fn flow_about(p: Vector, speed: Single, alpha: Single, f: BodyFactors) -> Vector {
    let push = out_of_body(p, f.cant_sine, f.cant_cosine);
    let a = deflection(p, speed, push);
    let b = separation_on(a, p, speed, separation_at(alpha), f.of);
    let c = wake_on(b, p, speed, f.of);
    let d = slipstream_on(c, p, speed, f.of);
    limited_to(turbulence_on(d, speed, f.of), speed)
}

/// What the body adds to the stream at a point, in body axes, at an angle of
/// attack (rad). `f` holds the functions of the terms at the point.
pub fn body_flow(p: Vector, speed: Single, alpha: Single, f: BodyFactors) -> (r: Vector)
    ensures
        r == flow_about(p, speed, alpha, f),
{
    let push: Push = body_push(p, f.cant_sine, f.cant_cosine);
    let a: Vector = deflected(p, speed, push);
    let b: Vector = with_separation(a, p, speed, separation(alpha), f.of);
    let c: Vector = with_wake(b, p, speed, f.of);
    let d: Vector = with_slipstream(c, p, speed, f.of);
    limited(with_turbulence(d, speed, f.of), speed)
}

/// Attached flow has no separation: up to 11 degrees the stall adds nothing.
pub proof fn attached_flow_does_not_separate(
    v: Vector,
    p: Vector,
    speed: Single,
    sep: Single,
    f: BodyTerms,
)
    requires
        sep.not_above(sgl(D0_01)),
    ensures
        separation_on(v, p, speed, sep, f) == v,
{
}

/// Outside the body nothing is deflected.
pub proof fn free_air_is_not_deflected(p: Vector, speed: Single, push: Push)
    requires
        push.depth.not_above(sgl(D0)),
    ensures
        deflection(p, speed, push) == Vector::zero(),
{
}

/// The square of a radius between a quarter and thirty.
proof fn lemma_radius(k: Single)
    requires
        crate::literal::num(D0_25).not_above(k.wide) && k.wide.not_above(crate::literal::num(D30)),
    ensures
        k.product(k).wide.finite(),
        sgl(D0).below(k.product(k)),
{
    reveal(crate::binary64::Binary64::narrowed);
    let p = k.wide.product(k.wide);
    crate::rounding::products_of_quarters(k.wide, k.wide);
    crate::rounding::moderate_products_stay_below(k.wide, k.wide);
    crate::single::narrowing_keeps_order(crate::literal::num(D0_01), p);
    crate::single::narrowing_keeps_order(p, crate::literal::num(D1000));
}

/// A part of a direction out of a body.
proof fn lemma_outwards(x: Single, k: Single, r: Single)
    requires
        x.wide.finite(),
        crate::literal::num(D0_25).not_above(k.wide) && k.wide.not_above(crate::literal::num(D30)),
        r.wide.finite() && sgl(D0).below(r),
        x.quotient(k.product(k)).wide.finite(),
    ensures
        crate::single::like_product(x.quotient(k.product(k)).quotient(r), x, sgl(D1)),
{
    crate::single::zero_is_held();
    lemma_radius(k);
    crate::single::quotients_follow_their_dividends(x, x, k.product(k));
    let y = x.quotient(k.product(k));
    crate::single::quotients_follow_their_dividends(y, y, r);
}

/// The fuselage pushes the air away from its axis, up and down and to either
/// side, and not along it.
pub proof fn fuselages_push_outwards(p: Vector)
    requires
        crate::single::is_held(p),
        sgl(D0).below(out_of_fuselage(p).depth),
        p.y.quotient(sgl(D0_45).product(sgl(D0_45))).wide.finite(),
        p.z.quotient(sgl(D0_4).product(sgl(D0_4))).wide.finite(),
        p.y.quotient(sgl(D0_45)).product(p.y.quotient(sgl(D0_45))).sum(
            p.z.quotient(sgl(D0_4)).product(p.z.quotient(sgl(D0_4))),
        ).root().larger(sgl(D1EM4)).wide.finite(),
    ensures
        crate::single::like_product(out_of_fuselage(p).dir.y, p.y, sgl(D1)),
        crate::single::like_product(out_of_fuselage(p).dir.z, p.z, sgl(D1)),
        out_of_fuselage(p).dir.x.wide.zero(),
{
    reveal(crate::binary64::Binary64::narrowed);
    crate::single::zero_is_held();
    let rn = p.y.quotient(sgl(D0_45)).product(p.y.quotient(sgl(D0_45))).sum(
        p.z.quotient(sgl(D0_4)).product(p.z.quotient(sgl(D0_4))),
    ).root().larger(sgl(D1EM4));
    lemma_outwards(p.y, sgl(D0_45), rn);
    lemma_outwards(p.z, sgl(D0_4), rn);
    crate::single::quotients_follow_their_dividends(sgl(D0), sgl(D0), rn);
}

/// The canopy pushes the air away from its middle.
pub proof fn canopies_push_outwards(p: Vector)
    requires
        crate::single::is_held(p),
        sgl(D0).below(out_of_canopy(p).depth),
        p.x.difference(sgl(D0_9)).wide.finite() && p.y.difference(sgl(D0_4)).wide.finite(),
        p.x.difference(sgl(D0_9)).quotient(sgl(D0_95).product(sgl(D0_95))).wide.finite(),
        p.y.difference(sgl(D0_4)).quotient(sgl(D0_28).product(sgl(D0_28))).wide.finite(),
        p.z.quotient(sgl(D0_35).product(sgl(D0_35))).wide.finite(),
        canopy_radius(p).wide.finite(),
    ensures
        sgl(D0_9).not_above(p.x) ==> sgl(D0).not_above(out_of_canopy(p).dir.x),
        p.x.not_above(sgl(D0_9)) ==> out_of_canopy(p).dir.x.not_above(sgl(D0)),
        sgl(D0_4).not_above(p.y) ==> sgl(D0).not_above(out_of_canopy(p).dir.y),
        p.y.not_above(sgl(D0_4)) ==> out_of_canopy(p).dir.y.not_above(sgl(D0)),
        crate::single::like_product(out_of_canopy(p).dir.z, p.z, sgl(D1)),
{
    reveal(crate::binary64::Binary64::narrowed);
    crate::single::zero_is_held();
    let r = canopy_radius(p);
    crate::single::differences_tell_the_order(p.x, sgl(D0_9));
    crate::single::differences_tell_the_order(p.y, sgl(D0_4));
    let (cx, cy) = (p.x.difference(sgl(D0_9)), p.y.difference(sgl(D0_4)));
    lemma_radius(sgl(D0_95));
    lemma_radius(sgl(D0_28));
    lemma_outwards(p.z, sgl(D0_35), r);
    let (k, l) = (sgl(D0_95).product(sgl(D0_95)), sgl(D0_28).product(sgl(D0_28)));
    crate::single::quotients_follow_their_dividends(cx, cx, k);
    crate::single::quotients_follow_their_dividends(cy, cy, l);
    crate::single::quotients_follow_their_dividends(cx.quotient(k), cx.quotient(k), r);
    crate::single::quotients_follow_their_dividends(cy.quotient(l), cy.quotient(l), r);
}

/// The distance from the middle of the canopy, in its own measure.
pub open spec fn canopy_radius(p: Vector) -> Single {
    let cx = p.x.difference(sgl(D0_9)).quotient(sgl(D0_95));
    let cy = p.y.difference(sgl(D0_4)).quotient(sgl(D0_28));
    let cz = p.z.quotient(sgl(D0_35));
    cx.product(cx).sum(cy.product(cy)).sum(cz.product(cz)).root().larger(sgl(D1EM4))
}

/// The wing pushes the air up above its middle and down below it where it is
/// nearer to its faces than to its edges, else along the chord.
pub proof fn wings_push_off_their_faces(p: Vector)
    requires
        crate::single::is_held(p),
        p.y.difference(sgl(D0_15)).wide.finite() && p.x.difference(sgl(D0_25)).wide.finite(),
    ensures
        ({
            let d = out_of_wing(p).dir;
            &&& sgl(D0_15).below(p.y) ==> !d.y.below(sgl(D0))
            &&& p.y.below(sgl(D0_15)) && !p.y.difference(sgl(D0_15)).wide.zero()
                ==> !sgl(D0).below(d.y)
            &&& sgl(D0_25).below(p.x) ==> !sgl(D0).below(d.x)
            &&& p.x.below(sgl(D0_25)) && !p.x.difference(sgl(D0_25)).wide.zero()
                ==> !d.x.below(sgl(D0))
            &&& d.z.wide.zero()
        }),
{
    reveal(crate::binary64::Binary64::narrowed);
    crate::single::zero_is_held();
    crate::single::differences_tell_the_order(p.y, sgl(D0_15));
    crate::single::differences_tell_the_order(p.x, sgl(D0_25));
    crate::rounding::differences_tell_the_order(p.y.wide, sgl(D0_15).wide);
    crate::rounding::differences_tell_the_order(p.x.wide, sgl(D0_25).wide);
    crate::single::narrowing_keeps_signs(p.y.wide.difference(sgl(D0_15).wide));
    crate::single::narrowing_keeps_signs(p.x.wide.difference(sgl(D0_25).wide));
}

/// The product of numbers that are not negative is not negative.
proof fn lemma_not_negative(a: Single, b: Single)
    requires
        a.wide.finite() && b.wide.finite(),
        sgl(D0).not_above(a) && sgl(D0).not_above(b),
    ensures
        sgl(D0).not_above(a.product(b)),
        !a.product(b).wide.nan(),
{
    crate::single::products_follow_their_factors(a, b, b);
}

/// The wake behind the body holds the flow back, and so does the wake of a
/// stalled wing: neither makes it faster along the stream.
pub proof fn wakes_hold_the_flow_back(
    v: Vector,
    p: Vector,
    speed: Single,
    sep: Single,
    f: BodyTerms,
)
    requires
        v.x.held() && p.x.held() && speed.held() && sep.held(),
        sgl(D0).not_above(speed) && sgl(D0).not_above(sep),
        f.wake_core.held() && sgl(D0).not_above(f.wake_core),
        f.sep_fall.held() && sgl(D0).not_above(f.sep_fall),
        f.sep_spread.held() && sgl(D0).not_above(f.sep_spread),
        f.sep_fall.product(sep).wide.finite(),
        speed.product(sgl(D1)).wide.finite() && speed.product(sgl(D0_9)).wide.finite(),
        speed.product(sgl(D0_9)).product(f.sep_fall.product(sep)).wide.finite(),
        ({
            let breadth = p.x.negated().difference(sgl(D1)).quotient(sgl(D12)).clamped(
                sgl(D0),
                sgl(D1),
            );
            breadth.wide.finite() && speed.product(sgl(D1)).product(breadth).wide.finite()
        }),
    ensures
        wake_on(v, p, speed, f).x.not_above(v.x),
        stalled_wake_on(v, p, speed, sep, f).x.not_above(v.x),
{
    reveal(crate::binary64::Binary64::narrowed);
    crate::single::zero_is_held();
    let breadth = p.x.negated().difference(sgl(D1)).quotient(sgl(D12)).clamped(
        sgl(D0),
        sgl(D1),
    );
    lemma_not_negative(speed, sgl(D1));
    lemma_not_negative(speed.product(sgl(D1)), breadth);
    lemma_not_negative(speed.product(sgl(D1)).product(breadth), f.wake_core);
    crate::single::terms_shift_their_way(
        v.x,
        speed.product(sgl(D1)).product(breadth).product(f.wake_core),
    );
    let fall = f.sep_fall.product(sep);
    lemma_not_negative(f.sep_fall, sep);
    lemma_not_negative(speed, sgl(D0_9));
    lemma_not_negative(speed.product(sgl(D0_9)), fall);
    lemma_not_negative(speed.product(sgl(D0_9)).product(fall), f.sep_spread);
    crate::single::terms_shift_their_way(
        v.x,
        speed.product(sgl(D0_9)).product(fall).product(f.sep_spread),
    );
}

/// The propeller drives the air backwards, which is against the first axis.
pub proof fn propellers_drive_the_air_back(v: Vector, p: Vector, speed: Single, f: BodyTerms)
    requires
        v.x.held() && p.x.held() && speed.held(),
        sgl(D0).not_above(speed),
        f.disk.held() && sgl(D0).not_above(f.disk),
        f.inflow.held() && sgl(D0).not_above(f.inflow),
        f.aft.held() && sgl(D0).not_above(f.aft),
        speed.product(sgl(D1_7)).wide.finite(),
        speed.product(sgl(D1_7)).product(f.disk).wide.finite(),
        sgl(D0_25).product(f.inflow).wide.finite(),
        sgl(D0_25).product(f.inflow).sum(f.aft).wide.finite(),
        sgl(D0_25).product(f.inflow).sum(sgl(D0)).wide.finite(),
    ensures
        slipstream_on(v, p, speed, f).x.not_above(v.x),
{
    reveal(crate::binary64::Binary64::narrowed);
    crate::single::zero_is_held();
    let aft = if p.x.difference(sgl(M2_38)).below(sgl(D0)) {
        f.aft
    } else {
        sgl(D0)
    };
    lemma_not_negative(speed, sgl(D1_7));
    lemma_not_negative(speed.product(sgl(D1_7)), f.disk);
    lemma_not_negative(sgl(D0_25), f.inflow);
    let drawn = sgl(D0_25).product(f.inflow);
    crate::rounding::sums_keep_signs(drawn.wide, aft.wide);
    crate::single::narrowing_keeps_order(
        crate::literal::num(D0),
        drawn.wide.sum(aft.wide),
    );
    lemma_not_negative(speed.product(sgl(D1_7)).product(f.disk), drawn.sum(aft));
    crate::single::terms_shift_their_way(
        v.x,
        speed.product(sgl(D1_7)).product(f.disk).product(drawn.sum(aft)),
    );
}

/// A stalled wing rolls the air up: above its centre the flow is held back,
/// below it the flow is driven on.
pub proof fn stalled_wings_roll_the_air_up(v: Vector, p: Vector, speed: Single, sep: Single)
    requires
        v.x.held() && p.y.held() && speed.held() && sep.held(),
        sgl(D0).not_above(speed) && sgl(D0).not_above(sep),
        sep.product(speed).wide.finite(),
        p.y.difference(sgl(D0_8)).wide.finite(),
        p.y.difference(sgl(D0_8)).quotient(sgl(D1_4)).wide.finite(),
        p.y.difference(sgl(D0_8)).quotient(sgl(D1_4)).negated().product(sgl(D1_2)).wide.finite(),
    ensures
        sgl(D0_8).not_above(p.y) ==> rotor_on(v, p, speed, sep).x.not_above(v.x),
        p.y.not_above(sgl(D0_8)) ==> v.x.not_above(rotor_on(v, p, speed, sep).x),
        rotor_on(v, p, speed, sep).z == v.z,
{
    reveal(crate::binary64::Binary64::narrowed);
    crate::single::zero_is_held();
    crate::single::differences_tell_the_order(p.y, sgl(D0_8));
    let d = p.y.difference(sgl(D0_8));
    crate::single::quotients_follow_their_dividends(d, d, sgl(D1_4));
    let dy = d.quotient(sgl(D1_4));
    crate::single::products_follow_their_factors(sgl(D1_2), dy.negated(), dy.negated());
    lemma_not_negative(sep, speed);
    let turn = dy.negated().product(sgl(D1_2));
    crate::single::products_follow_their_factors(sep.product(speed), turn, turn);
    crate::single::terms_shift_their_way(v.x, sep.product(speed).product(turn));
}

/// The flow separates alike at an angle of attack and at its opposite.
pub proof fn separation_has_no_side(alpha: Single)
    requires
        alpha.wide.finite(),
    ensures
        separation_at(alpha.negated()) == separation_at(alpha),
{
    reveal(crate::binary64::Binary64::narrowed);
    let k = sgl(D57_29577951308232).wide;
    crate::rounding::negated_factors(k, alpha.wide);
    crate::rounding::products_commute(k, alpha.wide);
    crate::rounding::products_commute(k, alpha.wide.negated());
    crate::rounding::products_are_numbers(alpha.wide, k);
    let p = alpha.wide.product(k);
    crate::single::narrowing_keeps_signs(p);
    crate::single::narrowing_keeps_signs(p.negated());
    assert(p.negated().narrowed().absolute() == p.narrowed().absolute());
}

} // verus!
