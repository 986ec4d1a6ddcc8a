//! The pressure of the wind on a collision shape of flat plates.
use crate::binary64::{Binary64, INFINITE_MAGNITUDE};
use crate::config::CollisionPanel;
use crate::literal::{
    num, D0, D0_0000181, D0_02, D0_074, D0_1, D0_5, D1, D10, D1EM12, D1EM6, D1_1, D1_225, D1_5,
    D3_141592653589793, D4, D7,
};
use crate::state::AircraftState;
use crate::vector::Vec3;
use vstd::prelude::*;

verus! {

/// A force and a moment.
#[derive(Clone, Copy, Debug, PartialEq, Eq, Structural)]
pub struct WindLoad {
    pub force: Vec3,
    pub moment: Vec3,
}

/// The normal of a panel as it is given.
pub open spec fn normal_of(panel: CollisionPanel) -> Vec3 {
    Vec3 { x: panel.normal@[0], y: panel.normal@[1], z: panel.normal@[2] }
}

/// The normal of a panel as it is given.
pub fn panel_normal(panel: &CollisionPanel) -> (r: Vec3)
    ensures
        r == normal_of(*panel),
{
    Vec3 { x: panel.normal[0], y: panel.normal[1], z: panel.normal[2] }
}

/// The centre of pressure of a panel.
pub open spec fn centre_of(panel: CollisionPanel) -> Vec3 {
    Vec3 { x: panel.cp@[0], y: panel.cp@[1], z: panel.cp@[2] }
}

/// The centre of pressure of a panel.
pub fn panel_centre(panel: &CollisionPanel) -> (r: Vec3)
    ensures
        r == centre_of(*panel),
{
    Vec3 { x: panel.cp[0], y: panel.cp[1], z: panel.cp[2] }
}

/// A load with the pressure of the wind on one more panel.
pub open spec fn load_with(load: WindLoad, panel: CollisionPanel, wind_body: Vec3) -> WindLoad {
    let raw = normal_of(panel);
    let n = raw.divided(raw.length());
    let vn = wind_body.inner(n);
    let f = num(D0_5).product(num(D1_225)).product(vn.absolute()).product(vn).product(panel.area).product(
        panel.cd,
    );
    WindLoad {
        force: load.force.sum(n.scaled(f)),
        moment: load.moment.sum(centre_of(panel).outer(n.scaled(f))),
    }
}

/// A load with the pressure of the wind on one more panel: along its normal,
/// by the square of the wind along it, at its centre of pressure.
pub fn panel_load(load: WindLoad, panel: &CollisionPanel, wind_body: Vec3) -> (r: WindLoad)
    ensures
        r == load_with(load, *panel, wind_body),
{
    let raw: Vec3 = panel_normal(panel);
    let n: Vec3 = raw.over(raw.norm());
    let vn: Binary64 = wind_body.dot(n);
    let f: Binary64 = num(D0_5).times(num(D1_225)).times(vn.abs()).times(vn).times(panel.area).times(panel.cd);
    WindLoad {
        force: load.force.plus(n.times(f)),
        moment: load.moment.plus(panel_centre(panel).cross(n.times(f))),
    }
}

/// The pressure of the wind, in body axes, on the first `n` panels.
pub open spec fn shape_load(panels: Seq<CollisionPanel>, wind_body: Vec3, n: nat) -> WindLoad
    decreases n,
{
    if n == 0 {
        WindLoad { force: Vec3::zero(), moment: Vec3::zero() }
    } else {
        load_with(shape_load(panels, wind_body, (n - 1) as nat), panels[n - 1], wind_body)
    }
}

/// Force and moment, in body axes, of the wind, in earth axes, on the panels.
pub fn compute_shape_wind(
    state: &AircraftState,
    panels: &[CollisionPanel],
    wind_earth: Vec3,
) -> (r: WindLoad)
    ensures
        r == shape_load(panels@, state.attitude().rotated(wind_earth), panels@.len()),
{
    let wind_body: Vec3 = state.rotation_earth_to_body().transform_vector(wind_earth);
    let mut load: WindLoad = WindLoad { force: Vec3::zeros(), moment: Vec3::zeros() };
    let mut i: usize = 0;
    while i < panels.len()
        invariant
            i <= panels@.len(),
            load == shape_load(panels@, wind_body, i as nat),
        decreases panels@.len() - i,
    {
        load = panel_load(load, &panels[i], wind_body);
        i += 1;
    }
    load
}

/// The drag of an imported model.
#[derive(Clone, Copy, Debug, PartialEq, Eq, Structural)]
pub struct ImportedAero {
    /// Force in body axes (N).
    pub force: Vec3,
    /// Moment about the origin (N m).
    pub moment: Vec3,
    /// Area across the stream (m2).
    pub frontal_area: Binary64,
    /// Surface (m2).
    pub wetted_area: Binary64,
    /// Length along the stream (m).
    pub reference_len: Binary64,
    /// Drag coefficient of the frontal area.
    pub cd_frontal: Binary64,
    /// Reynolds number of the length.
    pub re: Binary64,
}

/// The measures of a model.
#[derive(Clone, Copy, Debug, PartialEq, Eq, Structural)]
pub struct ShapeMetrics {
    pub wetted_area: Binary64,
    pub frontal_area: Binary64,
    pub reference_len: Binary64,
}

/// The bases of the powers that the drag of a model is made of.
#[derive(Clone, Copy, Debug, PartialEq, Eq, Structural)]
pub struct DragTerms {
    /// Reynolds number.
    pub re: Binary64,
    /// Thickness relative to the length, at most one.
    pub thin: Binary64,
    /// Slenderness relative to one and a half.
    pub slender: Binary64,
}

/// The values of the powers.
#[derive(Clone, Copy, Debug, PartialEq, Eq, Structural)]
pub struct DragPowers {
    /// Reynolds number to the power of 0.2.
    pub re_fifth_root: Binary64,
    /// Thickness to the power of 1.5.
    pub thin_three_halves: Binary64,
    /// Thickness to the power of 3.
    pub thin_cubed: Binary64,
    /// Slenderness to the power of 2.
    pub slender_squared: Binary64,
}

impl ImportedAero {
    /// No drag.
    pub open spec fn still() -> ImportedAero {
        ImportedAero {
            force: Vec3::zero(),
            moment: Vec3::zero(),
            frontal_area: num(D0),
            wetted_area: num(D0),
            reference_len: num(D0),
            cd_frontal: num(D0),
            re: num(D0),
        }
    }
}

impl Default for ImportedAero {
    fn default() -> (r: Self)
        ensures
            r == ImportedAero::still(),
    {
        ImportedAero {
            force: Vec3::zeros(),
            moment: Vec3::zeros(),
            frontal_area: num(D0),
            wetted_area: num(D0),
            reference_len: num(D0),
            cd_frontal: num(D0),
            re: num(D0),
        }
    }
}

/// The measures, none too small to divide by.
pub open spec fn floored_metrics(m: ShapeMetrics) -> ShapeMetrics {
    ShapeMetrics {
        wetted_area: m.wetted_area.larger(num(D1EM6)),
        frontal_area: m.frontal_area.larger(num(D1EM6)),
        reference_len: m.reference_len.larger(num(D0_1)),
    }
}

/// The measures, none too small to divide by.
pub fn usable_metrics(m: ShapeMetrics) -> (r: ShapeMetrics)
    ensures
        r == floored_metrics(m),
{
    ShapeMetrics {
        wetted_area: m.wetted_area.max(num(D1EM6)),
        frontal_area: m.frontal_area.max(num(D1EM6)),
        reference_len: m.reference_len.max(num(D0_1)),
    }
}

/// The bases of the powers at a wind speed.
pub open spec fn terms_of(v: Binary64, metrics: ShapeMetrics) -> DragTerms {
    let m = floored_metrics(metrics);
    let cross_diam = num(D4).product(m.frontal_area).quotient(num(D3_141592653589793)).larger(num(D0_1)).root();
    let slenderness = m.reference_len.quotient(cross_diam);
    DragTerms {
        re: num(D1_225).product(v).product(m.reference_len).quotient(num(D0_0000181)),
        thin: num(D1).quotient(slenderness).smaller(num(D1)),
        slender: slenderness.quotient(num(D1_5)),
    }
}

/// The bases of the powers at a wind speed.
pub fn drag_terms(v: Binary64, metrics: ShapeMetrics) -> (r: DragTerms)
    ensures
        r == terms_of(v, metrics),
{
    let m: ShapeMetrics = usable_metrics(metrics);
    let cross_diam: Binary64 = num(D4).times(m.frontal_area).over(num(D3_141592653589793)).max(num(D0_1)).sqrt();
    let slenderness: Binary64 = m.reference_len.over(cross_diam);
    DragTerms {
        re: num(D1_225).times(v).times(m.reference_len).over(num(D0_0000181)),
        thin: num(D1).over(slenderness).min(num(D1)),
        slender: slenderness.over(num(D1_5)),
    }
}

/// The drag coefficient of the frontal area: pressure, and friction on the
/// surface by the form.
pub open spec fn frontal_drag_of(
    terms: DragTerms,
    powers: DragPowers,
    metrics: ShapeMetrics,
) -> Binary64 {
    let m = floored_metrics(metrics);
    let cf = if num(D10).below(terms.re) {
        num(D0_074).quotient(powers.re_fifth_root)
    } else {
        num(D0_02)
    };
    let form_factor = num(D1).sum(num(D1_5).product(powers.thin_three_halves)).sum(
        num(D7).product(powers.thin_cubed),
    );
    let cd_pressure = num(D0_1).sum(num(D1_1).quotient(num(D1).sum(powers.slender_squared)));
    cd_pressure.sum(form_factor.product(cf).product(m.wetted_area.quotient(m.frontal_area)))
}

/// The drag coefficient of the frontal area: pressure, and friction on the
/// surface by the form.
pub fn frontal_drag(
    terms: DragTerms,
    powers: DragPowers,
    metrics: ShapeMetrics,
) -> (r: Binary64)
    ensures
        r == frontal_drag_of(terms, powers, metrics),
{
    let m: ShapeMetrics = usable_metrics(metrics);
    let cf: Binary64 = if terms.re.gt(num(D10)) {
        num(D0_074).over(powers.re_fifth_root)
    } else {
        num(D0_02)
    };
    let form_factor: Binary64 = num(D1).plus(num(D1_5).times(powers.thin_three_halves)).plus(
        num(D7).times(powers.thin_cubed),
    );
    let cd_pressure: Binary64 = num(D0_1).plus(num(D1_1).over(num(D1).plus(powers.slender_squared)));
    cd_pressure.plus(form_factor.times(cf).times(m.wetted_area.over(m.frontal_area)))
}

/// The box about the centres of pressure.
#[derive(Clone, Copy, Debug, PartialEq, Eq, Structural)]
pub struct CentreBox {
    pub low: Vec3,
    pub high: Vec3,
}

/// A box with one more panel.
pub open spec fn grown(b: CentreBox, panel: CollisionPanel) -> CentreBox {
    let c = centre_of(panel);
    CentreBox {
        low: Vec3 { x: b.low.x.smaller(c.x), y: b.low.y.smaller(c.y), z: b.low.z.smaller(c.z) },
        high: Vec3 { x: b.high.x.larger(c.x), y: b.high.y.larger(c.y), z: b.high.z.larger(c.z) },
    }
}

/// A box with one more panel.
pub fn box_with(b: CentreBox, panel: &CollisionPanel) -> (r: CentreBox)
    ensures
        r == grown(b, *panel),
{
    let c: Vec3 = panel_centre(panel);
    CentreBox {
        low: Vec3 { x: b.low.x.min(c.x), y: b.low.y.min(c.y), z: b.low.z.min(c.z) },
        high: Vec3 { x: b.high.x.max(c.x), y: b.high.y.max(c.y), z: b.high.z.max(c.z) },
    }
}

/// The box about the centres of pressure of the first `n` panels.
pub open spec fn box_of(panels: Seq<CollisionPanel>, n: nat) -> CentreBox
    decreases n,
{
    if n == 0 {
        let inf = num(INFINITE_MAGNITUDE);
        CentreBox {
            low: Vec3 { x: inf, y: inf, z: inf },
            high: Vec3 { x: inf.negated(), y: inf.negated(), z: inf.negated() },
        }
    } else {
        grown(box_of(panels, (n - 1) as nat), panels[n - 1])
    }
}

/// Weighted centres of pressure.
#[derive(Clone, Copy, Debug, PartialEq, Eq, Structural)]
pub struct CentreSum {
    pub sum: Vec3,
    pub weight: Binary64,
}

/// A sum with one more panel, weighted by the area that it shows to the
/// stream; a panel without a normal has none.
pub open spec fn joined(c: CentreSum, panel: CollisionPanel, stream: Vec3) -> CentreSum {
    let n = normal_of(panel);
    let norm = n.length();
    if norm.below(num(D1EM12)) {
        c
    } else {
        let w = panel.area.product(n.divided(norm).inner(stream)).absolute();
        CentreSum { sum: c.sum.sum(centre_of(panel).scaled(w)), weight: c.weight.sum(w) }
    }
}

/// A sum with one more panel, weighted by the area that it shows to the
/// stream; a panel without a normal has none.
pub fn centre_with(c: CentreSum, panel: &CollisionPanel, stream: Vec3) -> (r: CentreSum)
    ensures
        r == joined(c, *panel, stream),
{
    let n: Vec3 = panel_normal(panel);
    let norm: Binary64 = n.norm();
    if norm.lt(num(D1EM12)) {
        c
    } else {
        let w: Binary64 = panel.area.times(n.over(norm).dot(stream)).abs();
        CentreSum { sum: c.sum.plus(panel_centre(panel).times(w)), weight: c.weight.plus(w) }
    }
}

/// The weighted centres of pressure of the first `n` panels.
pub open spec fn centres_of(panels: Seq<CollisionPanel>, stream: Vec3, n: nat) -> CentreSum
    decreases n,
{
    if n == 0 {
        CentreSum { sum: Vec3::zero(), weight: num(D0) }
    } else {
        joined(centres_of(panels, stream, (n - 1) as nat), panels[n - 1], stream)
    }
}

/// The centre of pressure: the weighted mean, or the middle of the box without weight.
pub open spec fn mean_centre(c: CentreSum, b: CentreBox) -> Vec3 {
    if num(D1EM12).below(c.weight) {
        c.sum.divided(c.weight)
    } else {
        Vec3 {
            x: num(D0_5).product(b.low.x.sum(b.high.x)),
            y: num(D0_5).product(b.low.y.sum(b.high.y)),
            z: num(D0_5).product(b.low.z.sum(b.high.z)),
        }
    }
}

/// The centre of pressure: the weighted mean, or the middle of the box without
/// weight.
pub fn centre_of_pressure(c: CentreSum, b: CentreBox) -> (r: Vec3)
    ensures
        r == mean_centre(c, b),
{
    if c.weight.gt(num(D1EM12)) {
        c.sum.over(c.weight)
    } else {
        Vec3 {
            x: num(D0_5).times(b.low.x.plus(b.high.x)),
            y: num(D0_5).times(b.low.y.plus(b.high.y)),
            z: num(D0_5).times(b.low.z.plus(b.high.z)),
        }
    }
}

/// The drag of a model in a stream, in body axes; none without stream or
/// panels.
pub open spec fn imported_load(
    panels: Seq<CollisionPanel>,
    stream: Vec3,
    metrics: ShapeMetrics,
    powers: DragPowers,
) -> ImportedAero {
    let v = stream.length();
    if v.below(num(D1EM6)) || panels.len() == 0 {
        ImportedAero::still()
    } else {
        let s = stream.divided(v);
        let m = floored_metrics(metrics);
        let terms = terms_of(v, metrics);
        let cd = frontal_drag_of(terms, powers, metrics);
        let q = num(D0_5).product(num(D1_225)).product(v).product(v);
        let force = s.scaled(q.product(cd).product(m.frontal_area));
        let cop = mean_centre(centres_of(panels, s, panels.len()), box_of(panels, panels.len()));
        ImportedAero {
            force,
            moment: cop.outer(force),
            frontal_area: m.frontal_area,
            wetted_area: m.wetted_area,
            reference_len: m.reference_len,
            cd_frontal: cd,
            re: terms.re,
        }
    }
}

/// The drag of a model in a stream, in body axes: friction on its surface and
/// pressure on its frontal area, along the stream, at its centre of pressure.
/// `powers` are those of the drag terms at the speed of the stream.
pub fn compute_imported_shape_wind(
    panels: &[CollisionPanel],
    stream_body: Vec3,
    metrics: ShapeMetrics,
    powers: DragPowers,
) -> (r: ImportedAero)
    ensures
        r == imported_load(panels@, stream_body, metrics, powers),
{
    let v: Binary64 = stream_body.norm();
    if v.lt(num(D1EM6)) || panels.len() == 0 {
        return ImportedAero::default();
    }
    let s: Vec3 = stream_body.over(v);
    let m: ShapeMetrics = usable_metrics(metrics);
    let inf: Binary64 = num(INFINITE_MAGNITUDE);
    let mut bounds: CentreBox = CentreBox {
        low: Vec3 { x: inf, y: inf, z: inf },
        high: Vec3 { x: inf.neg(), y: inf.neg(), z: inf.neg() },
    };
    let mut centres: CentreSum = CentreSum { sum: Vec3::zeros(), weight: num(D0) };
    let mut i: usize = 0;
    while i < panels.len()
        invariant
            i <= panels@.len(),
            bounds == box_of(panels@, i as nat),
            centres == centres_of(panels@, s, i as nat),
        decreases panels@.len() - i,
    {
        bounds = box_with(bounds, &panels[i]);
        centres = centre_with(centres, &panels[i], s);
        i += 1;
    }
    let terms: DragTerms = drag_terms(v, metrics);
    let cd: Binary64 = frontal_drag(terms, powers, metrics);
    let q: Binary64 = num(D0_5).times(num(D1_225)).times(v).times(v);
    let force: Vec3 = s.times(q.times(cd).times(m.frontal_area));
    let cop: Vec3 = centre_of_pressure(centres, bounds);
    ImportedAero {
        force,
        moment: cop.cross(force),
        frontal_area: m.frontal_area,
        wetted_area: m.wetted_area,
        reference_len: m.reference_len,
        cd_frontal: cd,
        re: terms.re,
    }
}

/// A slower stream than a millionth of a metre per second is no stream, and a
/// shape without panels has no drag.
pub proof fn no_stream_no_drag(
    panels: Seq<CollisionPanel>,
    stream: Vec3,
    metrics: ShapeMetrics,
    powers: DragPowers,
)
    requires
        stream.length().below(num(D1EM6)) || panels.len() == 0,
    ensures
        imported_load(panels, stream, metrics, powers) == ImportedAero::still(),
{
}

/// A panel whose numbers are finite, with a normal that has a direction.
pub open spec fn sound_panel(panel: CollisionPanel) -> bool {
    let n = normal_of(panel).divided(normal_of(panel).length());
    let c = centre_of(panel);
    &&& n.x.finite() && n.y.finite() && n.z.finite()
    &&& c.x.finite() && c.y.finite() && c.z.finite()
    &&& panel.area.finite() && panel.cd.finite()
}

/// In still air the shape feels nothing: the trim of level flight is not
/// disturbed.
pub proof fn still_air_presses_on_nothing(panels: Seq<CollisionPanel>, wind_body: Vec3, n: nat)
    requires
        n <= panels.len(),
        forall|i: int| 0 <= i < n ==> sound_panel(#[trigger] panels[i]),
        crate::vector::vanishes(wind_body),
    ensures
        crate::vector::vanishes(shape_load(panels, wind_body, n).force),
        crate::vector::vanishes(shape_load(panels, wind_body, n).moment),
    decreases n,
{
    if n > 0 {
        still_air_presses_on_nothing(panels, wind_body, (n - 1) as nat);
        let panel = panels[n - 1];
        assert(sound_panel(panel));
        let m = normal_of(panel).divided(normal_of(panel).length());
        let vn = wind_body.inner(m);
        crate::rounding::zero_absorbs(wind_body.x, m.x);
        crate::rounding::zero_absorbs(wind_body.y, m.y);
        crate::rounding::zero_absorbs(wind_body.z, m.z);
        crate::rounding::zeros_add_to_zero(wind_body.x.product(m.x), wind_body.y.product(m.y));
        crate::rounding::zeros_add_to_zero(
            wind_body.x.product(m.x).sum(wind_body.y.product(m.y)),
            wind_body.z.product(m.z),
        );
        let half = num(D0_5).product(num(D1_225));
        assert(half.finite()) by {
            crate::rounding::fractions_shrink(num(D1_225), num(D0_5));
            crate::rounding::products_commute(num(D1_225), num(D0_5));
        }
        crate::rounding::zero_absorbs(vn.absolute(), half);
        crate::rounding::products_commute(half, vn.absolute());
        let f = half.product(vn.absolute()).product(vn).product(panel.area).product(panel.cd);
        crate::rounding::zero_absorbs(half.product(vn.absolute()), vn);
        crate::rounding::zero_absorbs(half.product(vn.absolute()).product(vn), panel.area);
        crate::rounding::zero_absorbs(half.product(vn.absolute()).product(vn).product(panel.area), panel.cd);
        crate::vector::scaling_by_zero_leaves_rest(m, f);
        let before = shape_load(panels, wind_body, (n - 1) as nat);
        let push = m.scaled(f);
        crate::vector::rests_add_to_rest(before.force, push);
        crate::vector::rest_turns_nothing(centre_of(panel), push);
        crate::vector::rests_add_to_rest(before.moment, centre_of(panel).outer(push));
    }
}

/// Force and coefficients of an imported shape do not depend on its panels,
/// and the force is the unit stream times the drag; only the moment depends on
/// the panels, as that of the force at some centre of pressure.
pub proof fn drag_lies_along_the_stream(
    p: Seq<CollisionPanel>,
    q: Seq<CollisionPanel>,
    stream: Vec3,
    metrics: ShapeMetrics,
    powers: DragPowers,
)
    requires
        !stream.length().below(num(D1EM6)),
        p.len() > 0,
        q.len() > 0,
    ensures
        ({
            let a = imported_load(p, stream, metrics, powers);
            let b = imported_load(q, stream, metrics, powers);
            let v = stream.length();
            &&& a == (ImportedAero { moment: a.moment, ..b })
            &&& a.force == stream.divided(v).scaled(
                num(D0_5).product(num(D1_225)).product(v).product(v).product(a.cd_frontal).product(
                    a.frontal_area,
                ),
            )
            &&& exists|centre: Vec3| a.moment == #[trigger] centre.outer(a.force)
        }),
{
    let a = imported_load(p, stream, metrics, powers);
    let s = stream.divided(stream.length());
    let centre = mean_centre(centres_of(p, s, p.len()), box_of(p, p.len()));
    assert(a.moment == centre.outer(a.force));
}

/// The push of the wind on a panel along its normal.
proof fn lemma_push(vn: Binary64, area: Binary64, cd: Binary64)
    requires
        vn.finite() && area.finite() && cd.finite(),
        num(D0).not_above(area) && num(D0).not_above(cd),
        ({
            let p = num(D0_5).product(num(D1_225)).product(vn.absolute());
            &&& p.finite() && p.product(vn).finite() && p.product(vn).product(area).finite()
        }),
    ensures
        ({
            let f = num(D0_5).product(num(D1_225)).product(vn.absolute()).product(vn).product(
                area,
            ).product(cd);
            &&& num(D0).not_above(vn) ==> num(D0).not_above(f)
            &&& vn.not_above(num(D0)) ==> f.not_above(num(D0))
            &&& !f.nan()
        }),
{
    let half = num(D0_5).product(num(D1_225));
    crate::rounding::fractions_shrink(num(D1_225), num(D0_5));
    crate::rounding::products_commute(num(D1_225), num(D0_5));
    let p = half.product(vn.absolute());
    crate::rounding::products_keep_signs(half, vn.absolute());
    crate::rounding::products_keep_signs(vn, p);
    crate::rounding::products_keep_signs(p, vn);
    let q = p.product(vn);
    crate::rounding::products_keep_signs(q, area);
    let r = q.product(area);
    crate::rounding::products_are_numbers(r, cd);
    crate::rounding::products_keep_signs(r, cd);
}

/// What is pushed along a normal.
proof fn lemma_pushed(x: Binary64, n: Binary64, f: Binary64)
    requires
        x.finite() && n.finite() && f.finite(),
    ensures
        (num(D0).not_above(n) && num(D0).not_above(f)) || (n.not_above(num(D0)) && f.not_above(
            num(D0),
        )) ==> x.not_above(x.sum(n.product(f))),
        (num(D0).not_above(n) && f.not_above(num(D0))) || (n.not_above(num(D0)) && num(
            D0,
        ).not_above(f)) ==> x.sum(n.product(f)).not_above(x),
{
    let p = n.product(f);
    crate::rounding::products_have_their_signs(n, f);
    crate::rounding::zeros_keep_signs(x, num(D0));
    crate::rounding::sums_are_numbers(x, num(D0));
    if p.finite() {
        crate::rounding::sums_are_numbers(x, p);
    }
    if num(D0).not_above(p) {
        crate::rounding::sums_of_ordered_terms(x, x, num(D0), p);
    }
    if p.not_above(num(D0)) {
        crate::rounding::sums_of_ordered_terms(x, x, p, num(D0));
    }
}

/// The wind pushes a panel along with it: where it blows along the normal the
/// force grows along the normal, where it blows against it the force grows
/// against it. A normal that is turned round changes nothing of that.
pub proof fn winds_push_panels_along(load: WindLoad, panel: CollisionPanel, wind: Vec3)
    requires
        crate::vector::is_finite(load.force),
        sound_panel(panel),
        num(D0).not_above(panel.area) && num(D0).not_above(panel.cd),
        ({
            let n = normal_of(panel).divided(normal_of(panel).length());
            let vn = wind.inner(n);
            let p = num(D0_5).product(num(D1_225)).product(vn.absolute());
            &&& vn.finite()
            &&& p.finite() && p.product(vn).finite() && p.product(vn).product(panel.area).finite()
            &&& p.product(vn).product(panel.area).product(panel.cd).finite()
        }),
    ensures
        ({
            let n = normal_of(panel).divided(normal_of(panel).length());
            let along = num(D0).not_above(wind.inner(n));
            let against = wind.inner(n).not_above(num(D0));
            let after = load_with(load, panel, wind).force;
            &&& along && num(D0).not_above(n.x) ==> load.force.x.not_above(after.x)
            &&& along && num(D0).not_above(n.y) ==> load.force.y.not_above(after.y)
            &&& along && num(D0).not_above(n.z) ==> load.force.z.not_above(after.z)
            &&& against && num(D0).not_above(n.x) ==> after.x.not_above(load.force.x)
            &&& against && num(D0).not_above(n.y) ==> after.y.not_above(load.force.y)
            &&& against && num(D0).not_above(n.z) ==> after.z.not_above(load.force.z)
            &&& along && n.x.not_above(num(D0)) ==> after.x.not_above(load.force.x)
            &&& along && n.y.not_above(num(D0)) ==> after.y.not_above(load.force.y)
            &&& along && n.z.not_above(num(D0)) ==> after.z.not_above(load.force.z)
            &&& against && n.x.not_above(num(D0)) ==> load.force.x.not_above(after.x)
            &&& against && n.y.not_above(num(D0)) ==> load.force.y.not_above(after.y)
            &&& against && n.z.not_above(num(D0)) ==> load.force.z.not_above(after.z)
        }),
{
    let n = normal_of(panel).divided(normal_of(panel).length());
    let vn = wind.inner(n);
    let f = num(D0_5).product(num(D1_225)).product(vn.absolute()).product(vn).product(
        panel.area,
    ).product(panel.cd);
    lemma_push(vn, panel.area, panel.cd);
    lemma_pushed(load.force.x, n.x, f);
    lemma_pushed(load.force.y, n.y, f);
    lemma_pushed(load.force.z, n.z, f);
}

/// The first panel turns the shape about the origin by its lever: the moment
/// follows the centre of pressure and the force in the order of the axes.
pub proof fn panels_turn_by_their_levers(load: WindLoad, panel: CollisionPanel, wind: Vec3)
    requires
        crate::vector::vanishes(load.force) && crate::vector::vanishes(load.moment),
        crate::vector::is_finite(centre_of(panel)),
        crate::vector::is_finite(load_with(load, panel, wind).force),
        ({
            let n = normal_of(panel).divided(normal_of(panel).length());
            let vn = wind.inner(n);
            crate::vector::is_finite(
                n.scaled(
                    num(D0_5).product(num(D1_225)).product(vn.absolute()).product(vn).product(
                        panel.area,
                    ).product(panel.cd),
                ),
            )
        }),
    ensures
        ({
            let c = centre_of(panel);
            let r = load_with(load, panel, wind);
            &&& c.y.zero() ==> crate::rounding::like_product(r.moment.z, c.x, r.force.y)
            &&& c.z.zero() ==> crate::rounding::like_product(r.moment.x, c.y, r.force.z)
            &&& c.x.zero() ==> crate::rounding::like_product(r.moment.y, c.z, r.force.x)
            &&& c.x.zero() ==> crate::rounding::like_product(
                r.moment.z,
                c.y.negated(),
                r.force.x,
            )
            &&& c.y.zero() ==> crate::rounding::like_product(
                r.moment.x,
                c.z.negated(),
                r.force.y,
            )
            &&& c.z.zero() ==> crate::rounding::like_product(
                r.moment.y,
                c.x.negated(),
                r.force.z,
            )
        }),
{
    let c = centre_of(panel);
    let n = normal_of(panel).divided(normal_of(panel).length());
    let vn = wind.inner(n);
    let push = n.scaled(
        num(D0_5).product(num(D1_225)).product(vn.absolute()).product(vn).product(
            panel.area,
        ).product(panel.cd),
    );
    crate::rounding::zeros_keep_signs(push.x, load.force.x);
    crate::rounding::zeros_keep_signs(push.y, load.force.y);
    crate::rounding::zeros_keep_signs(push.z, load.force.z);
    crate::vector::axes_follow_each_other(c, push);
    let m = c.outer(push);
    lemma_lever(m.x, load.moment.x);
    lemma_lever(m.y, load.moment.y);
    lemma_lever(m.z, load.moment.z);
}

proof fn lemma_lever(m: Binary64, z: Binary64)
    requires
        z.zero(),
    ensures
        !m.nan() ==> z.sum(m).same(m) && (m.zero() ==> z.sum(m).zero()) && (!m.zero() ==> z.sum(m)
            == m),
{
    if !m.nan() {
        crate::rounding::zeros_keep_signs(m, z);
    }
}

/// The box about the centres holds each centre.
pub proof fn boxes_hold_their_centres(b: CentreBox, panel: CollisionPanel)
    requires
        crate::vector::is_finite(centre_of(panel)),
    ensures
        ({
            let (c, g) = (centre_of(panel), grown(b, panel));
            &&& g.low.x.not_above(c.x) && g.low.y.not_above(c.y) && g.low.z.not_above(c.z)
            &&& c.x.not_above(g.high.x) && c.y.not_above(g.high.y) && c.z.not_above(g.high.z)
            &&& !b.low.x.nan() ==> g.low.x.not_above(b.low.x)
            &&& !b.low.y.nan() ==> g.low.y.not_above(b.low.y)
            &&& !b.low.z.nan() ==> g.low.z.not_above(b.low.z)
            &&& !b.high.x.nan() ==> b.high.x.not_above(g.high.x)
            &&& !b.high.y.nan() ==> b.high.y.not_above(g.high.y)
            &&& !b.high.z.nan() ==> b.high.z.not_above(g.high.z)
        }),
{
}

/// Panels weigh, whichever way they face: no panel takes weight away.
pub proof fn panels_add_weight(c: CentreSum, panel: CollisionPanel, stream: Vec3)
    requires
        c.weight.finite() && num(D0).not_above(c.weight),
        !panel.area.product(
            normal_of(panel).divided(normal_of(panel).length()).inner(stream),
        ).nan(),
    ensures
        c.weight.not_above(joined(c, panel, stream).weight),
{
    let w = panel.area.product(
        normal_of(panel).divided(normal_of(panel).length()).inner(stream),
    ).absolute();
    crate::rounding::sums_grow(c.weight, w);
}

/// The Reynolds number grows with the speed of the stream.
pub proof fn faster_streams_have_larger_reynolds_numbers(
    slow: Binary64,
    fast: Binary64,
    metrics: ShapeMetrics,
)
    requires
        num(D0).not_above(slow) && slow.not_above(fast) && fast.finite() && slow.finite(),
        num(D1_225).product(fast).finite() && num(D1_225).product(slow).finite(),
        floored_metrics(metrics).reference_len.finite(),
        num(D1_225).product(fast).product(floored_metrics(metrics).reference_len).finite(),
        num(D1_225).product(slow).product(floored_metrics(metrics).reference_len).finite(),
    ensures
        num(D0).not_above(terms_of(slow, metrics).re),
        terms_of(slow, metrics).re.not_above(terms_of(fast, metrics).re),
        terms_of(slow, metrics).thin == terms_of(fast, metrics).thin,
        terms_of(slow, metrics).slender == terms_of(fast, metrics).slender,
{
    let l = floored_metrics(metrics).reference_len;
    let (p, q) = (num(D1_225).product(slow), num(D1_225).product(fast));
    crate::rounding::factors_keep_order(num(D1_225), slow, fast);
    crate::rounding::products_keep_signs(num(D1_225), slow);
    crate::rounding::factors_keep_order(l, p, q);
    crate::rounding::products_keep_signs(p, l);
    crate::rounding::quotients_keep_order(p.product(l), q.product(l), num(D0_0000181));
}

/// Whether the powers of the drag terms are finite and not negative.
pub open spec fn are_powers(p: DragPowers) -> bool {
    &&& p.re_fifth_root.finite() && num(D0).below(p.re_fifth_root)
    &&& p.thin_three_halves.finite() && num(D0).not_above(p.thin_three_halves)
    &&& p.thin_cubed.finite() && num(D0).not_above(p.thin_cubed)
    &&& p.slender_squared.finite() && num(D0).not_above(p.slender_squared)
    &&& num(D1).sum(p.slender_squared).finite()
    &&& num(D1_5).product(p.thin_three_halves).finite() && num(D7).product(p.thin_cubed).finite()
    &&& num(D1).sum(num(D1_5).product(p.thin_three_halves)).finite()
    &&& num(D1).sum(num(D1_5).product(p.thin_three_halves)).sum(
        num(D7).product(p.thin_cubed),
    ).finite()
}

/// A slender shape has less pressure drag: at the same friction the drag does
/// not grow with the slenderness.
pub proof fn slender_shapes_have_less_drag(
    terms: DragTerms,
    a: DragPowers,
    b: DragPowers,
    metrics: ShapeMetrics,
)
    requires
        are_powers(a) && are_powers(b),
        b == (DragPowers { slender_squared: b.slender_squared, ..a }),
        a.slender_squared.not_above(b.slender_squared),
        !frontal_drag_of(terms, a, metrics).nan(),
        !frontal_drag_of(terms, b, metrics).nan(),
    ensures
        frontal_drag_of(terms, b, metrics).not_above(frontal_drag_of(terms, a, metrics)),
{
    let (s, t) = (num(D1).sum(a.slender_squared), num(D1).sum(b.slender_squared));
    crate::rounding::sums_of_ordered_terms(
        num(D1),
        num(D1),
        a.slender_squared,
        b.slender_squared,
    );
    crate::rounding::sums_grow(num(D1), a.slender_squared);
    crate::rounding::larger_divisors_give_less(num(D1_1), s, t);
    let (p, q) = (num(D1_1).quotient(s), num(D1_1).quotient(t));
    crate::rounding::quotients_are_numbers(num(D1_1), s);
    crate::rounding::quotients_are_numbers(num(D1_1), t);
    if p.finite() {
        crate::rounding::sums_are_numbers(num(D0_1), p);
    }
    if q.finite() {
        crate::rounding::sums_are_numbers(num(D0_1), q);
    }
    crate::rounding::sums_of_ordered_terms(num(D0_1), num(D0_1), q, p);
    let m = floored_metrics(metrics);
    let cf = if num(D10).below(terms.re) {
        num(D0_074).quotient(a.re_fifth_root)
    } else {
        num(D0_02)
    };
    let form = num(D1).sum(num(D1_5).product(a.thin_three_halves)).sum(
        num(D7).product(a.thin_cubed),
    );
    let friction = form.product(cf).product(m.wetted_area.quotient(m.frontal_area));
    crate::rounding::sums_of_ordered_terms(
        num(D0_1).sum(q),
        num(D0_1).sum(p),
        friction,
        friction,
    );
}

} // verus!
