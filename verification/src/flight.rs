//! Flight through the air: the loads on an aircraft, its level flight and its
//! steps, with the elementary functions that they need.
use crate::aero::{
    air_angle_terms, compute_forces_with_terrain, compute_moments_with_terrain,
    drag_blend_argument, lift_blend_argument, pitch_sense_argument, stall_angle, AirAngles,
    AttitudeFactors, ControlInputs, Load,
};
use crate::atmosphere::{AirFactors, AirTerms, Atmosphere};
use crate::binary64::Binary64;
use crate::config::{AircraftConfig, CollisionPanel};
use crate::elementary::{normal, Elementary};
use crate::integrator::{step, step_over_ground, StageLoads};
use crate::literal::{num, D0, D0_2, D0_5, D1, D1_5, D2, D3, D300, D3_5};
use crate::prng::Prng;
use crate::shape::{
    compute_imported_shape_wind, drag_terms, DragPowers, DragTerms, ImportedAero, ShapeMetrics,
};
use crate::state::{AircraftState, AttitudeTerms, Trim, TrimAngles};
use crate::terrain::Terrain;
use crate::vector::Vec3;
use crate::wind::{GustState, WindConfig, WindEnvironment, WindInputs};
use vstd::prelude::*;

verus! {

/// Whether these are the factors of the air for its terms.
pub open spec fn air_factors_of<M: Elementary>(m: M, t: AirTerms, f: AirFactors) -> bool {
    &&& call_ensures(M::powf, (&m, t.base, t.exponent), f.power)
    &&& call_ensures(M::exp, (&m, t.decay), f.exponential)
    &&& call_ensures(M::powf, (&m, t.temperature, num(D1_5)), f.temperature_power)
}

/// Whether this is the air at an altitude.
pub open spec fn is_air<M: Elementary>(m: M, altitude: Binary64, air: Atmosphere) -> bool {
    exists|f: AirFactors| #[trigger]
        air_factors_of(m, Atmosphere::terms_at(altitude), f) && air == Atmosphere::air_at(
            altitude,
            f,
        )
}

/// The air at an altitude.
pub fn air<M: Elementary>(m: &M, altitude: Binary64) -> (r: Atmosphere)
    ensures
        is_air(*m, altitude, r),
{
    let t: AirTerms = Atmosphere::terms(altitude);
    let f: AirFactors = AirFactors {
        power: m.powf(t.base, t.exponent),
        exponential: m.exp(t.decay),
        temperature_power: m.powf(t.temperature, num(D1_5)),
    };
    proof {
        assert(air_factors_of(*m, t, f));
    }
    Atmosphere::at_altitude(altitude, f)
}

/// Whether this is the calibrated airspeed in air.
pub open spec fn is_calibrated<M: Elementary>(
    m: M,
    air: Atmosphere,
    true_airspeed: Binary64,
    r: Binary64,
) -> bool {
    exists|impact: Binary64, root: Binary64| #[trigger]
        call_ensures(M::powf, (&m, air.impact_term(true_airspeed), num(D3_5)), impact)
            && #[trigger] call_ensures(
            M::powf,
            (
                &m,
                Atmosphere::calibration_terms(air.impact(true_airspeed, impact)).0,
                Atmosphere::calibration_terms(air.impact(true_airspeed, impact)).1,
            ),
            root,
        ) && r == Atmosphere::calibrated(air.impact(true_airspeed, impact), root)
}

/// The calibrated airspeed in air.
pub fn calibrated_airspeed<M: Elementary>(
    m: &M,
    air: &Atmosphere,
    true_airspeed: Binary64,
) -> (r: Binary64)
    ensures
        is_calibrated(*m, *air, true_airspeed, r),
{
    let impact: Binary64 = m.powf(air.impact_base(true_airspeed), num(D3_5));
    let qc: Binary64 = air.impact_pressure(true_airspeed, impact);
    let (base, exponent) = Atmosphere::calibration_base(qc);
    let root: Binary64 = m.powf(base, exponent);
    Atmosphere::calibrated_airspeed(qc, root)
}

/// Whether these are the powers that the drag of an imported shape needs.
pub open spec fn are_drag_powers<M: Elementary>(m: M, t: DragTerms, p: DragPowers) -> bool {
    &&& call_ensures(M::powf, (&m, t.re, num(D0_2)), p.re_fifth_root)
    &&& call_ensures(M::powf, (&m, t.thin, num(D1_5)), p.thin_three_halves)
    &&& call_ensures(M::powf, (&m, t.thin, num(D3)), p.thin_cubed)
    &&& call_ensures(M::powf, (&m, t.slender, num(D2)), p.slender_squared)
}

/// The load of a stream on an imported shape.
pub fn imported_shape_wind<M: Elementary>(
    m: &M,
    panels: &[CollisionPanel],
    stream_body: Vec3,
    metrics: ShapeMetrics,
) -> (r: ImportedAero)
    ensures
        exists|p: DragPowers| #[trigger]
            are_drag_powers(*m, crate::shape::terms_of(stream_body.length(), metrics), p) && r
                == crate::shape::imported_load(panels@, stream_body, metrics, p),
{
    let t: DragTerms = drag_terms(stream_body.norm(), metrics);
    let p: DragPowers = DragPowers {
        re_fifth_root: m.powf(t.re, num(D0_2)),
        thin_three_halves: m.powf(t.thin, num(D1_5)),
        thin_cubed: m.powf(t.thin, num(D3)),
        slender_squared: m.powf(t.slender, num(D2)),
    };
    proof {
        assert(are_drag_powers(*m, t, p));
    }
    compute_imported_shape_wind(panels, stream_body, metrics, p)
}

/// Whether these are the angles of the air that moves past the body, with the
/// functions of them.
pub open spec fn are_air_angles<M: Elementary>(
    m: M,
    v_air: Vec3,
    config: AircraftConfig,
    controls: ControlInputs,
    a: AirAngles,
) -> bool {
    let t = crate::aero::angle_terms(v_air);
    let stall = crate::aero::stall_with_flap(config, controls);
    &&& call_ensures(M::atan2, (&m, t.0.0, t.0.1), a.alpha)
    &&& call_ensures(M::atan2, (&m, t.1.0, t.1.1), a.beta)
    &&& call_ensures(M::sin, (&m, a.alpha), a.sin_alpha)
    &&& call_ensures(M::cos, (&m, a.alpha), a.cos_alpha)
    &&& call_ensures(M::cos, (&m, a.beta), a.cos_beta)
    &&& call_ensures(M::sin, (&m, num(D2).product(a.alpha)), a.sin_two_alpha)
    &&& call_ensures(
        M::tanh,
        (&m, crate::aero::lift_blend_at(a.alpha, stall, config.alpha_stall_neg)),
        a.lift_tanh,
    )
    &&& call_ensures(
        M::tanh,
        (&m, crate::aero::drag_blend_at(a.alpha, stall, config.alpha_stall_neg)),
        a.drag_tanh,
    )
}

/// The angles of the air that moves past the body.
pub fn air_angles<M: Elementary>(
    m: &M,
    v_air: Vec3,
    config: &AircraftConfig,
    controls: ControlInputs,
) -> (r: AirAngles)
    ensures
        are_air_angles(*m, v_air, *config, controls, r),
{
    let t: ((Binary64, Binary64), (Binary64, Binary64)) = air_angle_terms(v_air);
    let alpha: Binary64 = m.atan2((t.0).0, (t.0).1);
    let beta: Binary64 = m.atan2((t.1).0, (t.1).1);
    let stall: Binary64 = stall_angle(config, controls);
    AirAngles {
        alpha,
        beta,
        sin_alpha: m.sin(alpha),
        cos_alpha: m.cos(alpha),
        cos_beta: m.cos(beta),
        sin_two_alpha: m.sin(num(D2).times(alpha)),
        lift_tanh: m.tanh(lift_blend_argument(alpha, stall, config.alpha_stall_neg)),
        drag_tanh: m.tanh(drag_blend_argument(alpha, stall, config.alpha_stall_neg)),
    }
}

/// Whether this is the roll angle of a state.
pub open spec fn is_roll<M: Elementary>(m: M, s: AircraftState, roll: Binary64) -> bool {
    call_ensures(M::atan2, (&m, s.attitude_terms().roll_y, s.attitude_terms().roll_x), roll)
}

/// Whether these are the factors of the attitude of a state.
pub open spec fn are_attitude_factors<M: Elementary>(
    m: M,
    s: AircraftState,
    f: AttitudeFactors,
) -> bool {
    &&& exists|roll: Binary64| #[trigger]
        is_roll(m, s, roll) && call_ensures(M::sin, (&m, roll), f.sin_bank)
    &&& call_ensures(M::tanh, (&m, crate::aero::pitch_sense_at(s)), f.pitch_sense)
}

/// The factors of the attitude of a state.
pub fn attitude_factors<M: Elementary>(m: &M, s: &AircraftState) -> (r: AttitudeFactors)
    ensures
        are_attitude_factors(*m, *s, r),
{
    let t: AttitudeTerms = s.euler_angle_terms();
    let roll: Binary64 = m.atan2(t.roll_y, t.roll_x);
    proof {
        assert(is_roll(*m, *s, roll));
    }
    AttitudeFactors { sin_bank: m.sin(roll), pitch_sense: m.tanh(pitch_sense_argument(s)) }
}

/// Roll, pitch and yaw of a state.
pub fn euler_angles<M: Elementary>(m: &M, s: &AircraftState) -> (r: (Binary64, Binary64, Binary64))
    ensures
        is_roll(*m, *s, r.0),
        call_ensures(M::asin, (m, s.attitude_terms().pitch_sine), r.1),
        call_ensures(M::atan2, (m, s.attitude_terms().yaw_y, s.attitude_terms().yaw_x), r.2),
{
    let t: AttitudeTerms = s.euler_angle_terms();
    (m.atan2(t.roll_y, t.roll_x), m.asin(t.pitch_sine), m.atan2(t.yaw_y, t.yaw_x))
}

/// The angle of attack of a state in still air.
pub fn angle_of_attack<M: Elementary>(m: &M, s: &AircraftState) -> (r: Binary64)
    ensures
        call_ensures(M::atan2, (m, s.attack_terms().0, s.attack_terms().1), r),
{
    let t: (Binary64, Binary64) = s.angle_of_attack_terms();
    m.atan2(t.0, t.1)
}

/// The sideslip angle of a state in still air.
pub fn sideslip_angle<M: Elementary>(m: &M, s: &AircraftState) -> (r: Binary64)
    ensures
        call_ensures(M::atan2, (m, s.slip_terms().0, s.slip_terms().1), r),
{
    let t: (Binary64, Binary64) = s.sideslip_angle_terms();
    m.atan2(t.0, t.1)
}

/// The angle at which a state climbs.
pub fn flight_path_angle<M: Elementary>(m: &M, s: &AircraftState) -> (r: Binary64)
    ensures
        call_ensures(M::atan2, (m, s.path_terms().0, s.path_terms().1), r),
{
    let t: (Binary64, Binary64) = s.flight_path_angle_terms();
    m.atan2(t.0, t.1)
}

/// Whether these are the bells of the hills at a place.
pub open spec fn are_bells<M: Elementary>(
    m: M,
    t: Terrain,
    north: Binary64,
    east: Binary64,
    bells: Seq<Binary64>,
) -> bool {
    &&& bells.len() == t.hills@.len()
    &&& forall|i: int|
        #![trigger bells[i]]
        0 <= i < bells.len() ==> call_ensures(
            M::exp,
            (&m, t.hills@[i].bell_exponent(north, east)),
            bells[i],
        )
}

/// The bells of the hills at a place.
pub fn bells<M: Elementary>(
    m: &M,
    t: &Terrain,
    north: Binary64,
    east: Binary64,
) -> (r: Vec<Binary64>)
    ensures
        are_bells(*m, *t, north, east, r@),
{
    let exponents: Vec<Binary64> = t.exponents(north, east);
    let mut r: Vec<Binary64> = Vec::new();
    let mut i: usize = 0;
    while i < exponents.len()
        invariant
            i <= exponents@.len(),
            exponents@.len() == t.hills@.len(),
            forall|k: int|
                0 <= k < exponents@.len() ==> #[trigger] exponents@[k]
                    == t.hills@[k].bell_exponent(north, east),
            r@.len() == i,
            forall|k: int|
                #![trigger r@[k]]
                0 <= k < i ==> call_ensures(
                    M::exp,
                    (m, t.hills@[k].bell_exponent(north, east)),
                    r@[k],
                ),
        decreases exponents@.len() - i,
    {
        r.push(m.exp(exponents[i]));
        i += 1;
    }
    r
}

/// Whether this is the height of the ground at a place.
pub open spec fn is_height<M: Elementary>(
    m: M,
    t: Terrain,
    north: Binary64,
    east: Binary64,
    h: Binary64,
) -> bool {
    exists|b: Seq<Binary64>| #[trigger]
        are_bells(m, t, north, east, b) && h == crate::terrain::height_of(
            t.hills@,
            b,
            t.hills@.len(),
        )
}

/// The height of the ground at a place.
pub fn height<M: Elementary>(m: &M, t: &Terrain, north: Binary64, east: Binary64) -> (r: Binary64)
    ensures
        is_height(*m, *t, north, east, r),
{
    let b: Vec<Binary64> = bells(m, t, north, east);
    t.height(b.as_slice())
}

/// Whether this is how far a state is above the ground, where there is terrain.
pub open spec fn is_clearance<M: Elementary>(
    m: M,
    terrain: Option<&Terrain>,
    s: AircraftState,
    agl: Option<Binary64>,
) -> bool {
    match (terrain, agl) {
        (None, None) => true,
        (Some(t), Some(a)) => exists|h: Binary64| #[trigger]
            is_height(m, *t, s.pos_x, s.pos_y, h) && a == crate::terrain::above_ground(
                s.height(),
                h,
            ),
        _ => false,
    }
}

/// How far a state is above the ground, where there is terrain.
pub fn clearance<M: Elementary>(m: &M, terrain: Option<&Terrain>, s: &AircraftState) -> (r: Option<
    Binary64,
>)
    ensures
        is_clearance(*m, terrain, *s, r),
{
    match terrain {
        Some(t) => Some(s.altitude().minus(height(m, t, s.pos_x, s.pos_y))),
        None => None,
    }
}

/// Whether this is the wind that the slope of the ground deflects upwards at a
/// place.
pub open spec fn is_orographic<M: Elementary>(
    m: M,
    t: Terrain,
    wind_earth: Vec3,
    north: Binary64,
    east: Binary64,
    altitude: Binary64,
    agl_decay_scale: Binary64,
    r: Vec3,
) -> bool {
    exists|b: Seq<Binary64>, decay: Binary64| #[trigger]
        are_bells(m, t, north, east, b) && #[trigger] call_ensures(
            M::exp,
            (
                &m,
                crate::terrain::updraft_exponent(
                    altitude.difference(crate::terrain::height_of(t.hills@, b, t.hills@.len())),
                    agl_decay_scale,
                ),
            ),
            decay,
        ) && r == crate::terrain::updraft(
            wind_earth,
            crate::terrain::slope_of(t.hills@, north, east, b, t.hills@.len()),
            altitude.difference(crate::terrain::height_of(t.hills@, b, t.hills@.len())),
            decay,
        )
}

/// The wind that the slope of the ground deflects upwards at a place.
pub fn orographic_wind<M: Elementary>(
    m: &M,
    t: &Terrain,
    wind_earth: Vec3,
    north: Binary64,
    east: Binary64,
    altitude: Binary64,
    agl_decay_scale: Binary64,
) -> (r: Vec3)
    ensures
        is_orographic(*m, *t, wind_earth, north, east, altitude, agl_decay_scale, r),
{
    let b: Vec<Binary64> = bells(m, t, north, east);
    let agl: Binary64 = t.altitude_above_ground(altitude, b.as_slice());
    let decay: Binary64 = m.exp(crate::terrain::decay_exponent(agl, agl_decay_scale));
    t.orographic_wind(wind_earth, north, east, altitude, b.as_slice(), decay)
}

/// Whether this is the wind that an aircraft feels: over terrain the slope of
/// the ground below adds its updraft, which fades over 300 m.
pub open spec fn is_felt<M: Elementary>(
    m: M,
    terrain: Option<&Terrain>,
    s: AircraftState,
    wind: Vec3,
    felt: Vec3,
) -> bool {
    match terrain {
        Some(t) => exists|o: Vec3| #[trigger]
            is_orographic(m, *t, wind, s.pos_x, s.pos_y, s.height(), num(D300), o) && felt
                == wind.sum(o),
        None => felt == wind,
    }
}

/// The wind that an aircraft feels.
pub fn felt_wind<M: Elementary>(
    m: &M,
    terrain: Option<&Terrain>,
    s: &AircraftState,
    wind: Vec3,
) -> (r: Vec3)
    ensures
        is_felt(*m, terrain, *s, wind, r),
{
    match terrain {
        Some(t) => {
            let o: Vec3 = orographic_wind(m, t, wind, s.pos_x, s.pos_y, s.altitude(), num(D300));
            proof {
                assert(is_orographic(*m, *t, wind, s.pos_x, s.pos_y, s.height(), num(D300), o));
            }
            wind.plus(o)
        },
        None => wind,
    }
}

/// What an aircraft meets in the air.
pub struct Meeting {
    pub air: Atmosphere,
    pub angles: AirAngles,
    pub attitude: AttitudeFactors,
    pub agl: Option<Binary64>,
}

/// Whether this is what an aircraft meets.
pub open spec fn is_met<M: Elementary>(
    m: M,
    s: AircraftState,
    config: AircraftConfig,
    controls: ControlInputs,
    wind: Vec3,
    terrain: Option<&Terrain>,
    w: Meeting,
) -> bool {
    &&& is_air(m, s.height(), w.air)
    &&& are_air_angles(m, s.relative_velocity(wind), config, controls, w.angles)
    &&& are_attitude_factors(m, s, w.attitude)
    &&& is_clearance(m, terrain, s, w.agl)
}

/// The load on an aircraft by what it meets.
pub open spec fn load_from(
    s: AircraftState,
    config: AircraftConfig,
    controls: ControlInputs,
    wind: Vec3,
    w: Meeting,
) -> Load {
    Load {
        force: crate::aero::forces_over(s, config, controls, wind, w.air, w.angles, w.agl),
        moment: crate::aero::moments_over(
            s,
            config,
            controls,
            num(D0),
            wind,
            w.air,
            w.angles,
            w.attitude,
            w.agl,
        ),
    }
}

/// Whether this is the load on an aircraft.
pub open spec fn is_load<M: Elementary>(
    m: M,
    s: AircraftState,
    config: AircraftConfig,
    controls: ControlInputs,
    wind: Vec3,
    terrain: Option<&Terrain>,
    l: Load,
) -> bool {
    exists|w: Meeting| #[trigger]
        is_met(m, s, config, controls, wind, terrain, w) && l == load_from(
            s,
            config,
            controls,
            wind,
            w,
        )
}

/// The load on an aircraft under its controls in the wind, over terrain.
pub fn load<M: Elementary>(
    m: &M,
    s: &AircraftState,
    config: &AircraftConfig,
    controls: ControlInputs,
    wind: Vec3,
    terrain: Option<&Terrain>,
) -> (r: Load)
    ensures
        is_load(*m, *s, *config, controls, wind, terrain, r),
{
    let w: Meeting = Meeting {
        air: air(m, s.altitude()),
        angles: air_angles(m, s.air_velocity(wind), config, controls),
        attitude: attitude_factors(m, s),
        agl: clearance(m, terrain, s),
    };
    proof {
        assert(is_met(*m, *s, *config, controls, wind, terrain, w));
    }
    Load {
        force: compute_forces_with_terrain(s, config, controls, wind, &w.air, w.angles, w.agl),
        moment: compute_moments_with_terrain(
            s,
            config,
            controls,
            num(D0),
            wind,
            &w.air,
            w.angles,
            w.attitude,
            w.agl,
        ),
    }
}

/// Whether these are the functions of an angle of attack in level flight.
pub open spec fn are_trim_angles<M: Elementary>(m: M, alpha: Binary64, a: TrimAngles) -> bool {
    &&& call_ensures(M::cos, (&m, alpha), a.cos)
    &&& call_ensures(M::sin, (&m, alpha), a.sin)
    &&& call_ensures(M::cos, (&m, alpha.product(num(D0_5))), a.half_cos)
    &&& call_ensures(M::sin, (&m, alpha.product(num(D0_5))), a.half_sin)
}

/// Whether this is level flight at an altitude and a speed.
pub open spec fn is_level_flight<M: Elementary>(
    m: M,
    config: AircraftConfig,
    altitude: Binary64,
    speed: Binary64,
    trim: Trim,
) -> bool {
    exists|air: Atmosphere, a: TrimAngles| #[trigger]
        is_air(m, altitude, air) && #[trigger] are_trim_angles(
            m,
            AircraftState::carrying_alpha(config, air, speed),
            a,
        ) && trim == AircraftState::level_flight(config, air, altitude, speed, a)
}

/// Level flight at an altitude and a speed.
pub fn level_flight<M: Elementary>(
    m: &M,
    config: &AircraftConfig,
    altitude: Binary64,
    speed: Binary64,
) -> (r: Trim)
    ensures
        is_level_flight(*m, *config, altitude, speed, r),
{
    let a: Atmosphere = air(m, altitude);
    let alpha: Binary64 = AircraftState::trim_alpha(config, &a, speed);
    let half: Binary64 = alpha.times(num(D0_5));
    let angles: TrimAngles = TrimAngles {
        cos: m.cos(alpha),
        sin: m.sin(alpha),
        half_cos: m.cos(half),
        half_sin: m.sin(half),
    };
    proof {
        assert(are_trim_angles(*m, alpha, angles));
    }
    AircraftState::trimmed(config, &a, altitude, speed, angles)
}

/// Whether these are the loads at the four points of a step.
pub open spec fn are_stage_loads<M: Elementary>(
    m: M,
    s: AircraftState,
    config: AircraftConfig,
    controls: ControlInputs,
    wind: Vec3,
    terrain: Option<&Terrain>,
    l: StageLoads,
    dt: Binary64,
) -> bool {
    let second = crate::integrator::second_point(s, config, l, dt);
    let third = crate::integrator::third_point(s, config, l, dt);
    let fourth = crate::integrator::fourth_point(s, config, l, dt);
    &&& is_load(m, s, config, controls, wind, terrain, l.first)
    &&& is_load(m, second, config, controls, wind, terrain, l.second)
    &&& is_load(m, third, config, controls, wind, terrain, l.third)
    &&& is_load(m, fourth, config, controls, wind, terrain, l.fourth)
}

/// Whether a state has settled on the ground, where there is terrain.
pub open spec fn has_settled<M: Elementary>(
    m: M,
    terrain: Option<&Terrain>,
    s: AircraftState,
    after: AircraftState,
) -> bool {
    match terrain {
        Some(t) => exists|h: Binary64| #[trigger]
            is_height(m, *t, s.pos_x, s.pos_y, h) && after == crate::integrator::grounded(s, h),
        None => after == s,
    }
}

/// Whether an aircraft flies from one state to another in a step.
pub open spec fn flies<M: Elementary>(
    m: M,
    before: AircraftState,
    config: AircraftConfig,
    controls: ControlInputs,
    wind: Vec3,
    dt: Binary64,
    terrain: Option<&Terrain>,
    after: AircraftState,
) -> bool {
    exists|felt: Vec3, l: StageLoads| #[trigger]
        is_felt(m, terrain, before, wind, felt) && #[trigger] are_stage_loads(
            m,
            before,
            config,
            controls,
            felt,
            terrain,
            l,
            dt,
        ) && has_settled(
            m,
            terrain,
            crate::integrator::advanced(before, config, l, dt),
            after,
        )
}

/// Flies a step: along the loads at its four points; over terrain in the
/// updrafts of its slopes, and the ground is not pierced.
pub fn fly<M: Elementary>(
    m: &M,
    state: &mut AircraftState,
    config: &AircraftConfig,
    controls: ControlInputs,
    wind: Vec3,
    dt: Binary64,
    terrain: Option<&Terrain>,
)
    ensures
        flies(*m, *old(state), *config, controls, wind, dt, terrain, *final(state)),
{
    let ghost before = *state;
    let ghost given = wind;
    let wind: Vec3 = felt_wind(m, terrain, state, wind);
    proof {
        assert(is_felt(*m, terrain, before, given, wind));
    }
    let loads = |s: AircraftState, c: ControlInputs, w: Vec3| -> (r: Load)
        ensures
            is_load(*m, s, *config, c, w, terrain, r),
        { load(m, &s, config, c, w, terrain) };
    match terrain {
        Some(t) => {
            let ground = |n: Binary64, e: Binary64| -> (r: Binary64)
                ensures
                    is_height(*m, *t, n, e, r),
                { height(m, t, n, e) };
            step_over_ground(state, config, controls, wind, dt, loads, ground);
            proof {
                let (l, h) = choose|l: StageLoads, h: Binary64| #[trigger]
                    crate::integrator::loads_taken(
                        loads,
                        before,
                        *config,
                        controls,
                        wind,
                        l,
                        dt,
                    ) && #[trigger] call_ensures(
                        ground,
                        (
                            crate::integrator::advanced(before, *config, l, dt).pos_x,
                            crate::integrator::advanced(before, *config, l, dt).pos_y,
                        ),
                        h,
                    ) && *state == crate::integrator::grounded(
                        crate::integrator::advanced(before, *config, l, dt),
                        h,
                    );
                assert(are_stage_loads(*m, before, *config, controls, wind, terrain, l, dt));
                let reached = crate::integrator::advanced(before, *config, l, dt);
                assert(is_height(*m, *t, reached.pos_x, reached.pos_y, h));
            }
        },
        None => {
            step(state, config, controls, wind, dt, loads);
            proof {
                let l = choose|l: StageLoads| #[trigger]
                    crate::integrator::loads_taken(
                        loads,
                        before,
                        *config,
                        controls,
                        wind,
                        l,
                        dt,
                    ) && *state == crate::integrator::advanced(before, *config, l, dt);
                assert(are_stage_loads(*m, before, *config, controls, wind, terrain, l, dt));
            }
        },
    }
}

/// Whether these are the functions that the steady wind at an altitude needs:
/// cosine and sine of its direction, and the share that the shear leaves.
pub open spec fn are_steady_inputs<M: Elementary>(
    m: M,
    w: WindConfig,
    altitude: Binary64,
    cosine: Binary64,
    sine: Binary64,
    factor: Binary64,
) -> bool {
    &&& call_ensures(M::cos, (&m, w.wind_direction), cosine)
    &&& call_ensures(M::sin, (&m, w.wind_direction), sine)
    &&& w.shears_at(altitude) ==> call_ensures(
        M::powf,
        (&m, w.shear_share(altitude), num(D0_2)),
        factor,
    )
    &&& !w.shears_at(altitude) ==> factor == num(D1)
}

/// The share of the steady wind that the shear leaves at an altitude; all of
/// it where there is no shear.
pub fn shear_factor<M: Elementary>(
    m: &M,
    w: &WindEnvironment,
    altitude: Binary64,
) -> (r: Binary64)
    ensures
        w.config.shears_at(altitude) ==> call_ensures(
            M::powf,
            (
                m,
                w.config.shear_share(altitude),
                num(D0_2),
            ),
            r,
        ),
        !w.config.shears_at(altitude) ==> r == num(D1),
{
    match w.shear_base(altitude) {
        Some(base) => m.powf(base, WindEnvironment::shear_exponent()),
        None => num(D1),
    }
}

/// The steady wind at an altitude.
pub fn steady_wind<M: Elementary>(m: &M, w: &WindEnvironment, altitude: Binary64) -> (r: Vec3)
    ensures
        exists|cosine: Binary64, sine: Binary64, factor: Binary64| #[trigger]
            are_steady_inputs(*m, w.config, altitude, cosine, sine, factor) && r == w.steady(
                altitude,
                cosine,
                sine,
                factor,
            ),
{
    let cosine: Binary64 = m.cos(w.config.wind_direction);
    let sine: Binary64 = m.sin(w.config.wind_direction);
    let factor: Binary64 = shear_factor(m, w, altitude);
    proof {
        assert(are_steady_inputs(*m, w.config, altitude, cosine, sine, factor));
    }
    w.steady_wind(altitude, cosine, sine, factor)
}

/// A wind field after its generators were drawn from.
pub open spec fn drawn(w: WindEnvironment) -> WindEnvironment {
    WindEnvironment {
        config: w.config,
        gust_u: GustState {
            velocity: w.gust_u.velocity,
            prng: Prng { state: crate::prng::state_after(w.gust_u.prng.state, 2) },
        },
        gust_v: GustState {
            velocity: w.gust_v.velocity,
            prng: Prng { state: crate::prng::state_after(w.gust_v.prng.state, 2) },
        },
        gust_w: GustState {
            velocity: w.gust_w.velocity,
            prng: Prng { state: crate::prng::state_after(w.gust_w.prng.state, 2) },
        },
    }
}

/// Whether these are the normal draws of a wind field for its three axes.
pub open spec fn are_normals<M: Elementary>(m: M, w: WindEnvironment, n: Vec3) -> bool {
    &&& crate::elementary::is_normal(m, crate::wind::drawn_pair(w.gust_u.prng.state), n.x)
    &&& crate::elementary::is_normal(m, crate::wind::drawn_pair(w.gust_v.prng.state), n.y)
    &&& crate::elementary::is_normal(m, crate::wind::drawn_pair(w.gust_w.prng.state), n.z)
}

/// The normal draws of a wind field for its three axes.
pub fn normals<M: Elementary>(m: &M, w: &mut WindEnvironment) -> (r: Vec3)
    ensures
        are_normals(*m, *old(w), r),
        *final(w) == drawn(*old(w)),
{
    let pairs: [(Binary64, Binary64); 3] = w.draw();
    Vec3 { x: normal(m, pairs[0]), y: normal(m, pairs[1]), z: normal(m, pairs[2]) }
}

/// The gusts of a wind field over a step.
pub fn turbulence<M: Elementary>(
    m: &M,
    w: &mut WindEnvironment,
    vt_air: Binary64,
    dt: Binary64,
) -> (r: Vec3)
    ensures
        exists|n: Vec3| #[trigger]
            are_normals(*m, *old(w), n) && r == drawn(*old(w)).gusts_after(vt_air, dt, n)
                && *final(w) == drawn(*old(w)).with_gusts(r),
{
    let n: Vec3 = normals(m, w);
    w.turbulence(vt_air, dt, n)
}

/// Whether these are the functions that the wind over a step needs.
pub open spec fn are_wind_inputs<M: Elementary>(
    m: M,
    w: WindEnvironment,
    altitude: Binary64,
    i: WindInputs,
) -> bool {
    &&& are_steady_inputs(m, w.config, altitude, i.cosine, i.sine, i.factor)
    &&& are_normals(m, w, i.normals)
}

/// Whether a wind blows over a step, and the field after it.
pub open spec fn blows<M: Elementary>(
    m: M,
    before: WindEnvironment,
    altitude: Binary64,
    vt_air: Binary64,
    dt: Binary64,
    wind: Vec3,
    after: WindEnvironment,
) -> bool {
    exists|i: WindInputs| #[trigger]
        are_wind_inputs(m, before, altitude, i) && (wind, after) == drawn(before).blown(
            altitude,
            vt_air,
            dt,
            i,
        )
}

/// The wind over a step: the steady wind at an altitude and the gusts.
pub fn total_wind<M: Elementary>(
    m: &M,
    w: &mut WindEnvironment,
    altitude: Binary64,
    vt_air: Binary64,
    dt: Binary64,
) -> (r: Vec3)
    ensures
        blows(*m, *old(w), altitude, vt_air, dt, r, *final(w)),
{
    let ghost before = *w;
    let cosine: Binary64 = m.cos(w.config.wind_direction);
    let sine: Binary64 = m.sin(w.config.wind_direction);
    let factor: Binary64 = shear_factor(m, w, altitude);
    let n: Vec3 = normals(m, w);
    let i: WindInputs = WindInputs { cosine, sine, factor, normals: n };
    proof {
        assert(are_wind_inputs(*m, before, altitude, i));
    }
    w.total_wind(altitude, vt_air, dt, i)
}

/// The clearance is measured from the ground up: it is positive just where the
/// aircraft is above the ground below it.
pub proof fn clearances_are_above_ground<M: Elementary>(
    m: M,
    terrain: &Terrain,
    s: AircraftState,
    agl: Binary64,
)
    requires
        is_clearance(m, Some(terrain), s, Some(agl)),
        s.height().finite(),
    ensures
        exists|h: Binary64| #[trigger]
            is_height(m, *terrain, s.pos_x, s.pos_y, h) && (h.finite() ==> (agl.not_above(num(D0))
                <==> s.height().not_above(h))),
{
    let h = choose|h: Binary64| #[trigger]
        is_height(m, *terrain, s.pos_x, s.pos_y, h) && agl == crate::terrain::above_ground(
            s.height(),
            h,
        );
    if h.finite() {
        crate::terrain::what_is_higher_is_further_above_ground(s.height(), s.height(), h);
    }
}

} // verus!
