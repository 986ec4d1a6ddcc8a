//! What holds of the weather in every state.
use super::config::WeatherConfig;
use super::curriculum::WeatherCurriculum;
use super::levels::{CurriculumPhase, PrecipitationType, TerminationReason, WeatherSeverity};
use super::system::{
    AirInputs, SceneChange, SceneDraws, SceneParams, WeatherObservation, WeatherSystem,
};
use crate::binary64::Binary64;
use crate::elementary::Elementary;
use crate::literal::{
    num, D0, D0_05, D0_3, D0_5, D1, D1_5, D2, D20, D200, D20000, D3, D30, D9, M30,
};
use crate::vector::Vec3;
use vstd::prelude::*;

verus! {

/// A fixed pattern without a curriculum keeps its scene in every step.
pub proof fn fixed_patterns_keep_their_scene(
    w: WeatherSystem,
    altitude: Binary64,
    dt: Binary64,
    draws: SceneDraws,
)
    requires
        w.config.deterministic,
        w.curriculum is None,
    ensures
        w.change(dt) == SceneChange::Kept,
        w.scene_stepped(altitude, dt, draws).scene == w.scene,
        w.scene_stepped(altitude, dt, draws).scene_index == w.scene_index,
{
}

/// A curriculum overrides both the fixed pattern and the scene changes: the
/// scene changes exactly when the phase does, to that of the phase.
pub proof fn curricula_set_the_scene(
    w: WeatherSystem,
    c: WeatherCurriculum,
    altitude: Binary64,
    dt: Binary64,
    draws: SceneDraws,
)
    requires
        w.curriculum == Some(c),
        w.countable(),
    ensures
        w.scene_stepped(altitude, dt, draws).curriculum == Some(c.stepped()),
        c.counted((c.step_count + 1) as usize).moves_on() ==> w.scene_stepped(
            altitude,
            dt,
            draws,
        ).scene == SceneParams::of_preset(c.stepped().current.weather()),
        !c.counted((c.step_count + 1) as usize).moves_on() ==> w.scene_stepped(
            altitude,
            dt,
            draws,
        ).scene == w.scene,
{
}

/// Varying a scene keeps its severity, turbulence band and gust limit, and
/// leaves wind and visibility within their limits.
pub proof fn varied_scenes_stay_in_their_band(scene: SceneParams, draws: SceneDraws)
    ensures
        scene.varied(draws).severity == scene.severity,
        scene.varied(draws).turbulence == scene.turbulence,
        scene.varied(draws).gust_magnitude == scene.gust_magnitude,
        num(D0).not_above(scene.varied(draws).wind_speed),
        num(D200).not_above(scene.varied(draws).visibility),
        scene.varied(draws).rain.nan() || crate::rounding::is_fraction(scene.varied(draws).rain),
{
}

/// A moderate or severe scene is never dry after it was varied.
pub proof fn wet_bands_stay_wet(w: WeatherSystem, draws: SceneDraws)
    ensures
        w.scene.severity.wet() ==> w.rerolled(draws).scene.precipitation != PrecipitationType::Dry,
        w.rerolled(draws).severity == w.scene.severity,
{
}

/// Whether two weathers start their episodes alike: with the same parameters
/// and with curricula of the same length, or none. The severity does not count
/// where a curriculum sets it.
pub open spec fn start_alike(a: WeatherSystem, b: WeatherSystem) -> bool {
    &&& a.curriculum_seed == b.curriculum_seed
    &&& match (a.curriculum, b.curriculum) {
        (Some(c), Some(d)) => c.steps_per_phase == d.steps_per_phase && a.config == (WeatherConfig {
            severity: a.config.severity,
            ..b.config
        }),
        (None, None) => a.config == b.config,
        _ => false,
    }
}

/// A restart forgets everything but the parameters, the curriculum's length
/// and its seed.
pub proof fn restarts_forget_the_past(a: WeatherSystem, b: WeatherSystem, draws: SceneDraws)
    requires
        start_alike(a, b),
    ensures
        a.restarted(draws) == b.restarted(draws),
{
}

/// A second restart changes nothing, and without a curriculum a restart keeps
/// the parameters.
pub proof fn restarts_are_idempotent(w: WeatherSystem, draws: SceneDraws)
    ensures
        w.restarted(draws).restarted(draws) == w.restarted(draws),
        w.curriculum is None ==> w.restarted(draws).config == w.config,
{
    super::levels::nominal_presets_keep_the_severity(w.config.severity);
}

/// A restart puts a curriculum back into its first phase, and the weather into
/// the scene of that phase.
pub proof fn curricula_restart_in_their_first_phase(w: WeatherSystem, draws: SceneDraws)
    requires
        w.curriculum is Some,
    ensures
        ({
            let r = w.restarted(draws);
            let first = SceneParams::of_preset(CurriculumPhase::Phase1Clear.weather());
            &&& r.curriculum == Some(
                WeatherCurriculum {
                    step_count: 0,
                    current: CurriculumPhase::Phase1Clear,
                    done: false,
                    ..w.curriculum->0
                },
            )
            &&& r.scene == first
            &&& r.severity == WeatherSeverity::Clear
            &&& r.config.severity == WeatherSeverity::Clear
            &&& r.precipitation == first.precipitation
            &&& r.rain_current == first.rain
            &&& r.visibility_current == first.visibility
        }),
{
}

/// New weather is weather that was just restarted.
pub proof fn new_weather_equals_restarted_weather(config: WeatherConfig, draws: SceneDraws)
    ensures
        ({
            let w = WeatherSystem::fresh(
                config,
                super::system::initial_scene(config, draws),
                None,
                config.seed,
            );
            w.restarted(draws) == w
        }),
{
    super::levels::nominal_presets_keep_the_severity(config.severity);
}

/// A step of a run: its altitude, airspeed and duration, the draws, and what
/// the machine gave.
pub struct RunStep {
    pub altitude: Binary64,
    pub vt_air: Binary64,
    pub dt: Binary64,
    pub draws: SceneDraws,
    pub air: AirInputs,
}

/// The weather after a run.
pub open spec fn after_run(w: WeatherSystem, steps: Seq<RunStep>) -> WeatherSystem
    decreases steps.len(),
{
    if steps.len() == 0 {
        w
    } else {
        let s = steps.last();
        after_run(w, steps.drop_last()).scene_stepped(
            s.altitude,
            s.dt,
            s.draws,
        ).with_drawn_wind().air_stepped(s.vt_air, s.dt, s.air)
    }
}

/// Throughout an episode of a fixed pattern the scene is the one with which it
/// started, and severity and precipitation stay.
pub proof fn fixed_patterns_last_the_episode(w: WeatherSystem, steps: Seq<RunStep>)
    requires
        w.config.deterministic,
        w.curriculum is None,
    ensures
        after_run(w, steps).scene == w.scene,
        after_run(w, steps).scene_index == w.scene_index,
        after_run(w, steps).severity == w.severity,
        w.precipitation == w.scene.precipitation ==> after_run(w, steps).precipitation
            == w.precipitation,
        after_run(w, steps).config == w.config,
        after_run(w, steps).curriculum is None,
        after_run(w, steps).curriculum_seed == w.curriculum_seed,
    decreases steps.len(),
{
    if steps.len() > 0 {
        fixed_patterns_last_the_episode(w, steps.drop_last());
    }
}

/// The gust strength is at least 0.3 m/s, and the gust envelope stays within
/// its limits.
pub proof fn gust_strength_stays_within_limits(
    w: WeatherSystem,
    envelope: Binary64,
    t: Binary64,
    swing: Binary64,
)
    ensures
        num(D0_3).not_above(super::system::scene_rms(w.config, w.scene, envelope)),
        w.envelope_after(t, swing).nan() || (num(D0_5).not_above(w.envelope_after(t, swing))
            && w.envelope_after(t, swing).not_above(num(D1_5))),
{
}

/// An evasive maneuver does not make the gusts stronger.
pub proof fn evasion_cuts_the_gusts(w: WeatherSystem, t: Binary64, air: AirInputs)
    requires
        w.evading(),
        crate::rounding::is_fraction(w.config.evasive_sigma_factor),
        super::system::scene_rms(w.config, w.scene, w.envelope_after(t, air.swing)).finite(),
    ensures
        w.settled(t, air).sigma_effective.not_above(
            super::system::scene_rms(w.config, w.scene, w.envelope_after(t, air.swing)),
        ),
        w.settled(t, air).turb_level == w.turb_level,
{
    crate::rounding::fractions_shrink(
        super::system::scene_rms(w.config, w.scene, w.envelope_after(t, air.swing)),
        w.config.evasive_sigma_factor,
    );
}

/// The weather ends no episode while that is switched off, and a strong gust
/// goes before every other reason.
pub proof fn terminations_follow_the_switch_and_the_gust(w: WeatherSystem)
    ensures
        !w.config.extreme_weather_termination ==> w.verdict() == TerminationReason::Benign,
        w.config.extreme_weather_termination && w.config.gust_termination_limit.below(
            w.last_gust.length(),
        ) ==> w.verdict() == TerminationReason::GustLimit,
        w.verdict() == TerminationReason::SevereExposure ==> w.config.severe_exposure_limit.below(
            w.severe_elapsed,
        ),
        w.verdict() == TerminationReason::VisibilityLimit ==> w.visibility_current.below(
            w.config.min_visibility,
        ),
{
}

/// Outside severe weather no time of severe exposure is counted, and above the
/// minimum visibility no time without sight.
pub proof fn exposure_is_forgotten_outside(w: WeatherSystem, t: Binary64)
    ensures
        w.severity != WeatherSeverity::Severe ==> w.exposed(t).severe_elapsed == num(D0),
        !w.visibility_current.below(w.config.min_visibility) ==> w.exposed(
            t,
        ).visibility_violation_elapsed == num(D0),
{
}

/// The wind that an agent adds stays within 30 m/s on each axis.
pub proof fn added_wind_is_limited(w: WeatherSystem, delta: Vec3)
    ensures
        limited(w.offset_after(delta).x),
        limited(w.offset_after(delta).y),
        limited(w.offset_after(delta).z),
{
}

/// Within 30 m/s, or not a number.
pub open spec fn limited(x: Binary64) -> bool {
    x.nan() || (num(M30).not_above(x) && x.not_above(num(D30)))
}

/// Whether the penalties of a state are numbers: weights and readings are
/// finite, and neither weights nor rain are negative.
pub open spec fn chargeable(w: WeatherSystem) -> bool {
    &&& w.config.w_weather.finite() && num(D0).not_above(w.config.w_weather)
    &&& w.config.w_turbulence.finite() && num(D0).not_above(w.config.w_turbulence)
    &&& w.config.w_visibility.finite() && num(D0).not_above(w.config.w_visibility)
    &&& w.config.w_wind.finite() && num(D0).not_above(w.config.w_wind)
    &&& w.sigma_effective.finite()
    &&& w.visibility_current.finite()
    &&& w.scene.wind_speed.finite()
    &&& w.rain_current.finite() && num(D0).not_above(w.rain_current)
}

proof fn lemma_charge(weight: Binary64, part: Binary64)
    requires
        weight.finite(),
        num(D0).not_above(weight),
        crate::rounding::is_fraction(part),
    ensures
        WeatherSystem::charged(weight, part).not_above(num(D0)),
        WeatherSystem::charged(weight, part).finite(),
{
    crate::rounding::fractions_shrink_negatives(weight.negated(), part);
    crate::rounding::fractions_shrink_negatives(weight.negated().product(part), part);
}

/// The severity as a fraction lies between zero and one, and grows with the
/// severity.
pub proof fn severities_are_fractions(a: WeatherSeverity, b: WeatherSeverity)
    ensures
        crate::rounding::is_fraction(a.fraction()),
        a.number() <= b.number() ==> a.fraction().not_above(b.fraction()),
{
    crate::rounding::small_integers_are_exact(0);
    crate::rounding::small_integers_are_exact(1);
    crate::rounding::small_integers_are_exact(2);
    crate::rounding::small_integers_are_exact(3);
    let x = Binary64::integer(a.number() as nat);
    let y = Binary64::integer(b.number() as nat);
    let three = Binary64::integer(3);
    lemma_three();
    let u = vstd::arithmetic::power2::pow2(crate::binary64::UNIT_EXPONENT as nat);
    vstd::arithmetic::power2::lemma_pow2_pos(crate::binary64::UNIT_EXPONENT as nat);
    lemma_integer_order(a.number() as nat, 3);
    lemma_integer_order(a.number() as nat, b.number() as nat);
    lemma_integer_order(0, a.number() as nat);
    crate::rounding::quotients_keep_order(x, three, three);
    if a.number() <= b.number() {
        crate::rounding::quotients_keep_order(x, y, three);
    }
    lemma_self_quotient(three);
}

proof fn lemma_integer_order(i: nat, j: nat)
    requires
        i <= 3,
        j <= 3,
    ensures
        i <= j ==> Binary64::integer(i).not_above(Binary64::integer(j)),
{
    crate::rounding::small_integers_are_exact(i);
    crate::rounding::small_integers_are_exact(j);
    let u = vstd::arithmetic::power2::pow2(crate::binary64::UNIT_EXPONENT as nat);
    if i <= j {
        assert(i * u <= j * u) by (nonlinear_arith)
            requires
                i <= j,
        ;
    }
    crate::rounding::ranks_order_as_values(Binary64::integer(i), Binary64::integer(j));
    crate::rounding::ranks_order_as_values(Binary64::integer(j), Binary64::integer(i));
}

proof fn lemma_three()
    ensures
        Binary64::integer(3) == num(D3),
        num(D0).below(num(D3)),
{
    let u = vstd::arithmetic::power2::pow2(crate::binary64::UNIT_EXPONENT as nat);
    // Three is encoded with mantissa 3 * 2^51 and exponent 1023.
    crate::binary64::lemma_canonical_value(0x18_0000_0000_0000, 1023);
    vstd::arithmetic::power2::lemma2_to64_rest();
    vstd::arithmetic::power2::lemma_pow2_adds(51, 1023);
    let p = vstd::arithmetic::power2::pow2(1023);
    assert(0x18_0000_0000_0000 * p == 3 * u) by (nonlinear_arith)
        requires
            u == 0x8_0000_0000_0000 * p,
    ;
    crate::binary64::exact_values_are_kept(1023 * 0x10_0000_0000_0000 + 0x18_0000_0000_0000);
}

proof fn lemma_self_quotient(d: Binary64)
    requires
        d.finite(),
        num(D0).below(d),
    ensures
        d.quotient(d) == num(D1),
{
    let u = vstd::arithmetic::power2::pow2(crate::binary64::UNIT_EXPONENT as nat);
    let v = crate::binary64::magnitude_value(d.magnitude());
    crate::binary64::magnitudes_order_as_values(d.magnitude(), 0);
    assert(crate::binary64::magnitude_value(0) == 0);
    crate::binary64::lemma_canonical_value(0x10_0000_0000_0000, 1022);
    vstd::arithmetic::power2::lemma2_to64_rest();
    vstd::arithmetic::power2::lemma_pow2_adds(52, 1022);
    assert(v * u == u * v) by (nonlinear_arith);
    crate::rounding::rounding_keeps_limits(v * u, v, D1 as nat);
}

/// Every penalty is at most zero, and so is their sum.
pub proof fn penalties_are_never_rewards(w: WeatherSystem)
    requires
        chargeable(w),
    ensures
        w.severity_charge().not_above(num(D0)),
        w.turbulence_charge().not_above(num(D0)),
        w.visibility_charge().not_above(num(D0)),
        w.wind_charge().not_above(num(D0)),
        w.total_charge().not_above(num(D0)),
{
    severities_are_fractions(w.severity, w.severity);
    crate::rounding::fractions_shrink_negatives(
        w.config.w_weather.negated(),
        w.severity.fraction(),
    );
    crate::rounding::quotients_are_numbers(w.sigma_effective, num(D9));
    lemma_charge(
        w.config.w_turbulence,
        w.sigma_effective.quotient(num(D9)).clamped(num(D0), num(D1)),
    );
    crate::rounding::quotients_are_numbers(w.visibility_current, num(D20000));
    let v = w.visibility_current.quotient(num(D20000)).clamped(num(D0), num(D1));
    crate::rounding::complements_of_fractions(v);
    lemma_charge(w.config.w_visibility, num(D1).difference(v));
    crate::rounding::quotients_are_numbers(w.scene.wind_speed, num(D20));
    lemma_charge(
        w.config.w_wind,
        w.scene.wind_speed.quotient(num(D20)).clamped(num(D0), num(D1)),
    );
    let half = w.config.w_weather.product(num(D0_5));
    crate::rounding::fractions_shrink(w.config.w_weather, num(D0_5));
    let rain = half.product(w.rain_current);
    crate::rounding::products_are_numbers(half, w.rain_current);
    crate::rounding::products_keep_signs(half, w.rain_current);
    let a = w.severity_charge().difference(rain);
    crate::rounding::sums_keep_signs(w.severity_charge(), rain.negated());
    let b = w.turbulence_charge().sum(w.visibility_charge());
    crate::rounding::sums_keep_signs(w.turbulence_charge(), w.visibility_charge());
    let c = b.sum(w.wind_charge());
    crate::rounding::sums_keep_signs(b, w.wind_charge());
    let p = a.sum(c);
    crate::rounding::sums_keep_signs(a, c);
    if w.evading() {
        if p.finite() {
            crate::rounding::fractions_shrink_negatives(p, num(D0_5));
        }
    }
}

/// Worse severity is charged at least as much.
pub proof fn worse_severity_costs_more(a: WeatherSystem, b: WeatherSystem)
    requires
        a.config.w_weather == b.config.w_weather,
        a.config.w_weather.finite(),
        num(D0).not_above(a.config.w_weather),
        a.severity.number() <= b.severity.number(),
    ensures
        b.severity_charge().not_above(a.severity_charge()),
{
    severities_are_fractions(a.severity, b.severity);
    severities_are_fractions(b.severity, b.severity);
    crate::rounding::products_keep_order(
        a.config.w_weather.negated(),
        a.severity.fraction(),
        b.severity.fraction(),
    );
}

/// An evasive maneuver halves all penalties together.
pub proof fn evasion_halves_the_penalties(w: WeatherSystem, timer: Binary64)
    requires
        num(D0).below(timer),
        !w.evading(),
    ensures
        (WeatherSystem { evasive_timer: timer, ..w }).total_charge() == w.total_charge().product(
            num(D0_5),
        ),
{
}

/// The wind without what the agent adds and without the updraft.
pub open spec fn free_wind(w: WeatherSystem, vt_air: Binary64, t: Binary64, air: AirInputs) -> Vec3 {
    w.wind.steady(w.last_altitude, air.cosine, air.sine, air.shear_factor).sum(
        w.wind.gusts_after(vt_air, t, air.normals),
    )
}

/// A wind with an added one, in an updraft.
pub open spec fn shifted_wind(free: Vec3, added: Vec3, updraft: Binary64) -> Vec3 {
    let total = free.sum(added);
    Vec3 { z: total.z.difference(updraft), ..total }
}

/// An added wind shifts the wind of a step by itself and changes nothing else:
/// two weathers that are alike but for it have the same free wind and updraft,
/// and stay alike in all other things.
pub proof fn added_wind_shifts_the_wind(
    w: WeatherSystem,
    delta: Vec3,
    altitude: Binary64,
    vt_air: Binary64,
    dt: Binary64,
    draws: SceneDraws,
    air: AirInputs,
)
    ensures
        ({
            let added = w.offset_after(delta);
            let a = (WeatherSystem { wind_offset: added, ..w }).scene_stepped(
                altitude,
                dt,
                draws,
            ).air_stepped(vt_air, dt, air);
            let t = WeatherSystem::time_step(dt);
            let b = w.scene_stepped(altitude, dt, draws).air_stepped(vt_air, dt, air);
            let free = free_wind(w.scene_stepped(altitude, dt, draws).settled(t, air), vt_air, t, air);
            &&& a == (WeatherSystem { wind_offset: added, last_wind: a.last_wind, ..b })
            &&& a.last_wind == shifted_wind(free, added, b.updraft_current)
            &&& b.last_wind == shifted_wind(free, w.wind_offset, b.updraft_current)
            &&& a.sim_time == w.sim_time.sum(t)
            &&& added == w.wind_offset ==> a == b
        }),
{
    let added = w.offset_after(delta);
    let t = WeatherSystem::time_step(dt);
    let v = WeatherSystem { wind_offset: added, ..w };
    lemma_scene_ignores_offset(w, added, altitude, dt, draws);
    let a = v.scene_stepped(altitude, dt, draws);
    let b = w.scene_stepped(altitude, dt, draws);
    lemma_settling_ignores_offset(b, added, t, air);
    lemma_blowing_adds_offset(b.settled(t, air), added, vt_air, t, air);
    lemma_judging_ignores_offset(b.settled(t, air).blown(vt_air, t, air), added, a.settled(
        t,
        air,
    ).blown(vt_air, t, air).last_wind, t);
}

proof fn lemma_scene_ignores_offset(
    w: WeatherSystem,
    added: Vec3,
    altitude: Binary64,
    dt: Binary64,
    draws: SceneDraws,
)
    ensures
        (WeatherSystem { wind_offset: added, ..w }).scene_stepped(altitude, dt, draws) == (
        WeatherSystem { wind_offset: added, ..w.scene_stepped(altitude, dt, draws) }),
        w.scene_stepped(altitude, dt, draws).wind_offset == w.wind_offset,
        w.scene_stepped(altitude, dt, draws).sim_time == w.sim_time.sum(
            WeatherSystem::time_step(dt),
        ),
{
}

proof fn lemma_settling_ignores_offset(w: WeatherSystem, added: Vec3, t: Binary64, air: AirInputs)
    ensures
        (WeatherSystem { wind_offset: added, ..w }).settled(t, air) == (WeatherSystem {
            wind_offset: added,
            ..w.settled(t, air)
        }),
        w.settled(t, air).wind_offset == w.wind_offset,
        w.settled(t, air).sim_time == w.sim_time,
{
}

proof fn lemma_blowing_adds_offset(
    w: WeatherSystem,
    added: Vec3,
    vt_air: Binary64,
    t: Binary64,
    air: AirInputs,
)
    ensures
        ({
            let a = (WeatherSystem { wind_offset: added, ..w }).blown(vt_air, t, air);
            let b = w.blown(vt_air, t, air);
            let free = free_wind(w, vt_air, t, air);
            &&& a == (WeatherSystem { wind_offset: added, last_wind: a.last_wind, ..b })
            &&& a.last_wind == shifted_wind(free, added, w.updraft_current)
            &&& b.last_wind == shifted_wind(free, w.wind_offset, w.updraft_current)
            &&& b.updraft_current == w.updraft_current
            &&& b.wind_offset == w.wind_offset
            &&& b.sim_time == w.sim_time
        }),
{
}

proof fn lemma_judging_ignores_offset(w: WeatherSystem, added: Vec3, wind: Vec3, t: Binary64)
    ensures
        ({
            let v = WeatherSystem { wind_offset: added, last_wind: wind, ..w };
            let a = v.exposed(t);
            let b = w.exposed(t);
            &&& a == (WeatherSystem { wind_offset: added, last_wind: wind, ..b })
            &&& a.verdict() == b.verdict()
            &&& b.updraft_current == w.updraft_current
            &&& b.wind_offset == w.wind_offset
            &&& b.last_wind == w.last_wind
            &&& b.sim_time == w.sim_time
        }),
{
}

/// Where nothing was added before, what is added is what is asked for, up to
/// 30 m/s on each axis; to ask for nothing adds nothing.
pub proof fn small_offsets_are_kept(w: WeatherSystem, delta: Vec3)
    requires
        w.wind_offset == Vec3::zero(),
        num(M30).not_above(delta.x) && delta.x.not_above(num(D30)),
        num(M30).not_above(delta.y) && delta.y.not_above(num(D30)),
        num(M30).not_above(delta.z) && delta.z.not_above(num(D30)),
    ensures
        w.offset_after(delta).x.same(delta.x),
        w.offset_after(delta).y.same(delta.y),
        w.offset_after(delta).z.same(delta.z),
        delta == Vec3::zero() ==> w.offset_after(delta) == w.wind_offset,
{
    crate::rounding::zeros_add_nothing(delta.x, num(D0));
    crate::rounding::zeros_add_nothing(delta.y, num(D0));
    crate::rounding::zeros_add_nothing(delta.z, num(D0));
}

/// The channels of an observation that are fractions of something lie between
/// zero and one, where the readings are numbers.
pub proof fn observed_fractions_are_fractions(o: WeatherObservation, i: int)
    requires
        !o.gust_rms.nan(),
        !o.rain_intensity.nan(),
        !o.visibility.nan(),
        !o.shear_gradient.nan(),
        3 <= i < 12,
        i != 7,
    ensures
        crate::rounding::is_fraction(o.channel(i)),
{
    severities_are_fractions(o.severity, o.severity);
    if o.gust_rms.finite() {
        crate::rounding::quotients_are_numbers(o.gust_rms, num(D9));
    }
    if o.visibility.finite() {
        crate::rounding::quotients_are_numbers(o.visibility, num(D20000));
    }
    if o.shear_gradient.finite() {
        crate::rounding::quotients_are_numbers(o.shear_gradient.absolute(), num(D0_05));
    }
}

/// What a step of the weather is given: where and how fast the aircraft flies,
/// for how long, and the draws of the generator that the seed started.
pub struct WeatherStep {
    pub altitude: Binary64,
    pub vt_air: Binary64,
    pub dt: Binary64,
    pub draws: SceneDraws,
    pub noise: Binary64,
}

/// Whether these are the states of a weather from a start on, with a step from
/// each to the next.
pub open spec fn is_history<M: Elementary>(
    m: M,
    start: WeatherSystem,
    steps: Seq<WeatherStep>,
    states: Seq<WeatherSystem>,
) -> bool {
    &&& states.len() == steps.len() + 1
    &&& states[0] == start
    &&& forall|k: int|
        0 <= k < steps.len() ==> #[trigger] steps_on(m, states[k], steps[k], states[k + 1])
}

/// Whether a step leads from one state to another.
pub open spec fn steps_on<M: Elementary>(
    m: M,
    before: WeatherSystem,
    s: WeatherStep,
    after: WeatherSystem,
) -> bool {
    before.advances(m, s.altitude, s.vt_air, s.dt, s.draws, s.noise, after)
}

/// A step of the same weather with the same draws ends in the same weather.
proof fn lemma_steps_repeat<M: Elementary>(
    m: M,
    w: WeatherSystem,
    s: WeatherStep,
    p: WeatherSystem,
    q: WeatherSystem,
)
    requires
        crate::elementary::repeats_itself(m),
        steps_on(m, w, s, p),
        steps_on(m, w, s, q),
    ensures
        p == q,
{
    let middle = w.scene_stepped(s.altitude, s.dt, s.draws);
    let x = choose|air: AirInputs| #[trigger]
        super::air::are_air_inputs(m, middle, s.dt, s.noise, air) && p
            == middle.with_drawn_wind().air_stepped(s.vt_air, s.dt, air);
    let y = choose|air: AirInputs| #[trigger]
        super::air::are_air_inputs(m, middle, s.dt, s.noise, air) && q
            == middle.with_drawn_wind().air_stepped(s.vt_air, s.dt, air);
    let wind = middle.wind;
    crate::elementary::normal_draws_repeat(
        m,
        crate::wind::drawn_pair(wind.gust_u.prng.state),
        x.normals.x,
        y.normals.x,
    );
    crate::elementary::normal_draws_repeat(
        m,
        crate::wind::drawn_pair(wind.gust_v.prng.state),
        x.normals.y,
        y.normals.y,
    );
    crate::elementary::normal_draws_repeat(
        m,
        crate::wind::drawn_pair(wind.gust_w.prng.state),
        x.normals.z,
        y.normals.z,
    );
    assert(x == y);
}

/// The same start and the same draws give the same weather at every step, wind
/// and gusts among it.
pub proof fn weather_repeats<M: Elementary>(
    m: M,
    start: WeatherSystem,
    steps: Seq<WeatherStep>,
    p: Seq<WeatherSystem>,
    q: Seq<WeatherSystem>,
)
    requires
        crate::elementary::repeats_itself(m),
        is_history(m, start, steps, p),
        is_history(m, start, steps, q),
    ensures
        p == q,
{
    assert forall|k: int| 0 <= k < p.len() implies p[k] == q[k] by {
        lemma_states_repeat(m, start, steps, p, q, k as nat);
    }
    assert(p =~= q);
}

proof fn lemma_states_repeat<M: Elementary>(
    m: M,
    start: WeatherSystem,
    steps: Seq<WeatherStep>,
    p: Seq<WeatherSystem>,
    q: Seq<WeatherSystem>,
    k: nat,
)
    requires
        crate::elementary::repeats_itself(m),
        is_history(m, start, steps, p),
        is_history(m, start, steps, q),
        k < p.len(),
    ensures
        p[k as int] == q[k as int],
    decreases k,
{
    if k > 0 {
        let j = k - 1;
        lemma_states_repeat(m, start, steps, p, q, j as nat);
        assert(steps_on(m, p[j], steps[j], p[j + 1]));
        assert(steps_on(m, q[j], steps[j], q[j + 1]));
        lemma_steps_repeat(m, p[j], steps[j], p[j + 1], q[j + 1]);
    }
}

/// The same seed gives the same weather: two episodes of weathers that start
/// alike run alike, whatever happened before them.
pub proof fn same_seed_same_weather<M: Elementary>(
    m: M,
    a: WeatherSystem,
    b: WeatherSystem,
    draws: SceneDraws,
    steps: Seq<WeatherStep>,
    p: Seq<WeatherSystem>,
    q: Seq<WeatherSystem>,
)
    requires
        crate::elementary::repeats_itself(m),
        start_alike(a, b),
        is_history(m, a.restarted(draws), steps, p),
        is_history(m, b.restarted(draws), steps, q),
    ensures
        p == q,
{
    restarts_forget_the_past(a, b, draws);
    weather_repeats(m, a.restarted(draws), steps, p, q);
}

/// Whether two steps differ in their draws at most.
pub open spec fn alike_but_for_draws(s: WeatherStep, t: WeatherStep) -> bool {
    s.altitude == t.altitude && s.vt_air == t.vt_air && s.dt == t.dt
}

/// A step of a fixed pattern does not depend on the draws.
proof fn lemma_fixed_steps_repeat<M: Elementary>(
    m: M,
    w: WeatherSystem,
    s: WeatherStep,
    t: WeatherStep,
    p: WeatherSystem,
    q: WeatherSystem,
)
    requires
        crate::elementary::repeats_itself(m),
        w.config.deterministic,
        w.curriculum is None,
        alike_but_for_draws(s, t),
        steps_on(m, w, s, p),
        steps_on(m, w, t, q),
    ensures
        p == q,
        p.config == w.config,
        p.curriculum is None,
{
    let middle = w.scene_stepped(s.altitude, s.dt, s.draws);
    assert(middle == w.scene_stepped(t.altitude, t.dt, t.draws));
    let y = choose|air: AirInputs| #[trigger]
        super::air::are_air_inputs(m, middle, t.dt, t.noise, air) && q
            == middle.with_drawn_wind().air_stepped(t.vt_air, t.dt, air);
    assert(super::air::are_air_inputs(m, middle, s.dt, s.noise, y));
    assert(steps_on(m, w, s, q));
    lemma_steps_repeat(m, w, s, p, q);
}

/// A fixed pattern repeats whatever the draws: runs from the same start with
/// the same flight are the same.
pub proof fn fixed_patterns_need_no_draws<M: Elementary>(
    m: M,
    start: WeatherSystem,
    steps: Seq<WeatherStep>,
    others: Seq<WeatherStep>,
    p: Seq<WeatherSystem>,
    q: Seq<WeatherSystem>,
)
    requires
        crate::elementary::repeats_itself(m),
        start.config.deterministic,
        start.curriculum is None,
        steps.len() == others.len(),
        forall|k: int|
            0 <= k < steps.len() ==> alike_but_for_draws(#[trigger] steps[k], others[k]),
        is_history(m, start, steps, p),
        is_history(m, start, others, q),
    ensures
        p == q,
{
    assert forall|k: int| 0 <= k < p.len() implies p[k] == q[k] by {
        lemma_fixed_states_repeat(m, start, steps, others, p, q, k as nat);
    }
    assert(p =~= q);
}

proof fn lemma_fixed_states_repeat<M: Elementary>(
    m: M,
    start: WeatherSystem,
    steps: Seq<WeatherStep>,
    others: Seq<WeatherStep>,
    p: Seq<WeatherSystem>,
    q: Seq<WeatherSystem>,
    k: nat,
)
    requires
        crate::elementary::repeats_itself(m),
        start.config.deterministic,
        start.curriculum is None,
        steps.len() == others.len(),
        forall|k: int|
            0 <= k < steps.len() ==> alike_but_for_draws(#[trigger] steps[k], others[k]),
        is_history(m, start, steps, p),
        is_history(m, start, others, q),
        k < p.len(),
    ensures
        p[k as int] == q[k as int],
        p[k as int].config == start.config,
        p[k as int].curriculum is None,
    decreases k,
{
    if k > 0 {
        let j = k - 1;
        lemma_fixed_states_repeat(m, start, steps, others, p, q, j as nat);
        assert(steps_on(m, p[j], steps[j], p[j + 1]));
        assert(steps_on(m, q[j], others[j], q[j + 1]));
        lemma_fixed_steps_repeat(m, p[j], steps[j], others[j], p[j + 1], q[j + 1]);
    }
}

/// Whether a step of a run is that of a history, with what the machine gives
/// for it.
pub open spec fn is_run_step<M: Elementary>(
    m: M,
    before: WeatherSystem,
    s: WeatherStep,
    r: RunStep,
) -> bool {
    &&& r.altitude == s.altitude && r.vt_air == s.vt_air && r.dt == s.dt && r.draws == s.draws
    &&& super::air::are_air_inputs(
        m,
        before.scene_stepped(s.altitude, s.dt, s.draws),
        s.dt,
        s.noise,
        r.air,
    )
}

/// A history is a run: its states are those that the steps lead to with what
/// the machine gives.
pub proof fn histories_are_runs<M: Elementary>(
    m: M,
    start: WeatherSystem,
    steps: Seq<WeatherStep>,
    states: Seq<WeatherSystem>,
    n: nat,
) -> (run: Seq<RunStep>)
    requires
        is_history(m, start, steps, states),
        n <= steps.len(),
    ensures
        run.len() == n,
        forall|k: int|
            0 <= k < n ==> is_run_step(m, states[k], steps[k], #[trigger] run[k]),
        states[n as int] == after_run(start, run),
    decreases n,
{
    if n == 0 {
        Seq::empty()
    } else {
        let j = n - 1;
        let past = histories_are_runs(m, start, steps, states, j as nat);
        assert(steps_on(m, states[j], steps[j], states[j + 1]));
        let s = steps[j];
        let middle = states[j].scene_stepped(s.altitude, s.dt, s.draws);
        let air = choose|air: AirInputs| #[trigger]
            super::air::are_air_inputs(m, middle, s.dt, s.noise, air) && states[j + 1]
                == middle.with_drawn_wind().air_stepped(s.vt_air, s.dt, air);
        let run = past.push(
            RunStep { altitude: s.altitude, vt_air: s.vt_air, dt: s.dt, draws: s.draws, air },
        );
        assert(run.drop_last() =~= past);
        assert(run.last().air == air);
        run
    }
}

/// New weather with a fixed pattern repeats itself: throughout an episode scene,
/// severity and precipitation stay, and after it a restart leads to the same
/// weather in every further step, whatever is drawn.
pub proof fn fixed_patterns_repeat<M: Elementary>(
    m: M,
    config: WeatherConfig,
    first: SceneDraws,
    again: SceneDraws,
    episode: Seq<WeatherStep>,
    past: Seq<WeatherSystem>,
    steps: Seq<WeatherStep>,
    others: Seq<WeatherStep>,
    p: Seq<WeatherSystem>,
    q: Seq<WeatherSystem>,
)
    requires
        config.deterministic,
        crate::elementary::repeats_itself(m),
        steps.len() == others.len(),
        forall|k: int|
            0 <= k < steps.len() ==> alike_but_for_draws(#[trigger] steps[k], others[k]),
        ({
            let w = WeatherSystem::fresh(
                config,
                super::system::initial_scene(config, first),
                None,
                config.seed,
            );
            &&& is_history(m, w, episode, past)
            &&& is_history(m, w, steps, p)
            &&& is_history(m, past.last().restarted(again), others, q)
        }),
    ensures
        p == q,
        past.last().scene == past[0].scene,
        past.last().scene_index == 0,
        past.last().severity == past[0].severity,
        past.last().precipitation == past[0].precipitation,
{
    let w = WeatherSystem::fresh(
        config,
        super::system::initial_scene(config, first),
        None,
        config.seed,
    );
    let run = histories_are_runs(m, w, episode, past, episode.len());
    fixed_patterns_last_the_episode(w, run);
    new_weather_equals_restarted_weather(config, first);
    assert(past.last() == after_run(w, run));
    restarts_forget_the_past(past.last(), w, again);
    assert(super::system::initial_scene(config, first) == super::system::initial_scene(
        config,
        again,
    ));
    assert(past.last().restarted(again) == w);
    fixed_patterns_need_no_draws(m, w, steps, others, p, q);
}

/// A higher draw gives a higher deviation, and draws below one half pull down.
pub proof fn draws_deviate_their_way(spread: Binary64, low: Binary64, high: Binary64)
    requires
        spread.finite() && num(D0).not_above(spread),
        crate::rounding::is_fraction(low) && crate::rounding::is_fraction(high),
        low.not_above(high),
        num(D2).product(low).difference(num(D1)).finite(),
        num(D2).product(high).difference(num(D1)).finite(),
    ensures
        super::system::deviation(spread, low).not_above(super::system::deviation(spread, high)),
        low.zero() ==> super::system::deviation(spread, low).not_above(num(D0)),
        high == num(D1) ==> num(D0).not_above(super::system::deviation(spread, high)),
{
    crate::rounding::factors_keep_order(num(D2), low, high);
    crate::rounding::fractions_shrink(num(D2), low);
    crate::rounding::fractions_shrink(num(D2), high);
    let (a, b) = (
        num(D2).product(low).difference(num(D1)),
        num(D2).product(high).difference(num(D1)),
    );
    crate::rounding::sums_keep_order(num(D2).product(low), num(D2).product(high), num(D1).negated());
    crate::rounding::factors_keep_order(spread, a, b);
    crate::rounding::differences_tell_the_order(num(D2).product(low), num(D1));
    crate::rounding::differences_tell_the_order(num(D2).product(high), num(D1));
    crate::rounding::products_are_numbers(spread, a);
    crate::rounding::products_are_numbers(spread, b);
    crate::rounding::products_keep_signs(spread, a);
    crate::rounding::products_keep_signs(spread, b);
    crate::rounding::one_is_neutral(num(D2));
}

/// What changes with the scene goes towards it, and no further away: rain,
/// visibility and updraft after a step lie on the side of their targets.
pub proof fn weather_goes_towards_its_scene(w: WeatherSystem, t: Binary64, air: AirInputs)
    requires
        crate::rounding::is_fraction(air.decay),
        w.rain_current.finite() && w.scene.rain.finite(),
        w.visibility_current.finite() && w.scene.visibility.finite(),
        w.updraft_current.finite() && w.scene.updraft.finite(),
        w.scene.rain.difference(w.rain_current).finite(),
        w.scene.visibility.difference(w.visibility_current).finite(),
        w.scene.updraft.difference(w.updraft_current).finite(),
    ensures
        went_towards(w.rain_current, w.scene.rain, w.settled(t, air).rain_current),
        went_towards(
            w.visibility_current,
            w.scene.visibility,
            w.settled(t, air).visibility_current,
        ),
        went_towards(w.updraft_current, w.scene.updraft, w.settled(t, air).updraft_current),
{
    crate::rounding::complements_of_fractions(air.decay);
    let a = num(D1).difference(air.decay);
    crate::rounding::shares_lead_towards(w.rain_current, w.scene.rain, w.scene.rain, a);
    crate::rounding::shares_lead_towards(
        w.visibility_current,
        w.scene.visibility,
        w.scene.visibility,
        a,
    );
    crate::rounding::shares_lead_towards(w.updraft_current, w.scene.updraft, w.scene.updraft, a);
}

/// Whether a number that changed did so towards a target.
pub open spec fn went_towards(from: Binary64, target: Binary64, after: Binary64) -> bool {
    &&& from.not_above(target) ==> from.not_above(after)
    &&& target.not_above(from) ==> after.not_above(from)
}

/// Updrafts lift: a wind is positive down, so a rising draft does not raise the
/// downward wind, and a sinking one does not lower it.
pub proof fn updrafts_lift(w: WeatherSystem, vt_air: Binary64, t: Binary64, air: AirInputs)
    requires
        w.updraft_current.finite(),
        ({
            let steady = w.wind.steady(w.last_altitude, air.cosine, air.sine, air.shear_factor);
            let gust = w.wind.gusts_after(vt_air, t, air.normals);
            steady.sum(gust).sum(w.wind_offset).z.finite()
        }),
    ensures
        ({
            let steady = w.wind.steady(w.last_altitude, air.cosine, air.sine, air.shear_factor);
            let gust = w.wind.gusts_after(vt_air, t, air.normals);
            let total = steady.sum(gust).sum(w.wind_offset);
            let wind = w.blown(vt_air, t, air).last_wind;
            &&& num(D0).not_above(w.updraft_current) ==> wind.z.not_above(total.z)
            &&& w.updraft_current.not_above(num(D0)) ==> total.z.not_above(wind.z)
            &&& wind.x == total.x && wind.y == total.y
            &&& w.blown(vt_air, t, air).last_gust == gust
        }),
{
    let steady = w.wind.steady(w.last_altitude, air.cosine, air.sine, air.shear_factor);
    let gust = w.wind.gusts_after(vt_air, t, air.normals);
    let z = steady.sum(gust).sum(w.wind_offset).z;
    let u = w.updraft_current;
    crate::rounding::sums_are_numbers(z, u.negated());
    crate::rounding::sums_are_numbers(z, num(D0));
    crate::rounding::zeros_keep_signs(z, num(D0));
    if num(D0).not_above(u) {
        crate::rounding::sums_of_ordered_terms(z, z, u.negated(), num(D0));
    }
    if u.not_above(num(D0)) {
        crate::rounding::sums_of_ordered_terms(z, z, num(D0), u.negated());
    }
}

/// Exposure grows while it lasts, and an evasion runs out.
pub proof fn exposure_grows_and_evasion_runs_out(w: WeatherSystem, t: Binary64)
    requires
        t.finite() && num(D0).not_above(t),
        w.severe_elapsed.finite() && num(D0).not_above(w.severe_elapsed),
        w.visibility_violation_elapsed.finite() && num(D0).not_above(
            w.visibility_violation_elapsed,
        ),
        w.evasive_timer.finite(),
    ensures
        w.severity == WeatherSeverity::Severe ==> w.severe_elapsed.not_above(
            w.exposed(t).severe_elapsed,
        ),
        w.visibility_current.below(w.config.min_visibility)
            ==> w.visibility_violation_elapsed.not_above(
            w.exposed(t).visibility_violation_elapsed,
        ),
        w.exposed(t).evasive_timer.not_above(w.evasive_timer),
{
    crate::rounding::sums_grow(w.severe_elapsed, t);
    crate::rounding::sums_grow(w.visibility_violation_elapsed, t);
    crate::rounding::differences_shrink(w.evasive_timer, t);
}

/// Observations grow with what they show, and clearer air is shown clearer.
pub proof fn observations_grow_with_the_weather(a: WeatherObservation, b: WeatherObservation)
    requires
        a.gust_rms.finite() && b.gust_rms.finite() && a.gust_rms.not_above(b.gust_rms),
        !a.rain_intensity.nan() && a.rain_intensity.not_above(b.rain_intensity),
        a.visibility.finite() && b.visibility.finite() && a.visibility.not_above(b.visibility),
        a.shear_gradient.finite() && b.shear_gradient.finite(),
        a.shear_gradient.absolute().not_above(b.shear_gradient.absolute()),
    ensures
        a.channel(3).not_above(b.channel(3)),
        a.channel(4).not_above(b.channel(4)),
        a.channel(5).not_above(b.channel(5)),
        a.channel(6).not_above(b.channel(6)),
{
    crate::rounding::divisors_keep_order(a.gust_rms, b.gust_rms, num(D9));
    crate::rounding::divisors_keep_order(a.visibility, b.visibility, num(D20000));
    crate::rounding::divisors_keep_order(
        a.shear_gradient.absolute(),
        b.shear_gradient.absolute(),
        num(D0_05),
    );
}

} // verus!
