//! The readings of the weather stay numbers within their ranges throughout a
//! run.
use super::config::WeatherConfig;
use super::laws::{after_run, RunStep};
use super::levels::WeatherPreset;
use super::system::{scene_rms, AirInputs, SceneChange, SceneParams, WeatherSystem};
use crate::binary64::{Binary64, INFINITE_MAGNITUDE, UNIT_EXPONENT};
use crate::literal::{num, D0, D1, D100000, D16, D1_5, D2, D32};
use crate::rounding::is_fraction;
use vstd::arithmetic::power2::*;
use vstd::prelude::*;

verus! {

/// A number between zero and a limit.
pub open spec fn up_to(x: Binary64, limit: Binary64) -> bool {
    num(D0).not_above(x) && x.not_above(limit)
}

/// A scene whose rain is a fraction and whose visibility is at most 100 km.
pub open spec fn sound_scene(s: SceneParams) -> bool {
    is_fraction(s.rain) && up_to(s.visibility, num(D100000))
}

/// Weather whose scene is sound, whose readings lie within twice the range of
/// those of scenes, and whose gust strength is a number.
pub open spec fn sound(w: WeatherSystem) -> bool {
    &&& sound_scene(w.scene)
    &&& up_to(w.rain_current, num(D1).sum(num(D1)))
    &&& up_to(w.visibility_current, num(D100000).sum(num(D100000)))
    &&& w.sigma_effective.finite()
    &&& is_fraction(w.config.evasive_sigma_factor)
}

/// Whether a step is given what a step needs: the share of the old weather that
/// is left is a fraction, and where the scene is varied the draws keep it
/// sound.
pub open spec fn sound_step(w: WeatherSystem, s: RunStep) -> bool {
    &&& is_fraction(s.air.decay)
    &&& w.change(s.dt) == SceneChange::Rerolled ==> sound_scene(
        w.clocked(s.altitude, s.dt).rerolled(s.draws).scene,
    )
}

/// Whether every step of a run is given what it needs.
pub open spec fn sound_run(w: WeatherSystem, steps: Seq<RunStep>) -> bool {
    forall|k: int|
        0 <= k < steps.len() ==> sound_step(after_run(w, steps.take(k)), #[trigger] steps[k])
}

/// The double of a number of ordinary size is finite.
proof fn lemma_double_is_finite(x: Binary64)
    requires
        !x.negative(),
        0x10_0000_0000_0000 <= x.magnitude(),
        x.magnitude() + 0x10_0000_0000_0000 < INFINITE_MAGNITUDE,
    ensures
        x.sum(x).finite(),
        x.not_above(x.sum(x)),
{
    let mag = x.magnitude();
    let (m, e) = crate::binary64::lemma_decode(mag);
    assert(crate::binary64::canonical(m, e + 1));
    crate::binary64::lemma_canonical_value(m, e);
    crate::binary64::lemma_canonical_value(m, e + 1);
    lemma_pow2_unfold(e + 1);
    let v = crate::binary64::magnitude_value(mag);
    assert(m * pow2(e + 1) == 2 * (m * pow2(e))) by (nonlinear_arith)
        requires
            pow2(e + 1) == 2 * pow2(e),
    ;
    assert((e + 1) * 0x10_0000_0000_0000 + m == mag + 0x10_0000_0000_0000);
    crate::rounding::rounding_keeps_limits(2 * v, 1, mag + 0x10_0000_0000_0000);
    crate::rounding::sums_grow(x, x);
}

/// A reading that moves towards its target by a share stays between zero and
/// twice the limit of its targets.
proof fn lemma_approach(c: Binary64, target: Binary64, a: Binary64, limit: Binary64)
    requires
        up_to(c, limit.sum(limit)),
        up_to(target, limit),
        is_fraction(a),
        limit.finite(),
        limit.sum(limit).finite(),
    ensures
        up_to(WeatherSystem::approached(c, target, a), limit.sum(limit)),
{
    let d = target.difference(c);
    let step = a.product(d);
    let back = c.negated();
    let zero = num(D0);
    crate::rounding::sums_are_numbers(target, back);
    crate::rounding::products_commute(a, d);
    crate::rounding::sums_commute(c, step);
    if c.not_above(target) {
        crate::rounding::differences_cancel(c);
        crate::rounding::sums_keep_order(c, target, back);
        crate::rounding::differences_shrink(target, c);
        crate::rounding::fractions_shrink(d, a);
        crate::rounding::sums_grow(c, step);
        crate::rounding::sums_are_numbers(c, step);
        crate::rounding::sums_are_numbers(limit, step);
        crate::rounding::sums_keep_order(c, limit, step);
        crate::rounding::sums_commute(limit, step);
        crate::rounding::sums_keep_order(step, limit, limit);
    } else {
        crate::rounding::differences_cancel(c);
        crate::rounding::sums_keep_order(target, c, back);
        crate::rounding::sums_are_numbers(zero, back);
        crate::rounding::sums_keep_order(zero, target, back);
        crate::rounding::zeros_add_nothing(back, zero);
        assert(back.not_above(d));
        crate::rounding::fractions_shrink_negatives(d, a);
        crate::rounding::sums_are_numbers(step, c);
        crate::rounding::sums_are_numbers(back, c);
        crate::rounding::sums_commute(back, c);
        crate::rounding::sums_keep_order(back, step, c);
        crate::rounding::sums_are_numbers(zero, c);
        crate::rounding::sums_keep_order(step, zero, c);
        crate::rounding::zeros_add_nothing(c, zero);
    }
}

/// Small numbers that are not negative have a finite product.
proof fn lemma_small_product(a: Binary64, b: Binary64)
    requires
        up_to(a, num(D16)),
        up_to(b, num(D2)),
    ensures
        a.product(b).finite(),
        num(D0).not_above(a.product(b)),
{
    crate::rounding::products_are_numbers(a, b);
    crate::rounding::products_keep_signs(a, b);
    if !a.zero() && !b.zero() {
        let u = pow2(UNIT_EXPONENT as nat);
        lemma_pow2_pos(UNIT_EXPONENT as nat);
        let x = crate::binary64::magnitude_value(a.magnitude());
        let y = crate::binary64::magnitude_value(b.magnitude());
        crate::binary64::magnitudes_order_as_values(a.magnitude(), D16 as nat);
        crate::binary64::magnitudes_order_as_values(b.magnitude(), D2 as nat);
        lemma_powers();
        assert(x * y <= (32 * u) * u) by (nonlinear_arith)
            requires
                x <= 16 * u,
                y <= 2 * u,
                u > 0,
                x >= 0,
                y >= 0,
        ;
        crate::rounding::rounding_keeps_limits(x * y, u, D32 as nat);
    }
}

/// The values of two, sixteen and thirty-two.
proof fn lemma_powers()
    ensures
        crate::binary64::magnitude_value(D2 as nat) == 2 * pow2(UNIT_EXPONENT as nat),
        crate::binary64::magnitude_value(D16 as nat) == 16 * pow2(UNIT_EXPONENT as nat),
        crate::binary64::magnitude_value(D32 as nat) == 32 * pow2(UNIT_EXPONENT as nat),
{
    lemma2_to64();
    lemma2_to64_rest();
    crate::binary64::lemma_canonical_value(0x10_0000_0000_0000, 1023);
    crate::binary64::lemma_canonical_value(0x10_0000_0000_0000, 1026);
    crate::binary64::lemma_canonical_value(0x10_0000_0000_0000, 1027);
    lemma_pow2_adds(52, 1023);
    lemma_pow2_adds(52, 1026);
    lemma_pow2_adds(52, 1027);
    lemma_pow2_adds(1, 1074);
    lemma_pow2_adds(4, 1074);
    lemma_pow2_adds(5, 1074);
}

/// The gust strength of a scene is finite and not negative.
proof fn lemma_rms_is_finite(config: WeatherConfig, scene: SceneParams, envelope: Binary64)
    requires
        envelope.nan() || up_to(envelope, num(D1_5)),
    ensures
        scene_rms(config, scene, envelope).finite(),
        num(D0).not_above(scene_rms(config, scene, envelope)),
{
    if !envelope.nan() {
        lemma_small_product(scene.turbulence.band_sigma(), envelope);
    }
}

/// The scenes of the presets are sound.
pub proof fn presets_are_sound(preset: WeatherPreset)
    ensures
        sound_scene(SceneParams::of_preset(preset)),
{
}

proof fn lemma_limits()
    ensures
        num(D1).sum(num(D1)).finite(),
        num(D1).not_above(num(D1).sum(num(D1))),
        num(D100000).sum(num(D100000)).finite(),
        num(D100000).not_above(num(D100000).sum(num(D100000))),
{
    lemma_double_is_finite(num(D1));
    lemma_double_is_finite(num(D100000));
}

/// The weather at the start of an episode is sound where its scene is.
pub proof fn episodes_start_sound(w: WeatherSystem, draws: super::system::SceneDraws)
    requires
        is_fraction(w.config.evasive_sigma_factor),
        sound_scene(w.opening_scene(draws)),
    ensures
        sound(w.restarted(draws)),
{
    lemma_limits();
    lemma_rms_is_finite(w.config, w.opening_scene(draws), num(D1));
}

/// A step keeps the weather sound.
proof fn lemma_step_is_sound(w: WeatherSystem, s: RunStep)
    requires
        sound(w),
        sound_step(w, s),
    ensures
        sound(
            w.scene_stepped(s.altitude, s.dt, s.draws).air_stepped(s.vt_air, s.dt, s.air),
        ),
{
    let n = w.scene_stepped(s.altitude, s.dt, s.draws);
    lemma_scene_is_sound(w, s);
    lemma_air_is_sound(n, s.vt_air, s.dt, s.air);
}

proof fn lemma_scene_is_sound(w: WeatherSystem, s: RunStep)
    requires
        sound(w),
        sound_step(w, s),
    ensures
        sound(w.scene_stepped(s.altitude, s.dt, s.draws)),
{
    lemma_limits();
    match w.change(s.dt) {
        SceneChange::Phase(p) => {
            presets_are_sound(p.weather());
        },
        _ => {},
    }
}

proof fn lemma_air_is_sound(w: WeatherSystem, vt_air: Binary64, dt: Binary64, air: AirInputs)
    requires
        sound(w),
        is_fraction(air.decay),
    ensures
        sound(w.air_stepped(vt_air, dt, air)),
{
    lemma_limits();
    let t = WeatherSystem::time_step(dt);
    let a = num(D1).difference(air.decay);
    crate::rounding::complements_of_fractions(air.decay);
    lemma_approach(w.rain_current, w.scene.rain, a, num(D1));
    lemma_approach(w.visibility_current, w.scene.visibility, a, num(D100000));
    let envelope = w.envelope_after(t, air.swing);
    lemma_rms_is_finite(w.config, w.scene, envelope);
    crate::rounding::fractions_shrink(
        scene_rms(w.config, w.scene, envelope),
        w.config.evasive_sigma_factor,
    );
}

/// The weather stays sound throughout a run.
pub proof fn runs_stay_sound(w: WeatherSystem, steps: Seq<RunStep>)
    requires
        sound(w),
        sound_run(w, steps),
    ensures
        sound(after_run(w, steps)),
    decreases steps.len(),
{
    if steps.len() > 0 {
        let past = steps.drop_last();
        assert forall|k: int| 0 <= k < past.len() implies sound_step(
            after_run(w, past.take(k)),
            #[trigger] past[k],
        ) by {
            assert(past.take(k) =~= steps.take(k));
            assert(past[k] == steps[k]);
        }
        runs_stay_sound(w, past);
        assert(steps.take(steps.len() - 1) =~= past);
        let last = steps[steps.len() - 1];
        lemma_step_is_sound(after_run(w, past), last);
    }
}

/// In every state of a run the observed fractions lie between zero and one,
/// where the change of the wind with altitude is a number.
pub proof fn observations_stay_in_range(
    w: WeatherSystem,
    steps: Seq<RunStep>,
    shear: Binary64,
    i: int,
)
    requires
        sound(w),
        sound_run(w, steps),
        !shear.nan(),
        3 <= i < 12,
        i != 7,
    ensures
        is_fraction(after_run(w, steps).seen(shear).channel(i)),
{
    runs_stay_sound(w, steps);
    super::laws::observed_fractions_are_fractions(after_run(w, steps).seen(shear), i);
}

} // verus!
