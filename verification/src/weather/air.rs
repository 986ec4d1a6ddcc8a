//! The air of the weather, with the elementary functions that it needs.
use super::system::{AirInputs, SceneChange, SceneDraws, WeatherObservation, WeatherSystem};
use crate::binary64::Binary64;
use crate::elementary::Elementary;
use crate::flight::{normals, shear_factor};
use crate::literal::{num, D5};
use crate::vector::Vec3;
use vstd::prelude::*;

verus! {

/// Whether these are the inputs of the second part of a step. `noise` is the
/// normal draw that moves the gust envelope where no pattern is fixed.
pub open spec fn are_air_inputs<M: Elementary>(
    m: M,
    w: WeatherSystem,
    dt: Binary64,
    noise: Binary64,
    air: AirInputs,
) -> bool {
    &&& call_ensures(M::exp, (&m, w.exponent(dt)), air.decay)
    &&& if w.config.deterministic {
        call_ensures(M::sin, (&m, w.angle()), air.swing)
    } else {
        air.swing == noise
    }
    &&& crate::flight::are_steady_inputs(
        m,
        w.wind.config,
        w.last_altitude,
        air.cosine,
        air.sine,
        air.shear_factor,
    )
    &&& crate::flight::are_normals(m, w.wind, air.normals)
}

impl WeatherSystem {
    /// The weather after its wind field was drawn from.
    pub open spec fn with_drawn_wind(self) -> WeatherSystem {
        WeatherSystem { wind: crate::flight::drawn(self.wind), ..self }
    }

    /// Whether a step ends so.
    pub open spec fn advances<M: Elementary>(
        self,
        m: M,
        altitude: Binary64,
        vt_air: Binary64,
        dt: Binary64,
        draws: SceneDraws,
        noise: Binary64,
        after: WeatherSystem,
    ) -> bool {
        let middle = self.scene_stepped(altitude, dt, draws);
        exists|air: AirInputs| #[trigger]
            are_air_inputs(m, middle, dt, noise, air) && after
                == middle.with_drawn_wind().air_stepped(vt_air, dt, air)
    }

    /// A step of `dt` seconds; returns the wind. The draws are used only where
    /// [`WeatherSystem::needs_draws`] says so, and the noise only where no
    /// pattern is fixed.
    pub fn advance<M: Elementary>(
        &mut self,
        altitude: Binary64,
        vt_air: Binary64,
        dt: Binary64,
        draws: &SceneDraws,
        noise: Binary64,
        m: &M,
    ) -> (r: Vec3)
        requires
            old(self).countable(),
        ensures
            old(self).advances(*m, altitude, vt_air, dt, *draws, noise, *final(self)),
            r == final(self).last_wind,
    {
        let _change: SceneChange = self.step_scene(altitude, dt, draws);
        let ghost middle = *self;
        let decay: Binary64 = m.exp(self.ramp_exponent(dt));
        let swing: Binary64 = if self.config.deterministic {
            m.sin(self.envelope_angle())
        } else {
            noise
        };
        let cosine: Binary64 = m.cos(self.wind.config.wind_direction);
        let sine: Binary64 = m.sin(self.wind.config.wind_direction);
        let shear: Binary64 = shear_factor(m, &self.wind, altitude);
        let draws: Vec3 = normals(m, &mut self.wind);
        let air: AirInputs = AirInputs {
            decay,
            swing,
            cosine,
            sine,
            shear_factor: shear,
            normals: draws,
        };
        proof {
            assert(are_air_inputs(*m, middle, dt, noise, air));
        }
        self.step(vt_air, dt, &air)
    }

    /// Whether this is the change of the wind with altitude.
    pub open spec fn is_gradient<M: Elementary>(
        self,
        m: M,
        altitude: Binary64,
        v: Vec3,
    ) -> bool {
        exists|cosine: Binary64, sine: Binary64, below: Binary64, above: Binary64| #[trigger]
            crate::flight::are_steady_inputs(
                m,
                self.wind.config,
                altitude.difference(num(D5)),
                cosine,
                sine,
                below,
            ) && #[trigger] crate::flight::are_steady_inputs(
                m,
                self.wind.config,
                altitude.sum(num(D5)),
                cosine,
                sine,
                above,
            ) && v == self.gradient(altitude, cosine, sine, below, above)
    }

    /// The change of the wind with altitude.
    pub fn wind_gradient<M: Elementary>(&self, altitude: Binary64, m: &M) -> (r: Vec3)
        ensures
            self.is_gradient(*m, altitude, r),
    {
        let (low, high) = WeatherSystem::gradient_altitudes(altitude);
        let cosine: Binary64 = m.cos(self.wind.config.wind_direction);
        let sine: Binary64 = m.sin(self.wind.config.wind_direction);
        let below: Binary64 = shear_factor(m, &self.wind, low);
        let above: Binary64 = shear_factor(m, &self.wind, high);
        proof {
            assert(crate::flight::are_steady_inputs(
                *m,
                self.wind.config,
                altitude.difference(num(D5)),
                cosine,
                sine,
                below,
            ));
            assert(crate::flight::are_steady_inputs(
                *m,
                self.wind.config,
                altitude.sum(num(D5)),
                cosine,
                sine,
                above,
            ));
        }
        self.shear_gradient_vector(altitude, cosine, sine, below, above)
    }

    /// What is seen of the weather now.
    pub fn observe<M: Elementary>(&self, m: &M) -> (r: WeatherObservation)
        ensures
            exists|v: Vec3| #[trigger]
                self.is_gradient(*m, self.last_altitude, v) && r == self.seen(v.length()),
    {
        let v: Vec3 = self.wind_gradient(self.last_altitude, m);
        self.observation(v.norm())
    }
}

} // verus!
