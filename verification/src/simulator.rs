//! An aircraft with its state.
use crate::aero::ControlInputs;
use crate::binary64::Binary64;
use crate::config::AircraftConfig;
use crate::elementary::Elementary;
use crate::flight::{fly, level_flight};
use crate::literal::{num, D1000, D60};
use crate::state::{AircraftState, Trim};
use crate::terrain::Terrain;
use crate::vector::Vec3;
use vstd::prelude::*;

verus! {

/// An aircraft with its state.
#[derive(Clone, Debug)]
pub struct Simulator {
    pub config: AircraftConfig,
    pub state: AircraftState,
}

/// A wind; still air where there is none.
pub open spec fn wind_or_calm(wind: Option<Vec3>) -> Vec3 {
    match wind {
        Some(w) => w,
        None => Vec3::zero(),
    }
}

impl Simulator {
    /// An aircraft in level flight at 1000 m and 60 m/s.
    pub fn new<M: Elementary>(config: AircraftConfig, m: &M) -> (r: Self)
        ensures
            r.config == config,
            exists|trim: Trim| #[trigger]
                crate::flight::is_level_flight(*m, config, num(D1000), num(D60), trim) && r.state
                    == trim.state,
    {
        let trim: Trim = level_flight(m, &config, num(D1000), num(D60));
        proof {
            assert(crate::flight::is_level_flight(*m, config, num(D1000), num(D60), trim));
        }
        Simulator { config, state: trim.state }
    }

    /// Back to level flight at 1000 m and 60 m/s; returns the elevator and the
    /// throttle that hold it.
    pub fn reset<M: Elementary>(&mut self, m: &M) -> (r: (Binary64, Binary64))
        ensures
            final(self).config == old(self).config,
            exists|trim: Trim| #[trigger]
                crate::flight::is_level_flight(*m, old(self).config, num(D1000), num(D60), trim)
                    && final(self).state == trim.state && r == (trim.elevator, trim.throttle),
    {
        let trim: Trim = level_flight(m, &self.config, num(D1000), num(D60));
        proof {
            assert(crate::flight::is_level_flight(*m, self.config, num(D1000), num(D60), trim));
        }
        self.state = trim.state;
        (trim.elevator, trim.throttle)
    }

    /// Level flight at an altitude and a speed; returns the elevator and the
    /// throttle that hold it.
    pub fn trim_level_flight<M: Elementary>(
        &mut self,
        altitude: Binary64,
        speed: Binary64,
        m: &M,
    ) -> (r: (Binary64, Binary64))
        ensures
            final(self).config == old(self).config,
            exists|trim: Trim| #[trigger]
                crate::flight::is_level_flight(*m, old(self).config, altitude, speed, trim)
                    && final(self).state == trim.state && r == (trim.elevator, trim.throttle),
    {
        let trim: Trim = level_flight(m, &self.config, altitude, speed);
        self.state = trim.state;
        (trim.elevator, trim.throttle)
    }

    /// Flies a step of `dt` seconds, in still air where no wind is given, and
    /// returns the observation. Over terrain the aircraft feels the ground and
    /// the updrafts of its slopes, and does not pierce it.
    pub fn step_6dof<M: Elementary>(
        &mut self,
        controls: ControlInputs,
        wind: Option<Vec3>,
        dt: Binary64,
        terrain: Option<&Terrain>,
        m: &M,
    ) -> (r: [Binary64; 12])
        ensures
            crate::flight::flies(
                *m,
                old(self).state,
                old(self).config,
                controls,
                wind_or_calm(wind),
                dt,
                terrain,
                final(self).state,
            ),
            final(self).config == old(self).config,
            r@ =~= final(self).state.observed(),
    {
        let wind: Vec3 = match wind {
            Some(w) => w,
            None => Vec3::zeros(),
        };
        fly(m, &mut self.state, &self.config, controls, wind, dt, terrain);
        self.state.to_observation_array()
    }
}

} // verus!
