//! What is tested in the wind tunnel: an aircraft or an imported shape.
use super::bench::{Aspect, WindTunnel};
use super::grid::Axes;
use super::reading::{
    aircraft_reading, attitude_axes, attitude_state, euler_to_quat, flow_wind, shape_reading,
    stream_in_body, HalfAngles, Reading,
};
use super::settings::{to_radians, wind_velocity, Settings};
use crate::aero::{ControlInputs, Load};
use crate::binary64::Binary64;
use crate::config::{AircraftConfig, CollisionPanel};
use crate::elementary::{Elementary, ElementarySingle};
use crate::flight;
use crate::literal::{num, D0, D0_5};
use crate::shape::{compute_shape_wind, DragPowers, ImportedAero, ShapeMetrics, WindLoad};
use crate::single::Single;
use crate::state::AircraftState;
use crate::vector::Vec3;
use crate::voxel::{mesh_metrics, voxelize_panels, MeshMetrics, Triangle};
use vstd::prelude::*;

verus! {

/// The wind tunnel with what is tested in it.
pub struct Station {
    pub tunnel: WindTunnel,
    /// The aircraft, once there is one.
    pub config: Option<AircraftConfig>,
    /// The surface of an imported shape, which is tested in place of the
    /// aircraft where there is one.
    pub panels: Vec<CollisionPanel>,
    pub metrics: ShapeMetrics,
    /// What was last measured on an imported shape.
    pub imported: ImportedAero,
    /// What was last measured.
    pub reading: Reading,
}

/// Whether these are the sines and cosines of half the angles of the attitude.
pub open spec fn are_half_angles<M: Elementary>(m: M, s: Settings, h: HalfAngles) -> bool {
    let roll = s.roll.wide.product(num(D0_5));
    let pitch = s.pitch.wide.product(num(D0_5));
    let yaw = s.yaw.wide.product(num(D0_5));
    &&& call_ensures(M::sin, (&m, roll), h.sin_roll)
    &&& call_ensures(M::cos, (&m, roll), h.cos_roll)
    &&& call_ensures(M::sin, (&m, pitch), h.sin_pitch)
    &&& call_ensures(M::cos, (&m, pitch), h.cos_pitch)
    &&& call_ensures(M::sin, (&m, yaw), h.sin_yaw)
    &&& call_ensures(M::cos, (&m, yaw), h.cos_yaw)
}

/// Whether this is the stream that the settings ask for.
pub open spec fn is_stream<M: Elementary>(m: M, s: Settings, flow: Vec3) -> bool {
    exists|sine: Binary64, cosine: Binary64| #[trigger]
        call_ensures(M::sin, (&m, s.wind_direction.wide), sine) && #[trigger] call_ensures(
            M::cos,
            (&m, s.wind_direction.wide),
            cosine,
        ) && flow == super::reading::stream_of(sine, cosine, s.wind_speed.wide)
}

/// The stream that the settings ask for.
pub fn stream<M: Elementary>(m: &M, s: &Settings) -> (r: Vec3)
    ensures
        is_stream(*m, *s, r),
{
    let sine: Binary64 = m.sin(s.wind_direction.wide);
    let cosine: Binary64 = m.cos(s.wind_direction.wide);
    flow_wind(sine, cosine, s.wind_speed.wide)
}

/// Whether this is the aircraft in its attitude in a stream.
pub open spec fn is_posed<M: Elementary>(
    m: M,
    s: Settings,
    flow: Vec3,
    state: AircraftState,
) -> bool {
    exists|h: HalfAngles| #[trigger]
        are_half_angles(m, s, h) && state == super::reading::state_in(
            super::reading::quaternion_of(h),
            flow,
        )
}

/// The aircraft in its attitude in a stream.
pub fn posed<M: Elementary>(m: &M, s: &Settings, flow: Vec3) -> (r: AircraftState)
    ensures
        is_posed(*m, *s, flow, r),
{
    let roll: Binary64 = s.roll.wide.times(num(D0_5));
    let pitch: Binary64 = s.pitch.wide.times(num(D0_5));
    let yaw: Binary64 = s.yaw.wide.times(num(D0_5));
    let h: HalfAngles = HalfAngles {
        sin_roll: m.sin(roll),
        cos_roll: m.cos(roll),
        sin_pitch: m.sin(pitch),
        cos_pitch: m.cos(pitch),
        sin_yaw: m.sin(yaw),
        cos_yaw: m.cos(yaw),
    };
    proof {
        assert(are_half_angles(*m, *s, h));
    }
    attitude_state(euler_to_quat(h), flow)
}

/// The controls that the settings ask for.
pub open spec fn controls_set(s: Settings) -> ControlInputs {
    ControlInputs {
        elevator: s.elevator.wide,
        aileron: s.aileron.wide,
        rudder: s.rudder.wide,
        throttle: s.throttle,
        flap: super::settings::radians(s.flaps_deg).wide,
    }
}

/// Whether this is measured on an aircraft in the stream.
pub open spec fn is_reading<M: Elementary>(
    m: M,
    s: Settings,
    config: AircraftConfig,
    r: Reading,
) -> bool {
    let split = AircraftConfig { throttle_split: s.throttle_split, ..config };
    exists|flow: Vec3, state: AircraftState, load: Load, level: Binary64, tas: Binary64|
        #![trigger
            is_posed(m, s, flow, state),
            call_ensures(M::hypot, (&m, level, state.w), tas),
            is_load_of(m, state, split, s, load),
        ]
        is_stream(m, s, flow) && is_posed(m, s, flow, state) && is_load_of(
            m,
            state,
            split,
            s,
            load,
        ) && call_ensures(M::hypot, (&m, state.u, state.v), level) && call_ensures(
            M::hypot,
            (&m, level, state.w),
            tas,
        ) && r == super::reading::reading_of(
            load,
            crate::shape::shape_load(
                config.collision_panels@,
                state.attitude().rotated(flow),
                config.collision_panels@.len(),
            ),
            tas,
            config.wing_area,
        )
}

/// Whether this is the load on the aircraft under the controls that are set.
pub open spec fn is_load_of<M: Elementary>(
    m: M,
    state: AircraftState,
    config: AircraftConfig,
    s: Settings,
    load: Load,
) -> bool {
    flight::is_load(m, state, config, controls_set(s), Vec3::zero(), None, load)
}

/// Measures an aircraft in the stream. The split of its engines is set.
fn measure_aircraft<M: Elementary>(m: &M, s: &Settings, config: &mut AircraftConfig) -> (r: Reading)
    ensures
        is_reading(*m, *s, *old(config), r),
        *final(config) == *old(config),
{
    let ghost before = *config;
    let flow: Vec3 = stream(m, s);
    let state: AircraftState = posed(m, s, flow);
    let controls: ControlInputs = ControlInputs {
        elevator: s.elevator.wide,
        aileron: s.aileron.wide,
        rudder: s.rudder.wide,
        throttle: s.throttle,
        flap: to_radians(s.flaps_deg).wide,
    };
    let own: Binary64 = config.throttle_split;
    config.throttle_split = s.throttle_split;
    let load: Load = flight::load(m, &state, config, controls, Vec3::zeros(), None);
    config.throttle_split = own;
    let shape: WindLoad = compute_shape_wind(&state, config.collision_panels.as_slice(), flow);
    let level: Binary64 = m.hypot(state.u, state.v);
    let tas: Binary64 = m.hypot(level, state.w);
    proof {
        let split = AircraftConfig { throttle_split: s.throttle_split, ..before };
        assert(is_load_of(*m, state, split, *s, load));
        assert(is_posed(*m, *s, flow, state));
    }
    aircraft_reading(load, shape, tas, config.wing_area)
}

/// Whether this is measured on an imported shape in the stream.
pub open spec fn is_shape_reading<M: Elementary>(
    m: M,
    s: Settings,
    panels: Seq<CollisionPanel>,
    metrics: ShapeMetrics,
    aero: ImportedAero,
) -> bool {
    exists|flow: Vec3, state: AircraftState, p: DragPowers|
        #![trigger
            is_posed(m, s, flow, state),
            flight::are_drag_powers(
                m,
                crate::shape::terms_of(super::reading::stream_along(state, flow).length(), metrics),
                p,
            ),
        ]
        is_stream(m, s, flow) && is_posed(m, s, flow, state) && flight::are_drag_powers(
            m,
            crate::shape::terms_of(super::reading::stream_along(state, flow).length(), metrics),
            p,
        ) && aero == crate::shape::imported_load(
            panels,
            super::reading::stream_along(state, flow),
            metrics,
            p,
        )
}

/// Measures an imported shape in the stream.
pub fn measure_shape<M: Elementary>(
    m: &M,
    s: &Settings,
    panels: &[CollisionPanel],
    metrics: ShapeMetrics,
) -> (r: ImportedAero)
    ensures
        is_shape_reading(*m, *s, panels@, metrics, r),
{
    let flow: Vec3 = stream(m, s);
    let state: AircraftState = posed(m, s, flow);
    let body: Vec3 = stream_in_body(&state, flow);
    let r: ImportedAero = flight::imported_shape_wind(m, panels, body, metrics);
    proof {
        let p = choose|p: DragPowers| #[trigger]
            flight::are_drag_powers(*m, crate::shape::terms_of(body.length(), metrics), p) && r
                == crate::shape::imported_load(panels@, body, metrics, p);
        assert(is_posed(*m, *s, flow, state));
        assert(flight::are_drag_powers(
            *m,
            crate::shape::terms_of(super::reading::stream_along(state, flow).length(), metrics),
            p,
        ));
    }
    r
}

/// Whether this is what the settings mean.
pub open spec fn is_aspect<M: Elementary, E: ElementarySingle>(
    m: M,
    e: E,
    s: Settings,
    a: Aspect,
) -> bool {
    &&& super::bench::are_direction(e, s.pitch, a.cos_alpha, a.sin_alpha)
    &&& exists|cosine: Single, sine: Single| #[trigger]
        super::bench::are_direction(e, s.wind_direction, cosine, sine) && a.towards
            == super::settings::wind_towards(sine, cosine)
    &&& exists|flow: Vec3, state: AircraftState| #[trigger]
        is_posed(m, s, flow, state) && is_stream(m, s, flow) && a.axes
            == super::reading::axes_of(state)
}

/// What the settings mean.
pub fn aspect<M: Elementary, E: ElementarySingle>(m: &M, e: &E, s: &Settings) -> (r: Aspect)
    ensures
        is_aspect(*m, *e, *s, r),
{
    let flow: Vec3 = stream(m, s);
    let state: AircraftState = posed(m, s, flow);
    let (cosine, sine) = (e.cos(s.wind_direction), e.sin(s.wind_direction));
    proof {
        assert(super::bench::are_direction(*e, s.wind_direction, cosine, sine));
        assert(is_posed(*m, *s, flow, state));
    }
    Aspect {
        cos_alpha: e.cos(s.pitch),
        sin_alpha: e.sin(s.pitch),
        towards: wind_velocity(sine, cosine),
        axes: attitude_axes(&state),
    }
}

/// The measures of a shape that the tunnel needs.
pub open spec fn shape_measures(metrics: MeshMetrics) -> ShapeMetrics {
    ShapeMetrics {
        wetted_area: metrics.wetted_area,
        frontal_area: metrics.frontal_area,
        reference_len: metrics.size_x,
    }
}

impl Station {
    pub open spec fn wf(self) -> bool {
        self.tunnel.wf()
    }

    /// An empty tunnel.
    pub fn new<E: ElementarySingle>(e: &E) -> (r: Self)
        ensures
            r.wf(),
            r.tunnel.rebuilt(*e),
            r.tunnel.particles@.len() == 0,
            r.tunnel.shedding.vortices@.len() == 0,
            r.config is None,
            r.panels@.len() == 0,
            r.metrics == (ShapeMetrics {
                wetted_area: num(D0),
                frontal_area: num(D0),
                reference_len: num(D0),
            }),
            !r.reading.measured(),
    {
        Station {
            tunnel: WindTunnel::new(Settings::new(), e),
            config: None,
            panels: Vec::new(),
            metrics: ShapeMetrics {
                wetted_area: num(D0),
                frontal_area: num(D0),
                reference_len: num(D0),
            },
            imported: ImportedAero::default(),
            reading: Reading { force: Vec3::zeros(), moment: Vec3::zeros(), cl: num(D0) },
        }
    }

    /// Tests another aircraft; an imported shape is taken away.
    pub fn switch_aircraft<E: ElementarySingle>(&mut self, config: AircraftConfig, e: &E)
        requires
            old(self).wf(),
        ensures
            final(self).wf(),
            final(self).config == Some(config),
            final(self).panels@.len() == 0,
            final(self).tunnel.rebuilt(*e),
            final(self).tunnel == (WindTunnel {
                wing: final(self).tunnel.wing,
                left_fin: final(self).tunnel.left_fin,
                right_fin: final(self).tunnel.right_fin,
                filaments: final(self).tunnel.filaments,
                bound: final(self).tunnel.bound,
                ..old(self).tunnel
            }),
            *final(self) == (Station {
                tunnel: final(self).tunnel,
                config: final(self).config,
                panels: final(self).panels,
                ..*old(self)
            }),
    {
        self.config = Some(config);
        self.panels = Vec::new();
        self.tunnel.rebuild(e);
    }

    /// Tests the shape that a mesh of triangles encloses; returns the number
    /// of panels on its surface. Without a mesh the shape is taken away.
    pub fn set_imported_shape<M: Elementary>(
        &mut self,
        vertices: &[Vec3],
        triangles: &[Triangle],
        resolution: usize,
        m: &M,
    ) -> (r: usize)
        requires
            crate::voxel::indexed(vertices@, triangles@),
        ensures
            crate::voxel::are_panels(
                *m,
                vertices@,
                triangles@,
                resolution,
                final(self).panels@,
            ),
            r == final(self).panels@.len(),
            final(self).metrics == if vertices@.len() == 0 || triangles@.len() == 0 {
                old(self).metrics
            } else {
                shape_measures(
                    crate::voxel::metrics_of(
                        crate::voxel::sums_of(vertices@, triangles@, triangles@.len()),
                    ),
                )
            },
            *final(self) == (Station {
                panels: final(self).panels,
                metrics: final(self).metrics,
                ..*old(self)
            }),
    {
        self.panels = voxelize_panels(vertices, triangles, resolution, m);
        if vertices.len() != 0 && triangles.len() != 0 {
            let metrics: MeshMetrics = mesh_metrics(vertices, triangles);
            self.metrics =
            ShapeMetrics {
                wetted_area: metrics.wetted_area,
                frontal_area: metrics.frontal_area,
                reference_len: metrics.size_x,
            };
        }
        self.panels.len()
    }

    /// Whether an imported shape is tested.
    pub fn is_imported_shape(&self) -> (r: bool)
        ensures
            r == (self.panels@.len() > 0),
    {
        self.panels.len() > 0
    }

    /// Whether this is measured: on an imported shape, where there is one, or
    /// on the aircraft.
    pub open spec fn measures<M: Elementary>(self, m: M, r: Reading, aero: ImportedAero) -> bool {
        if self.panels@.len() > 0 {
            &&& is_shape_reading(m, self.tunnel.settings, self.panels@, self.metrics, aero)
            &&& r == (Reading { force: aero.force, moment: aero.moment, cl: num(D0) })
        } else {
            &&& aero == self.imported
            &&& self.config matches Some(config) && is_reading(m, self.tunnel.settings, config, r)
        }
    }

    fn compute_aero<M: Elementary>(&mut self, m: &M)
        requires
            old(self).config is Some,
        ensures
            old(self).measures(*m, final(self).reading, final(self).imported),
            *final(self) == (Station {
                reading: final(self).reading,
                imported: final(self).imported,
                ..*old(self)
            }),
    {
        if self.panels.len() > 0 {
            let aero: ImportedAero = measure_shape(
                m,
                &self.tunnel.settings,
                self.panels.as_slice(),
                self.metrics,
            );
            self.reading = shape_reading(&aero);
            self.imported = aero;
        } else {
            match self.config.take() {
                None => {},
                Some(mut config) => {
                    self.reading = measure_aircraft(m, &self.tunnel.settings, &mut config);
                    self.config = Some(config);
                },
            }
        }
    }

    /// A step of `dt` seconds: what is tested is measured, the lattice is
    /// solved, and the flow carries the smoke along.
    pub fn step<M: Elementary, E: ElementarySingle>(&mut self, dt: Binary64, m: &M, e: &E)
        requires
            old(self).wf(),
            old(self).config is Some,
        ensures
            final(self).wf(),
            old(self).measures(*m, final(self).reading, final(self).imported),
            final(self).config == old(self).config,
            final(self).panels == old(self).panels,
            final(self).metrics == old(self).metrics,
            exists|a: Aspect| #[trigger]
                is_aspect(*m, *e, old(self).tunnel.settings, a)
                    && final(self).tunnel.stepped_from(old(self).tunnel, Single::of(dt), a, *e),
    {
        self.compute_aero(m);
        let a: Aspect = aspect(m, e, &self.tunnel.settings);
        self.tunnel.step(Single::from_wide(dt), a, e);
        proof {
            assert(is_aspect(*m, *e, old(self).tunnel.settings, a));
        }
    }

    /// The axes of the aircraft in the scene.
    pub fn pose<M: Elementary>(&self, m: &M) -> (r: Axes)
        ensures
            exists|flow: Vec3, state: AircraftState| #[trigger]
                is_posed(*m, self.tunnel.settings, flow, state) && is_stream(
                    *m,
                    self.tunnel.settings,
                    flow,
                ) && r == super::reading::axes_of(state),
    {
        let flow: Vec3 = stream(m, &self.tunnel.settings);
        let state: AircraftState = posed(m, &self.tunnel.settings, flow);
        proof {
            assert(is_posed(*m, self.tunnel.settings, flow, state));
        }
        attitude_axes(&state)
    }

    /// What was last measured on an imported shape: drag coefficient, Reynolds
    /// number, areas and length.
    pub fn get_imported_aero(&self) -> (r: [Binary64; 5])
        ensures
            r@ =~= seq![
                self.imported.cd_frontal,
                self.imported.re,
                self.imported.frontal_area,
                self.imported.wetted_area,
                self.imported.reference_len,
            ],
    {
        [
            self.imported.cd_frontal,
            self.imported.re,
            self.imported.frontal_area,
            self.imported.wetted_area,
            self.imported.reference_len,
        ]
    }
}

} // verus!
