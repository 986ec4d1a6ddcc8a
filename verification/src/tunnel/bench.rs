//! The wind tunnel as a whole.
use super::body::fin_cant;
use super::grid::{Axes, FlowGrid, Stream};
use super::lattice::{fin, wing, CpSample, VlmSurface};
use super::settings::Settings;
use super::smoke::{
    advance_particles, appearance, fresh_particles, reset_trails, Particle, NOZZLES,
    PARTICLE_COUNT,
};
use super::vortex::{Shedding, VortexSegment};
use crate::elementary::ElementarySingle;
use crate::literal::{D0, D0_25, D1, M1, M1_8};
use crate::single::{sgl, Single, Vector};
use vstd::prelude::*;

verus! {

/// The wind tunnel: the lattice of the aircraft, the wake, the flow and the
/// smoke in it.
#[derive(Clone, Debug)]
pub struct WindTunnel {
    pub settings: Settings,
    pub wing: VlmSurface,
    pub left_fin: VlmSurface,
    pub right_fin: VlmSurface,
    pub filaments: Vec<VortexSegment>,
    pub bound: Vec<VortexSegment>,
    pub cp: Vec<CpSample>,
    pub shedding: Shedding,
    pub grid: FlowGrid,
    pub particles: Vec<Particle>,
    /// The nozzle that emits next.
    pub emit: usize,
    /// Seconds so far.
    pub elapsed: Single,
}

/// What the settings of the tunnel mean at a moment.
#[derive(Clone, Copy, Debug, PartialEq, Eq, Structural)]
pub struct Aspect {
    /// Cosine and sine of the angle of attack.
    pub cos_alpha: Single,
    pub sin_alpha: Single,
    /// The direction in which the wind blows.
    pub towards: Vector,
    /// The axes of the aircraft.
    pub axes: Axes,
}

/// Whether these are the cosine and the sine of an angle.
pub open spec fn are_direction<E: ElementarySingle>(
    e: E,
    angle: Single,
    cosine: Single,
    sine: Single,
) -> bool {
    &&& call_ensures(E::cos, (&e, angle), cosine)
    &&& call_ensures(E::sin, (&e, angle), sine)
}

/// Whether the surfaces are the wing and the fins before they are solved.
pub open spec fn are_flat<E: ElementarySingle>(
    e: E,
    wing: VlmSurface,
    left: VlmSurface,
    right: VlmSurface,
) -> bool {
    &&& wing.is_wing()
    &&& exists|cosine: Single, sine: Single| #[trigger]
        are_direction(e, super::body::cant(), cosine, sine) && left.is_fin(sgl(M1), sine, cosine)
            && right.is_fin(sgl(D1), sine, cosine)
}

/// Whether particles are those before a step: new ones, where there are none.
pub open spec fn starts<E: ElementarySingle>(
    before: Seq<Particle>,
    e: E,
    start: Seq<Particle>,
) -> bool {
    if before.len() == 0 {
        &&& start.len() == PARTICLE_COUNT
        &&& forall|i: int|
            0 <= i < PARTICLE_COUNT ==> super::smoke::fresh(e, i, #[trigger] start[i])
    } else {
        start == before
    }
}

/// Whether particles are what becomes of others in a step.
pub open spec fn moved<E: ElementarySingle>(
    start: Seq<Particle>,
    data: Seq<Vector>,
    wind: Vector,
    dt: Single,
    emit: nat,
    e: E,
    end: Seq<Particle>,
) -> bool {
    &&& end.len() == start.len()
    &&& forall|i: int|
        0 <= i < start.len() ==> super::smoke::follows(
            start,
            i,
            data,
            wind,
            dt,
            emit,
            e,
            #[trigger] end[i],
        )
}

/// The numbers that show a particle: its place, its size, its age as a
/// fraction and its seed.
pub open spec fn particle_numbers(p: Particle) -> Seq<Single> {
    let (size, age) = super::smoke::looks(p);
    seq![p.pos.x, p.pos.y, p.pos.z, size, age, p.seed]
}

/// The numbers that show a pressure: its place, the normal there and itself.
pub open spec fn pressure_numbers(s: CpSample) -> Seq<Single> {
    seq![s.pos.x, s.pos.y, s.pos.z, s.normal.x, s.normal.y, s.normal.z, s.cp]
}

impl WindTunnel {
    /// The surfaces carry panels, and there is no smoke or all of it.
    pub open spec fn wf(self) -> bool {
        &&& self.wing.wf() && self.wing.n_panels >= 1
        &&& self.left_fin.wf() && self.left_fin.n_panels >= 1
        &&& self.right_fin.wf() && self.right_fin.n_panels >= 1
        &&& self.particles@.len() == 0 || self.particles@.len() == PARTICLE_COUNT
        &&& self.emit < NOZZLES
    }

    /// The filaments behind the three surfaces.
    pub open spec fn all_filaments(self) -> Seq<VortexSegment> {
        self.wing.trails(sgl(D0_25), (self.wing.n_panels + 1) as nat) + self.left_fin.trails(
            sgl(M1_8),
            (self.left_fin.n_panels + 1) as nat,
        ) + self.right_fin.trails(sgl(M1_8), (self.right_fin.n_panels + 1) as nat)
    }

    /// The vortices bound to the three surfaces.
    pub open spec fn all_bounds(self) -> Seq<VortexSegment> {
        self.wing.bounds(self.wing.n_panels as nat) + self.left_fin.bounds(
            self.left_fin.n_panels as nat,
        ) + self.right_fin.bounds(self.right_fin.n_panels as nat)
    }

    /// The pressures on the three surfaces.
    pub open spec fn all_pressures(self) -> Seq<CpSample> {
        let (f, v) = (self.filaments@, self.settings.wind_speed);
        self.wing.samples(f, v) + self.left_fin.samples(f, v) + self.right_fin.samples(f, v)
    }

    /// The stream in the tunnel.
    pub open spec fn stream(self, towards: Vector) -> Stream {
        Stream {
            wind: towards.scaled(self.settings.wind_speed),
            speed: self.settings.wind_speed,
            time: self.elapsed,
            alpha: self.settings.pitch,
        }
    }

    /// Whether the surfaces are new ones, solved for the wind and the angle of
    /// attack, and the wing alone leaves filaments.
    pub open spec fn rebuilt<E: ElementarySingle>(self, e: E) -> bool {
        &&& exists|
            w: VlmSurface,
            left: VlmSurface,
            right: VlmSurface,
            cos_alpha: Single,
            sin_alpha: Single,
        | #[trigger]
            are_flat(e, w, left, right) && #[trigger] are_direction(
                e,
                self.settings.pitch,
                cos_alpha,
                sin_alpha,
            ) && self.wing.solved(w, cos_alpha, sin_alpha, self.settings.wind_speed)
                && self.left_fin.solved(left, cos_alpha, sin_alpha, self.settings.wind_speed)
                && self.right_fin.solved(right, cos_alpha, sin_alpha, self.settings.wind_speed)
        &&& self.filaments@ == self.wing.trails(sgl(D0_25), (self.wing.n_panels + 1) as nat)
        &&& self.bound@ == self.wing.bounds(self.wing.n_panels as nat)
    }

    /// A tunnel with the surfaces of the aircraft, without smoke.
    pub fn new<E: ElementarySingle>(settings: Settings, e: &E) -> (r: Self)
        ensures
            r.wf(),
            r.settings == settings,
            r.rebuilt(*e),
            r.cp@.len() == 0,
            r.shedding.vortices@.len() == 0,
            r.shedding.timer == sgl(D0),
            r.shedding.phase == sgl(D0),
            r.grid.data@.len() == 0,
            r.particles@.len() == 0,
            r.emit == 0,
            r.elapsed == sgl(D0),
    {
        let (cant_sine, cant_cosine) = (e.sin(fin_cant()), e.cos(fin_cant()));
        let (cos_alpha, sin_alpha) = (e.cos(settings.pitch), e.sin(settings.pitch));
        let mut main: VlmSurface = wing();
        let mut left_fin: VlmSurface = fin(sgl(M1), cant_sine, cant_cosine);
        let mut right_fin: VlmSurface = fin(sgl(D1), cant_sine, cant_cosine);
        let ghost (w, l, r) = (main, left_fin, right_fin);
        main.solve(cos_alpha, sin_alpha, settings.wind_speed);
        left_fin.solve(cos_alpha, sin_alpha, settings.wind_speed);
        right_fin.solve(cos_alpha, sin_alpha, settings.wind_speed);
        let filaments: Vec<VortexSegment> = main.trailing_filaments(sgl(D0_25));
        let bound: Vec<VortexSegment> = main.bound_segments();
        proof {
            assert(are_direction(*e, super::body::cant(), cant_cosine, cant_sine));
            assert(are_direction(*e, settings.pitch, cos_alpha, sin_alpha));
            assert(are_flat(*e, w, l, r));
        }
        WindTunnel {
            settings,
            wing: main,
            left_fin,
            right_fin,
            filaments,
            bound,
            cp: Vec::new(),
            shedding: Shedding { vortices: Vec::new(), timer: sgl(D0), phase: sgl(D0) },
            grid: FlowGrid::new(),
            particles: Vec::new(),
            emit: 0,
            elapsed: sgl(D0),
        }
    }

    /// Sets up the surfaces anew. Smoke, shed vortices and flow stay.
    pub fn rebuild<E: ElementarySingle>(&mut self, e: &E)
        requires
            old(self).wf(),
        ensures
            final(self).wf(),
            final(self).rebuilt(*e),
            *final(self) == (WindTunnel {
                wing: final(self).wing,
                left_fin: final(self).left_fin,
                right_fin: final(self).right_fin,
                filaments: final(self).filaments,
                bound: final(self).bound,
                ..*old(self)
            }),
    {
        let t: WindTunnel = WindTunnel::new(self.settings, e);
        let ghost fresh = t;
        self.wing = t.wing;
        self.left_fin = t.left_fin;
        self.right_fin = t.right_fin;
        self.filaments = t.filaments;
        self.bound = t.bound;
        proof {
            let v = self.settings.wind_speed;
            let (w, left, right, c, s) = choose|
                w: VlmSurface,
                left: VlmSurface,
                right: VlmSurface,
                c: Single,
                s: Single,
            | #[trigger]
                are_flat(*e, w, left, right) && #[trigger] are_direction(
                    *e,
                    fresh.settings.pitch,
                    c,
                    s,
                ) && fresh.wing.solved(w, c, s, v) && fresh.left_fin.solved(left, c, s, v)
                    && fresh.right_fin.solved(right, c, s, v);
            assert(are_flat(*e, w, left, right));
            assert(are_direction(*e, self.settings.pitch, c, s));
            assert(self.wing.solved(w, c, s, v));
        }
    }

    /// Solves the lattice and rebuilds the wake.
    fn step_wake(&mut self, dt: Single, aspect: Aspect)
        requires
            old(self).wf(),
        ensures
            final(self).wf(),
            final(self).settings == old(self).settings,
            final(self).grid == old(self).grid,
            final(self).particles == old(self).particles,
            final(self).emit == old(self).emit,
            final(self).elapsed == old(self).elapsed,
            final(self).solved_from(*old(self), aspect),
            final(self).filaments@ == final(self).all_filaments(),
            final(self).bound@ == final(self).all_bounds(),
            final(self).cp@ == final(self).all_pressures(),
            final(self).shedding.updated(old(self).shedding, old(self).settings.wind_speed, dt),
    {
        let speed: Single = self.settings.wind_speed;
        self.wing.solve(aspect.cos_alpha, aspect.sin_alpha, speed);
        self.left_fin.solve(aspect.cos_alpha, aspect.sin_alpha, speed);
        self.right_fin.solve(aspect.cos_alpha, aspect.sin_alpha, speed);

        let mut filaments: Vec<VortexSegment> = self.wing.trailing_filaments(sgl(D0_25));
        let mut left: Vec<VortexSegment> = self.left_fin.trailing_filaments(sgl(M1_8));
        let mut right: Vec<VortexSegment> = self.right_fin.trailing_filaments(sgl(M1_8));
        filaments.append(&mut left);
        filaments.append(&mut right);

        let mut bound: Vec<VortexSegment> = self.wing.bound_segments();
        let mut left: Vec<VortexSegment> = self.left_fin.bound_segments();
        let mut right: Vec<VortexSegment> = self.right_fin.bound_segments();
        bound.append(&mut left);
        bound.append(&mut right);

        self.shedding.update(speed, dt);

        let mut cp: Vec<CpSample> = self.wing.pressures(filaments.as_slice(), speed);
        let mut left: Vec<CpSample> = self.left_fin.pressures(filaments.as_slice(), speed);
        let mut right: Vec<CpSample> = self.right_fin.pressures(filaments.as_slice(), speed);
        cp.append(&mut left);
        cp.append(&mut right);

        self.filaments = filaments;
        self.bound = bound;
        self.cp = cp;
    }

    /// Whether the surfaces are those of `before`, solved.
    pub open spec fn solved_from(self, before: WindTunnel, aspect: Aspect) -> bool {
        let (c, s, v) = (aspect.cos_alpha, aspect.sin_alpha, before.settings.wind_speed);
        &&& self.wing.solved(before.wing, c, s, v)
        &&& self.left_fin.solved(before.left_fin, c, s, v)
        &&& self.right_fin.solved(before.right_fin, c, s, v)
    }

    /// Whether this is `before` a step later: the lattice is solved, the wake is
    /// rebuilt, vortices are shed, the pressures and the flow are computed and
    /// the smoke is carried along.
    pub open spec fn stepped_from<E: ElementarySingle>(
        self,
        before: WindTunnel,
        dt: Single,
        aspect: Aspect,
        e: E,
    ) -> bool {
        &&& self.settings == before.settings
        &&& self.elapsed == before.elapsed.sum(dt)
        &&& self.solved_from(before, aspect)
        &&& self.filaments@ == self.all_filaments()
        &&& self.bound@ == self.all_bounds()
        &&& self.cp@ == self.all_pressures()
        &&& self.shedding.updated(before.shedding, before.settings.wind_speed, dt)
        &&& self.grid.built()
        &&& self.grid.holds(
            self.stream(aspect.towards),
            aspect.axes,
            self.filaments@,
            self.shedding.vortices@,
            e,
        )
        &&& exists|start: Seq<Particle>| #[trigger]
            starts(before.particles@, e, start) && moved(
                start,
                self.grid.data@,
                self.stream(aspect.towards).wind,
                super::smoke::step_of(dt),
                before.emit as nat,
                e,
                self.particles@,
            ) && self.emit == (before.emit + super::smoke::expired(
                start,
                super::smoke::step_of(dt),
                start.len(),
            )) as int % NOZZLES as int
    }

    /// A step: the lattice is solved, the wake is rebuilt, vortices are shed,
    /// the pressures and the flow are computed and the smoke is carried along.
    pub fn step<E: ElementarySingle>(&mut self, dt: Single, aspect: Aspect, e: &E)
        requires
            old(self).wf(),
        ensures
            final(self).wf(),
            final(self).stepped_from(*old(self), dt, aspect, *e),
    {
        let ghost before = *self;
        if self.particles.len() == 0 {
            self.particles = fresh_particles(e);
        }
        let ghost start = self.particles@;
        self.elapsed = self.elapsed.plus(dt);
        self.step_wake(dt, aspect);
        let speed: Single = self.settings.wind_speed;
        let wind: Vector = aspect.towards.times(speed);
        let stream: Stream = Stream {
            wind,
            speed,
            time: self.elapsed,
            alpha: self.settings.pitch,
        };
        self.grid.build(
            stream,
            aspect.axes,
            self.filaments.as_slice(),
            self.shedding.vortices.as_slice(),
            e,
        );
        self.emit = advance_particles(&mut self.particles, self.emit, &self.grid, wind, dt, e);
        proof {
            assert(starts(before.particles@, *e, start));
        }
    }

    /// Starts the smoke again, as if it had flowed for the life of a particle.
    pub fn reset_trails<E: ElementarySingle>(&mut self, e: &E)
        requires
            old(self).wf(),
        ensures
            final(self).wf(),
            final(self).particles@.len() == PARTICLE_COUNT,
            exists|start: Seq<Particle>| #[trigger]
                starts(old(self).particles@, *e, start) && (forall|i: int|
                    0 <= i < PARTICLE_COUNT ==> super::smoke::spread(
                        *e,
                        i,
                        start[i],
                        #[trigger] final(self).particles@[i],
                    )),
            *final(self) == (WindTunnel { particles: final(self).particles, ..*old(self) }),
    {
        let ghost before = *self;
        if self.particles.len() == 0 {
            self.particles = fresh_particles(e);
        }
        let ghost start = self.particles@;
        reset_trails(&mut self.particles, e);
        proof {
            assert(starts(before.particles@, *e, start));
        }
    }

    /// The smoke, six numbers for each particle.
    pub fn get_particles(&self) -> (r: Vec<Single>)
        requires
            self.wf(),
        ensures
            r@.len() == 6 * self.particles@.len(),
            forall|i: int|
                0 <= i < self.particles@.len() ==> r@.subrange(6 * i, 6 * i + 6)
                    == particle_numbers(#[trigger] self.particles@[i]),
    {
        let mut r: Vec<Single> = Vec::new();
        let mut i: usize = 0;
        while i < self.particles.len()
            invariant
                i <= self.particles@.len(),
                r@.len() == 6 * i,
                forall|k: int|
                    0 <= k < i ==> r@.subrange(6 * k, 6 * k + 6) == particle_numbers(
                        #[trigger] self.particles@[k],
                    ),
            decreases self.particles@.len() - i,
        {
            let p: Particle = self.particles[i];
            let (size, age) = appearance(p);
            let ghost before = r@;
            r.push(p.pos.x);
            r.push(p.pos.y);
            r.push(p.pos.z);
            r.push(size);
            r.push(age);
            r.push(p.seed);
            proof {
                assert forall|k: int| 0 <= k < i + 1 implies r@.subrange(6 * k, 6 * k + 6)
                    == particle_numbers(#[trigger] self.particles@[k]) by {
                    if k < i {
                        assert(r@.subrange(6 * k, 6 * k + 6) =~= before.subrange(
                            6 * k,
                            6 * k + 6,
                        ));
                    } else {
                        assert(r@.subrange(6 * k, 6 * k + 6) =~= particle_numbers(p));
                    }
                }
            }
            i += 1;
        }
        r
    }

    /// The pressures, seven numbers for each.
    pub fn get_surface_cp(&self) -> (r: Vec<Single>)
        ensures
            r@.len() == 7 * self.cp@.len(),
            forall|i: int|
                0 <= i < self.cp@.len() ==> r@.subrange(7 * i, 7 * i + 7) == pressure_numbers(
                    #[trigger] self.cp@[i],
                ),
    {
        let mut r: Vec<Single> = Vec::new();
        let mut i: usize = 0;
        while i < self.cp.len()
            invariant
                i <= self.cp@.len(),
                r@.len() == 7 * i,
                forall|k: int|
                    0 <= k < i ==> r@.subrange(7 * k, 7 * k + 7) == pressure_numbers(
                        #[trigger] self.cp@[k],
                    ),
            decreases self.cp@.len() - i,
        {
            let s: CpSample = self.cp[i];
            let ghost before = r@;
            r.push(s.pos.x);
            r.push(s.pos.y);
            r.push(s.pos.z);
            r.push(s.normal.x);
            r.push(s.normal.y);
            r.push(s.normal.z);
            r.push(s.cp);
            proof {
                assert forall|k: int| 0 <= k < i + 1 implies r@.subrange(7 * k, 7 * k + 7)
                    == pressure_numbers(#[trigger] self.cp@[k]) by {
                    if k < i {
                        assert(r@.subrange(7 * k, 7 * k + 7) =~= before.subrange(
                            7 * k,
                            7 * k + 7,
                        ));
                    } else {
                        assert(r@.subrange(7 * k, 7 * k + 7) =~= pressure_numbers(s));
                    }
                }
            }
            i += 1;
        }
        r
    }

    /// The stations of the wing and the circulation at each.
    pub fn get_vlm_gamma(&self) -> (r: Vec<Single>)
        requires
            self.wf(),
        ensures
            r@.len() == 2 * self.wing.span@.len(),
            forall|i: int|
                #![trigger self.wing.span@[i]]
                0 <= i < self.wing.span@.len() ==> r@[2 * i] == self.wing.span@[i] && r@[2 * i + 1]
                    == self.wing.gamma@[i],
    {
        let mut r: Vec<Single> = Vec::new();
        let mut i: usize = 0;
        while i < self.wing.span.len()
            invariant
                self.wf(),
                i <= self.wing.span@.len(),
                r@.len() == 2 * i,
                forall|k: int|
                    #![trigger self.wing.span@[k]]
                    0 <= k < i ==> r@[2 * k] == self.wing.span@[k] && r@[2 * k + 1]
                        == self.wing.gamma@[k],
            decreases self.wing.span@.len() - i,
        {
            r.push(self.wing.span[i]);
            r.push(self.wing.gamma[i]);
            i += 1;
        }
        r
    }
}

/// The stream blows where it is sent, as fast as it is set.
pub proof fn streams_blow_as_they_are_set(t: WindTunnel, towards: Vector)
    requires
        crate::single::is_held(towards),
        t.settings.wind_speed.wide.finite(),
    ensures
        crate::single::like_product(
            t.stream(towards).wind.x,
            towards.x,
            t.settings.wind_speed,
        ),
        crate::single::like_product(
            t.stream(towards).wind.y,
            towards.y,
            t.settings.wind_speed,
        ),
        crate::single::like_product(
            t.stream(towards).wind.z,
            towards.z,
            t.settings.wind_speed,
        ),
        t.stream(towards).speed == t.settings.wind_speed,
        t.stream(towards).alpha == t.settings.pitch,
        t.stream(towards).time == t.elapsed,
{
    let v = t.settings.wind_speed;
    crate::single::products_follow_their_factors(v, towards.x, towards.x);
    crate::single::products_follow_their_factors(v, towards.y, towards.y);
    crate::single::products_follow_their_factors(v, towards.z, towards.z);
}

} // verus!
