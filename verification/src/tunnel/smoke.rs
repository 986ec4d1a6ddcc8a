//! The smoke: rakes of nozzles and the particles that they emit.
use super::grid::FlowGrid;
use crate::elementary::ElementarySingle;
use crate::literal::{
    D0, D0_001, D0_07, D0_1, D0_1031, D0_16, D0_32, D0_5, D0_62, D0_75, D1, D12_9898, D1_6, D2,
    D2_2, D2_8, D37, D3_4, D3_5, D4, D43758_5453, D5, D6_2831853, D78_233, D7999, D9, M0_2,
    M0_55, M1, M1_6, M2_2, M3_5,
};
use crate::single::{sgl, Single, Vector};
use vstd::prelude::*;

verus! {

pub const RAKE_ROWS: usize = 11;

pub const RAKE_COLS: usize = 6;

pub const TOP_ROWS: usize = 6;

pub const TOP_COLS: usize = 5;

/// All nozzles.
pub const NOZZLES: usize = 96;

pub const PARTICLE_COUNT: usize = 8000;

/// A particle of smoke.
#[derive(Clone, Copy, Debug, PartialEq, Eq, Structural)]
pub struct Particle {
    pub pos: Vector,
    /// Age (s).
    pub age: Single,
    /// Number that scatters the particle, from zero to one.
    pub seed: Single,
}

/// The height of a row of the rake.
pub open spec fn height_of(row: usize) -> Single {
    if row == 0 {
        sgl(M2_2)
    } else if row == 1 {
        sgl(M1_6)
    } else if row == 2 {
        sgl(M1)
    } else if row == 3 {
        sgl(M0_55)
    } else if row == 4 {
        sgl(M0_2)
    } else if row == 5 {
        sgl(D0_1)
    } else if row == 6 {
        sgl(D0_32)
    } else if row == 7 {
        sgl(D0_62)
    } else if row == 8 {
        sgl(D1)
    } else if row == 9 {
        sgl(D1_6)
    } else {
        sgl(D2_2)
    }
}

/// The height of a row of the rake.
pub fn rake_height(row: usize) -> (r: Single)
    ensures
        r == height_of(row),
{
    if row == 0 {
        sgl(M2_2)
    } else if row == 1 {
        sgl(M1_6)
    } else if row == 2 {
        sgl(M1)
    } else if row == 3 {
        sgl(M0_55)
    } else if row == 4 {
        sgl(M0_2)
    } else if row == 5 {
        sgl(D0_1)
    } else if row == 6 {
        sgl(D0_32)
    } else if row == 7 {
        sgl(D0_62)
    } else if row == 8 {
        sgl(D1)
    } else if row == 9 {
        sgl(D1_6)
    } else {
        sgl(D2_2)
    }
}

/// A nozzle of the rake.
pub open spec fn slot_of(row: usize, col: u64) -> Vector {
    Vector {
        x: sgl(D9),
        y: height_of(row),
        z: Single::integer(col as nat).quotient(sgl(D5)).difference(sgl(D0_5)).product(
            sgl(D2).product(sgl(D5)),
        ),
    }
}

/// A nozzle of the rake ahead of the aircraft.
pub fn rake_slot(row: usize, col: u64) -> (r: Vector)
    ensures
        r == slot_of(row, col),
{
    Vector {
        x: sgl(D9),
        y: rake_height(row),
        z: Single::from_u64(col).over(sgl(D5)).minus(sgl(D0_5)).times(sgl(D2).times(sgl(D5))),
    }
}

/// A nozzle of the rake above.
pub open spec fn top_slot_of(row: u64, col: u64) -> Vector {
    Vector {
        x: sgl(D3_5).sum(
            Single::integer(row as nat).quotient(sgl(D5)).product(
                sgl(M3_5).difference(sgl(D3_5)),
            ),
        ),
        y: sgl(D3_4),
        z: Single::integer(col as nat).quotient(sgl(D4)).difference(sgl(D0_5)).product(
            sgl(D2).product(sgl(D2_8)),
        ),
    }
}

/// A nozzle of the rake above the aircraft.
pub fn top_rake_slot(row: u64, col: u64) -> (r: Vector)
    ensures
        r == top_slot_of(row, col),
{
    Vector {
        x: sgl(D3_5).plus(Single::from_u64(row).over(sgl(D5)).times(sgl(M3_5).minus(sgl(D3_5)))),
        y: sgl(D3_4),
        z: Single::from_u64(col).over(sgl(D4)).minus(sgl(D0_5)).times(sgl(D2).times(sgl(D2_8))),
    }
}

/// A nozzle by its number: those ahead row by row, then those above.
pub open spec fn nozzle(n: int) -> Vector {
    if n < RAKE_ROWS * RAKE_COLS {
        slot_of((n / RAKE_COLS as int) as usize, (n % RAKE_COLS as int) as u64)
    } else {
        let m = n - RAKE_ROWS * RAKE_COLS;
        top_slot_of((m / TOP_COLS as int) as u64, (m % TOP_COLS as int) as u64)
    }
}

/// A nozzle by its number.
pub fn nozzle_at(n: usize) -> (r: Vector)
    requires
        n < NOZZLES,
    ensures
        r == nozzle(n as int),
{
    if n < RAKE_ROWS * RAKE_COLS {
        rake_slot(n / RAKE_COLS, (n % RAKE_COLS) as u64)
    } else {
        let m: usize = n - RAKE_ROWS * RAKE_COLS;
        top_rake_slot((m / TOP_COLS) as u64, (m % TOP_COLS) as u64)
    }
}

/// The angle whose sine gives the seed of a number.
pub open spec fn seed_angle_of(i: u64) -> Single {
    Single::integer(i as nat).product(sgl(D0_1031)).product(sgl(D12_9898)).sum(sgl(D78_233))
}

/// The angle whose sine gives the seed of a number.
pub fn seed_angle(i: u64) -> (r: Single)
    ensures
        r == seed_angle_of(i),
{
    Single::from_u64(i).times(sgl(D0_1031)).times(sgl(D12_9898)).plus(sgl(D78_233))
}

/// The seed that a sine gives, from zero to one.
pub open spec fn seed_of(sine: Single) -> Single {
    let s = sine.product(sgl(D43758_5453));
    s.difference(s.floored())
}

/// The seed that a sine gives, from zero to one.
pub fn seed_from(sine: Single) -> (r: Single)
    ensures
        r == seed_of(sine),
{
    let s: Single = sine.times(sgl(D43758_5453));
    s.minus(s.floor())
}

/// The two angles that scatter a particle.
pub open spec fn jitter_angles_of(seed: Single) -> (Single, Single) {
    (seed.product(sgl(D6_2831853)), seed.product(sgl(D37)).fraction().product(sgl(D6_2831853)))
}

/// The two angles that scatter a particle.
pub fn jitter_angles(seed: Single) -> (r: (Single, Single))
    ensures
        r == jitter_angles_of(seed),
{
    (seed.times(sgl(D6_2831853)), seed.times(sgl(D37)).fract().times(sgl(D6_2831853)))
}

/// Sines and cosines of the two angles that scatter a particle.
#[derive(Clone, Copy, Debug, PartialEq, Eq, Structural)]
pub struct Jitter {
    pub sin1: Single,
    pub cos1: Single,
    pub sin2: Single,
    pub cos2: Single,
}

/// Whether this is the scatter of a seed.
pub open spec fn is_jitter<E: ElementarySingle>(e: E, seed: Single, j: Jitter) -> bool {
    let (a, b) = jitter_angles_of(seed);
    &&& call_ensures(E::sin, (&e, a), j.sin1)
    &&& call_ensures(E::cos, (&e, a), j.cos1)
    &&& call_ensures(E::sin, (&e, b), j.sin2)
    &&& call_ensures(E::cos, (&e, b), j.cos2)
}

/// The scatter of a seed.
pub fn jitter_by<E: ElementarySingle>(e: &E, seed: Single) -> (r: Jitter)
    ensures
        is_jitter(*e, seed, r),
{
    let (a, b) = jitter_angles(seed);
    Jitter { sin1: e.sin(a), cos1: e.cos(a), sin2: e.sin(b), cos2: e.cos(b) }
}

/// Whether this is the seed of a number.
pub open spec fn is_seed<E: ElementarySingle>(e: E, i: u64, seed: Single) -> bool {
    exists|sine: Single| #[trigger]
        call_ensures(E::sin, (&e, seed_angle_of(i)), sine) && seed == seed_of(sine)
}

/// The seed of a number.
pub fn seed_by<E: ElementarySingle>(e: &E, i: u64) -> (r: Single)
    ensures
        is_seed(*e, i, r),
{
    let sine: Single = e.sin(seed_angle(i));
    seed_from(sine)
}

/// A place scattered about a nozzle.
pub open spec fn scattered(src: Vector, j: Jitter) -> Vector {
    src.sum(
        Vector {
            x: sgl(D0),
            y: sgl(D0_16).product(j.sin1).product(j.cos2),
            z: sgl(D0_16).product(j.cos1).product(j.sin2),
        },
    )
}

/// A place scattered about a nozzle.
pub fn jittered(src: Vector, j: Jitter) -> (r: Vector)
    ensures
        r == scattered(src, j),
{
    src.plus(
        Vector {
            x: sgl(D0),
            y: sgl(D0_16).times(j.sin1).times(j.cos2),
            z: sgl(D0_16).times(j.cos1).times(j.sin2),
        },
    )
}

/// The age at which a particle of a full tunnel starts.
pub open spec fn spread_age_of(i: u64) -> Single {
    Single::integer(i as nat).quotient(sgl(D7999)).product(sgl(D2))
}

/// The age at which a particle of a full tunnel starts: spread over the life
/// of particles.
pub fn spread_age(i: u64) -> (r: Single)
    ensures
        r == spread_age_of(i),
{
    Single::from_u64(i).over(sgl(D7999)).times(sgl(D2))
}

/// The size and the age, as a fraction, of a particle.
pub open spec fn looks(p: Particle) -> (Single, Single) {
    let f = p.age.quotient(sgl(D2)).clamped(sgl(D0), sgl(D1));
    (
        sgl(D0_07).product(sgl(D1).sum(sgl(D1).product(f).product(f))).product(
            sgl(D1).difference(sgl(D0_75).product(f).product(f).product(f)),
        ),
        f,
    )
}

/// The size and the age, as a fraction, of a particle: it grows, then fades.
pub fn appearance(p: Particle) -> (r: (Single, Single))
    ensures
        r == looks(p),
{
    proof {
        crate::single::limits_are_ordered();
    }
    let f: Single = p.age.over(sgl(D2)).clamp(sgl(D0), sgl(D1));
    (
        sgl(D0_07).times(sgl(D1).plus(sgl(D1).times(f).times(f))).times(
            sgl(D1).minus(sgl(D0_75).times(f).times(f).times(f)),
        ),
        f,
    )
}

/// Whether a particle is the fresh particle of a number.
pub open spec fn fresh<E: ElementarySingle>(e: E, i: int, p: Particle) -> bool {
    &&& is_seed(e, (2 * i + 1) as u64, p.seed)
    &&& p.age == sgl(D0)
    &&& exists|j: Jitter| #[trigger]
        is_jitter(e, p.seed, j) && p.pos == scattered(nozzle(i % NOZZLES as int), j)
}

/// Fresh particles at the nozzles in turn.
#[verifier::spinoff_prover]
pub fn fresh_particles<E: ElementarySingle>(e: &E) -> (r: Vec<Particle>)
    ensures
        r@.len() == PARTICLE_COUNT,
        forall|i: int| 0 <= i < PARTICLE_COUNT ==> fresh(*e, i, #[trigger] r@[i]),
{
    let mut r: Vec<Particle> = Vec::new();
    let mut i: usize = 0;
    while i < PARTICLE_COUNT
        invariant
            i <= PARTICLE_COUNT,
            r@.len() == i,
            forall|k: int| 0 <= k < i ==> fresh(*e, k, #[trigger] r@[k]),
        decreases PARTICLE_COUNT - i,
    {
        let s: Single = seed_by(e, (i * 2 + 1) as u64);
        let j: Jitter = jitter_by(e, s);
        let src: Vector = nozzle_at(i % NOZZLES);
        proof {
            assert(is_jitter(*e, s, j));
        }
        let p: Particle = Particle { pos: jittered(src, j), age: sgl(D0), seed: s };
        proof {
            assert((i * 2 + 1) as u64 == (2 * i + 1) as u64);
            assert((i % NOZZLES) as int == i as int % NOZZLES as int);
            assert(p.pos == scattered(nozzle(i as int % NOZZLES as int), j));
            assert(fresh(*e, i as int, p));
        }
        r.push(p);
        i += 1;
    }
    r
}

/// Whether a particle is particle `i` started again, at its nozzle and at its
/// share of a life.
pub open spec fn spread<E: ElementarySingle>(
    e: E,
    i: int,
    before: Particle,
    after: Particle,
) -> bool {
    &&& after.seed == before.seed
    &&& after.age == spread_age_of(i as u64)
    &&& exists|j: Jitter| #[trigger]
        is_jitter(e, after.seed, j) && after.pos == scattered(
            nozzle(i % NOZZLES as int),
            j,
        )
}

/// Starts all particles again, at the nozzles in turn, their ages spread over
/// the life of a particle.
#[verifier::spinoff_prover]
pub fn reset_trails<E: ElementarySingle>(particles: &mut Vec<Particle>, e: &E)
    requires
        old(particles)@.len() == PARTICLE_COUNT,
    ensures
        final(particles)@.len() == PARTICLE_COUNT,
        forall|i: int|
            0 <= i < PARTICLE_COUNT ==> spread(
                *e,
                i,
                old(particles)@[i],
                #[trigger] final(particles)@[i],
            ),
{
    let mut i: usize = 0;
    while i < PARTICLE_COUNT
        invariant
            i <= PARTICLE_COUNT,
            particles@.len() == PARTICLE_COUNT,
            old(particles)@.len() == PARTICLE_COUNT,
            forall|k: int|
                i <= k < PARTICLE_COUNT ==> #[trigger] particles@[k] == old(particles)@[k],
            forall|k: int|
                0 <= k < i ==> spread(*e, k, old(particles)@[k], #[trigger] particles@[k]),
        decreases PARTICLE_COUNT - i,
    {
        let p: Particle = particles[i];
        let j: Jitter = jitter_by(e, p.seed);
        let q: Particle = Particle {
            pos: jittered(nozzle_at(i % NOZZLES), j),
            age: spread_age(i as u64),
            seed: p.seed,
        };
        proof {
            assert(is_jitter(*e, p.seed, j));
            assert((i % NOZZLES) as int == i as int % NOZZLES as int);
            assert(q.pos == scattered(nozzle(i as int % NOZZLES as int), j));
            assert(q.age == spread_age_of((i as int) as u64));
            assert(is_jitter(*e, q.seed, j));
            assert(spread(*e, i as int, p, q));
        }
        particles.set(i, q);
        i += 1;
    }
}

/// Where a particle is in the middle of a step.
pub open spec fn midpoint(p: Particle, v1: Vector, dt: Single) -> Vector {
    p.pos.sum(v1.scaled(dt.product(sgl(D0_5))))
}

/// Where a particle is in the middle of a step, given the flow at its start.
pub fn half_way(p: Particle, v1: Vector, dt: Single) -> (r: Vector)
    ensures
        r == midpoint(p, v1, dt),
{
    p.pos.plus(v1.times(dt.times(sgl(D0_5))))
}

/// The length of a step, neither too short nor too long.
pub open spec fn step_of(dt: Single) -> Single {
    dt.clamped(sgl(D0_001), sgl(D0_1))
}

/// Whether a particle ends in a step.
pub open spec fn expires(p: Particle, dt: Single) -> bool {
    sgl(D2).not_above(p.age.sum(dt))
}

/// The number of particles, among the first `n`, that end in a step.
pub open spec fn expired(particles: Seq<Particle>, dt: Single, n: nat) -> nat
    decreases n,
{
    if n == 0 {
        0
    } else {
        expired(particles, dt, (n - 1) as nat) + if expires(particles[n - 1], dt) {
            1nat
        } else {
            0nat
        }
    }
}

/// A particle that is carried by the flow.
pub open spec fn carried(p: Particle, data: Seq<Vector>, wind: Vector, dt: Single) -> Particle {
    let v1 = super::grid::sampled(data, p.pos, wind);
    let v2 = super::grid::sampled(data, midpoint(p, v1, dt), wind);
    Particle { pos: p.pos.sum(v2.scaled(dt)), age: p.age.sum(dt), seed: p.seed }
}

/// Whether a particle is what becomes of particle `i` in a step: carried, or
/// emitted again from the next nozzle.
pub open spec fn follows<E: ElementarySingle>(
    particles: Seq<Particle>,
    i: int,
    data: Seq<Vector>,
    wind: Vector,
    dt: Single,
    emit: nat,
    e: E,
    after: Particle,
) -> bool {
    if expires(particles[i], dt) {
        &&& after.age == sgl(D0)
        &&& after.seed == particles[i].seed
        &&& exists|j: Jitter| #[trigger]
            is_jitter(e, after.seed, j) && after.pos == scattered(
                nozzle((emit + expired(particles, dt, i as nat)) as int % NOZZLES as int),
                j,
            )
    } else {
        after == carried(particles[i], data, wind, dt)
    }
}

/// Moves the particles by a step and returns the next nozzle: a particle at
/// the end of its life starts again from the nozzles in turn, the others are
/// carried by the flow.
#[verifier::spinoff_prover]
pub fn advance_particles<E: ElementarySingle>(
    particles: &mut Vec<Particle>,
    emit: usize,
    grid: &FlowGrid,
    wind: Vector,
    dt: Single,
    e: &E,
) -> (r: usize)
    requires
        grid.built(),
        emit < NOZZLES,
    ensures
        final(particles)@.len() == old(particles)@.len(),
        forall|i: int|
            #![trigger final(particles)@[i]]
            0 <= i < old(particles)@.len() ==> follows(
                old(particles)@,
                i,
                grid.data@,
                wind,
                step_of(dt),
                emit as nat,
                *e,
                final(particles)@[i],
            ),
        r == (emit + expired(old(particles)@, step_of(dt), old(particles)@.len())) as int
            % NOZZLES as int,
{
    proof {
        crate::single::limits_are_ordered();
    }
    let dt: Single = dt.clamp(sgl(D0_001), sgl(D0_1));
    let mut next: usize = emit;
    let mut i: usize = 0;
    while i < particles.len()
        invariant
            i <= particles@.len(),
            particles@.len() == old(particles)@.len(),
            grid.built(),
            next < NOZZLES,
            next == (emit + expired(old(particles)@, dt, i as nat)) as int % NOZZLES as int,
            forall|k: int|
                i <= k < particles@.len() ==> #[trigger] particles@[k] == old(particles)@[k],
            forall|k: int|
                #![trigger particles@[k]]
                0 <= k < i ==> follows(
                    old(particles)@,
                    k,
                    grid.data@,
                    wind,
                    dt,
                    emit as nat,
                    *e,
                    particles@[k],
                ),
        decreases particles@.len() - i,
    {
        let p: Particle = particles[i];
        let age: Single = p.age.plus(dt);
        let ghost emitted = emit + expired(old(particles)@, dt, i as nat);
        let ghost before = particles@;
        if age.ge(sgl(D2)) {
            let j: Jitter = jitter_by(e, p.seed);
            proof {
                assert(is_jitter(*e, p.seed, j));
                vstd::arithmetic::div_mod::lemma_add_mod_noop(emitted as int, 1, NOZZLES as int);
            }
            let pos: Vector = jittered(nozzle_at(next), j);
            particles.set(i, Particle { pos, age: sgl(D0), seed: p.seed });
            next = if next + 1 == NOZZLES {
                0
            } else {
                next + 1
            };
        } else {
            let v1: Vector = grid.sample(p.pos, wind);
            let v2: Vector = grid.sample(half_way(p, v1, dt), wind);
            particles.set(i, Particle { pos: p.pos.plus(v2.times(dt)), age, seed: p.seed });
        }
        proof {
            let all = old(particles)@;
            assert(follows(
                all,
                i as int,
                grid.data@,
                wind,
                dt,
                emit as nat,
                *e,
                particles@[i as int],
            ));
            assert forall|k: int| 0 <= k < i + 1 implies #[trigger] follows(
                all,
                k,
                grid.data@,
                wind,
                dt,
                emit as nat,
                *e,
                particles@[k],
            ) by {
                if k < i {
                    assert(particles@[k] == before[k]);
                }
            }
        }
        i += 1;
    }
    next
}

/// No particle outlives two seconds: whatever becomes of it in a step, its age
/// has not reached them afterwards.
pub proof fn smoke_does_not_outlive_its_life<E: ElementarySingle>(
    particles: Seq<Particle>,
    i: int,
    data: Seq<Vector>,
    wind: Vector,
    dt: Single,
    emit: nat,
    e: E,
    after: Particle,
)
    requires
        follows(particles, i, data, wind, dt, emit, e, after),
    ensures
        !sgl(D2).not_above(after.age),
{
    crate::single::limits_are_ordered();
}

/// Smoke goes with the flow: outside of the grid a particle moves the way the
/// wind blows, and it grows older.
pub proof fn smoke_goes_with_the_flow(p: Particle, data: Seq<Vector>, wind: Vector, dt: Single)
    requires
        crate::single::is_held(p.pos) && crate::single::is_held(wind),
        p.age.held() && dt.held() && sgl(D0).not_above(dt),
        super::grid::sampled(data, midpoint(p, super::grid::sampled(data, p.pos, wind), dt), wind)
            == wind,
    ensures
        goes_with(p.pos.x, wind.x, carried(p, data, wind, dt).pos.x),
        goes_with(p.pos.y, wind.y, carried(p, data, wind, dt).pos.y),
        goes_with(p.pos.z, wind.z, carried(p, data, wind, dt).pos.z),
        p.age.not_above(carried(p, data, wind, dt).age),
        carried(p, data, wind, dt).seed == p.seed,
{
    lemma_goes(p.pos.x, wind.x, dt);
    lemma_goes(p.pos.y, wind.y, dt);
    lemma_goes(p.pos.z, wind.z, dt);
    crate::single::terms_shift_their_way(p.age, dt);
}

/// Whether a place moved the way of a speed.
pub open spec fn goes_with(x: Single, v: Single, r: Single) -> bool {
    &&& sgl(D0).not_above(v) ==> x.not_above(r)
    &&& v.not_above(sgl(D0)) ==> r.not_above(x)
}

proof fn lemma_goes(x: Single, v: Single, dt: Single)
    requires
        x.held() && v.held() && dt.held(),
        sgl(D0).not_above(dt),
    ensures
        goes_with(x, v, x.sum(v.product(dt))),
{
    crate::single::products_follow_their_factors(dt, v, v);
    crate::single::terms_shift_their_way(x, v.product(dt));
}

/// The point half a step ahead lies where the first velocity points.
pub proof fn midpoints_lie_ahead(p: Particle, v: Vector, dt: Single)
    requires
        crate::single::is_held(p.pos) && crate::single::is_held(v),
        dt.held() && sgl(D0).not_above(dt),
        dt.product(sgl(D0_5)).held(),
    ensures
        goes_with(p.pos.x, v.x, midpoint(p, v, dt).x),
        goes_with(p.pos.y, v.y, midpoint(p, v, dt).y),
        goes_with(p.pos.z, v.z, midpoint(p, v, dt).z),
{
    reveal(crate::binary64::Binary64::narrowed);
    crate::single::products_follow_their_factors(dt, sgl(D0_5), sgl(D0_5));
    let h = dt.product(sgl(D0_5));
    lemma_goes(p.pos.x, v.x, h);
    lemma_goes(p.pos.y, v.y, h);
    lemma_goes(p.pos.z, v.z, h);
}

/// What is older expires no later, and a longer step lets no more live.
pub proof fn older_smoke_expires_first(p: Particle, q: Particle, dt: Single, longer: Single)
    requires
        p.age.wide.finite() && q.age.wide.finite() && dt.wide.finite() && longer.wide.finite(),
        p.age.not_above(q.age),
        dt.not_above(longer),
    ensures
        expires(p, dt) ==> expires(q, longer),
{
    crate::single::sums_follow_their_terms(p.age, q.age, dt, longer);
}

} // verus!
