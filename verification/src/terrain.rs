//! The ground: a smooth surface of hills and valleys.
use crate::binary64::Binary64;
use crate::literal::{num, D0, D1EM6, D2};
use crate::vector::Vec3;
use vstd::prelude::*;

verus! {

/// A hill, or a valley where the amplitude is negative.
#[derive(Clone, Copy, Debug)]
pub struct TerrainHill {
    /// Centre (m) north and east.
    pub centre: [Binary64; 2],
    /// Height of the peak (m).
    pub amplitude: Binary64,
    /// Width (m).
    pub sigma: Binary64,
}

/// A slope: height gained per metre north and east.
#[derive(Clone, Copy, Debug, PartialEq, Eq, Structural)]
pub struct Slope {
    pub north: Binary64,
    pub east: Binary64,
}

impl Slope {
    /// Steepness.
    pub open spec fn steepness(self) -> Binary64 {
        self.north.product(self.north).sum(self.east.product(self.east)).root()
    }

    /// Steepness.
    pub fn norm(&self) -> (r: Binary64)
        ensures
            r == self.steepness(),
    {
        self.north.times(self.north).plus(self.east.times(self.east)).sqrt()
    }
}

impl TerrainHill {
    /// The exponent of the bell shape at a place.
    pub open spec fn bell_exponent(self, north: Binary64, east: Binary64) -> Binary64 {
        let dx = north.difference(self.centre@[0]);
        let dy = east.difference(self.centre@[1]);
        dx.product(dx).sum(dy.product(dy)).quotient(
            num(D2).product(self.sigma).product(self.sigma),
        ).negated()
    }

    /// The exponent of the bell shape at a place.
    pub fn exponent(&self, north: Binary64, east: Binary64) -> (r: Binary64)
        ensures
            r == self.bell_exponent(north, east),
    {
        let dx: Binary64 = north.minus(self.centre[0]);
        let dy: Binary64 = east.minus(self.centre[1]);
        dx.times(dx).plus(dy.times(dy)).over(num(D2).times(self.sigma).times(self.sigma)).neg()
    }

    /// The slope of the hill at a place, given the value of its bell shape there.
    pub open spec fn slope_after(
        self,
        g: Slope,
        north: Binary64,
        east: Binary64,
        bell: Binary64,
    ) -> Slope {
        let dx = north.difference(self.centre@[0]);
        let dy = east.difference(self.centre@[1]);
        let scale = self.amplitude.product(bell).quotient(self.sigma);
        Slope {
            north: g.north.difference(dx.product(scale).quotient(self.sigma)),
            east: g.east.difference(dy.product(scale).quotient(self.sigma)),
        }
    }

    /// The slope that the hill takes away from a slope at a place, given the
    /// value of its bell shape there.
    pub fn slope_from(
        &self,
        g: Slope,
        north: Binary64,
        east: Binary64,
        bell: Binary64,
    ) -> (r: Slope)
        ensures
            r == self.slope_after(g, north, east, bell),
    {
        let dx: Binary64 = north.minus(self.centre[0]);
        let dy: Binary64 = east.minus(self.centre[1]);
        let scale: Binary64 = self.amplitude.times(bell).over(self.sigma);
        Slope {
            north: g.north.minus(dx.times(scale).over(self.sigma)),
            east: g.east.minus(dy.times(scale).over(self.sigma)),
        }
    }
}

/// The surface.
#[derive(Clone, Debug)]
pub struct Terrain {
    pub hills: Vec<TerrainHill>,
}

impl Default for Terrain {
    fn default() -> (r: Self)
        ensures
            r.hills@.len() == 0,
    {
        Terrain::flat()
    }
}

/// The height of the first `n` hills at a place where their bell shapes have
/// the given values.
pub open spec fn height_of(hills: Seq<TerrainHill>, bells: Seq<Binary64>, n: nat) -> Binary64
    decreases n,
{
    if n == 0 {
        num(D0)
    } else {
        height_of(hills, bells, (n - 1) as nat).sum(
            hills[n - 1].amplitude.product(bells[n - 1]),
        )
    }
}

/// The slope of the first `n` hills at a place where their bell shapes have
/// the given values.
pub open spec fn slope_of(
    hills: Seq<TerrainHill>,
    north: Binary64,
    east: Binary64,
    bells: Seq<Binary64>,
    n: nat,
) -> Slope
    decreases n,
{
    if n == 0 {
        Slope { north: num(D0), east: num(D0) }
    } else {
        hills[n - 1].slope_after(
            slope_of(hills, north, east, bells, (n - 1) as nat),
            north,
            east,
            bells[n - 1],
        )
    }
}

/// The height of an altitude above ground of a height; negative below it.
pub open spec fn above_ground(altitude: Binary64, ground: Binary64) -> Binary64 {
    altitude.difference(ground)
}

/// The exponent of the decay of the updraft above ground.
pub open spec fn updraft_exponent(agl: Binary64, agl_decay_scale: Binary64) -> Binary64 {
    agl.negated().quotient(agl_decay_scale.larger(num(D1EM6)))
}

/// The exponent of the decay of the updraft above ground.
pub fn decay_exponent(agl: Binary64, agl_decay_scale: Binary64) -> (r: Binary64)
    ensures
        r == updraft_exponent(agl, agl_decay_scale),
{
    agl.neg().over(agl_decay_scale.max(num(D1EM6)))
}

impl Terrain {
    /// A flat surface.
    pub fn flat() -> (r: Self)
        ensures
            r.hills@.len() == 0,
    {
        Terrain { hills: Vec::new() }
    }

    /// A surface of hills.
    pub fn from_hills(hills: Vec<TerrainHill>) -> (r: Self)
        ensures
            r.hills == hills,
    {
        Terrain { hills }
    }

    /// The exponents of the bell shapes at a place.
    pub fn exponents(&self, north: Binary64, east: Binary64) -> (r: Vec<Binary64>)
        ensures
            r@.len() == self.hills@.len(),
            forall|i: int|
                0 <= i < r@.len() ==> #[trigger] r@[i] == self.hills@[i].bell_exponent(
                    north,
                    east,
                ),
    {
        let mut r: Vec<Binary64> = Vec::new();
        let mut i: usize = 0;
        while i < self.hills.len()
            invariant
                i <= self.hills@.len(),
                r@.len() == i,
                forall|k: int|
                    0 <= k < i ==> #[trigger] r@[k] == self.hills@[k].bell_exponent(north, east),
            decreases self.hills@.len() - i,
        {
            r.push(self.hills[i].exponent(north, east));
            i += 1;
        }
        r
    }

    /// The height of the ground where the bell shapes of the hills have the
    /// given values.
    pub fn height(&self, bells: &[Binary64]) -> (r: Binary64)
        requires
            bells@.len() == self.hills@.len(),
        ensures
            r == height_of(self.hills@, bells@, self.hills@.len()),
    {
        let mut h: Binary64 = num(D0);
        let mut i: usize = 0;
        while i < self.hills.len()
            invariant
                i <= self.hills@.len(),
                bells@.len() == self.hills@.len(),
                h == height_of(self.hills@, bells@, i as nat),
            decreases self.hills@.len() - i,
        {
            h = h.plus(self.hills[i].amplitude.times(bells[i]));
            i += 1;
        }
        h
    }

    /// The slope of the ground at a place where the bell shapes of the hills
    /// have the given values.
    pub fn gradient(&self, north: Binary64, east: Binary64, bells: &[Binary64]) -> (r: Slope)
        requires
            bells@.len() == self.hills@.len(),
        ensures
            r == slope_of(self.hills@, north, east, bells@, self.hills@.len()),
    {
        let mut g: Slope = Slope { north: num(D0), east: num(D0) };
        let mut i: usize = 0;
        while i < self.hills.len()
            invariant
                i <= self.hills@.len(),
                bells@.len() == self.hills@.len(),
                g == slope_of(self.hills@, north, east, bells@, i as nat),
            decreases self.hills@.len() - i,
        {
            g = self.hills[i].slope_from(g, north, east, bells[i]);
            i += 1;
        }
        g
    }

    /// The height of an altitude above ground; negative below it.
    pub fn altitude_above_ground(&self, altitude: Binary64, bells: &[Binary64]) -> (r: Binary64)
        requires
            bells@.len() == self.hills@.len(),
        ensures
            r == above_ground(altitude, height_of(self.hills@, bells@, self.hills@.len())),
    {
        altitude.minus(self.height(bells))
    }

    /// The vertical wind (m/s, positive down) where the wind blows over the
    /// slope: up the windward side, down the lee, fading with height. `decay`
    /// is the exponential of the decay exponent at the height above ground.
    pub fn orographic_wind(
        &self,
        wind_earth: Vec3,
        north: Binary64,
        east: Binary64,
        altitude: Binary64,
        bells: &[Binary64],
        decay: Binary64,
    ) -> (r: Vec3)
        requires
            bells@.len() == self.hills@.len(),
        ensures
            r == updraft(
                wind_earth,
                slope_of(self.hills@, north, east, bells@, self.hills@.len()),
                above_ground(altitude, height_of(self.hills@, bells@, self.hills@.len())),
                decay,
            ),
    {
        let agl: Binary64 = self.altitude_above_ground(altitude, bells);
        let g: Slope = self.gradient(north, east, bells);
        vertical_wind(wind_earth, g, agl, decay)
    }
}

/// The vertical wind over a slope; none at or below the ground.
pub open spec fn updraft(wind_earth: Vec3, g: Slope, agl: Binary64, decay: Binary64) -> Vec3 {
    if agl.not_above(num(D0)) {
        Vec3 { x: num(D0), y: num(D0), z: num(D0) }
    } else {
        let w_z = wind_earth.x.product(g.north).sum(wind_earth.y.product(g.east)).negated();
        Vec3 { x: num(D0), y: num(D0), z: w_z.product(decay) }
    }
}

/// The vertical wind over a slope; none at or below the ground.
pub fn vertical_wind(wind_earth: Vec3, g: Slope, agl: Binary64, decay: Binary64) -> (r: Vec3)
    ensures
        r == updraft(wind_earth, g, agl, decay),
{
    if agl.le(num(D0)) {
        Vec3 { x: num(D0), y: num(D0), z: num(D0) }
    } else {
        let w_z: Binary64 = wind_earth.x.times(g.north).plus(wind_earth.y.times(g.east)).neg();
        Vec3 { x: num(D0), y: num(D0), z: w_z.times(decay) }
    }
}

/// Flat ground is at height zero, has no slope, and turns no wind upwards,
/// wherever one looks.
pub proof fn flat_ground_is_level(
    hills: Seq<TerrainHill>,
    bells: Seq<Binary64>,
    north: Binary64,
    east: Binary64,
)
    requires
        hills.len() == 0,
    ensures
        height_of(hills, bells, hills.len()) == num(D0),
        slope_of(hills, north, east, bells, hills.len()) == (Slope { north: num(D0), east: num(D0) }),
{
}

/// Where all hills rise and no bell shape is negative, no place lies below the
/// datum.
pub proof fn hills_rise_above_the_datum(hills: Seq<TerrainHill>, bells: Seq<Binary64>, n: nat)
    requires
        n <= hills.len(),
        n <= bells.len(),
        forall|i: int|
            #![trigger hills[i]]
            0 <= i < n ==> hills[i].amplitude.finite() && num(D0).not_above(hills[i].amplitude),
        forall|i: int| 0 <= i < n ==> crate::rounding::is_fraction(#[trigger] bells[i]),
    ensures
        num(D0).not_above(height_of(hills, bells, n)),
    decreases n,
{
    if n > 0 {
        hills_rise_above_the_datum(hills, bells, (n - 1) as nat);
        let a = hills[n - 1].amplitude;
        let b = bells[n - 1];
        crate::rounding::products_are_numbers(a, b);
        crate::rounding::products_keep_signs(a, b);
        crate::rounding::sums_keep_signs(height_of(hills, bells, (n - 1) as nat), a.product(b));
    }
}

/// The vertical wind has no horizontal part, and there is none in the ground.
pub proof fn updrafts_are_vertical(wind: Vec3, g: Slope, agl: Binary64, decay: Binary64)
    ensures
        updraft(wind, g, agl, decay).x == num(D0),
        updraft(wind, g, agl, decay).y == num(D0),
        agl.not_above(num(D0)) ==> updraft(wind, g, agl, decay) == Vec3::zero(),
{
}

/// The height above ground grows with altitude, shrinks with the ground, and
/// has its sign.
pub proof fn what_is_higher_is_further_above_ground(
    altitude: Binary64,
    higher: Binary64,
    ground: Binary64,
)
    requires
        altitude.finite() && higher.finite() && ground.finite(),
        altitude.not_above(higher),
    ensures
        above_ground(altitude, ground).not_above(above_ground(higher, ground)),
        above_ground(ground, higher).not_above(above_ground(ground, altitude)),
        altitude.not_above(ground) <==> above_ground(altitude, ground).not_above(num(D0)),
{
    crate::rounding::differences_tell_the_order(altitude, ground);
    crate::rounding::differences_tell_the_order(higher, ground);
    crate::rounding::differences_tell_the_order(ground, altitude);
    crate::rounding::differences_tell_the_order(ground, higher);
    crate::rounding::sums_keep_order(altitude, higher, ground.negated());
    crate::rounding::sums_of_ordered_terms(ground, ground, higher.negated(), altitude.negated());
}

/// A hill peaks at its centre: the exponent of its bell shape is zero there,
/// nowhere above it, and the lower the further away, on whichever side.
pub proof fn hills_peak_at_their_centre(
    hill: TerrainHill,
    near: (Binary64, Binary64),
    far: (Binary64, Binary64),
)
    requires
        ({
            let (dx, dy) = (
                near.0.difference(hill.centre@[0]),
                near.1.difference(hill.centre@[1]),
            );
            let (ex, ey) = (far.0.difference(hill.centre@[0]), far.1.difference(hill.centre@[1]));
            let width = num(D2).product(hill.sigma).product(hill.sigma);
            &&& dx.finite() && dy.finite() && ex.finite() && ey.finite()
            &&& dx.absolute().not_above(ex.absolute()) && dy.absolute().not_above(ey.absolute())
            &&& ex.product(ex).finite() && ey.product(ey).finite()
            &&& ex.product(ex).sum(ey.product(ey)).finite()
            &&& width.finite() && num(D0).below(width)
        }),
    ensures
        hill.bell_exponent(near.0, near.1).not_above(num(D0)),
        hill.bell_exponent(far.0, far.1).not_above(hill.bell_exponent(near.0, near.1)),
        near.0 == hill.centre@[0] && near.1 == hill.centre@[1] && near.0.finite()
            && near.1.finite() ==> hill.bell_exponent(near.0, near.1).zero(),
{
    let (dx, dy) = (near.0.difference(hill.centre@[0]), near.1.difference(hill.centre@[1]));
    let (ex, ey) = (far.0.difference(hill.centre@[0]), far.1.difference(hill.centre@[1]));
    let width = num(D2).product(hill.sigma).product(hill.sigma);
    crate::rounding::squares_grow(dx, ex);
    crate::rounding::squares_grow(dy, ey);
    crate::rounding::products_are_numbers(dx, dx);
    crate::rounding::products_are_numbers(dy, dy);
    let (p, q) = (dx.product(dx).sum(dy.product(dy)), ex.product(ex).sum(ey.product(ey)));
    crate::rounding::sums_are_numbers(dx.product(dx), dy.product(dy));
    crate::rounding::sums_keep_signs(dx.product(dx), dy.product(dy));
    crate::rounding::sums_of_ordered_terms(
        dx.product(dx),
        ex.product(ex),
        dy.product(dy),
        ey.product(ey),
    );
    crate::rounding::quotients_keep_order(p, q, width);
    if near.0 == hill.centre@[0] && near.1 == hill.centre@[1] && near.0.finite()
        && near.1.finite() {
        crate::rounding::differences_cancel(near.0);
        crate::rounding::differences_cancel(near.1);
        crate::rounding::zeros_add_to_zero(dx.product(dx), dy.product(dy));
    }
}

/// The ground rises towards a peak: north of it a hill takes slope to the north
/// away, south of it the hill adds to it, and likewise east and west.
pub proof fn slopes_rise_towards_the_peak(
    hill: TerrainHill,
    g: Slope,
    north: Binary64,
    east: Binary64,
    bell: Binary64,
)
    requires
        hill.amplitude.finite() && num(D0).not_above(hill.amplitude),
        crate::rounding::is_fraction(bell),
        hill.sigma.finite() && num(D0).below(hill.sigma),
        g.north.finite() && g.east.finite(),
        north.finite() && east.finite(),
        hill.centre@[0].finite() && hill.centre@[1].finite(),
        north.difference(hill.centre@[0]).finite() && east.difference(hill.centre@[1]).finite(),
        ({
            let scale = hill.amplitude.product(bell).quotient(hill.sigma);
            &&& scale.finite()
            &&& north.difference(hill.centre@[0]).product(scale).finite()
            &&& east.difference(hill.centre@[1]).product(scale).finite()
        }),
    ensures
        hill.centre@[0].not_above(north) ==> hill.slope_after(
            g,
            north,
            east,
            bell,
        ).north.not_above(g.north),
        north.not_above(hill.centre@[0]) ==> g.north.not_above(
            hill.slope_after(g, north, east, bell).north,
        ),
        hill.centre@[1].not_above(east) ==> hill.slope_after(
            g,
            north,
            east,
            bell,
        ).east.not_above(g.east),
        east.not_above(hill.centre@[1]) ==> g.east.not_above(
            hill.slope_after(g, north, east, bell).east,
        ),
{
    let scale = hill.amplitude.product(bell).quotient(hill.sigma);
    crate::rounding::fractions_shrink(hill.amplitude, bell);
    crate::rounding::quotients_keep_order(
        hill.amplitude.product(bell),
        hill.amplitude.product(bell),
        hill.sigma,
    );
    lemma_uphill(g.north, north, hill.centre@[0], scale, hill.sigma);
    lemma_uphill(g.east, east, hill.centre@[1], scale, hill.sigma);
}

/// The slope along one axis.
proof fn lemma_uphill(g: Binary64, x: Binary64, c: Binary64, scale: Binary64, sigma: Binary64)
    requires
        g.finite() && x.finite() && c.finite(),
        x.difference(c).finite(),
        scale.finite() && num(D0).not_above(scale),
        sigma.finite() && num(D0).below(sigma),
        x.difference(c).product(scale).finite(),
    ensures
        c.not_above(x) ==> g.difference(
            x.difference(c).product(scale).quotient(sigma),
        ).not_above(g),
        x.not_above(c) ==> g.not_above(
            g.difference(x.difference(c).product(scale).quotient(sigma)),
        ),
{
    let d = x.difference(c);
    crate::rounding::differences_tell_the_order(x, c);
    crate::rounding::products_keep_signs(d, scale);
    let t = d.product(scale);
    let u = t.quotient(sigma);
    crate::rounding::quotients_are_numbers(t, sigma);
    crate::rounding::zeros_keep_signs(g, num(D0));
    crate::rounding::sums_are_numbers(g, num(D0));
    if u.finite() {
        crate::rounding::sums_are_numbers(g, u.negated());
    }
    if c.not_above(x) {
        crate::rounding::divisors_keep_order(num(D0), t, sigma);
        crate::rounding::sums_of_ordered_terms(g, g, u.negated(), num(D0));
    }
    if x.not_above(c) {
        crate::rounding::divisors_keep_order(t, num(D0), sigma);
        crate::rounding::sums_of_ordered_terms(g, g, num(D0), u.negated());
    }
}

/// Wind that blows up a slope rises, wind that blows down a slope sinks: a wind
/// is positive down.
pub proof fn winds_rise_on_the_windward_side(
    wind: Vec3,
    g: Slope,
    agl: Binary64,
    decay: Binary64,
)
    requires
        wind.x.product(g.north).finite() && wind.y.product(g.east).finite(),
        wind.x.product(g.north).sum(wind.y.product(g.east)).finite(),
        decay.finite() && num(D0).not_above(decay),
    ensures
        num(D0).not_above(wind.x.product(g.north)) && num(D0).not_above(wind.y.product(g.east))
            ==> updraft(wind, g, agl, decay).z.not_above(num(D0)),
        wind.x.product(g.north).not_above(num(D0)) && wind.y.product(g.east).not_above(num(D0))
            ==> num(D0).not_above(updraft(wind, g, agl, decay).z),
{
    let (p, q) = (wind.x.product(g.north), wind.y.product(g.east));
    crate::rounding::sums_keep_signs(p, q);
    let w = p.sum(q).negated();
    crate::rounding::products_are_numbers(w, decay);
    crate::rounding::products_keep_signs(w, decay);
}

/// Updrafts fade with height: the exponent of their decay falls, from zero on
/// the ground.
pub proof fn updrafts_fade_with_height(agl: Binary64, higher: Binary64, scale: Binary64)
    requires
        agl.finite() && higher.finite() && scale.finite(),
        num(D0).not_above(agl),
        agl.not_above(higher),
    ensures
        updraft_exponent(agl, scale).not_above(num(D0)),
        updraft_exponent(higher, scale).not_above(updraft_exponent(agl, scale)),
        agl.zero() ==> updraft_exponent(agl, scale).zero(),
{
    let d = scale.larger(num(D1EM6));
    crate::rounding::divisors_keep_order(higher.negated(), agl.negated(), d);
    crate::rounding::divisors_keep_order(agl.negated(), num(D0), d);
}

} // verus!
