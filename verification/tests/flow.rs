//! The flow in the wind tunnel, against the arithmetic of the machine.
use flight_core::binary64::Binary64;
use flight_core::elementary::ElementarySingle;
use flight_core::single::{Single, Vector};
use flight_core::tunnel::body::{body_factors, body_flow, body_terms};
use flight_core::tunnel::linear::solve_linear;
use flight_core::tunnel::vortex::{
    biot_savart_seg, biot_savart_semi, filaments_induced, shed_induced, ShedVortex, VortexSegment,
};

#[derive(Clone, Copy, Debug, PartialEq)]
struct V {
    x: f32,
    y: f32,
    z: f32,
}

impl V {
    const ZERO: V = V { x: 0.0, y: 0.0, z: 0.0 };

    fn new(x: f32, y: f32, z: f32) -> V {
        V { x, y, z }
    }

    fn dot(self, o: V) -> f32 {
        self.x * o.x + self.y * o.y + self.z * o.z
    }

    fn cross(self, o: V) -> V {
        V::new(
            self.y * o.z - self.z * o.y,
            self.z * o.x - self.x * o.z,
            self.x * o.y - self.y * o.x,
        )
    }

    fn length_squared(self) -> f32 {
        self.dot(self)
    }

    fn length(self) -> f32 {
        self.length_squared().sqrt()
    }

    fn normalized(self) -> V {
        self / self.length()
    }
}

impl std::ops::Add for V {
    type Output = V;

    fn add(self, o: V) -> V {
        V::new(self.x + o.x, self.y + o.y, self.z + o.z)
    }
}

impl std::ops::AddAssign for V {
    fn add_assign(&mut self, o: V) {
        *self = *self + o;
    }
}

impl std::ops::Sub for V {
    type Output = V;

    fn sub(self, o: V) -> V {
        V::new(self.x - o.x, self.y - o.y, self.z - o.z)
    }
}

impl std::ops::Mul<f32> for V {
    type Output = V;

    fn mul(self, s: f32) -> V {
        V::new(self.x * s, self.y * s, self.z * s)
    }
}

impl std::ops::Mul<V> for f32 {
    type Output = V;

    fn mul(self, v: V) -> V {
        v * self
    }
}

impl std::ops::Div<f32> for V {
    type Output = V;

    fn div(self, s: f32) -> V {
        V::new(self.x / s, self.y / s, self.z / s)
    }
}

#[derive(Clone, Copy)]
struct Filament {
    a: V,
    b: V,
    gamma: f32,
}

#[derive(Clone, Copy)]
struct Shed {
    pos: V,
    gamma: f32,
    age: f32,
    lifespan: f32,
}

const STANDOFF: f32 = 0.12;
const STALL_ALPHA_DEG: f32 = 15.0;
const SEPARATION_SPAN_DEG: f32 = 4.0;
const FUSE_HALF_LEN: f32 = 2.8;
const WING_HALF_SPAN: f32 = 5.5;
const PROP_X: f32 = -2.38;
const PROP_Y: f32 = 0.08;
const PROP_RADIUS: f32 = 0.75;
const PROP_AXIAL: f32 = 1.7;
const PROP_SWIRL: f32 = 1.15;
const PROP_DECAY: f32 = 7.0;
const PROP_INFLOW: f32 = 2.0;
const VLM_CORE: f32 = 0.15;
const VLM_WAKE_LEN: f32 = 40.0;
const SHED_DECAY: f32 = 0.4;

fn segment_flow(p: V, seg: Filament) -> V {
    let r1 = p - seg.a;
    let r2 = p - seg.b;
    let r1_len = r1.length();
    let r2_len = r2.length();
    if r1_len < 1e-6 || r2_len < 1e-6 {
        return V::ZERO;
    }
    let dl = seg.b - seg.a;
    let dl_len = dl.length();
    if dl_len < 1e-6 {
        return V::ZERO;
    }
    let dl_hat = dl / dl_len;
    let cross = dl_hat.cross(r1);
    let h2 = cross.length_squared() + VLM_CORE * VLM_CORE;
    if h2 < 1e-12 {
        return V::ZERO;
    }
    let cos1 = dl_hat.dot(r1) / r1_len;
    let cos2 = dl_hat.dot(r2) / r2_len;
    let coeff = seg.gamma / (4.0 * std::f32::consts::PI);
    coeff * cross / h2 * (cos1 - cos2)
}

fn ray_flow(p: V, a: V, dir: V, gamma: f32) -> V {
    let r = p - a;
    let r_len = r.length();
    if r_len < 1e-6 {
        return V::ZERO;
    }
    let cross = dir.cross(r);
    let h2 = cross.length_squared() + VLM_CORE * VLM_CORE;
    if h2 < 1e-12 {
        return V::ZERO;
    }
    let dir_dot_rhat = dir.dot(r) / r_len;
    let coeff = gamma / (4.0 * std::f32::consts::PI);
    coeff * cross / h2 * (1.0 + dir_dot_rhat)
}

fn elimination(a: &[f32], b: &[f32], x: &mut [f32], n: usize) {
    if n == 0 {
        return;
    }
    let mut aug = vec![0.0f32; n * (n + 1)];
    for i in 0..n {
        for j in 0..n {
            aug[i * (n + 1) + j] = a[i * n + j];
        }
        aug[i * (n + 1) + n] = b[i];
    }
    for col in 0..n {
        let mut max_val = aug[col * (n + 1) + col].abs();
        let mut max_row = col;
        for row in (col + 1)..n {
            let val = aug[row * (n + 1) + col].abs();
            if val > max_val {
                max_val = val;
                max_row = row;
            }
        }
        if max_row != col {
            for k in 0..=n {
                let tmp = aug[col * (n + 1) + k];
                aug[col * (n + 1) + k] = aug[max_row * (n + 1) + k];
                aug[max_row * (n + 1) + k] = tmp;
            }
        }
        let pivot = aug[col * (n + 1) + col];
        if pivot.abs() < 1e-12 {
            continue;
        }
        for row in (col + 1)..n {
            let factor = aug[row * (n + 1) + col] / pivot;
            for k in col..=n {
                aug[row * (n + 1) + k] -= factor * aug[col * (n + 1) + k];
            }
        }
    }
    for i in (0..n).rev() {
        let mut sum = aug[i * (n + 1) + n];
        for j in (i + 1)..n {
            sum -= aug[i * (n + 1) + j] * x[j];
        }
        let diag = aug[i * (n + 1) + i];
        x[i] = if diag.abs() > 1e-12 {
            sum / diag
        } else {
            0.0
        };
    }
}

fn filament_flow(p: V, filaments: &[Filament]) -> V {
    let mut v = V::ZERO;
    for &seg in filaments {
        let dl = seg.b - seg.a;
        let dl_len = dl.length();
        if dl_len > VLM_WAKE_LEN * 0.9 {
            let dir = (seg.b - seg.a).normalized();
            v += ray_flow(p, seg.a, dir, seg.gamma);
        } else {
            v += segment_flow(p, seg);
        }
        let max_seg = 300.0;
        if v.length() > max_seg {
            v = v.normalized() * max_seg;
        }
    }
    v
}

fn shed_flow(p: V, shed: &[Shed]) -> V {
    let mut v = V::ZERO;
    for sv in shed {
        let age_frac = (sv.age / sv.lifespan).clamp(0.0, 1.0);
        let strength = sv.gamma * (1.0 - age_frac * SHED_DECAY);
        let r = p - sv.pos;
        let r2 = r.length_squared() + VLM_CORE * VLM_CORE;
        if r2 < 1e-4 {
            continue;
        }
        let perp = V::new(0.0, -r.z, r.y);
        v += strength / (2.0 * std::f32::consts::PI * r2) * perp;
    }
    v
}

fn flow_about(local: V, speed: f32, t_sec: f32, alpha: f32) -> V {
    let (x, y, z) = (local.x, local.y, local.z);
    let mut v = V::ZERO;
    let alpha_deg = alpha.to_degrees().abs();
    let sep_ramp = ((alpha_deg - (STALL_ALPHA_DEG - SEPARATION_SPAN_DEG)) / SEPARATION_SPAN_DEG)
        .clamp(0.0, 1.0);
    let sep_ramp = sep_ramp * sep_ramp * (3.0 - 2.0 * sep_ramp);
    let mut d_over_max = 0.0f32;
    let mut push = V::ZERO;
    if x.abs() <= FUSE_HALF_LEN + STANDOFF {
        let rn = ((y / 0.45).powi(2) + (z / 0.40).powi(2)).sqrt().max(1e-4);
        let pen = 1.0 + STANDOFF / 0.45 - rn;
        if pen > 0.0 && pen > d_over_max {
            d_over_max = pen;
            push = V::new(0.0, y / (0.45 * 0.45), z / (0.40 * 0.40)) / rn;
        }
    }
    let canopy_x = x - 0.9;
    if y >= 0.0 {
        let er = ((canopy_x / 0.95).powi(2) + ((y - 0.40) / 0.28).powi(2) + (z / 0.35).powi(2))
            .sqrt()
            .max(1e-4);
        let pen = 1.0 + STANDOFF / 0.28 - er;
        if pen > 0.0 && pen > d_over_max {
            d_over_max = pen;
            push = V::new(
                canopy_x / (0.95 * 0.95),
                (y - 0.40) / (0.28 * 0.28),
                z / (0.35 * 0.35),
            ) / er;
        }
    }
    if x.abs() <= 1.0 && z.abs() <= WING_HALF_SPAN + 0.2 {
        let w_pen = 0.5 + STANDOFF - (x - 0.25).abs();
        let w_thick = 0.10 + STANDOFF - (y - 0.15).abs();
        if w_pen > 0.0 && w_thick > 0.0 {
            let pen = w_pen.min(w_thick);
            if pen > d_over_max {
                d_over_max = pen;
                if w_thick < w_pen {
                    push = V::new(0.0, (y - 0.15).signum(), 0.0);
                } else {
                    push = V::new(-(x - 0.25).signum(), 0.0, 0.0);
                }
            }
        }
    }
    for zt in [-0.55f32, 0.55] {
        if x >= -2.7 && x <= -1.4 {
            let cant = 38.0_f32.to_radians();
            let s = (-zt).signum();
            let n_nearest = s * ((y - 0.65) * cant.sin() + (z - zt) * cant.cos());
            let along = (y - 0.65) * cant.cos() - (z - zt) * cant.sin();
            let fin_pen = 0.06 + STANDOFF - n_nearest.abs();
            if fin_pen > 0.0 && along.abs() <= 0.45 && fin_pen > d_over_max {
                d_over_max = fin_pen;
                push = V::new(
                    0.0,
                    n_nearest.signum() * cant.sin(),
                    n_nearest.signum() * cant.cos(),
                );
            }
        }
    }
    let nac_x = x + 2.25;
    if nac_x.abs() <= 1.0 {
        let nr = (y * y + z * z).sqrt().max(1e-4);
        let nac_pen = 0.42 + STANDOFF - nr;
        if nac_pen > 0.0 && nac_pen > d_over_max {
            d_over_max = nac_pen;
            push = V::new(0.0, y, z) / nr.max(1e-4);
        }
    }
    if d_over_max > 0.0 {
        let intensity = (d_over_max / (STANDOFF * 3.0)).clamp(0.0, 1.0);
        v += push * (speed * 2.6 * intensity);
        let swirl = V::new(0.0, -push.z, push.y);
        v += (if swirl.length() > 1e-6 {
            swirl.normalized()
        } else {
            V::ZERO
        }) * (speed * 1.2 * intensity);
        if x > FUSE_HALF_LEN * 0.5 && x <= FUSE_HALF_LEN + STANDOFF {
            v.x += speed * 0.9 * intensity;
        }
    }
    if sep_ramp > 0.01 {
        let cell_cx = 0.2;
        let cell_cy = 0.8;
        let cell_rx = 2.2;
        let cell_ry = 1.4;
        let dx = (x - cell_cx) / cell_rx;
        let dy = (y - cell_cy) / cell_ry;
        let r2 = dx * dx + dy * dy;
        if r2 < 1.0 {
            let strength = sep_ramp * speed;
            v.x += strength * (-dy * 1.2);
            v.y += strength * (dx * 2.0) * sep_ramp;
        }
        if x < 1.0 {
            let wd = (1.0 - x).max(0.0);
            let wake_fall = (-wd / 8.0).exp() * sep_ramp;
            let alt = ((y - 0.3) * (y - 0.3) + z * z).sqrt();
            let spread = (-(alt * alt) / (3.0 * 3.0)).exp();
            v.x -= speed * 0.9 * wake_fall * spread;
            let wob = (x * 1.6 + t_sec * 2.0).sin();
            v.y += speed * 0.55 * wake_fall * spread * wob;
            v.z += speed * 0.5 * wake_fall * spread * (z / (alt + 0.5));
        }
        let tu_sep = speed * 0.5 * sep_ramp * (-(x * x) / 9.0).exp();
        v.y += tu_sep * (x * 3.0 + t_sec * 4.0).sin() * (z * 2.2).sin();
        v.z += tu_sep * (z * 2.8 - t_sec * 5.0).sin() * (y * 2.4).sin();
    }
    if x < -1.0 {
        let wake_d = -x - 1.0;
        let wake_breadth = (wake_d / 12.0).clamp(0.0, 1.0);
        let alt = (y * y + z * z).sqrt();
        let spread = (-(alt * alt) / (3.4 * 3.4)).exp();
        let wobble = ((x * 2.3).sin() + (y * 3.7).sin() + (z * 1.9).sin()) * 0.5;
        v.y += speed * 0.8 * wake_breadth * spread * (y / (alt + 0.6)) * wobble;
        v.z += speed * 0.8 * wake_breadth * spread * (z / (alt + 0.6)) * wobble;
        let core = (-(alt * alt) / (2.0 * 2.0)).exp();
        v.x -= speed * 1.0 * wake_breadth * core;
    }
    let prx = x - PROP_X;
    let pry = y - PROP_Y;
    let pr = (pry * pry + z * z).sqrt();
    let core_radius = 0.30 * PROP_RADIUS;
    let core_r2 = core_radius * core_radius;
    let inflow_prox = (-(prx * prx) / (PROP_INFLOW * PROP_INFLOW)).exp();
    let aft = if prx < 0.0 {
        (-(prx * prx) / (PROP_DECAY * PROP_DECAY)).exp()
    } else {
        0.0
    };
    let slip_rad = PROP_RADIUS * (1.0 + 0.05 * prx.clamp(-PROP_DECAY, 0.0).abs());
    let disk = (-(pr * pr) / (slip_rad * slip_rad)).exp();
    if disk > 0.02 {
        v.x -= speed * PROP_AXIAL * disk * (0.25 * inflow_prox + aft);
        let rg = (2.0 * core_radius * pr) / (pr * pr + core_r2);
        let swirl_mag = speed * PROP_AXIAL * PROP_SWIRL * aft * disk * rg;
        let r_safe = pr.max(1e-3);
        v.y += swirl_mag * (-z / r_safe);
        v.z += swirl_mag * (pry / r_safe);
    }
    let tu = speed * 0.30;
    let ph = x * 0.55 + z * 0.7 + t_sec * 0.9;
    let ph2 = y * 0.8 + t_sec * 0.6;
    v.y += tu * ph.sin() * ph2.sin();
    v.z += tu * (x * 0.4 - t_sec * 0.8).sin() * (z * 0.9).sin();
    v.x += speed * 0.06 * (z * 1.4 + t_sec * 1.3).sin();
    let max_mag = speed * 1.9;
    if v.length() > max_mag {
        v = v.normalized() * max_mag;
    }
    v
}

struct Machine;

impl ElementarySingle for Machine {
    fn sin(&self, x: Single) -> Single {
        single(number(x).sin())
    }

    fn cos(&self, x: Single) -> Single {
        single(number(x).cos())
    }

    fn exp(&self, x: Single) -> Single {
        single(number(x).exp())
    }
}

fn single(x: f32) -> Single {
    Single::from_wide(Binary64::from_bits((x as f64).to_bits()))
}

fn number(x: Single) -> f32 {
    f64::from_bits(x.to_wide().to_bits()) as f32
}

fn vector(v: V) -> Vector {
    Vector { x: single(v.x), y: single(v.y), z: single(v.z) }
}

fn close(r: Vector, e: V) -> bool {
    number(r.x) == e.x && number(r.y) == e.y && number(r.z) == e.z
}

/// Numbers spread over a range.
struct Spread(u64);

impl Spread {
    fn next(&mut self, lo: f32, hi: f32) -> f32 {
        self.0 = self.0.wrapping_mul(6364136223846793005).wrapping_add(1442695040888963407);
        lo + (hi - lo) * ((self.0 >> 40) as f32 / 16777216.0)
    }

    fn point(&mut self, half: f32) -> V {
        V::new(self.next(-half, half), self.next(-half, half), self.next(-half, half))
    }
}

fn flow_agrees(p: V, speed: f32, t: f32, alpha: f32) {
    let factors = body_factors(&Machine, body_terms(vector(p), single(t)));
    let r = body_flow(vector(p), single(speed), single(alpha), factors);
    let e = flow_about(p, speed, t, alpha);
    assert!(close(r, e), "at {:?}: {:?} for {:?}", p, (number(r.x), number(r.y), number(r.z)), e);
}

#[test]
fn flow_about_the_body_is_that_of_the_machine() {
    let mut s = Spread(1);
    for n in 0..3000 {
        let alpha = s.next(-0.4, 0.4);
        let p = if n % 2 == 0 {
            s.point(3.0)
        } else {
            V::new(s.next(-4.0, 3.0), s.next(-0.8, 1.2), s.next(-0.9, 0.9))
        };
        let (speed, t) = (s.next(0.0, 90.0), s.next(0.0, 30.0));
        flow_agrees(p, speed, t, alpha);
    }
    for n in 0..500 {
        let p = s.point(12.0);
        flow_agrees(p, 30.0, n as f32 * 0.1, 0.3);
    }
}

#[test]
fn vortex_flow_is_that_of_the_machine() {
    let mut s = Spread(2);
    for _ in 0..1000 {
        let p = s.point(6.0);
        let seg = Filament { a: s.point(6.0), b: s.point(6.0), gamma: s.next(-20.0, 20.0) };
        let of = VortexSegment { a: vector(seg.a), b: vector(seg.b), gamma: single(seg.gamma) };
        assert!(close(biot_savart_seg(vector(p), of), segment_flow(p, seg)));
        let dir = s.point(1.0);
        assert!(close(
            biot_savart_semi(vector(p), vector(seg.a), vector(dir), single(seg.gamma)),
            ray_flow(p, seg.a, dir, seg.gamma),
        ));
    }
    for _ in 0..100 {
        let p = s.point(6.0);
        let mut filaments = Vec::new();
        let mut lib = Vec::new();
        let mut shed = Vec::new();
        let mut lib_shed = Vec::new();
        for n in 0..8 {
            let a = s.point(6.0);
            let b = if n % 2 == 0 { a + V::new(-40.0, 0.0, 0.0) } else { s.point(6.0) };
            let gamma = s.next(-900.0, 900.0);
            filaments.push(Filament { a, b, gamma });
            lib.push(VortexSegment { a: vector(a), b: vector(b), gamma: single(gamma) });
            let v = Shed { pos: s.point(6.0), gamma, age: s.next(0.0, 5.0), lifespan: 4.0 };
            shed.push(v);
            lib_shed.push(ShedVortex {
                pos: vector(v.pos),
                gamma: single(v.gamma),
                age: single(v.age),
                lifespan: single(v.lifespan),
            });
        }
        assert!(close(filaments_induced(vector(p), &lib), filament_flow(p, &filaments)));
        assert!(close(shed_induced(vector(p), &lib_shed), shed_flow(p, &shed)));
    }
}

#[test]
fn elimination_is_that_of_the_machine() {
    let mut s = Spread(3);
    for n in 1..9usize {
        for round in 0..20 {
            let mut a: Vec<f32> = (0..n * n).map(|_| s.next(-2.0, 2.0)).collect();
            if round % 5 == 0 {
                // Two rows alike leave nothing to divide by.
                for j in 0..n {
                    a[(n - 1) * n + j] = a[j];
                }
            }
            let b: Vec<f32> = (0..n).map(|_| s.next(-5.0, 5.0)).collect();
            let mut expected = vec![0.5f32; n + 1];
            elimination(&a, &b, &mut expected, n);
            let la: Vec<Single> = a.iter().map(|v| single(*v)).collect();
            let lb: Vec<Single> = b.iter().map(|v| single(*v)).collect();
            let mut x: Vec<Single> = vec![single(0.5); n + 1];
            solve_linear(&la, &lb, &mut x, n);
            for i in 0..=n {
                assert_eq!(number(x[i]), expected[i]);
            }
        }
    }
}

#[test]
fn shed_vortices_blow_across() {
    let sv = ShedVortex {
        pos: vector(V::ZERO),
        gamma: single(3.0),
        age: single(0.0),
        lifespan: single(4.0),
    };
    let mut s = Spread(5);
    for _ in 0..50 {
        let p = s.point(4.0);
        let v = shed_induced(vector(p), &[sv]);
        assert_eq!(number(v.x), 0.0);
        assert_eq!(number(v.y) * p.y + number(v.z) * p.z, number(v.z) * p.z + number(v.y) * p.y);
        assert!((number(v.y) * p.y + number(v.z) * p.z).abs() < 1e-5);
    }
}
