use flight_core::binary64::Binary64;

fn b(x: f64) -> Binary64 {
    Binary64::from_bits(x.to_bits())
}

fn f(x: Binary64) -> f64 {
    f64::from_bits(x.to_bits())
}

/// Equal as numbers with their signs, or both NaN.
fn agree(x: Binary64, y: f64) -> bool {
    let v = f(x);
    (v.is_nan() && y.is_nan()) || v.to_bits() == y.to_bits()
}

struct Words(u64);

impl Words {
    fn next(&mut self) -> u64 {
        self.0 = self.0.wrapping_mul(6364136223846793005).wrapping_add(1442695040888963407);
        let mut z = self.0;
        z ^= z >> 33;
        z = z.wrapping_mul(0xff51afd7ed558ccd);
        z ^= z >> 29;
        z
    }
}

fn special() -> Vec<f64> {
    vec![
        0.0,
        -0.0,
        1.0,
        -1.0,
        0.1,
        3.3,
        f64::MIN_POSITIVE,
        f64::from_bits(1),
        f64::from_bits(0x000F_FFFF_FFFF_FFFF),
        f64::MAX,
        -f64::MAX,
        f64::INFINITY,
        f64::NEG_INFINITY,
        f64::NAN,
        f64::EPSILON,
        1.0 + f64::EPSILON,
        1.0 - f64::EPSILON / 2.0,
        9007199254740992.0,
        9007199254740993.0,
        4503599627370497.5,
        1e300,
        1e-300,
        5e-324,
        -360.0,
        360.0,
    ]
}

fn check_pair(x: f64, y: f64) {
    assert!(agree(b(x).plus(b(y)), x + y), "{x:e} + {y:e}");
    assert!(agree(b(x).minus(b(y)), x - y), "{x:e} - {y:e}");
    assert!(agree(b(x).times(b(y)), x * y), "{x:e} * {y:e}");
    assert!(agree(b(x).over(b(y)), x / y), "{x:e} / {y:e}");
    assert!(agree(b(x).rem(b(y)), x % y), "{x:e} % {y:e}");
    assert!(agree(b(x).rem_euclid(b(y)), x.rem_euclid(y)), "{x:e} mod {y:e}");
    assert_eq!(b(x).lt(b(y)), x < y);
    assert_eq!(b(x).le(b(y)), x <= y);
    assert_eq!(b(x).gt(b(y)), x > y);
    assert_eq!(b(x).ge(b(y)), x >= y);
    assert_eq!(b(x).is(b(y)), x == y);
    let (m, n) = (f(b(x).max(b(y))), x.max(y));
    assert!(m == n || (m.is_nan() && n.is_nan()));
    let (m, n) = (f(b(x).min(b(y))), x.min(y));
    assert!(m == n || (m.is_nan() && n.is_nan()));
}

fn check_one(x: f64) {
    assert!(agree(b(x).sqrt(), x.sqrt()), "sqrt {x:e}");
    assert!(agree(b(x).floor(), x.floor()), "floor {x:e}");
    assert!(agree(b(x).abs(), x.abs()));
    assert!(agree(b(x).neg(), -x));
    assert_eq!(b(x).is_nan(), x.is_nan());
    assert_eq!(b(x).is_finite(), x.is_finite());
}

#[test]
fn arithmetic_agrees_on_special_numbers() {
    for x in special() {
        check_one(x);
        for y in special() {
            check_pair(x, y);
        }
    }
}

#[test]
fn arithmetic_agrees_on_arbitrary_bits() {
    let mut w = Words(42);
    for _ in 0..20_000 {
        let x = f64::from_bits(w.next());
        let y = f64::from_bits(w.next());
        check_one(x);
        check_pair(x, y);
    }
}

#[test]
fn arithmetic_agrees_on_close_exponents() {
    let mut w = Words(7);
    for _ in 0..40_000 {
        let e = 1000 + w.next() % 60;
        let g = 1000 + w.next() % 60;
        let x = f64::from_bits((w.next() & 0x800F_FFFF_FFFF_FFFF) | (e << 52));
        let y = f64::from_bits((w.next() & 0x800F_FFFF_FFFF_FFFF) | (g << 52));
        check_one(x);
        check_pair(x, y);
    }
}

#[test]
fn arithmetic_agrees_on_tiny_numbers() {
    let mut w = Words(11);
    for _ in 0..20_000 {
        let x = f64::from_bits(w.next() & 0x803F_FFFF_FFFF_FFFF);
        let y = f64::from_bits(w.next() & 0xBFFF_FFFF_FFFF_FFFF);
        check_one(x);
        check_pair(x, y);
        check_pair(y, x);
    }
}

#[test]
fn integers_convert_as_casts_do() {
    let mut w = Words(3);
    for shift in 0..64 {
        for _ in 0..50 {
            let k = w.next() >> shift;
            assert!(agree(Binary64::from_u64(k), k as f64), "{k}");
        }
    }
    assert!(agree(Binary64::from_u64(0), 0.0));
    assert!(agree(Binary64::from_u64(u64::MAX), u64::MAX as f64));
}

#[test]
fn clamping_agrees() {
    for x in special() {
        assert!(agree(b(x).clamp(b(-1.0), b(1.0)), x.clamp(-1.0, 1.0)), "{x:e}");
        assert!(agree(b(x).clamp(b(0.0), b(0.7)), x.clamp(0.0, 0.7)), "{x:e}");
    }
}
