//! Integer mathematics for the language's `math` library.
use vstd::prelude::*;
use vstd::arithmetic::div_mod::lemma_fundamental_div_mod;

verus! {

/// `k` times `d`.
pub open spec fn multiple(d: int, k: int) -> int {
    d * k
}

/// `u` times `a` and `v` times `b`, added.
pub open spec fn combination(a: int, b: int, u: int, v: int) -> int {
    u * a + v * b
}

/// `d` divides `n`: `n` is a multiple of `d`.
pub open spec fn divides(d: int, n: int) -> bool {
    exists|k: int| n == #[trigger] multiple(d, k)
}

/// `g` is the greatest common divisor of `a` and `b`: a common divisor that
/// every common divisor divides. Of 0 and 0 it is 0.
pub open spec fn is_gcd(a: int, b: int, g: int) -> bool {
    &&& g >= 0
    &&& divides(g, a)
    &&& divides(g, b)
    &&& forall|d: int| divides(d, a) && divides(d, b) ==> divides(d, g)
}

/// `m` is the least common multiple of `a` and `b`: a common multiple that
/// divides every common multiple.
pub open spec fn is_lcm(a: int, b: int, m: int) -> bool {
    &&& m >= 0
    &&& divides(a, m)
    &&& divides(b, m)
    &&& forall|c: int| divides(a, c) && divides(b, c) ==> divides(m, c)
}

/// `g` is a sum of a multiple of `a` and a multiple of `b`.
pub open spec fn is_combination(a: int, b: int, g: int) -> bool {
    exists|u: int, v: int| g == #[trigger] combination(a, b, u, v)
}

/// The product of the numbers from 1 to `n`.
pub open spec fn factorial(n: nat) -> nat
    decreases n,
{
    if n == 0 {
        1
    } else {
        n * factorial((n - 1) as nat)
    }
}

/// `base` to the power `exp`.
pub open spec fn power(base: int, exp: nat) -> int
    decreases exp,
{
    if exp == 0 {
        1
    } else {
        base * power(base, (exp - 1) as nat)
    }
}

/// The witness of a division, made explicit.
pub proof fn lemma_divides_by(d: int, k: int, n: int)
    requires
        n == d * k,
    ensures
        divides(d, n),
{
    assert(n == multiple(d, k));
}

/// A step of Euclid's algorithm keeps the common divisors: those of `x` and
/// `y` are those of `y` and the remainder of `x` by `y`.
pub proof fn lemma_gcd_step(x: int, y: int)
    requires
        x >= 0,
        y > 0,
    ensures
        forall|d: int|
            (divides(d, x) && divides(d, y)) <==> (divides(d, y) && divides(d, #[trigger] (x % y))),
{
    let q = x / y;
    let r = x % y;
    lemma_fundamental_div_mod(x, y);
    assert forall|d: int| (divides(d, x) && divides(d, y)) <==> (divides(d, y) && divides(d, r)) by {
        if divides(d, x) && divides(d, y) {
            let k1 = choose|k: int| x == multiple(d, k);
            let k2 = choose|k: int| y == multiple(d, k);
            assert(r == d * (k1 - k2 * q)) by (nonlinear_arith)
                requires
                    x == d * k1,
                    y == d * k2,
                    x == y * q + r,
            ;
            lemma_divides_by(d, k1 - k2 * q, r);
        }
        if divides(d, y) && divides(d, r) {
            let k2 = choose|k: int| y == multiple(d, k);
            let k3 = choose|k: int| r == multiple(d, k);
            assert(x == d * (k2 * q + k3)) by (nonlinear_arith)
                requires
                    r == d * k3,
                    y == d * k2,
                    x == y * q + r,
            ;
            lemma_divides_by(d, k2 * q + k3, x);
        }
    }
}

/// There is one greatest common divisor.
pub proof fn lemma_gcd_unique(a: int, b: int, g: int, h: int)
    requires
        is_gcd(a, b, g),
        is_gcd(a, b, h),
    ensures
        g == h,
{
    assert(divides(g, h));
    assert(divides(h, g));
    let k = choose|k: int| h == multiple(g, k);
    let j = choose|j: int| g == multiple(h, j);
    assert(g == h) by (nonlinear_arith)
        requires
            g >= 0,
            h >= 0,
            h == g * k,
            g == h * j,
    ;
}

/// The factorials that fit 64 bits are those of the numbers up to 20.
pub proof fn lemma_factorial_fits(n: nat)
    ensures
        n <= 20 <==> factorial(n) <= u64::MAX,
    decreases n,
{
    reveal_with_fuel(factorial, 22);
    assert(factorial(20) == 2432902008176640000);
    assert(factorial(21) == 51090942171709440000);
    if n <= 20 {
        lemma_factorial_grows(n, 20);
    } else {
        lemma_factorial_grows(21, n);
    }
}

/// Factorials grow with their argument, and none is 0.
pub proof fn lemma_factorial_grows(m: nat, n: nat)
    requires
        m <= n,
    ensures
        1 <= factorial(m) <= factorial(n),
    decreases n,
{
    if n == 0 {
    } else if m == n {
        lemma_factorial_grows((n - 1) as nat, (n - 1) as nat);
        assert(1 <= n * factorial((n - 1) as nat)) by (nonlinear_arith)
            requires
                n >= 1,
                factorial((n - 1) as nat) >= 1,
        ;
    } else {
        lemma_factorial_grows(m, (n - 1) as nat);
        assert(factorial((n - 1) as nat) <= n * factorial((n - 1) as nat)) by (nonlinear_arith)
            requires
                n >= 1,
                factorial((n - 1) as nat) >= 1,
        ;
    }
}

/// The absolute value of an integer.
pub open spec fn magnitude(n: int) -> int {
    if n < 0 {
        -n
    } else {
        n
    }
}

/// The powers of 0, of 1 and of -1.
pub proof fn lemma_power_of_unit(base: int, exp: nat)
    requires
        -1 <= base <= 1,
    ensures
        base == 0 && exp > 0 ==> power(base, exp) == 0,
        base == 1 ==> power(base, exp) == 1,
        base == -1 ==> power(base, exp) == (if exp % 2 == 0 {
            1int
        } else {
            -1int
        }),
    decreases exp,
{
    if exp > 0 {
        lemma_power_of_unit(base, (exp - 1) as nat);
    }
}

/// The magnitude of a power is the power of the magnitude's base, step by
/// step: each further factor multiplies it by the magnitude of the base.
pub proof fn lemma_power_step(base: int, exp: nat)
    ensures
        power(base, exp + 1) == base * power(base, exp),
        magnitude(power(base, exp + 1)) == magnitude(base) * magnitude(power(base, exp)),
{
    let p = power(base, exp);
    assert(magnitude(base * p) == magnitude(base) * magnitude(p)) by (nonlinear_arith);
}

/// Of a base of magnitude 2 or more, the powers grow in magnitude: each is
/// at least 1, and a lower power is at most half of a higher one.
pub proof fn lemma_powers_grow(base: int, low: nat, high: nat)
    requires
        magnitude(base) >= 2,
        low <= high,
    ensures
        1 <= magnitude(power(base, low)) <= magnitude(power(base, high)),
        low < high ==> 2 * magnitude(power(base, low)) <= magnitude(power(base, high)),
    decreases high,
{
    if high == 0 {
    } else {
        lemma_power_step(base, (high - 1) as nat);
        let below = magnitude(power(base, (high - 1) as nat));
        if low == high {
            lemma_powers_grow(base, (high - 1) as nat, (high - 1) as nat);
        } else {
            lemma_powers_grow(base, low, (high - 1) as nat);
        }
        assert(2 * below <= magnitude(base) * below) by (nonlinear_arith)
            requires
                magnitude(base) >= 2,
                below >= 1,
        ;
    }
}

/// `base` to the power `exp`, where the power fits 32 bits.
fn i32_pow(base: i32, exp: u32) -> (r: i32)
    requires
        i32::MIN <= power(base as int, exp as nat) <= i32::MAX,
    ensures
        r == power(base as int, exp as nat),
{
    if exp == 0 {
        return 1;
    }
    if base == 0 || base == 1 || base == -1 {
        proof {
            lemma_power_of_unit(base as int, exp as nat);
        }
        return if base == 0 {
            0
        } else if base == 1 || exp % 2 == 0 {
            1
        } else {
            -1
        };
    }
    let mut acc: i32 = 1;
    let mut i: u32 = 0;
    while i < exp
        invariant
            i <= exp,
            magnitude(base as int) >= 2,
            acc == power(base as int, i as nat),
            i32::MIN <= power(base as int, exp as nat) <= i32::MAX,
        decreases exp - i,
    {
        proof {
            lemma_power_step(base as int, i as nat);
            lemma_powers_grow(base as int, (i + 1) as nat, exp as nat);
        }
        acc = acc * base;
        i += 1;
    }
    acc
}

/// `num_traits::Signed::abs` on `i32`. Trusted: the result is the number
/// without its sign. The least `i32` has no such value and is left out.
#[verifier::external_body]
fn signed_abs(n: i32) -> (r: i32)
    requires
        n > i32::MIN,
    ensures
        r == (if n < 0 {
            -n
        } else {
            n as int
        }),
{
    num_traits::Signed::abs(&n)
}

/// `rand::Rng::random_range` on the thread's generator (`rand::rng`), over
/// `min..=max`. Trusted: the result lies in the range; which number it is, is
/// left open. An empty range is left out, on which the call panics. The
/// generator is seeded by the system when a thread first asks for it; that
/// the system can do so is taken for granted.
#[verifier::external_body]
fn random_in_range(min: i32, max: i32) -> (r: i32)
    requires
        min <= max,
    ensures
        min <= r <= max,
{
    rand::Rng::random_range(&mut rand::rng(), min..=max)
}

/// Types that can be raised to a power of their own type.
pub trait Pow: Sized {
    /// Whether `self` to the power `exp` can be computed.
    spec fn can_pow(self, exp: Self) -> bool;

    /// `self` to the power `exp`.
    spec fn pow_spec(self, exp: Self) -> Self;

    fn pow(self, exp: Self) -> (r: Self)
        requires
            self.can_pow(exp),
        ensures
            r == self.pow_spec(exp),
    ;
}

impl Pow for i32 {
    /// The exponent is read as an unsigned number of 32 bits, and the power
    /// has to fit 32 bits.
    open spec fn can_pow(self, exp: i32) -> bool {
        i32::MIN <= power(self as int, (exp as u32) as nat) <= i32::MAX
    }

    open spec fn pow_spec(self, exp: i32) -> i32 {
        power(self as int, (exp as u32) as nat) as i32
    }

    fn pow(self, exp: i32) -> (r: i32) {
        i32_pow(self, exp as u32)
    }
}

/// Random numbers.
pub enum Random {
    Rand,
}

impl Random {
    /// A number between `min` and `max`, both included.
    pub fn random_range_isize(min: i32, max: i32) -> (r: i32)
        requires
            min <= max,
        ensures
            min <= r <= max,
    {
        random_in_range(min, max)
    }
}

/// Algebra.
pub enum Algebraic {
    Abs,
    Power,
    Square,
    Cube,
    Sqrt,
    Cbrt,
    Log,
    Exp,
}

impl Algebraic {
    /// The absolute value of `n`.
    pub fn abs(n: i32) -> (r: i32)
        requires
            n > i32::MIN,
        ensures
            r >= 0,
            r == n || r == -n,
    {
        signed_abs(n)
    }

    /// `n` to the power `x`.
    pub fn pow<T: Pow>(n: T, x: T) -> (r: T)
        requires
            n.can_pow(x),
        ensures
            r == n.pow_spec(x),
    {
        n.pow(x)
    }

    /// `n` times `n`.
    pub fn square(n: i32) -> (r: i32)
        requires
            n * n <= i32::MAX,
        ensures
            r == n * n,
    {
        proof {
            lemma_small_powers(n as int);
            assert(n * n >= 0) by (nonlinear_arith);
            assert((2i32 as u32) as nat == 2);
        }
        Self::pow(n, 2)
    }

    /// `n` times `n` times `n`.
    pub fn cube(n: i32) -> (r: i32)
        requires
            i32::MIN <= n * n * n <= i32::MAX,
        ensures
            r == n * n * n,
    {
        proof {
            lemma_small_powers(n as int);
            assert((3i32 as u32) as nat == 3);
        }
        Self::pow(n, 3)
    }
}

/// The second and the third power, written out.
pub proof fn lemma_small_powers(n: int)
    ensures
        power(n, 2) == n * n,
        power(n, 3) == n * n * n,
{
    reveal_with_fuel(power, 4);
    assert(n * (n * 1) == n * n) by (nonlinear_arith);
    assert(n * (n * (n * 1)) == n * n * n) by (nonlinear_arith);
}

/// Functions of general use.
pub enum General {
    Factorial,
    GCD,
    LCM,
    Clamp,
    Min,
    Max,
    Lerp,
}

impl General {
    /// The factorial of `n`, for the `n` whose factorial fits 64 bits (see
    /// `lemma_factorial_fits`).
    pub fn fact(n: u64) -> (r: u64)
        requires
            factorial(n as nat) <= u64::MAX,
        ensures
            r == factorial(n as nat),
    {
        let mut product: u64 = 1;
        let mut i: u64 = 0;
        while i < n
            invariant
                i <= n,
                product == factorial(i as nat),
                factorial(n as nat) <= u64::MAX,
            decreases n - i,
        {
            i += 1;
            proof {
                lemma_factorial_grows(i as nat, n as nat);
                assert(factorial(i as nat) == i * factorial((i - 1) as nat));
                assert(product * i == i * product) by (nonlinear_arith);
            }
            product = product * i;
        }
        product
    }

    /// The greatest common divisor of `a` and `b`, by Euclid's algorithm.
    pub fn gcd(a: u64, b: u64) -> (g: u64)
        ensures
            is_gcd(a as int, b as int, g as int),
            is_combination(a as int, b as int, g as int),
    {
        let mut x: u64 = a;
        let mut y: u64 = b;
        let ghost mut ux: int = 1;
        let ghost mut vx: int = 0;
        let ghost mut uy: int = 0;
        let ghost mut vy: int = 1;
        assert(x == 1 * a + 0 * b && y == 0 * a + 1 * b) by (nonlinear_arith)
            requires
                x == a,
                y == b,
        ;
        while y != 0
            invariant
                forall|d: int|
                    (divides(d, x as int) && divides(d, y as int)) <==> (divides(d, a as int)
                        && divides(d, b as int)),
                x == ux * a + vx * b,
                y == uy * a + vy * b,
            decreases y,
        {
            proof {
                lemma_gcd_step(x as int, y as int);
                lemma_fundamental_div_mod(x as int, y as int);
                let q = x as int / y as int;
                let r = x as int % y as int;
                assert(r == (ux - q * uy) * a + (vx - q * vy) * b) by (nonlinear_arith)
                    requires
                        x == ux * a + vx * b,
                        y == uy * a + vy * b,
                        x == y * q + r,
                ;
                let (nux, nvx) = (uy, vy);
                uy = ux - q * uy;
                vy = vx - q * vy;
                ux = nux;
                vx = nvx;
            }
            let tmp: u64 = y;
            y = x % y;
            x = tmp;
        }
        proof {
            lemma_divides_by(x as int, 1, x as int);
            lemma_divides_by(x as int, 0, 0);
            assert(divides(x as int, a as int) && divides(x as int, b as int));
            assert(x == combination(a as int, b as int, ux, vx));
        }
        x
    }

    /// The least common multiple of `a` and `b`: their product divided by
    /// their greatest common divisor. The product has to fit 64 bits, and one
    /// of the two has to differ from 0.
    pub fn lcm(a: u64, b: u64) -> (m: u64)
        requires
            a * b <= u64::MAX,
            a != 0 || b != 0,
        ensures
            is_lcm(a as int, b as int, m as int),
            forall|g: int| is_gcd(a as int, b as int, g) ==> g != 0 && m == a * b / g,
    {
        let g = Self::gcd(a, b);
        proof {
            lemma_gcd_not_zero(a as int, b as int, g as int);
            lemma_lcm_from_gcd(a as int, b as int, g as int);
            assert forall|h: int| is_gcd(a as int, b as int, h) implies h == g by {
                lemma_gcd_unique(a as int, b as int, g as int, h);
            }
        }
        a * b / g
    }
}

/// Where one of two numbers differs from 0, so does their greatest common divisor.
pub proof fn lemma_gcd_not_zero(a: int, b: int, g: int)
    requires
        is_gcd(a, b, g),
        a != 0 || b != 0,
    ensures
        g > 0,
{
    if g == 0 {
        let k1 = choose|k: int| a == multiple(g, k);
        let k2 = choose|k: int| b == multiple(g, k);
        assert(a == 0 && b == 0) by (nonlinear_arith)
            requires
                g == 0,
                a == g * k1,
                b == g * k2,
        ;
    }
}

/// The product of two numbers, divided by their greatest common divisor, is
/// their least common multiple.
pub proof fn lemma_lcm_from_gcd(a: int, b: int, g: int)
    requires
        a >= 0,
        b >= 0,
        g > 0,
        is_gcd(a, b, g),
        is_combination(a, b, g),
    ensures
        is_lcm(a, b, a * b / g),
{
    let m = a * b / g;
    let ka = choose|k: int| a == multiple(g, k);
    let kb = choose|k: int| b == multiple(g, k);
    let (u, v) = choose|u: int, v: int| g == combination(a, b, u, v);
    assert(a * b == g * (ka * b)) by (nonlinear_arith)
        requires
            a == g * ka,
    ;
    assert(ka >= 0 && kb >= 0) by (nonlinear_arith)
        requires
            a == g * ka,
            b == g * kb,
            a >= 0,
            b >= 0,
            g > 0,
    ;
    assert(ka * b >= 0) by (nonlinear_arith)
        requires
            ka >= 0,
            b >= 0,
    ;
    vstd::arithmetic::div_mod::lemma_div_multiples_vanish(ka * b, g);
    assert(g * (ka * b) == (ka * b) * g) by (nonlinear_arith);
    assert(m == ka * b);
    assert(m == a * kb) by (nonlinear_arith)
        requires
            m == ka * b,
            a == g * ka,
            b == g * kb,
    ;
    assert(m == b * ka) by (nonlinear_arith)
        requires
            m == ka * b,
    ;
    lemma_divides_by(a, kb, m);
    lemma_divides_by(b, ka, m);
    assert forall|c: int| divides(a, c) && divides(b, c) implies divides(m, c) by {
        let s = choose|k: int| c == multiple(a, k);
        let t = choose|k: int| c == multiple(b, k);
        // c * g = c * (u a + v b) = u a (b t) + v b (a s) = a b (u t + v s) = m g (u t + v s)
        assert(a * b == m * g) by (nonlinear_arith)
            requires
                m == ka * b,
                a == g * ka,
        ;
        assert(u * a * c == (a * b) * (u * t)) by (nonlinear_arith)
            requires
                c == b * t,
        ;
        assert(v * b * c == (a * b) * (v * s)) by (nonlinear_arith)
            requires
                c == a * s,
        ;
        assert(c * g == u * a * c + v * b * c) by (nonlinear_arith)
            requires
                g == u * a + v * b,
        ;
        assert((a * b) * (u * t) + (a * b) * (v * s) == (m * (u * t + v * s)) * g)
            by (nonlinear_arith)
            requires
                a * b == m * g,
        ;
        assert(c == m * (u * t + v * s)) by (nonlinear_arith)
            requires
                c * g == (m * (u * t + v * s)) * g,
                g > 0,
        ;
        lemma_divides_by(m, u * t + v * s, c);
    }
}

} // verus!
