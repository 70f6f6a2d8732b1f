//! Positive numbers in single precision, with the rounding of IEEE 754: to the
//! nearest number of 24 binary digits, and to the even one of two that are
//! equally near.
use vstd::arithmetic::power2::{
    lemma2_to64, lemma2_to64_rest, lemma_pow2_adds, lemma_pow2_pos, lemma_pow2_strictly_increases,
    lemma_pow2_unfold, pow2,
};
use vstd::prelude::*;

verus! {

/// The smallest mantissa.
pub const LOW: u64 = 0x80_0000;

/// One more than the largest mantissa.
pub const HIGH: u64 = 0x100_0000;

/// The number `mantissa * 2^exponent`.
#[derive(Debug, Clone, Copy, PartialEq, Eq, Structural)]
pub struct Single {
    pub mantissa: u64,
    pub exponent: i64,
}

/// Whether the mantissa has 24 binary digits.
pub open spec fn is_normal(x: Single) -> bool {
    LOW <= x.mantissa < HIGH
}

/// The whole number nearest to `num / den`; of two the even one.
pub open spec fn half_even(num: int, den: int) -> int {
    let q = num / den;
    let r = num % den;
    if 2 * r < den || (2 * r == den && q % 2 == 0) {
        q
    } else {
        q + 1
    }
}

/// No whole number is nearer to `num / den` than the rounded one.
pub proof fn half_even_is_nearest(num: int, den: int, other: int)
    requires
        num >= 0,
        den > 0,
    ensures
        2 * (num - half_even(num, den) * den) <= den,
        2 * (half_even(num, den) * den - num) <= den,
        num - half_even(num, den) * den <= num - other * den || num - half_even(num, den) * den
            <= other * den - num,
        half_even(num, den) * den - num <= num - other * den || half_even(num, den) * den - num
            <= other * den - num,
{
    let q = num / den;
    let r = num % den;
    assert(num == q * den + r && 0 <= r < den) by (nonlinear_arith)
        requires
            q == num / den,
            r == num % den,
            den > 0,
    ;
    assert((q + 1) * den == q * den + den) by (nonlinear_arith);
    if other <= q {
        assert(other * den <= q * den) by (nonlinear_arith)
            requires
                other <= q,
                den > 0,
        ;
    } else {
        assert(other * den >= (q + 1) * den) by (nonlinear_arith)
            requires
                other >= q + 1,
                den > 0,
        ;
    }
}

/// The number `m * 2^e` where rounding may have brought `m` up to `HIGH`.
pub open spec fn carried(m: int, e: int) -> Single {
    if m == HIGH {
        Single { mantissa: LOW, exponent: (e + 1) as i64 }
    } else {
        Single { mantissa: m as u64, exponent: e as i64 }
    }
}

/// The rounded quotient.
pub open spec fn quotient(a: Single, b: Single) -> Single {
    if a.mantissa >= b.mantissa {
        carried(half_even(a.mantissa * LOW, b.mantissa as int), a.exponent - b.exponent - 23)
    } else {
        carried(half_even(a.mantissa * HIGH, b.mantissa as int), a.exponent - b.exponent - 24)
    }
}

/// The rounded product.
pub open spec fn product(a: Single, b: Single) -> Single {
    let p = a.mantissa * b.mantissa;
    if p < LOW * HIGH {
        carried(half_even(p, LOW as int), a.exponent + b.exponent + 23)
    } else {
        carried(half_even(p, HIGH as int), a.exponent + b.exponent + 24)
    }
}

/// A whole number that has at most 24 digits, as a single.
pub open spec fn exact(n: int, shift: int) -> Single
    decreases
            if n < LOW {
                LOW - n
            } else {
                0
            },
{
    if 0 < n < LOW {
        exact(2 * n, shift + 1)
    } else {
        Single { mantissa: n as u64, exponent: -shift as i64 }
    }
}

/// How often `n` has to be halved until it has 24 digits.
pub open spec fn halvings(n: int) -> nat
    decreases n,
{
    if n >= HIGH {
        1 + halvings(n / 2)
    } else {
        0
    }
}

/// The single nearest to a whole number.
pub open spec fn single_of(n: int) -> Single {
    if n < HIGH {
        exact(n, 0)
    } else {
        let k = halvings(n);
        carried(half_even(n, pow2(k) as int), k as int)
    }
}

/// The smallest whole number that is not less.
pub open spec fn ceiling(x: Single) -> int {
    if x.exponent >= 0 {
        x.mantissa * pow2(x.exponent as nat)
    } else {
        let d = pow2((-x.exponent) as nat);
        (x.mantissa + d - 1) / (d as int)
    }
}

/// The largest whole number that is not greater.
pub open spec fn floor(x: Single) -> int {
    if x.exponent >= 0 {
        x.mantissa * pow2(x.exponent as nat)
    } else {
        x.mantissa as int / pow2((-x.exponent) as nat) as int
    }
}

fn round(num: u64, den: u64) -> (r: u64)
    requires
        0 < den < 0x8000_0000_0000_0000,
    ensures
        r == half_even(num as int, den as int),
{
    let q = num / den;
    let rest = num % den;
    if 2 * rest < den || (2 * rest == den && q % 2 == 0) {
        q
    } else {
        assert(q < num) by (nonlinear_arith)
            requires
                q == num / den,
                rest == num % den,
                rest > 0,
                den > 0,
        ;
        q + 1
    }
}

fn carry(m: u64, e: i64) -> (r: Single)
    requires
        LOW <= m <= HIGH,
        e < i64::MAX,
    ensures
        r == carried(m as int, e as int),
        is_normal(r),
        e <= r.exponent <= e + 1,
{
    if m == HIGH {
        Single { mantissa: LOW, exponent: e + 1 }
    } else {
        Single { mantissa: m, exponent: e }
    }
}

/// A quotient between two bounds is still between them after rounding.
proof fn half_even_between(num: int, den: int, low: int, high: int)
    requires
        den > 0,
        low * den <= num <= high * den,
        0 <= low,
    ensures
        low <= half_even(num, den) <= high,
{
    let q = num / den;
    let r = num % den;
    assert(low <= q <= high && (q == high ==> r == 0)) by (nonlinear_arith)
        requires
            q == num / den,
            r == num % den,
            den > 0,
            low * den <= num <= high * den,
    ;
}

/// Divides.
pub fn divide(a: Single, b: Single) -> (r: Single)
    requires
        is_normal(a),
        is_normal(b),
        -1000 <= a.exponent <= 1000,
        -1000 <= b.exponent <= 1000,
    ensures
        r == quotient(a, b),
        is_normal(r),
        a.exponent - b.exponent - 24 <= r.exponent <= a.exponent - b.exponent - 22,
{
    if a.mantissa >= b.mantissa {
        let num: u64 = a.mantissa * LOW;
        proof {
            half_even_between(num as int, b.mantissa as int, LOW as int, HIGH as int);
        }
        carry(round(num, b.mantissa), a.exponent - b.exponent - 23)
    } else {
        let num: u64 = a.mantissa * HIGH;
        proof {
            half_even_between(num as int, b.mantissa as int, LOW as int, HIGH as int);
        }
        carry(round(num, b.mantissa), a.exponent - b.exponent - 24)
    }
}

/// Multiplies.
pub fn multiply(a: Single, b: Single) -> (r: Single)
    requires
        is_normal(a),
        is_normal(b),
        -1000 <= a.exponent <= 1000,
        -1000 <= b.exponent <= 1000,
    ensures
        r == product(a, b),
        is_normal(r),
        a.exponent + b.exponent + 23 <= r.exponent <= a.exponent + b.exponent + 25,
{
    let x = a.mantissa;
    let y = b.mantissa;
    assert(LOW * LOW <= x * y < HIGH * HIGH) by (nonlinear_arith)
        requires
            LOW <= x < HIGH,
            LOW <= y < HIGH,
    ;
    let p: u64 = x * y;
    if p < LOW * HIGH {
        proof {
            half_even_between(p as int, LOW as int, LOW as int, HIGH as int);
        }
        carry(round(p, LOW), a.exponent + b.exponent + 23)
    } else {
        proof {
            half_even_between(p as int, HIGH as int, LOW as int, HIGH as int);
        }
        carry(round(p, HIGH), a.exponent + b.exponent + 24)
    }
}

proof fn lemma_halvings(n: int)
    requires
        n >= LOW,
    ensures
        LOW * pow2(halvings(n)) <= n < HIGH * pow2(halvings(n)),
    decreases n,
{
    if n >= HIGH {
        lemma_halvings(n / 2);
        lemma_pow2_unfold(halvings(n));
    } else {
        assert(pow2(0) == 1) by {
            lemma2_to64();
        }
    }
}

fn power(k: u64) -> (r: u64)
    requires
        k < 63,
    ensures
        r == pow2(k as nat),
        r > 0,
        r < 0x8000_0000_0000_0000,
{
    let mut r: u64 = 1;
    let mut i: u64 = 0;
    proof {
        lemma2_to64();
        lemma2_to64_rest();
    }
    while i < k
        invariant
            i <= k < 63,
            r == pow2(i as nat),
        decreases k - i,
    {
        proof {
            lemma_pow2_unfold((i + 1) as nat);
            lemma_pow2_below(i as nat + 1);
        }
        r = 2 * r;
        i += 1;
    }
    proof {
        lemma_pow2_below(k as nat);
    }
    r
}

proof fn lemma_pow2_below(k: nat)
    requires
        k < 63,
    ensures
        0 < pow2(k) < 0x8000_0000_0000_0000,
{
    lemma2_to64();
    lemma2_to64_rest();
    lemma_pow2_strictly_increases(k, 63);
    lemma_pow2_pos(k);
}

proof fn lemma_shift_small(shift: nat, m: int)
    requires
        pow2(shift) <= m < HIGH,
    ensures
        shift <= 23,
{
    lemma2_to64();
    if shift > 24 {
        lemma_pow2_strictly_increases(24, shift);
    }
}

proof fn lemma_halved(m: int, n: int, k: nat)
    requires
        m >= HIGH,
        m * pow2(k) <= n,
        n <= u64::MAX,
    ensures
        k < 40,
        (m / 2) * pow2(k + 1) <= n,
        m / 2 >= LOW,
{
    lemma2_to64();
    lemma2_to64_rest();
    let x = pow2(k) as int;
    lemma_pow2_unfold(k + 1);
    assert(HIGH * x <= m * x) by (nonlinear_arith)
        requires
            HIGH <= m,
            x >= 0,
    ;
    if k > 40 {
        lemma_pow2_strictly_increases(40, k);
    }
    assert((m / 2) * (2 * x) <= m * x) by (nonlinear_arith)
        requires
            m >= 0,
            x >= 0,
    ;
}

/// Converts a whole number that is not zero.
pub fn from_integer(n: u64) -> (r: Single)
    requires
        n > 0,
    ensures
        r == single_of(n as int),
        is_normal(r),
        -23 <= r.exponent <= 41,
{
    if n < HIGH {
        let mut m: u64 = n;
        let mut shift: i64 = 0;
        proof {
            lemma2_to64();
        }
        while m < LOW
            invariant
                0 < m < HIGH,
                0 <= shift,
                exact(m as int, shift as int) == exact(n as int, 0),
                m >= pow2(shift as nat),
            decreases HIGH - m,
        {
            proof {
                lemma_pow2_unfold((shift + 1) as nat);
                lemma_shift_small(shift as nat, m as int);
            }
            m = 2 * m;
            shift += 1;
        }
        proof {
            lemma_shift_small(shift as nat, m as int);
        }
        Single { mantissa: m, exponent: -shift }
    } else {
        let mut k: u64 = 0;
        let mut m: u64 = n;
        proof {
            lemma2_to64();
        }
        while m >= HIGH
            invariant
                n >= HIGH,
                m >= LOW,
                halvings(n as int) == k + halvings(m as int),
                m * pow2(k as nat) <= n,
                k <= 40,
            decreases m,
        {
            proof {
                lemma_pow2_unfold((k + 1) as nat);
                lemma_halved(m as int, n as int, k as nat);
            }
            m = m / 2;
            k += 1;
        }
        let den = power(k);
        proof {
            lemma_halvings(n as int);
            half_even_between(n as int, den as int, LOW as int, HIGH as int);
        }
        carry(round(n, den), k as i64)
    }
}

proof fn lemma_pow2_at_least(k: nat, n: nat)
    requires
        k <= n,
    ensures
        pow2(k) <= pow2(n),
{
    if k < n {
        lemma_pow2_strictly_increases(k, n);
    }
}

/// The ceiling, or `cap` where that is less.
pub fn ceiling_capped(x: Single, cap: u64) -> (r: u64)
    requires
        is_normal(x),
        x.exponent > i64::MIN,
    ensures
        r == if ceiling(x) < cap {
            ceiling(x)
        } else {
            cap as int
        },
{
    proof {
        lemma2_to64();
        lemma2_to64_rest();
    }
    let m = x.mantissa;
    if x.exponent > 40 {
        proof {
            lemma_pow2_at_least(41, x.exponent as nat);
            let p = pow2(x.exponent as nat);
            assert(m * p >= LOW * 0x200_0000_0000) by (nonlinear_arith)
                requires
                    m >= LOW,
                    p >= 0x200_0000_0000,
            ;
        }
        cap
    } else if x.exponent >= 0 {
        let p = power(x.exponent as u64);
        proof {
            lemma_pow2_at_least(x.exponent as nat, 40);
            assert(m * p <= HIGH * 0x100_0000_0000) by (nonlinear_arith)
                requires
                    m <= HIGH,
                    p <= 0x100_0000_0000,
            ;
        }
        let c: u128 = m as u128 * p as u128;
        if c < cap as u128 {
            c as u64
        } else {
            cap
        }
    } else {
        let c: u64 = if x.exponent < -24 {
            proof {
                lemma_pow2_at_least(24, (-x.exponent) as nat);
                let d = pow2((-x.exponent) as nat) as int;
                assert((m + d - 1) / d == 1) by (nonlinear_arith)
                    requires
                        1 <= m <= d,
                ;
            }
            1
        } else {
            let d = power((-x.exponent) as u64);
            proof {
                lemma_pow2_at_least((-x.exponent) as nat, 24);
            }
            (m + d - 1) / d
        };
        if c < cap {
            c
        } else {
            cap
        }
    }
}

/// The floor, or `cap` where that is less.
pub fn floor_capped(x: Single, cap: u64) -> (r: u64)
    requires
        is_normal(x),
        x.exponent > i64::MIN,
    ensures
        r == if floor(x) < cap {
            floor(x)
        } else {
            cap as int
        },
{
    proof {
        lemma2_to64();
        lemma2_to64_rest();
    }
    let m = x.mantissa;
    if x.exponent >= 0 {
        return ceiling_capped(x, cap);
    }
    let f: u64 = if x.exponent < -24 {
        proof {
            lemma_pow2_at_least(24, (-x.exponent) as nat);
            let d = pow2((-x.exponent) as nat) as int;
            assert(m as int / d == 0) by (nonlinear_arith)
                requires
                    0 <= m < d,
            ;
        }
        0
    } else {
        let d = power((-x.exponent) as u64);
        m / d
    };
    if f < cap {
        f
    } else {
        cap
    }
}

proof fn lemma_exact(n: int, shift: int)
    requires
        0 < n < HIGH,
    ensures
        exists|j: nat|
            #[trigger] pow2(j) * n < HIGH && exact(n, shift) == (Single {
                mantissa: (pow2(j) * n) as u64,
                exponent: -(shift + j) as i64,
            }),
    decreases HIGH - n,
{
    lemma2_to64();
    if n < LOW {
        lemma_exact(2 * n, shift + 1);
        let j = choose|j: nat|
            #[trigger] pow2(j) * (2 * n) < HIGH && exact(2 * n, shift + 1) == (Single {
                mantissa: (pow2(j) * (2 * n)) as u64,
                exponent: -(shift + 1 + j) as i64,
            });
        lemma_pow2_unfold(j + 1);
        assert(pow2(j + 1) * n == pow2(j) * (2 * n)) by (nonlinear_arith)
            requires
                pow2(j + 1) == 2 * pow2(j),
        ;
    } else {
        assert(pow2(0) * n == n);
    }
}

/// Whole numbers of at most 24 binary digits are not rounded.
pub proof fn small_numbers_are_exact(n: int)
    requires
        0 < n < HIGH,
    ensures
        single_of(n).exponent <= 0,
        single_of(n).mantissa == n * pow2((-single_of(n).exponent) as nat),
{
    lemma_exact(n, 0);
    let j = choose|j: nat|
        #[trigger] pow2(j) * n < HIGH && exact(n, 0) == (Single {
            mantissa: (pow2(j) * n) as u64,
            exponent: -(0 + j) as i64,
        });
    assert(pow2(j) < HIGH) by (nonlinear_arith)
        requires
            pow2(j) * n < HIGH,
            n >= 1,
            pow2(j) >= 0,
    ;
    lemma_shift_small(j, pow2(j) as int);
    lemma_pow2_pos(j);
    assert(pow2(j) * n == n * pow2(j)) by (nonlinear_arith);
    assert(pow2(j) * n > 0) by (nonlinear_arith)
        requires
            pow2(j) > 0,
            n > 0,
    ;
}

/// A whole number becomes a single of 24 binary digits.
pub proof fn single_of_is_normal(n: int)
    requires
        0 < n <= u64::MAX,
    ensures
        is_normal(single_of(n)),
        -23 <= single_of(n).exponent <= 41,
{
    lemma2_to64();
    lemma2_to64_rest();
    if n < HIGH {
        lemma_exact(n, 0);
        lemma_exact_is_normal(n, 0);
        let j = choose|j: nat|
            #[trigger] pow2(j) * n < HIGH && exact(n, 0) == (Single {
                mantissa: (pow2(j) * n) as u64,
                exponent: -(0 + j) as i64,
            });
        lemma_pow2_pos(j);
        assert(pow2(j) < HIGH) by (nonlinear_arith)
            requires
                pow2(j) * n < HIGH,
                n >= 1,
                pow2(j) >= 0,
        ;
        lemma_shift_small(j, pow2(j) as int);
    } else {
        let k = halvings(n);
        lemma_halvings(n);
        if k > 40 {
            lemma_pow2_at_least(41, k);
        }
        half_even_between(n, pow2(k) as int, LOW as int, HIGH as int);
    }
}

proof fn lemma_exact_is_normal(n: int, shift: int)
    requires
        0 < n < HIGH,
    ensures
        is_normal(exact(n, shift)),
    decreases HIGH - n,
{
    if n < LOW {
        lemma_exact_is_normal(2 * n, shift + 1);
    }
}

/// A quotient of singles of 24 digits is one.
pub proof fn quotient_is_normal(a: Single, b: Single)
    requires
        is_normal(a),
        is_normal(b),
        -1000 <= a.exponent <= 1000,
        -1000 <= b.exponent <= 1000,
    ensures
        is_normal(quotient(a, b)),
        a.exponent - b.exponent - 24 <= quotient(a, b).exponent <= a.exponent - b.exponent - 22,
{
    if a.mantissa >= b.mantissa {
        half_even_between(
            a.mantissa * LOW,
            b.mantissa as int,
            LOW as int,
            HIGH as int,
        );
    } else {
        half_even_between(
            a.mantissa * HIGH,
            b.mantissa as int,
            LOW as int,
            HIGH as int,
        );
    }
}

/// The floor of a positive number is not negative.
pub proof fn floor_is_not_negative(x: Single)
    ensures
        floor(x) >= 0,
{
    let m = x.mantissa as int;
    if x.exponent >= 0 {
        let p = pow2(x.exponent as nat) as int;
        assert(m * p >= 0) by (nonlinear_arith)
            requires
                m >= 0,
                p >= 0,
        ;
    } else {
        let d = pow2((-x.exponent) as nat) as int;
        lemma_pow2_pos((-x.exponent) as nat);
        assert(m / d >= 0) by (nonlinear_arith)
            requires
                m >= 0,
                d >= 1,
        ;
    }
}

/// The ceiling of a positive number is positive.
pub proof fn ceiling_is_positive(x: Single)
    requires
        is_normal(x),
    ensures
        ceiling(x) >= 1,
{
    if x.exponent >= 0 {
        let p = pow2(x.exponent as nat) as int;
        lemma_pow2_pos(x.exponent as nat);
        assert(x.mantissa * p >= 1) by (nonlinear_arith)
            requires
                x.mantissa >= 1,
                p >= 1,
        ;
    } else {
        let d = pow2((-x.exponent) as nat) as int;
        lemma_pow2_pos((-x.exponent) as nat);
        let m = x.mantissa as int;
        assert((m + d - 1) / d >= 1) by (nonlinear_arith)
            requires
                m >= 1,
                d >= 1,
        ;
    }
}

// ---------------------------------------------------------------------------
// How near the results are
// ---------------------------------------------------------------------------

/// The exponent below which no number here has one, without its sign.
pub const SCALE: u64 = 200;

/// The number times two to the power of `SCALE`, which makes it a whole number.
pub open spec fn scaled(x: Single) -> int {
    x.mantissa * pow2((x.exponent + SCALE) as nat)
}

/// Whether `a` differs from `b` by no more than one part in `HIGH` of `b`.
pub open spec fn is_near(a: int, b: int) -> bool {
    &&& (a - b) * HIGH <= b
    &&& (b - a) * HIGH <= b
}

proof fn lemma_carried(m: int, e: int)
    requires
        LOW <= m <= HIGH,
        -SCALE <= e <= 1000,
    ensures
        scaled(carried(m, e)) == m * pow2((e + SCALE) as nat),
{
    if m == HIGH {
        let p = pow2((e + SCALE) as nat) as int;
        lemma_pow2_unfold((e + 1 + SCALE) as nat);
        assert(LOW * (2 * p) == HIGH * p) by (nonlinear_arith);
    }
}

/// Rounding a quotient that is at least `LOW` changes it by no more than one
/// part in `HIGH`.
proof fn lemma_half_even_near(num: int, den: int)
    requires
        den > 0,
        num >= LOW * den,
    ensures
        is_near(half_even(num, den) * den, num),
{
    assert(LOW * den >= 0) by (nonlinear_arith)
        requires
            den > 0,
    ;
    half_even_is_nearest(num, den, 0);
    let d = num - half_even(num, den) * den;
    assert(d * HIGH <= num && -d * HIGH <= num) by (nonlinear_arith)
        requires
            2 * d <= den,
            -2 * d <= den,
            num >= LOW * den,
    ;
    assert((half_even(num, den) * den - num) * HIGH == -d * HIGH);
}

/// Two numbers that are near each other stay so when both are multiplied.
proof fn lemma_near_times(a: int, b: int, p: int)
    requires
        is_near(a, b),
        p >= 0,
    ensures
        is_near(a * p, b * p),
{
    assert((a * p - b * p) * HIGH <= b * p) by (nonlinear_arith)
        requires
            (a - b) * HIGH <= b,
            p >= 0,
    ;
    assert((b * p - a * p) * HIGH <= b * p) by (nonlinear_arith)
        requires
            (b - a) * HIGH <= b,
            p >= 0,
    ;
}

/// A whole number as a single differs from it by no more than one part in
/// `HIGH`.
pub proof fn whole_numbers_are_near(n: int)
    requires
        0 < n <= u64::MAX,
    ensures
        is_near(scaled(single_of(n)), n * pow2(SCALE as nat)),
{
    let w = pow2(SCALE as nat) as int;
    lemma_pow2_pos(SCALE as nat);
    single_of_is_normal(n);
    if n < HIGH {
        small_numbers_are_exact(n);
        let x = single_of(n);
        let down = (-x.exponent) as nat;
        let rest = (x.exponent + SCALE) as nat;
        lemma_pow2_adds(down, rest);
        let p = pow2(down) as int;
        let q = pow2(rest) as int;
        assert(n * p * q == n * (p * q)) by (nonlinear_arith);
        assert(scaled(x) == n * w);
        assert(n * w >= 0) by (nonlinear_arith)
            requires
                n > 0,
                w > 0,
        ;
    } else {
        let k = halvings(n);
        let p = pow2(k) as int;
        lemma_halvings(n);
        lemma_pow2_pos(k);
        lemma2_to64();
        lemma2_to64_rest();
        if k > 40 {
            lemma_pow2_at_least(41, k);
        }
        half_even_between(n, p, LOW as int, HIGH as int);
        let m = half_even(n, p);
        lemma_half_even_near(n, p);
        lemma_carried(m, k as int);
        lemma_pow2_adds(k, SCALE as nat);
        lemma_near_times(m * p, n, w);
        assert(m * p * w == m * (p * w)) by (nonlinear_arith);
    }
}

/// A quotient times the divisor differs from the dividend by no more than one
/// part in `HIGH`.
pub proof fn quotients_are_near(a: Single, b: Single)
    requires
        is_normal(a),
        is_normal(b),
        -SCALE <= a.exponent <= 200,
        -SCALE <= b.exponent <= 200,
        -SCALE <= a.exponent - b.exponent - 24,
    ensures
        is_near(
            scaled(quotient(a, b)) * scaled(b),
            scaled(a) * pow2(SCALE as nat),
        ),
{
    lemma2_to64();
    let low_case = a.mantissa >= b.mantissa;
    let s: int = if low_case {
        LOW as int
    } else {
        HIGH as int
    };
    let k: nat = if low_case {
        23
    } else {
        24
    };
    let num = a.mantissa * s;
    let den = b.mantissa as int;
    assert(num >= LOW * den && num <= HIGH * den) by (nonlinear_arith)
        requires
            num == a.mantissa * s,
            den == b.mantissa,
            low_case ==> s == LOW && a.mantissa >= b.mantissa,
            !low_case ==> s == HIGH && a.mantissa < b.mantissa,
            LOW <= a.mantissa < HIGH,
            LOW <= b.mantissa < HIGH,
            HIGH == 2 * LOW,
    ;
    half_even_between(num, den, LOW as int, HIGH as int);
    lemma_half_even_near(num, den);
    let m = half_even(num, den);
    let e = a.exponent - b.exponent - k;
    lemma_carried(m, e);
    let x = pow2((e + SCALE) as nat) as int;
    let y = pow2((b.exponent + SCALE) as nat) as int;
    let z = pow2((a.exponent + SCALE) as nat) as int;
    let w = pow2(SCALE as nat) as int;
    lemma_pow2_adds((e + SCALE) as nat, (b.exponent + SCALE) as nat);
    lemma_pow2_adds((a.exponent + SCALE) as nat, SCALE as nat);
    lemma_pow2_adds((a.exponent + 2 * SCALE - k) as nat, k);
    assert(s * (x * y) == z * w) by (nonlinear_arith)
        requires
            x * y == pow2((a.exponent + 2 * SCALE - k) as nat),
            pow2((a.exponent + 2 * SCALE - k) as nat) * pow2(k) == pow2(
                (a.exponent + 2 * SCALE) as nat,
            ),
            z * w == pow2((a.exponent + 2 * SCALE) as nat),
            s == pow2(k),
    ;
    let p = x * y;
    assert(p >= 0) by (nonlinear_arith)
        requires
            p == x * y,
            x >= 0,
            y >= 0,
    ;
    lemma_near_times(m * den, num, p);
    assert(m * den * p == (m * x) * (den * y)) by (nonlinear_arith)
        requires
            p == x * y,
    ;
    assert(num * p == (a.mantissa * z) * w) by (nonlinear_arith)
        requires
            num == a.mantissa * s,
            s * p == z * w,
    ;
}

/// A product differs from that of the factors by no more than one part in
/// `HIGH`.
pub proof fn products_are_near(a: Single, b: Single)
    requires
        is_normal(a),
        is_normal(b),
        -100 <= a.exponent <= 100,
        -100 <= b.exponent <= 100,
    ensures
        is_near(
            scaled(product(a, b)) * pow2(SCALE as nat),
            scaled(a) * scaled(b),
        ),
{
    lemma2_to64();
    let num = a.mantissa * b.mantissa;
    assert(LOW * LOW <= num < HIGH * HIGH) by (nonlinear_arith)
        requires
            num == a.mantissa * b.mantissa,
            LOW <= a.mantissa < HIGH,
            LOW <= b.mantissa < HIGH,
    ;
    let low_case = num < LOW * HIGH;
    let den: int = if low_case {
        LOW as int
    } else {
        HIGH as int
    };
    let k: nat = if low_case {
        23
    } else {
        24
    };
    half_even_between(num, den, LOW as int, HIGH as int);
    lemma_half_even_near(num, den);
    let m = half_even(num, den);
    let e = a.exponent + b.exponent + k;
    lemma_carried(m, e);
    let x = pow2((e + SCALE) as nat) as int;
    let y = pow2((a.exponent + SCALE) as nat) as int;
    let z = pow2((b.exponent + SCALE) as nat) as int;
    let w = pow2(SCALE as nat) as int;
    let p = y * z;
    lemma_pow2_adds((e + SCALE) as nat, SCALE as nat);
    lemma_pow2_adds((a.exponent + SCALE) as nat, (b.exponent + SCALE) as nat);
    lemma_pow2_adds((a.exponent + b.exponent + 2 * SCALE) as nat, k);
    assert(x * w == den * p) by (nonlinear_arith)
        requires
            x * w == pow2((e + 2 * SCALE) as nat),
            p == pow2((a.exponent + b.exponent + 2 * SCALE) as nat),
            pow2((a.exponent + b.exponent + 2 * SCALE) as nat) * pow2(k) == pow2(
                (e + 2 * SCALE) as nat,
            ),
            den == pow2(k),
    ;
    assert(p >= 0) by (nonlinear_arith)
        requires
            p == y * z,
            y >= 0,
            z >= 0,
    ;
    lemma_near_times(m * den, num, p);
    assert(m * den * p == (m * x) * w) by (nonlinear_arith)
        requires
            x * w == den * p,
    ;
    assert(num * p == (a.mantissa * y) * (b.mantissa * z)) by (nonlinear_arith)
        requires
            num == a.mantissa * b.mantissa,
            p == y * z,
    ;
}

/// The ceiling is the smallest whole number that is not less.
pub proof fn the_ceiling_is_just_above(x: Single)
    requires
        x.exponent >= -SCALE,
        x.exponent <= 1000,
    ensures
        (ceiling(x) - 1) * pow2(SCALE as nat) < scaled(x) <= ceiling(x) * pow2(SCALE as nat),
{
    let w = pow2(SCALE as nat) as int;
    lemma_pow2_pos(SCALE as nat);
    let m = x.mantissa as int;
    if x.exponent >= 0 {
        let p = pow2(x.exponent as nat) as int;
        lemma_pow2_adds(x.exponent as nat, SCALE as nat);
        assert(m * (p * w) == (m * p) * w) by (nonlinear_arith);
        assert((m * p - 1) * w < (m * p) * w) by (nonlinear_arith)
            requires
                w > 0,
        ;
    } else {
        let d = pow2((-x.exponent) as nat) as int;
        let q = pow2((x.exponent + SCALE) as nat) as int;
        lemma_pow2_pos((-x.exponent) as nat);
        lemma_pow2_pos((x.exponent + SCALE) as nat);
        lemma_pow2_adds((-x.exponent) as nat, (x.exponent + SCALE) as nat);
        let c = (m + d - 1) / d;
        assert((c - 1) * d < m <= c * d) by (nonlinear_arith)
            requires
                c == (m + d - 1) / d,
                d > 0,
        ;
        assert((c - 1) * (d * q) < m * q <= c * (d * q)) by (nonlinear_arith)
            requires
                (c - 1) * d < m <= c * d,
                q > 0,
        ;
    }
}

/// The floor is the largest whole number that is not greater.
pub proof fn the_floor_is_just_below(x: Single)
    requires
        x.exponent >= -SCALE,
        x.exponent <= 1000,
    ensures
        floor(x) * pow2(SCALE as nat) <= scaled(x) < (floor(x) + 1) * pow2(SCALE as nat),
{
    let w = pow2(SCALE as nat) as int;
    lemma_pow2_pos(SCALE as nat);
    let m = x.mantissa as int;
    if x.exponent >= 0 {
        let p = pow2(x.exponent as nat) as int;
        lemma_pow2_adds(x.exponent as nat, SCALE as nat);
        assert(m * (p * w) == (m * p) * w) by (nonlinear_arith);
        assert((m * p) * w < (m * p + 1) * w) by (nonlinear_arith)
            requires
                w > 0,
        ;
    } else {
        let d = pow2((-x.exponent) as nat) as int;
        let q = pow2((x.exponent + SCALE) as nat) as int;
        lemma_pow2_pos((-x.exponent) as nat);
        lemma_pow2_pos((x.exponent + SCALE) as nat);
        lemma_pow2_adds((-x.exponent) as nat, (x.exponent + SCALE) as nat);
        let c = m / d;
        assert(c * d <= m < (c + 1) * d) by (nonlinear_arith)
            requires
                c == m / d,
                d > 0,
        ;
        assert(c * (d * q) <= m * q < (c + 1) * (d * q)) by (nonlinear_arith)
            requires
                c * d <= m < (c + 1) * d,
                q > 0,
        ;
    }
}

} // verus!
