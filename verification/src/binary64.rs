//! Double-precision numbers as bit patterns.
//!
//! Positions travel as IEEE 754 doubles counting milliseconds. Here such a
//! number is the `u64` of its bits, and a position is a whole number of
//! microseconds; the functions below go from one to the other.
use vstd::arithmetic::power2::*;
use vstd::prelude::*;

verus! {

/// The largest magnitude a position can have, in microseconds.
pub const LIMIT: i64 = 0x1000_0000_0000_0000;

/// The fraction field.
pub open spec fn fraction(b: u64) -> nat {
    (b % 0x10_0000_0000_0000) as nat
}

/// The exponent field.
pub open spec fn exponent(b: u64) -> nat {
    ((b / 0x10_0000_0000_0000) % 2048) as nat
}

/// The sign bit.
pub open spec fn negative(b: u64) -> bool {
    b >= 0x8000_0000_0000_0000
}

/// Neither an infinity nor a NaN.
pub open spec fn finite(b: u64) -> bool {
    exponent(b) != 2047
}

/// The number is `mantissa * 2^power`, up to its sign.
pub open spec fn mantissa(b: u64) -> nat {
    if exponent(b) == 0 {
        fraction(b)
    } else {
        0x10_0000_0000_0000 + fraction(b)
    }
}

/// The number is `mantissa * 2^power`, up to its sign.
pub open spec fn power(b: u64) -> int {
    if exponent(b) == 0 {
        -1074
    } else {
        exponent(b) - 1075
    }
}

/// `n / d` rounded to the nearest whole number, halves upwards.
pub open spec fn round_div(n: nat, d: nat) -> nat
    recommends
        d > 0,
{
    (2 * n + d) / (2 * d)
}

/// The number times `scale`, without its sign, rounded to a whole number.
pub open spec fn magnitude(b: u64, scale: nat) -> nat {
    if power(b) >= 0 {
        mantissa(b) * scale * pow2(power(b) as nat)
    } else {
        round_div(mantissa(b) * scale, pow2((-power(b)) as nat))
    }
}

/// `n` held to the magnitude `LIMIT`.
pub open spec fn held(n: int) -> int {
    if n > LIMIT {
        LIMIT as int
    } else if n < -LIMIT {
        -LIMIT as int
    } else {
        n
    }
}

/// The number times `scale`, rounded to the nearest whole number and held to `LIMIT`.
pub open spec fn scaled(b: u64, scale: nat) -> int {
    if negative(b) {
        held(-magnitude(b, scale))
    } else {
        held(magnitude(b, scale) as int)
    }
}

/// `n` held to the magnitude `LIMIT`.
pub fn hold(n: i128) -> (r: i64)
    ensures
        r == held(n as int),
{
    if n > LIMIT as i128 {
        LIMIT
    } else if n < -(LIMIT as i128) {
        -LIMIT
    } else {
        n as i64
    }
}

/// Whether the number is neither an infinity nor a NaN.
pub fn is_finite(b: u64) -> (r: bool)
    ensures
        r == finite(b),
{
    (b / 0x10_0000_0000_0000) % 2048 != 2047
}

/// `2^s`.
fn two_to(s: u32) -> (r: u128)
    requires
        s <= 100,
    ensures
        r == pow2(s as nat),
        r <= 0x10_0000_0000_0000_0000_0000_0000,
{
    let mut r: u128 = 1;
    let mut i: u32 = 0;
    proof {
        lemma2_to64();
    }
    while i < s
        invariant
            i <= s <= 100,
            r == pow2(i as nat),
        decreases s - i,
    {
        proof {
            lemma_pow2_unfold((i + 1) as nat);
            lemma_pow2_bound(i as nat);
        }
        r = r * 2;
        i = i + 1;
    }
    proof {
        lemma_pow2_bound(s as nat);
    }
    r
}

/// `2^s` up to the exponent one hundred is at most that of one hundred.
proof fn lemma_pow2_bound(s: nat)
    requires
        s <= 100,
    ensures
        0 < pow2(s) <= 0x10_0000_0000_0000_0000_0000_0000,
{
    lemma_pow2_pos(s);
    lemma2_to64();
    lemma_pow2_adds(50, 50);
    assert(pow2(50) == 0x4_0000_0000_0000) by {
        lemma2_to64_rest();
    }
    assert(0x4_0000_0000_0000 * 0x4_0000_0000_0000 == 0x10_0000_0000_0000_0000_0000_0000)
        by (nonlinear_arith);
    if s < 100 {
        lemma_pow2_strictly_increases(s, 100);
    }
}

/// The number times `scale`, rounded to the nearest whole number and held to `LIMIT`.
pub fn scale_to_int(b: u64, scale: u64) -> (r: i64)
    requires
        1 <= scale <= 1_000_000,
    ensures
        r == scaled(b, scale as nat),
        -LIMIT <= r <= LIMIT,
{
    let e: u64 = (b / 0x10_0000_0000_0000) % 2048;
    let f: u64 = b % 0x10_0000_0000_0000;
    let m: u64 = if e == 0 {
        f
    } else {
        0x10_0000_0000_0000 + f
    };
    proof {
        assert(0 <= m * scale <= 0x20_0000_0000_0000 * 1_000_000) by (nonlinear_arith)
            requires
                m <= 0x20_0000_0000_0000,
                scale <= 1_000_000,
        ;
    }
    let n: u128 = m as u128 * scale as u128;
    proof {
        assert(m <= n) by (nonlinear_arith)
            requires
                n == m * scale,
                1 <= scale,
        ;
    }
    let size: u128 = if e >= 1083 {
        proof {
            lemma_big(n as nat, (e - 1075) as nat);
        }
        LIMIT as u128
    } else if e >= 1075 {
        let p = two_to((e - 1075) as u32);
        proof {
            lemma2_to64();
            lemma_pow2_bound((e - 1075) as nat);
            if e - 1075 < 8 {
                lemma_pow2_strictly_increases((e - 1075) as nat, 8);
            }
            assert(n * p <= n * 256) by (nonlinear_arith)
                requires
                    p <= 256,
            ;
        }
        n * p
    } else {
        let s: u64 = if e == 0 {
            1074
        } else {
            1075 - e
        };
        if s >= 75 {
            proof {
                lemma_small(n as nat, s as nat);
            }
            0
        } else {
            let d = two_to(s as u32);
            proof {
                lemma_pow2_bound(s as nat);
            }
            (2 * n + d) / (2 * d)
        }
    };
    let capped: u128 = if size > LIMIT as u128 {
        LIMIT as u128
    } else {
        size
    };
    if b >= 0x8000_0000_0000_0000 {
        -(capped as i64)
    } else {
        capped as i64
    }
}

/// A normal mantissa shifted left by eight or more passes the limit.
proof fn lemma_big(n: nat, s: nat)
    requires
        n >= 0x10_0000_0000_0000,
        s >= 8,
    ensures
        n * pow2(s) >= LIMIT,
{
    lemma2_to64();
    if s > 8 {
        lemma_pow2_strictly_increases(8, s);
    }
    assert(n * pow2(s) >= 0x10_0000_0000_0000 * 256) by (nonlinear_arith)
        requires
            n >= 0x10_0000_0000_0000,
            pow2(s) >= 256,
    ;
}

/// A scaled mantissa shifted right by seventy-five or more rounds to nothing.
proof fn lemma_small(n: nat, s: nat)
    requires
        n <= 0x20_0000_0000_0000 * 1_000_000,
        s >= 75,
    ensures
        round_div(n, pow2(s)) == 0,
{
    lemma2_to64();
    lemma2_to64_rest();
    lemma_pow2_adds(50, 25);
    assert(pow2(75) == 0x4_0000_0000_0000 * 0x200_0000);
    if s > 75 {
        lemma_pow2_strictly_increases(75, s);
    }
    let d = pow2(s);
    assert((2 * n + d) / (2 * d) == 0) by (nonlinear_arith)
        requires
            2 * n < d,
    ;
}

/// `n / d` rounded to the nearest whole number, halves to the even neighbour.
pub open spec fn round_even(n: nat, d: nat) -> nat
    recommends
        d > 0,
{
    let q = n / d;
    let r = n % d;
    if 2 * r < d || (2 * r == d && q % 2 == 0) {
        q
    } else {
        q + 1
    }
}

/// How far `n` can be doubled, `t` times at most, with `n / 2000` staying under `2^53`.
pub open spec fn doublings(n: nat, t: nat) -> nat
    decreases t,
{
    if t == 0 || n * pow2(t) < 2000 * 0x20_0000_0000_0000 {
        t
    } else {
        doublings(n, (t - 1) as nat)
    }
}

/// The bits of the double nearest to `n / 1000`, for a positive `n`.
pub open spec fn nearest(n: nat) -> int {
    let t = doublings(n, 63);
    let q = round_even(n * pow2(t), 2000);
    (1076 - t) * 0x10_0000_0000_0000 + (q - 0x10_0000_0000_0000)
}

/// The bits of the double nearest to `us / 1000`.
pub open spec fn millis(us: int) -> int {
    if us == 0 {
        0
    } else if us < 0 {
        0x8000_0000_0000_0000 + nearest((-us) as nat)
    } else {
        nearest(us as nat)
    }
}

/// The double nearest to `us / 1000`: a position as milliseconds.
pub fn millis_bits(us: i64) -> (b: u64)
    ensures
        b == millis(us as int),
{
    if us == 0 {
        return 0;
    }
    let n: u128 = if us < 0 {
        (-(us as i128)) as u128
    } else {
        us as u128
    };
    let mut t: u32 = 63;
    let mut p: u128 = two_to(63);
    proof {
        lemma2_to64();
        lemma2_to64_rest();
        assert(n * p <= 0x8000_0000_0000_0000 * 0x8000_0000_0000_0000) by (nonlinear_arith)
            requires
                n <= 0x8000_0000_0000_0000,
                p == 0x8000_0000_0000_0000,
        ;
    }
    while t > 0 && n * p >= 2000 * 0x20_0000_0000_0000
        invariant
            1 <= n <= 0x8000_0000_0000_0000,
            t <= 63,
            p == pow2(t as nat),
            n * p <= 0x8000_0000_0000_0000 * 0x8000_0000_0000_0000,
            doublings(n as nat, 63) == doublings(n as nat, t as nat),
            t < 63 ==> n * (2 * p) >= 2000 * 0x20_0000_0000_0000,
        decreases t,
    {
        proof {
            lemma_pow2_unfold(t as nat);
            assert(p / 2 == pow2((t - 1) as nat) && 2 * (p / 2) == p);
            assert(n * (p / 2) <= n * p) by (nonlinear_arith);
        }
        p = p / 2;
        t = t - 1;
    }
    let a: u128 = n * p;
    proof {
        lemma_normal(n as nat, t as nat);
    }
    let q: u128 = a / 2000;
    let r: u128 = a % 2000;
    let rounded: u128 = if r < 1000 || (r == 1000 && q % 2 == 0) {
        q
    } else {
        q + 1
    };
    let body: u64 = (1076 - t as u64) * 0x10_0000_0000_0000 + (rounded as u64
        - 0x10_0000_0000_0000);
    if us < 0 {
        0x8000_0000_0000_0000 + body
    } else {
        body
    }
}

/// After the doublings, the quotient fills the mantissa.
proof fn lemma_normal(n: nat, t: nat)
    requires
        1 <= n <= 0x8000_0000_0000_0000,
        t <= 63,
        t == 0 || n * pow2(t) < 2000 * 0x20_0000_0000_0000,
        t < 63 ==> n * (2 * pow2(t)) >= 2000 * 0x20_0000_0000_0000,
    ensures
        2000 * 0x10_0000_0000_0000 <= n * pow2(t) < 2000 * 0x20_0000_0000_0000,
{
    lemma2_to64();
    lemma2_to64_rest();
    if t == 0 {
        assert(n * pow2(0) == n);
    }
    if t < 63 {
        assert(n * (2 * pow2(t)) == 2 * (n * pow2(t))) by (nonlinear_arith);
    } else {
        assert(n * pow2(63) >= 0x8000_0000_0000_0000) by (nonlinear_arith)
            requires
                n >= 1,
                pow2(63) == 0x8000_0000_0000_0000,
        ;
    }
}

/// A position that was written as milliseconds is read back as it was.
pub proof fn law_position_survives_the_wire(us: int)
    requires
        -0x10_0000_0000_0000 <= us <= 0x10_0000_0000_0000,
    ensures
        0 <= millis(us) <= u64::MAX,
        scaled(millis(us) as u64, 1000) == us,
        finite(millis(us) as u64),
{
    lemma2_to64();
    lemma2_to64_rest();
    if us == 0 {
        let b = 0u64;
        assert(mantissa(b) * 1000 == 0);
        assert(magnitude(b, 1000) == 0) by {
            lemma_small(0, 1074);
        }
    } else {
        let n: nat = if us < 0 {
            (-us) as nat
        } else {
            us as nat
        };
        let t = doublings(n, 63);
        lemma_doublings(n, 63);
        lemma_normal(n, t);
        assert(t >= 11) by {
            if t < 11 {
                lemma_pow2_strictly_increases(t, 11);
                assert(n * pow2(t) < 0x10_0000_0000_0000 * 2048) by (nonlinear_arith)
                    requires
                        0 < n <= 0x10_0000_0000_0000,
                        pow2(t) < 2048,
                ;
                if t < 10 {
                    lemma_pow2_strictly_increases(t, 10);
                }
                assert(n * pow2(t) <= 0x10_0000_0000_0000 * 1024) by (nonlinear_arith)
                    requires
                        0 < n <= 0x10_0000_0000_0000,
                        0 < pow2(t) <= 1024,
                ;
            }
        }
        let a = n * pow2(t);
        let q = round_even(a, 2000);
        let d = pow2((t - 1) as nat);
        lemma_pow2_unfold(t);
        assert(a == 2 * (n * d)) by (nonlinear_arith)
            requires
                a == n * pow2(t),
                pow2(t) == 2 * d,
        ;
        assert(d >= 1024) by {
            if t > 11 {
                lemma_pow2_strictly_increases(10, (t - 1) as nat);
            }
        }
        assert(n * d - 500 <= 1000 * q <= n * d + 500);
        let b = millis(us) as u64;
        assert(round_div(1000 * q, d) == n) by {
            assert((2 * (1000 * q) + d) / (2 * d) == n) by (nonlinear_arith)
                requires
                    n * d - 500 <= 1000 * q <= n * d + 500,
                    d >= 1024,
            ;
        }
        if q < 0x20_0000_0000_0000 {
            assert(fraction(b) == q - 0x10_0000_0000_0000);
            assert(exponent(b) == 1076 - t);
            assert(mantissa(b) == q);
            assert(power(b) == 1 - t);
            assert(magnitude(b, 1000) == n);
        } else {
            assert(q == 0x20_0000_0000_0000);
            assert(fraction(b) == 0);
            assert(exponent(b) == 1077 - t);
            assert(mantissa(b) == 0x10_0000_0000_0000);
            assert(power(b) == 2 - t);
            let h = pow2((t - 2) as nat);
            lemma_pow2_unfold((t - 1) as nat);
            assert(d == 2 * h);
            let x: nat = 0x10_0000_0000_0000 * 1000;
            assert((2 * x + h) / (2 * h) == (2 * (2 * x) + d) / (2 * d)) by (nonlinear_arith)
                requires
                    d == 2 * h,
                    h > 0,
            ;
            assert(magnitude(b, 1000) == n);
        }
    }
}

/// A position in milliseconds is a finite double.
pub proof fn lemma_millis_finite(us: int)
    requires
        i64::MIN <= us <= i64::MAX,
    ensures
        0 <= millis(us) <= u64::MAX,
        finite(millis(us) as u64),
{
    if us != 0 {
        let n: nat = if us < 0 {
            (-us) as nat
        } else {
            us as nat
        };
        let t = doublings(n, 63);
        lemma_doublings(n, 63);
        lemma_normal(n, t);
        let q = round_even(n * pow2(t), 2000);
        assert(0x10_0000_0000_0000 <= q <= 0x20_0000_0000_0000);
    }
}

/// Where the doublings stop.
proof fn lemma_doublings(n: nat, t: nat)
    requires
        t <= 63,
        1 <= n,
    ensures
        doublings(n, t) <= t,
        doublings(n, t) == 0 || n * pow2(doublings(n, t)) < 2000 * 0x20_0000_0000_0000,
        doublings(n, t) < t ==> n * (2 * pow2(doublings(n, t))) >= 2000 * 0x20_0000_0000_0000,
    decreases t,
{
    if t == 0 || n * pow2(t) < 2000 * 0x20_0000_0000_0000 {
    } else {
        lemma_doublings(n, (t - 1) as nat);
        lemma_pow2_unfold(t);
    }
}

/// The number lies between zero and `top`, both among them.
pub open spec fn between_zero_and(b: u64, top: nat) -> bool {
    &&& finite(b)
    &&& !negative(b) || mantissa(b) == 0
    &&& if power(b) >= 0 {
        mantissa(b) * pow2(power(b) as nat) <= top
    } else {
        mantissa(b) <= top * pow2((-power(b)) as nat)
    }
}

/// Whether the number lies between zero and `top`, both among them.
pub fn is_between_zero_and(b: u64, top: u64) -> (r: bool)
    requires
        1 <= top <= 1_000_000,
    ensures
        r == between_zero_and(b, top as nat),
{
    let e: u64 = (b / 0x10_0000_0000_0000) % 2048;
    let f: u64 = b % 0x10_0000_0000_0000;
    let m: u64 = if e == 0 {
        f
    } else {
        0x10_0000_0000_0000 + f
    };
    if e == 2047 || (b >= 0x8000_0000_0000_0000 && m != 0) {
        return false;
    }
    if e >= 1075 {
        proof {
            lemma_pow2_pos((e - 1075) as nat);
            assert(m * pow2((e - 1075) as nat) >= 0x10_0000_0000_0000) by (nonlinear_arith)
                requires
                    m >= 0x10_0000_0000_0000,
                    pow2((e - 1075) as nat) >= 1,
            ;
        }
        return false;
    }
    let s: u64 = if e == 0 {
        1074
    } else {
        1075 - e
    };
    if s >= 53 {
        proof {
            lemma2_to64_rest();
            if s > 53 {
                lemma_pow2_strictly_increases(53, s as nat);
            }
            assert(top * pow2(s as nat) >= 0x20_0000_0000_0000) by (nonlinear_arith)
                requires
                    top >= 1,
                    pow2(s as nat) >= 0x20_0000_0000_0000,
            ;
        }
        return true;
    }
    let d = two_to(s as u32);
    proof {
        assert(0 <= top * d <= 1_000_000 * 0x10_0000_0000_0000_0000_0000_0000) by (nonlinear_arith)
            requires
                top <= 1_000_000,
                d <= 0x10_0000_0000_0000_0000_0000_0000,
        ;
    }
    m as u128 <= top as u128 * d
}

/// A single-precision subnormal, doubled until its leading bit stands in place.
pub open spec fn normalised(f: nat, e: int) -> int
    decreases 0x100_0000 - f,
    when 0 < f
{
    if f >= 0x80_0000 {
        (e + 896) * 0x10_0000_0000_0000 + (f - 0x80_0000) * 0x2000_0000
    } else {
        normalised(2 * f, e - 1)
    }
}

/// The bits of a single-precision number, without its sign, as those of the same double.
///
/// A NaN keeps its payload and comes out quiet.
pub open spec fn widened_size(b: nat) -> int {
    let e = (b / 0x80_0000) as int;
    let f = (b % 0x80_0000) as int;
    if e == 255 {
        0x7ff0_0000_0000_0000 + f * 0x2000_0000 + (if 0 < f < 0x40_0000 {
            0x8_0000_0000_0000int
        } else {
            0
        })
    } else if e == 0 {
        if f == 0 {
            0
        } else {
            normalised(f as nat, 1)
        }
    } else {
        (e + 896) * 0x10_0000_0000_0000 + f * 0x2000_0000
    }
}

/// The bits of a single-precision number as those of the same double.
pub open spec fn widened(b: u32) -> int {
    if b >= 0x8000_0000 {
        0x8000_0000_0000_0000 + widened_size((b - 0x8000_0000) as nat)
    } else {
        widened_size(b as nat)
    }
}

/// A single-precision number as the same double.
pub fn widen(b: u32) -> (r: u64)
    ensures
        r == widened(b),
{
    let size: u32 = b % 0x8000_0000;
    let e: u64 = (size / 0x80_0000) as u64;
    let f: u64 = (size % 0x80_0000) as u64;
    let body: u64 = if e == 255 {
        0x7ff0_0000_0000_0000 + f * 0x2000_0000 + (if 0 < f && f < 0x40_0000 {
            0x8_0000_0000_0000u64
        } else {
            0u64
        })
    } else if e == 0 {
        if f == 0 {
            0
        } else {
            let mut g: u64 = f;
            let mut k: u64 = 897;
            proof {
                lemma2_to64();
            }
            while g < 0x80_0000
                invariant
                    0 < g < 0x100_0000,
                    800 <= k <= 897,
                    normalised(f as nat, 1) == normalised(g as nat, k - 896),
                    g >= pow2((897 - k) as nat),
                    0 < f,
                decreases 0x100_0000 - g,
            {
                proof {
                    lemma2_to64();
                    if 897 - k > 23 {
                        lemma_pow2_strictly_increases(23, (897 - k) as nat);
                    }
                    lemma_pow2_unfold((898 - k) as nat);
                }
                g = g * 2;
                k = k - 1;
            }
            k * 0x10_0000_0000_0000 + (g - 0x80_0000) * 0x2000_0000
        }
    } else {
        (e + 896) * 0x10_0000_0000_0000 + f * 0x2000_0000
    };
    if b >= 0x8000_0000 {
        0x8000_0000_0000_0000 + body
    } else {
        body
    }
}

/// A number that is no whole one is scaled to the nearest whole one: twice the distance is no more
/// than one, and a half goes away from zero.
pub proof fn law_scaling_goes_to_the_nearest(b: u64, scale: nat)
    requires
        exponent(b) > 0,
        exponent(b) < 1075,
    ensures
        ({
            let n = (0x10_0000_0000_0000 + fraction(b)) * scale;
            let d = pow2((1075 - exponent(b)) as nat);
            let r = scaled(b, scale);
            let size = if r < 0 {
                -r
            } else {
                r
            };
            &&& size < LIMIT ==> 2 * n - d < 2 * d * size <= 2 * n + d
            &&& b < 0x8000_0000_0000_0000 ==> r >= 0
            &&& b >= 0x8000_0000_0000_0000 ==> r <= 0
            &&& size <= LIMIT
        }),
{
    let n = (0x10_0000_0000_0000 + fraction(b)) * scale;
    let d = pow2((1075 - exponent(b)) as nat);
    lemma_pow2_pos((1075 - exponent(b)) as nat);
    let q = (2 * n + d) / (2 * d);
    assert(2 * n - d < 2 * d * q <= 2 * n + d) by (nonlinear_arith)
        requires
            d > 0,
            q == (2 * n + d) / (2 * d),
            n >= 0,
    ;
    assert(magnitude(b, scale) == q);
}

/// A whole number is scaled as it is.
pub proof fn law_whole_numbers_are_scaled_exactly(b: u64, scale: nat)
    requires
        exponent(b) >= 1075,
    ensures
        ({
            let n = (0x10_0000_0000_0000 + fraction(b)) * scale * pow2(
                (exponent(b) - 1075) as nat,
            );
            &&& n <= LIMIT && b < 0x8000_0000_0000_0000 ==> scaled(b, scale) == n
            &&& n <= LIMIT && b >= 0x8000_0000_0000_0000 ==> scaled(b, scale) == -n
        }),
{
}

/// A single-precision number keeps its value as a double: the sign, and the mantissa with 29 more
/// bits at a power that is lower by as many.
pub proof fn law_widening_keeps_the_value(e: u32, f: u32, negative_one: bool)
    requires
        1 <= e <= 254,
        f < 0x80_0000,
    ensures
        ({
            let b = (e * 0x80_0000 + f + if negative_one {
                0x8000_0000int
            } else {
                0
            }) as u32;
            let w = widened(b);
            &&& 0 <= w <= u64::MAX
            &&& negative(w as u64) == negative_one
            &&& mantissa(w as u64) == (0x80_0000 + f) * 0x2000_0000
            &&& power(w as u64) == (e - 150) - 29
            &&& finite(w as u64)
        }),
{
    let size = (e * 0x80_0000 + f) as nat;
    assert(size / 0x80_0000 == e && size % 0x80_0000 == f);
    let w = (e + 896) * 0x10_0000_0000_0000 + f * 0x2000_0000;
    assert(w / 0x10_0000_0000_0000 == e + 896);
    assert(w % 0x10_0000_0000_0000 == f * 0x2000_0000);
    let x = w + 0x8000_0000_0000_0000;
    assert(x / 0x10_0000_0000_0000 == e + 896 + 2048);
    assert(x % 0x10_0000_0000_0000 == f * 0x2000_0000);
}

} // verus!
