//! Numbers that are shown as doubles, computed with whole numbers.
//!
//! A double is a whole number of 53 significant bits times a power of two. The
//! results of single operations on doubles are the doubles nearest to the exact
//! results, and are fractions of whole numbers here.

use crate::text::{decimal, joined};
use vstd::prelude::*;

verus! {

/// 2 to the power of `n`.
pub open spec fn two_to(n: nat) -> nat
    decreases n,
{
    if n == 0 {
        1
    } else {
        2 * two_to((n - 1) as nat)
    }
}

/// The exponent of the largest power of two that is not above `n`.
pub open spec fn binary_order(n: nat) -> nat
    decreases n,
{
    if n < 2 {
        0
    } else {
        1 + binary_order(n / 2)
    }
}

/// `n / d` rounded to a whole number; halves go to the even neighbour.
pub open spec fn rounded(n: nat, d: nat) -> nat {
    let q = n / d;
    let r = n % d;
    if 2 * r < d || (2 * r == d && q % 2 == 0) {
        q
    } else {
        q + 1
    }
}

/// The double nearest to a whole number, which has 53 significant bits.
pub open spec fn whole_double(n: nat) -> nat {
    if n < two_to(53) {
        n
    } else {
        let unit = two_to((binary_order(n) - 52) as nat);
        rounded(n, unit) * unit
    }
}

/// How often `n` has to be doubled to reach `d`.
pub open spec fn doublings(n: nat, d: nat) -> nat
    decreases
            (if n < d {
                d - n
            } else {
                0
            }),
{
    if n == 0 || n >= d {
        0
    } else {
        1 + doublings(2 * n, d)
    }
}

/// The double nearest to `n / d`, as a fraction.
pub open spec fn quotient_double(n: nat, d: nat) -> (nat, nat) {
    if n == 0 {
        (0, 1)
    } else if n < d {
        let unit = two_to(52 + doublings(n, d));
        (rounded(n * unit, d), unit)
    } else {
        let order = binary_order(n / d);
        if order <= 52 {
            let unit = two_to((52 - order) as nat);
            (rounded(n * unit, d), unit)
        } else {
            let unit = two_to((order - 52) as nat);
            (rounded(n, d * unit) * unit, 1)
        }
    }
}

/// The seconds that `ms` milliseconds are, as a double.
pub open spec fn seconds_double(ms: nat) -> (nat, nat) {
    quotient_double(whole_double(ms), 1000)
}

/// A fraction in decimal with `decimals` digits behind the point, one or two.
pub open spec fn fixed(fraction: (nat, nat), decimals: nat) -> Seq<char> {
    if decimals == 1 {
        let n = rounded(fraction.0 * 10, fraction.1);
        crate::text::decimal_of(n / 10) + "."@ + crate::text::decimal_of(n % 10)
    } else {
        let n = rounded(fraction.0 * 100, fraction.1);
        crate::text::decimal_of(n / 100) + "."@ + crate::text::decimal_of((n / 10) % 10)
            + crate::text::decimal_of(n % 10)
    }
}

/// A duration: whole milliseconds below one second, then seconds with some
/// decimals.
pub open spec fn duration_text(ms: nat, decimals: nat) -> Seq<char> {
    if ms < 1000 {
        crate::text::decimal_of(ms) + "ms"@
    } else {
        fixed(seconds_double(ms), decimals) + "s"@
    }
}

proof fn lemma_two_to_monotonic(a: nat, b: nat)
    requires
        a <= b,
    ensures
        0 < two_to(a) <= two_to(b),
    decreases b,
{
    if a < b {
        lemma_two_to_monotonic(a, (b - 1) as nat);
    } else if b > 0 {
        lemma_two_to_monotonic((a - 1) as nat, (b - 1) as nat);
    }
}

proof fn lemma_two_to_values()
    ensures
        two_to(10) == 1024,
        two_to(52) == 0x10_0000_0000_0000,
        two_to(53) == 0x20_0000_0000_0000,
        two_to(64) == 0x1_0000_0000_0000_0000,
        two_to(100) == 0x10_0000_0000_0000_0000_0000_0000,
{
    reveal_with_fuel(two_to, 22);
    assert(two_to(10) == 1024);
    assert(two_to(20) == 0x10_0000);
    assert(two_to(40) == 0x100_0000_0000);
    assert(two_to(52) == 0x10_0000_0000_0000);
    assert(two_to(64) == 0x1_0000_0000_0000_0000);
    assert(two_to(84) == 0x10_0000_0000_0000_0000_0000);
    assert(two_to(100) == 0x10_0000_0000_0000_0000_0000_0000);
}

/// A number lies between the power of two of its order and the next one.
proof fn lemma_binary_order(n: nat)
    requires
        n > 0,
    ensures
        two_to(binary_order(n)) <= n < 2 * two_to(binary_order(n)),
    decreases n,
{
    if n >= 2 {
        lemma_binary_order(n / 2);
    }
}

/// A number below a power of two has a smaller order.
proof fn lemma_binary_order_below(n: nat, e: nat)
    requires
        0 < n < two_to(e),
    ensures
        binary_order(n) < e,
{
    lemma_binary_order(n);
    if binary_order(n) >= e {
        lemma_two_to_monotonic(e, binary_order(n));
    }
}

fn power_of_two(n: u32) -> (r: u128)
    requires
        n <= 100,
    ensures
        r == two_to(n as nat),
{
    let mut r: u128 = 1;
    let mut i: u32 = 0;
    proof {
        lemma_two_to_values();
    }
    while i < n
        invariant
            i <= n <= 100,
            r == two_to(i as nat),
            two_to(100) == 0x10_0000_0000_0000_0000_0000_0000,
        decreases n - i,
    {
        proof {
            lemma_two_to_monotonic(i as nat, 100);
        }
        r = r * 2;
        i += 1;
    }
    r
}

fn order_of(n: u128) -> (r: u32)
    requires
        n < 0x10_0000_0000_0000_0000_0000_0000,
    ensures
        r == binary_order(n as nat),
        r < 100,
    decreases n,
{
    proof {
        lemma_two_to_values();
        if n > 0 {
            lemma_binary_order_below(n as nat, 100);
        }
    }
    if n < 2 {
        0
    } else {
        proof {
            lemma_two_to_values();
        }
        1 + order_of(n / 2)
    }
}

fn round(n: u128, d: u128) -> (r: u128)
    requires
        0 < d <= 0x4000_0000_0000_0000_0000_0000_0000_0000,
        n <= 0x4000_0000_0000_0000_0000_0000_0000_0000,
    ensures
        r == rounded(n as nat, d as nat),
        r <= n / d + 1,
{
    let q = n / d;
    let rest = n % d;
    proof {
        assert(n / d <= n) by (nonlinear_arith)
            requires
                0 < d,
        ;
    }
    if 2 * rest < d || (2 * rest == d && q % 2 == 0) {
        q
    } else {
        q + 1
    }
}

proof fn lemma_two_to_split(a: nat, b: nat)
    ensures
        two_to(a + b) == two_to(a) * two_to(b),
    decreases b,
{
    if b == 0 {
        assert(two_to(a) * 1 == two_to(a)) by (nonlinear_arith);
    } else {
        let c = (b - 1) as nat;
        lemma_two_to_split(a, c);
        assert(two_to(a) * (2 * two_to(c)) == 2 * (two_to(a) * two_to(c))) by (nonlinear_arith);
    }
}

/// The double nearest to `n`.
fn to_double(n: u128) -> (r: u128)
    requires
        n < 0x10_0000_0000_0000_0000_0000_0000,
    ensures
        r == whole_double(n as nat),
        r <= 0x10_0000_0000_0000_0000_0000_0000,
        n < 0x1_0000_0000_0000_0000 ==> r <= 0x1_0000_0000_0000_0000,
        n >= 1000 ==> r >= 1000,
{
    proof {
        lemma_two_to_values();
    }
    if n < 0x20_0000_0000_0000 {
        return n;
    }
    let order = order_of(n);
    proof {
        lemma_binary_order(n as nat);
        if order < 53 {
            lemma_two_to_monotonic(order as nat, 52);
        }
        lemma_two_to_split((order - 52) as nat, 52);
        lemma_two_to_split((order - 52) as nat, 53);
        lemma_two_to_monotonic((order + 1) as nat, 100);
        lemma_two_to_monotonic((order - 52) as nat, 100);
        lemma_two_to_monotonic(0, (order - 52) as nat);
    }
    let unit = power_of_two(order - 52);
    let m = round(n, unit);
    proof {
        let u = unit as int;
        let low = 0x10_0000_0000_0000int;
        assert(u * low <= n < u * (2 * low));
        assert(low <= n as int / u < 2 * low) by (nonlinear_arith)
            requires
                u * low <= n < u * (2 * low),
                u > 0,
        ;
        assert(low <= m <= 2 * low);
        assert(m * u <= u * (2 * low)) by (nonlinear_arith)
            requires
                m <= 2 * low,
                u > 0,
        ;
        assert(m * u >= low) by (nonlinear_arith)
            requires
                m >= low,
                u >= 1,
                low >= 0,
        ;
        assert(u * (2 * low) == two_to((order + 1) as nat));
        if n < 0x1_0000_0000_0000_0000 {
            lemma_binary_order_below(n as nat, 64);
            lemma_two_to_monotonic((order + 1) as nat, 64);
        }
    }
    m * unit
}

/// Doubling stops below twice the goal.
proof fn lemma_doublings(n: nat, d: nat)
    requires
        0 < n < d,
    ensures
        n * two_to(doublings(n, d)) < 2 * d,
        d <= n * two_to(doublings(n, d)),
    decreases d - n,
{
    let k = doublings(n, d);
    if 2 * n < d {
        lemma_doublings(2 * n, d);
        let j = doublings(2 * n, d);
        assert(n * (2 * two_to(j)) == (2 * n) * two_to(j)) by (nonlinear_arith);
    } else {
        reveal_with_fuel(doublings, 2);
        reveal_with_fuel(two_to, 2);
        assert(k == 1 && two_to(k) == 2);
        assert(n * two_to(k) == 2 * n) by (nonlinear_arith)
            requires
                two_to(k) == 2,
        ;
    }
}

/// A number of 64 bits is reached in as many doublings at most.
proof fn lemma_doublings_bound(n: nat, d: nat, bound: nat)
    requires
        0 < n < d,
        d <= n * two_to(bound),
    ensures
        doublings(n, d) <= bound,
    decreases d - n,
{
    if bound == 0 {
        assert(n * 1 == n) by (nonlinear_arith);
    } else if 2 * n < d {
        let b = (bound - 1) as nat;
        assert(n * (2 * two_to(b)) == (2 * n) * two_to(b)) by (nonlinear_arith);
        lemma_doublings_bound(2 * n, d, b);
    } else {
        reveal_with_fuel(doublings, 2);
    }
}

fn count_doublings(n: u128, d: u128) -> (r: u32)
    requires
        0 < n < d <= 0x1_0000_0000_0000_0000,
    ensures
        r == doublings(n as nat, d as nat),
        r <= 64,
{
    proof {
        lemma_two_to_values();
        assert(d <= n * two_to(64)) by (nonlinear_arith)
            requires
                d <= two_to(64),
                n >= 1,
        ;
        lemma_doublings_bound(n as nat, d as nat, 64);
    }
    let mut k: u32 = 0;
    let mut m: u128 = n;
    while m < d
        invariant
            0 < m < 2 * d,
            d <= 0x1_0000_0000_0000_0000,
            doublings(n as nat, d as nat) == k + doublings(m as nat, d as nat),
            doublings(n as nat, d as nat) <= 64,
        decreases 2 * d - m,
    {
        m = 2 * m;
        k += 1;
    }
    k
}

/// The double nearest to `n / d`, as a fraction.
fn to_quotient(n: u128, d: u128) -> (r: (u128, u128))
    requires
        n <= 0x1_0000_0000_0000_0000,
        0 < d <= 0x1_0000_0000_0000_0000,
    ensures
        (r.0 as nat, r.1 as nat) == quotient_double(n as nat, d as nat),
        r.1 > 0,
        r.1 > 1 ==> r.0 <= 0x20_0000_0000_0000,
        r.1 <= 0x10_0000_0000_0000 * 0x1_0000_0000_0000_0000,
        r.0 <= 0x1000_0000_0000_0000_0000,
{
    proof {
        lemma_two_to_values();
    }
    if n == 0 {
        return (0, 1);
    }
    if n < d {
        let k = count_doublings(n, d);
        proof {
            lemma_doublings(n as nat, d as nat);
            lemma_two_to_split(52, k as nat);
            lemma_two_to_monotonic(0, k as nat);
            lemma_two_to_monotonic(k as nat, 64);
        }
        let step = power_of_two(k);
        let unit = 0x10_0000_0000_0000 * step;
        proof {
            let one = 0x10_0000_0000_0000int;
            assert(unit == two_to((52 + k) as nat));
            assert(n * unit <= (2 * d) * one) by (nonlinear_arith)
                requires
                    n * step < 2 * d,
                    unit == one * step,
                    one > 0,
            ;
            lemma_rounded_bound((n * unit) as nat, d as nat, 0x20_0000_0000_0000);
        }
        (round(n * unit, d), unit)
    } else {
        let order = order_of_quotient(n, d);
        proof {
            let q = (n / d) as nat;
            assert(q >= 1) by (nonlinear_arith)
                requires
                    q == n / d,
                    n >= d,
                    d > 0,
            ;
            lemma_binary_order(q);
            lemma_two_to_monotonic(0, order as nat);
            assert(n < d * (q + 1)) by (nonlinear_arith)
                requires
                    q == n / d,
                    d > 0,
            ;
            let p = two_to(order as nat);
            assert(n <= d * (2 * p)) by (nonlinear_arith)
                requires
                    n < d * (q + 1),
                    q + 1 <= 2 * p,
                    d > 0,
            ;
        }
        if order <= 52 {
            proof {
                lemma_two_to_split(order as nat, (52 - order) as nat);
                lemma_two_to_monotonic((52 - order) as nat, 52);
                lemma_two_to_monotonic(0, (52 - order) as nat);
            }
            let unit = power_of_two(52 - order);
            proof {
                let u = unit as int;
                let p = two_to(order as nat) as int;
                let one = 0x10_0000_0000_0000int;
                assert(n * u <= (2 * d) * one) by (nonlinear_arith)
                    requires
                        n <= d * (2 * p),
                        p * u == one,
                        u > 0,
                ;
                lemma_rounded_bound((n * unit) as nat, d as nat, 0x20_0000_0000_0000);
            }
            (round(n * unit, d), unit)
        } else {
            proof {
                lemma_two_to_monotonic((order - 52) as nat, 12);
                lemma_two_to_monotonic(0, (order - 52) as nat);
                assert(two_to(12) == 4096) by {
                    reveal_with_fuel(two_to, 4);
                }
                lemma_two_to_split((order - 52) as nat, 52);
            }
            let unit = power_of_two(order - 52);
            proof {
                assert(d * unit <= 0x1_0000_0000_0000_0000 * 4096) by (nonlinear_arith)
                    requires
                        d <= 0x1_0000_0000_0000_0000,
                        unit <= 4096,
                ;
                assert(d * unit >= 1) by (nonlinear_arith)
                    requires
                        d >= 1,
                        unit >= 1,
                ;
            }
            let m = round(n, d * unit);
            proof {
                let u = unit as int;
                let dd = d as int;
                let p = two_to(order as nat) as int;
                let bound = 0x20_0000_0000_0000int;
                assert(n <= bound * (dd * u)) by (nonlinear_arith)
                    requires
                        n <= dd * (2 * p),
                        p == u * 0x10_0000_0000_0000int,
                        bound == 2 * 0x10_0000_0000_0000int,
                ;
                lemma_rounded_bound(n as nat, (d * unit) as nat, bound as nat);
                assert(m * u <= bound * 4096) by (nonlinear_arith)
                    requires
                        0 <= m <= bound,
                        1 <= u <= 4096,
                ;
            }
            (m * unit, 1)
        }
    }
}

/// The order of the quotient.
fn order_of_quotient(n: u128, d: u128) -> (r: u32)
    requires
        0 < d <= n <= 0x1_0000_0000_0000_0000,
    ensures
        r == binary_order((n / d) as nat),
        r <= 64,
{
    let q = n / d;
    if q == 0x1_0000_0000_0000_0000 {
        proof {
            lemma_two_to_values();
            lemma_order_of_power(64);
        }
        64
    } else {
        proof {
            assert(n / d <= n) by (nonlinear_arith)
                requires
                    d >= 1,
                    n >= 0,
            ;
            lemma_two_to_values();
            if q > 0 {
                lemma_binary_order_below(q as nat, 64);
            }
        }
        order_of(q)
    }
}

proof fn lemma_order_of_power(e: nat)
    ensures
        binary_order(two_to(e)) == e,
    decreases e,
{
    if e > 0 {
        lemma_order_of_power((e - 1) as nat);
        lemma_two_to_monotonic(0, (e - 1) as nat);
        assert(two_to(e) / 2 == two_to((e - 1) as nat));
    }
}

fn decimal_wide(n: u128) -> (s: String)
    ensures
        s@ == crate::text::decimal_of(n as nat),
    decreases n,
{
    let last = decimal((n % 10) as u64);
    proof {
        assert(crate::text::decimal_of((n % 10) as nat) =~= seq![crate::text::digit((n % 10) as nat)]);
    }
    if n < 10 {
        last
    } else {
        let mut s = decimal_wide(n / 10);
        s.append(last.as_str());
        proof {
            assert(s@ =~= crate::text::decimal_of(n as nat));
        }
        s
    }
}

/// A duration as text, with one or two decimals for seconds.
pub fn describe_duration(ms: u64, decimals: u8) -> (r: String)
    requires
        decimals == 1 || decimals == 2,
    ensures
        r@ == duration_text(ms as nat, decimals as nat),
{
    if ms < 1000 {
        return joined(decimal(ms).as_str(), "ms");
    }
    let (num, den) = to_quotient(to_double(ms as u128), 1000);
    let mut s: String;
    if decimals == 1 {
        let n = round(num * 10, den);
        s = decimal_wide(n / 10);
        s.append(".");
        s.append(decimal((n % 10) as u64).as_str());
    } else {
        let n = round(num * 100, den);
        s = decimal_wide(n / 100);
        s.append(".");
        s.append(decimal(((n / 10) % 10) as u64).as_str());
        s.append(decimal((n % 10) as u64).as_str());
    }
    s.append("s");
    s
}

// ---- Shares ---------------------------------------------------------------

/// The whole number that a non-negative double of this bit pattern is a multiple
/// of a power of two with.
pub open spec fn significand(bits: u64) -> nat {
    let fraction = (bits as nat) % 0x10_0000_0000_0000;
    if bits < 0x10_0000_0000_0000 {
        fraction
    } else {
        fraction + 0x10_0000_0000_0000
    }
}

/// The power of two that the significand is divided by, for a double of at most
/// 1.0.
pub open spec fn scale(bits: u64) -> nat {
    if bits < 0x10_0000_0000_0000 {
        1074
    } else {
        (1075 - (bits as nat) / 0x10_0000_0000_0000) as nat
    }
}

/// The product of a double with a whole number, as a double: a fraction.
pub open spec fn product(bits: u64, factor: nat) -> (nat, nat) {
    (whole_double(significand(bits) * factor), two_to(scale(bits)))
}

/// The double rounded to a whole number; halves go up.
pub open spec fn nearest(fraction: (nat, nat)) -> nat {
    (2 * fraction.0 + fraction.1) / (2 * fraction.1)
}

/// How many of `parts` a share of at most 1.0 comes to; halves go up.
pub open spec fn parts_of(share: u64, parts: nat) -> nat {
    nearest(product(share, parts))
}

/// How many percent a share of at most 1.0 is; halves go to the even neighbour.
pub open spec fn even_percent(share: u64) -> nat {
    let p = product(share, 100);
    rounded(p.0, p.1)
}

/// The product as a fraction, or `None` where it is below one half by far.
fn share_product(share: u64, factor: u64) -> (r: Option<(u128, u128)>)
    requires
        share <= 0x3ff0_0000_0000_0000,
        1 <= factor <= 100,
    ensures
        match r {
            Some(p) => {
                &&& (p.0 as nat, p.1 as nat) == product(share, factor as nat)
                &&& 0 < p.1 <= 0x1_0000_0000_0000_0000
                &&& p.0 <= 0x1_0000_0000_0000_0000
            },
            None => 4 * product(share, factor as nat).0 < product(share, factor as nat).1,
        },
{
    let fraction = share % 0x10_0000_0000_0000;
    let exponent = share / 0x10_0000_0000_0000;
    let (mantissa, shift): (u64, u64) = if share < 0x10_0000_0000_0000 {
        (fraction, 1074)
    } else {
        (fraction + 0x10_0000_0000_0000, 1075 - exponent)
    };
    proof {
        assert(mantissa * factor <= 0x20_0000_0000_0000 * 100) by (nonlinear_arith)
            requires
                mantissa <= 0x20_0000_0000_0000,
                factor <= 100,
        ;
    }
    let p = to_double(mantissa as u128 * factor as u128);
    if shift > 64 {
        proof {
            lemma_two_to_values();
            lemma_two_to_monotonic(64, shift as nat);
            lemma_whole_double_bound((mantissa * factor) as nat);
        }
        None
    } else {
        proof {
            lemma_two_to_values();
            lemma_two_to_monotonic(0, shift as nat);
            lemma_two_to_monotonic(shift as nat, 64);
        }
        Some((p, power_of_two(shift as u32)))
    }
}

/// Rounding to a double does not go beyond twice the number.
proof fn lemma_whole_double_bound(n: nat)
    ensures
        whole_double(n) <= 2 * n,
{
    if n >= two_to(53) {
        lemma_two_to_values();
        let order = binary_order(n);
        lemma_binary_order(n);
        if order < 53 {
            lemma_two_to_monotonic(order, 52);
        }
        let unit = two_to((order - 52) as nat);
        lemma_two_to_split((order - 52) as nat, 52);
        lemma_two_to_monotonic(0, (order - 52) as nat);
        let q = n / unit;
        assert(q * unit <= n) by (nonlinear_arith)
            requires
                q == n / unit,
                unit > 0,
        ;
        assert(rounded(n, unit) * unit <= (q + 1) * unit) by (nonlinear_arith)
            requires
                rounded(n, unit) <= q + 1,
                unit > 0,
        ;
        assert((q + 1) * unit == q * unit + unit) by (nonlinear_arith);
        assert(unit <= n) by (nonlinear_arith)
            requires
                unit * two_to(52) <= n,
                two_to(52) >= 1,
        ;
    }
}

/// The significand of a share is not above the power that it is divided by.
proof fn lemma_share(share: u64)
    requires
        share <= 0x3ff0_0000_0000_0000,
    ensures
        significand(share) <= two_to(scale(share)),
        scale(share) >= 52,
        significand(share) <= 0x20_0000_0000_0000,
{
    lemma_two_to_values();
    let s = scale(share);
    if s >= 53 {
        lemma_two_to_monotonic(53, s);
    } else {
        assert(share as nat / 0x10_0000_0000_0000 == 1023);
    }
}

/// A part of a whole is not above the whole.
proof fn lemma_share_bound(share: u64, parts: nat)
    requires
        share <= 0x3ff0_0000_0000_0000,
        1 <= parts <= 100,
    ensures
        product(share, parts).0 <= parts * product(share, parts).1,
        product(share, parts).1 > 0,
{
    lemma_two_to_values();
    lemma_share(share);
    let m = significand(share);
    let s = scale(share);
    let p = m * parts;
    lemma_two_to_monotonic(0, s);
    assert(p <= parts * two_to(s)) by (nonlinear_arith)
        requires
            p == m * parts,
            m <= two_to(s),
            parts >= 0,
    ;
    if p >= two_to(53) {
        assert(p <= 0x20_0000_0000_0000 * 100) by (nonlinear_arith)
            requires
                p == m * parts,
                m <= 0x20_0000_0000_0000,
                parts <= 100,
        ;
        let order = binary_order(p);
        lemma_binary_order(p);
        if order < 53 {
            lemma_two_to_monotonic(order, 52);
        }
        assert(two_to(60) == 0x1000_0000_0000_0000) by {
            reveal_with_fuel(two_to, 9);
        }
        lemma_binary_order_below(p, 60);
        let e = (order - 52) as nat;
        let unit = two_to(e);
        lemma_two_to_monotonic(0, e);
        lemma_two_to_split(e, (s - e) as nat);
        let b = parts * two_to((s - e) as nat);
        assert(parts * two_to(s) == b * unit) by (nonlinear_arith)
            requires
                two_to(s) == unit * two_to((s - e) as nat),
                b == parts * two_to((s - e) as nat),
        ;
        lemma_rounded_bound(p, unit, b);
        assert(rounded(p, unit) * unit <= b * unit) by (nonlinear_arith)
            requires
                rounded(p, unit) <= b,
                unit > 0,
        ;
    }
}

/// How many of `parts` a share of at most 1.0 comes to.
pub fn share_parts(share: u64, parts: u64) -> (r: u64)
    requires
        share <= 0x3ff0_0000_0000_0000,
        1 <= parts <= 100,
    ensures
        r == parts_of(share, parts as nat),
        r <= parts,
{
    proof {
        lemma_share_bound(share, parts as nat);
    }
    match share_product(share, parts) {
        None => {
            proof {
                let p = product(share, parts as nat);
                assert((2 * p.0 + p.1) as int / (2 * p.1) as int == 0) by (nonlinear_arith)
                    requires
                        4 * p.0 < p.1,
                ;
            }
            0
        },
        Some((n, d)) => {
            proof {
                assert((2 * n + d) as int / (2 * d) as int <= parts) by (nonlinear_arith)
                    requires
                        n <= parts * d,
                        d > 0,
                ;
            }
            ((2 * n + d) / (2 * d)) as u64
        },
    }
}

/// A fraction that is not above a whole number does not round above it.
proof fn lemma_rounded_bound(n: nat, d: nat, bound: nat)
    requires
        d > 0,
        n <= bound * d,
    ensures
        rounded(n, d) <= bound,
{
    let q = n / d;
    let r = n % d;
    assert(n == q * d + r && 0 <= r < d) by (nonlinear_arith)
        requires
            q == n / d,
            r == n % d,
            d > 0,
    ;
    assert(q <= bound && (q == bound ==> r == 0)) by (nonlinear_arith)
        requires
            n == q * d + r,
            0 <= r < d,
            n <= bound * d,
    ;
}

/// How many percent a share of at most 1.0 is.
pub fn share_even_percent(share: u64) -> (r: u64)
    requires
        share <= 0x3ff0_0000_0000_0000,
    ensures
        r == even_percent(share),
        r <= 100,
{
    proof {
        lemma_share_bound(share, 100);
    }
    match share_product(share, 100) {
        None => {
            proof {
                let p = product(share, 100);
                assert(p.0 as int / p.1 as int == 0 && p.0 as int % p.1 as int == p.0)
                    by (nonlinear_arith)
                    requires
                        0 <= 4 * p.0 < p.1,
                ;
            }
            0
        },
        Some((n, d)) => {
            proof {
                lemma_rounded_bound(n as nat, d as nat, 100);
            }
            round(n, d) as u64
        },
    }
}

// ---- Progress -------------------------------------------------------------

/// How many of `parts` the quotient of two counts comes to; halves go up.
pub open spec fn progress_parts(current: nat, total: nat, parts: nat) -> nat {
    let quotient = quotient_double(
        whole_double(current),
        whole_double(
            if total == 0 {
                1
            } else {
                total
            },
        ),
    );
    nearest((whole_double(quotient.0 * parts), quotient.1))
}

/// How many of `parts` the quotient of two counts comes to.
pub fn share_of_progress(current: u64, total: u64, parts: u32) -> (r: u128)
    requires
        parts <= 0x1_0000,
    ensures
        r == progress_parts(current as nat, total as nat, parts as nat),
{
    let whole: u64 = if total == 0 {
        1
    } else {
        total
    };
    let d = to_double(whole as u128);
    proof {
        lemma_whole_double_positive(whole as nat);
    }
    let (n, unit) = to_quotient(to_double(current as u128), d);
    proof {
        assert(n * parts <= 0x1000_0000_0000_0000_0000 * 0x1_0000) by (nonlinear_arith)
            requires
                n <= 0x1000_0000_0000_0000_0000,
                parts <= 0x1_0000,
        ;
    }
    let p = to_double(n * parts as u128);
    (2 * p + unit) / (2 * unit)
}

proof fn lemma_whole_double_positive(n: nat)
    requires
        n > 0,
    ensures
        whole_double(n) > 0,
{
    if n >= two_to(53) {
        lemma_two_to_values();
        let order = binary_order(n);
        lemma_binary_order(n);
        if order < 53 {
            lemma_two_to_monotonic(order, 52);
        }
        let unit = two_to((order - 52) as nat);
        lemma_two_to_split((order - 52) as nat, 52);
        lemma_two_to_monotonic(0, (order - 52) as nat);
        assert(n / unit >= 1) by (nonlinear_arith)
            requires
                unit * two_to(52) <= n,
                two_to(52) >= 1,
                unit > 0,
        ;
        assert(rounded(n, unit) * unit > 0) by (nonlinear_arith)
            requires
                rounded(n, unit) >= 1,
                unit > 0,
        ;
    }
}

// ---- Laws -----------------------------------------------------------------

/// Rounding goes to a nearest whole number, and from the middle between two to the even
/// one.
pub proof fn law_rounded(n: nat, d: nat)
    requires
        d > 0,
    ensures
        2 * (rounded(n, d) * d) <= 2 * n + d,
        2 * n <= 2 * (rounded(n, d) * d) + d,
        2 * (rounded(n, d) * d) == 2 * n + d || 2 * n == 2 * (rounded(n, d) * d) + d ==> rounded(
            n,
            d,
        ) % 2 == 0,
{
    let q = n / d;
    let r = n % d;
    assert(n == q * d + r && 0 <= r < d) by (nonlinear_arith)
        requires
            q == n / d,
            r == n % d,
            d > 0,
    ;
    assert((q + 1) * d == q * d + d) by (nonlinear_arith);
}

/// Half a number that is rounded goes up: the result is the whole number that is nearest,
/// and the larger of two.
pub proof fn law_nearest(n: nat, d: nat)
    requires
        d > 0,
    ensures
        2 * (nearest((n, d)) * d) <= 2 * n + d,
        2 * n < 2 * (nearest((n, d)) * d) + d,
{
    let q = nearest((n, d));
    let a = 2 * n + d;
    let b = 2 * d;
    assert(q * b <= a && a < q * b + b) by (nonlinear_arith)
        requires
            q == a / b,
            b > 0,
            a >= 0,
    ;
    assert(q * b == 2 * (q * d)) by (nonlinear_arith)
        requires
            b == 2 * d,
    ;
}

/// A whole number below 2 to the power of 53 is a double, and any other is as near to its
/// double as 53 significant bits allow.
pub proof fn law_whole_double(n: nat)
    ensures
        n < 0x20_0000_0000_0000 ==> whole_double(n) == n,
        0x20_0000_0000_0000 * (whole_double(n) - n) <= n,
        0x20_0000_0000_0000 * (n - whole_double(n)) <= n,
{
    lemma_two_to_values();
    if n >= two_to(53) {
        let order = binary_order(n);
        lemma_binary_order(n);
        if order < 53 {
            lemma_two_to_monotonic(order, 52);
        }
        let unit = two_to((order - 52) as nat);
        lemma_two_to_split((order - 52) as nat, 52);
        lemma_two_to_monotonic(0, (order - 52) as nat);
        law_rounded(n, unit);
        assert(0x10_0000_0000_0000 * unit <= n) by (nonlinear_arith)
            requires
                two_to(order) == unit * two_to(52),
                two_to(52) == 0x10_0000_0000_0000,
                two_to(order) <= n,
        ;
    }
}

/// The double of a quotient is as near to it as 53 significant bits allow.
pub proof fn law_quotient_double(n: nat, d: nat)
    requires
        d > 0,
    ensures
        ({
            let q = quotient_double(n, d);
            &&& q.1 > 0
            &&& 0x20_0000_0000_0000 * (q.0 * d - n * q.1) <= n * q.1
            &&& 0x20_0000_0000_0000 * (n * q.1 - q.0 * d) <= n * q.1
        }),
{
    lemma_two_to_values();
    let q = quotient_double(n, d);
    if n == 0 {
        assert(q.0 * d == 0) by (nonlinear_arith)
            requires
                q.0 == 0,
        ;
        assert(n * q.1 == 0) by (nonlinear_arith)
            requires
                n == 0,
        ;
    } else if n < d {
        let k = doublings(n, d);
        lemma_doublings(n, d);
        lemma_two_to_split(52, k);
        lemma_two_to_monotonic(0, 52 + k);
        let unit = two_to(52 + k);
        law_rounded(n * unit, d);
        assert(0x10_0000_0000_0000 * d <= n * unit) by (nonlinear_arith)
            requires
                d <= n * two_to(k),
                unit == 0x10_0000_0000_0000 * two_to(k),
        ;
    } else {
        let w = n / d;
        assert(w * d <= n && w >= 1) by (nonlinear_arith)
            requires
                w == n / d,
                n >= d,
                d > 0,
        ;
        let order = binary_order(w);
        lemma_binary_order(w);
        if order <= 52 {
            let unit = two_to((52 - order) as nat);
            lemma_two_to_split(order, (52 - order) as nat);
            lemma_two_to_monotonic(0, (52 - order) as nat);
            law_rounded(n * unit, d);
            assert(0x10_0000_0000_0000 * d <= n * unit) by (nonlinear_arith)
                requires
                    two_to(order) * unit == 0x10_0000_0000_0000,
                    two_to(order) <= w,
                    w * d <= n,
                    unit > 0,
                    d > 0,
            ;
        } else {
            let unit = two_to((order - 52) as nat);
            lemma_two_to_split((order - 52) as nat, 52);
            lemma_two_to_monotonic(0, (order - 52) as nat);
            assert(d * unit > 0) by (nonlinear_arith)
                requires
                    d > 0,
                    unit > 0,
            ;
            law_rounded(n, d * unit);
            let r = rounded(n, d * unit);
            assert(r * unit * d == r * (d * unit)) by (nonlinear_arith);
            assert(n * 1 == n) by (nonlinear_arith);
            assert(0x10_0000_0000_0000 * (d * unit) <= n) by (nonlinear_arith)
                requires
                    two_to(order) == unit * 0x10_0000_0000_0000,
                    two_to(order) <= w,
                    w * d <= n,
                    d > 0,
            ;
        }
    }
}

/// The number with so many decimals, as it is shown.
pub open spec fn hundredths(n: nat) -> Seq<char> {
    crate::text::decimal_of(n / 100) + "."@ + crate::text::decimal_of((n / 10) % 10)
        + crate::text::decimal_of(n % 10) + "s"@
}

/// The number with so many decimals, as it is shown.
pub open spec fn tenths(n: nat) -> Seq<char> {
    crate::text::decimal_of(n / 10) + "."@ + crate::text::decimal_of(n % 10) + "s"@
}

/// A duration below a second is shown in milliseconds, as it is. From a second on it is
/// shown in seconds, with one or two decimals, and no duration is shown by more than half
/// of the last decimal too long or too short.
pub proof fn law_duration(ms: nat)
    ensures
        forall|decimals: nat|
            ms < 1000 ==> #[trigger] duration_text(ms, decimals) == crate::text::decimal_of(ms)
                + "ms"@,
        1000 <= ms < 0x20_0000_0000_0000 ==> exists|n: nat| #[trigger]
            hundredths(n) == duration_text(ms, 2) && ms - 5 <= 10 * n <= ms + 5,
        1000 <= ms < 0x20_0000_0000_0000 ==> exists|n: nat| #[trigger]
            tenths(n) == duration_text(ms, 1) && ms - 50 <= 100 * n <= ms + 50,
{
    if 1000 <= ms < 0x20_0000_0000_0000 {
        law_whole_double(ms);
        law_quotient_double(ms, 1000);
        let f = seconds_double(ms);
        let a = rounded(f.0 * 100, f.1);
        let b = rounded(f.0 * 10, f.1);
        law_rounded(f.0 * 100, f.1);
        law_rounded(f.0 * 10, f.1);
        let x = f.0 as int;
        let y = f.1 as int;
        let m = ms as int;
        assert(m - 5 <= 10 * a <= m + 5) by (nonlinear_arith)
            requires
                y > 0,
                0 < m < 0x20_0000_0000_0000,
                2 * (a * y) <= 2 * (x * 100) + y,
                2 * (x * 100) <= 2 * (a * y) + y,
                0x20_0000_0000_0000 * (x * 1000 - m * y) <= m * y,
                0x20_0000_0000_0000 * (m * y - x * 1000) <= m * y,
        ;
        assert(m - 50 <= 100 * b <= m + 50) by (nonlinear_arith)
            requires
                y > 0,
                0 < m < 0x20_0000_0000_0000,
                2 * (b * y) <= 2 * (x * 10) + y,
                2 * (x * 10) <= 2 * (b * y) + y,
                0x20_0000_0000_0000 * (x * 1000 - m * y) <= m * y,
                0x20_0000_0000_0000 * (m * y - x * 1000) <= m * y,
        ;
        assert(hundredths(a) =~= duration_text(ms, 2));
        assert(tenths(b) =~= duration_text(ms, 1));
    }
}

/// The bits of a double of at most 1.0: behind the exponent stand 52 bits of the
/// significand, and a bit more stands before them unless the exponent is 0.
pub proof fn law_bits(exponent: nat, fraction: nat)
    requires
        exponent <= 1023,
        fraction < 0x10_0000_0000_0000,
    ensures
        ({
            let bits = (exponent * 0x10_0000_0000_0000 + fraction) as u64;
            &&& exponent == 0 ==> significand(bits) == fraction && scale(bits) == 1074
            &&& exponent > 0 ==> significand(bits) == fraction + 0x10_0000_0000_0000 && scale(bits)
                == 1075 - exponent
        }),
{
}

/// A share of at most 1.0 comes to no more parts than there are, and to the number of
/// parts that is nearest, as far as 53 significant bits tell; none of it comes to none, and
/// all of it to all.
pub proof fn law_parts(share: u64, parts: nat)
    requires
        share <= 0x3ff0_0000_0000_0000,
        1 <= parts <= 100,
    ensures
        parts_of(share, parts) <= parts,
        ({
            let whole = two_to(scale(share));
            let off = parts_of(share, parts) * whole - significand(share) * parts;
            &&& 2 * (0x20_0000_0000_0000 * off) <= 0x20_0000_0000_0000 * whole + 2 * (parts * whole)
            &&& -(2 * (0x20_0000_0000_0000 * off)) <= 0x20_0000_0000_0000 * whole + 2 * (parts
                * whole)
        }),
{
    lemma_share(share);
    lemma_share_bound(share, parts);
    let whole = two_to(scale(share));
    let m = significand(share);
    let p = m * parts;
    law_whole_double(p);
    let r = whole_double(p);
    law_nearest(r, whole);
    let n = parts_of(share, parts);
    assert(p <= parts * whole) by (nonlinear_arith)
        requires
            p == m * parts,
            m <= whole,
    ;
    assert(n <= parts) by (nonlinear_arith)
        requires
            2 * (n * whole) <= 2 * r + whole,
            r <= parts * whole,
            whole > 0,
    ;
}

/// A share of at most 1.0 is at most 100 percent, and the number of percent that is
/// nearest, as far as 53 significant bits tell.
pub proof fn law_percent(share: u64)
    requires
        share <= 0x3ff0_0000_0000_0000,
    ensures
        even_percent(share) <= 100,
        ({
            let whole = two_to(scale(share));
            let off = even_percent(share) * whole - significand(share) * 100;
            &&& 2 * (0x20_0000_0000_0000 * off) <= 0x20_0000_0000_0000 * whole + 200 * whole
            &&& -(2 * (0x20_0000_0000_0000 * off)) <= 0x20_0000_0000_0000 * whole + 200 * whole
        }),
{
    lemma_share(share);
    lemma_share_bound(share, 100);
    let whole = two_to(scale(share));
    let p = significand(share) * 100;
    law_whole_double(p);
    law_rounded(whole_double(p), whole);
    lemma_rounded_bound(whole_double(p), whole, 100);
}

/// Nothing comes to no part, and everything to all of them.
pub proof fn law_all_or_nothing(parts: nat)
    requires
        1 <= parts <= 100,
    ensures
        parts_of(0, parts) == 0,
        parts_of(0x3ff0_0000_0000_0000, parts) == parts,
        even_percent(0) == 0,
        even_percent(0x3ff0_0000_0000_0000) == 100,
{
    lemma_two_to_values();
    lemma_two_to_monotonic(0, 1074);
    let w = two_to(1074);
    assert(0 * parts == 0 && 0nat * 100 == 0) by (nonlinear_arith);
    assert(significand(0) == 0);
    assert(w / (2 * w) == 0) by (nonlinear_arith)
        requires
            w > 0,
    ;
    assert(0nat / w == 0 && 0nat % w == 0) by (nonlinear_arith)
        requires
            w > 0,
    ;
    let one = 0x3ff0_0000_0000_0000u64;
    let m = 0x10_0000_0000_0000nat;
    assert(significand(one) == m && scale(one) == 52);
    let p = m * parts;
    assert(m <= p <= 100 * m) by (nonlinear_arith)
        requires
            p == m * parts,
            1 <= parts <= 100,
            m == 0x10_0000_0000_0000,
    ;
    lemma_exact(parts);
    lemma_exact(100);
    assert((2 * (m * parts) + m) / (2 * m) == parts) by (nonlinear_arith)
        requires
            m == 0x10_0000_0000_0000,
    ;
}

/// A small multiple of 2 to the power of 52 is a double.
proof fn lemma_exact(parts: nat)
    requires
        1 <= parts <= 100,
    ensures
        whole_double(0x10_0000_0000_0000 * parts) == 0x10_0000_0000_0000 * parts,
{
    lemma_two_to_values();
    let p = 0x10_0000_0000_0000 * parts;
    if p >= two_to(53) {
        let order = binary_order(p);
        lemma_binary_order(p);
        if order < 53 {
            lemma_two_to_monotonic(order, 52);
        }
        assert(two_to(60) == 0x1000_0000_0000_0000) by {
            reveal_with_fuel(two_to, 9);
        }
        lemma_binary_order_below(p, 60);
        let e = (order - 52) as nat;
        let unit = two_to(e);
        lemma_two_to_split(e, (52 - e) as nat);
        lemma_two_to_monotonic(0, e);
        let f = two_to((52 - e) as nat) * parts;
        assert(p == f * unit) by (nonlinear_arith)
            requires
                p == 0x10_0000_0000_0000 * parts,
                0x10_0000_0000_0000 == unit * two_to((52 - e) as nat),
                f == two_to((52 - e) as nat) * parts,
        ;
        assert(p / unit == f && p % unit == 0) by (nonlinear_arith)
            requires
                p == f * unit,
                unit > 0,
        ;
    }
}

/// Of the parts of a progress as many are done as the share of the files that are done,
/// give or take less than one part.
pub proof fn law_progress(current: nat, total: nat, parts: nat)
    requires
        current <= total < 0x20_0000_0000_0000,
        total > 0,
        1 <= parts <= 0x1_0000,
    ensures
        progress_parts(current, total, parts) * total < current * parts + total,
        current * parts < progress_parts(current, total, parts) * total + total,
        current == 0 ==> progress_parts(current, total, parts) == 0,
{
    law_whole_double(current);
    law_whole_double(total);
    law_quotient_double(current, total);
    let q = quotient_double(current, total);
    let w = q.0 * parts;
    law_whole_double(w);
    let p = whole_double(w);
    law_nearest(p, q.1);
    let n = progress_parts(current, total, parts);
    let big = 0x20_0000_0000_0000int;
    let y = q.1 as int;
    let t = total as int;
    let c = current as int;
    let k = parts as int;
    let x = q.0 as int;
    // `x * t` is close to `c * y`, and not above `y * t` by more than a little
    assert(x * t <= 2 * (y * t)) by (nonlinear_arith)
        requires
            big == 0x20_0000_0000_0000,
            big * (x * t - c * y) <= c * y,
            0 <= c <= t,
            y > 0,
    ;
    assert(x <= 2 * y) by (nonlinear_arith)
        requires
            x * t <= 2 * (y * t),
            t > 0,
    ;
    assert(w <= 0x2_0000 * y) by (nonlinear_arith)
        requires
            w == x * k,
            x <= 2 * y,
            0 < k <= 0x1_0000,
            y > 0,
    ;
    // how far the part is off, in parts of `y`
    let near = 2 * (n * y) - 2 * w;
    assert(big * near <= big * y + 0x4_0000 * y);
    assert(-(big * near) <= big * y + 0x4_0000 * y);
    let a = n * t - c * k;
    let d = x * t - c * y;
    assert(near * t == 2 * ((n * y) * t) - 2 * (w * t)) by (nonlinear_arith)
        requires
            near == 2 * (n * y) - 2 * w,
    ;
    assert((n * y) * t == (n * t) * y) by (nonlinear_arith);
    assert(w * t == k * (x * t)) by (nonlinear_arith)
        requires
            w == x * k,
    ;
    assert(k * d == k * (x * t) - k * (c * y)) by (nonlinear_arith)
        requires
            d == x * t - c * y,
    ;
    assert((c * k) * y == k * (c * y)) by (nonlinear_arith);
    assert(a * (2 * y) == 2 * ((n * t) * y) - 2 * ((c * k) * y)) by (nonlinear_arith)
        requires
            a == n * t - c * k,
    ;
    assert(big * (k * d) <= 0x1_0000 * (y * t) && -(big * (k * d)) <= 0x1_0000 * (y * t))
        by (nonlinear_arith)
        requires
            big == 0x20_0000_0000_0000,
            big * d <= c * y,
            -(big * d) <= c * y,
            0 <= c <= t,
            y > 0,
            0 < k <= 0x1_0000,
    ;
    assert(big * (near * t) <= (big + 0x4_0000) * (y * t)) by (nonlinear_arith)
        requires
            big * near <= big * y + 0x4_0000 * y,
            t > 0,
    ;
    assert(-(big * (near * t)) <= (big + 0x4_0000) * (y * t)) by (nonlinear_arith)
        requires
            -(big * near) <= big * y + 0x4_0000 * y,
            t > 0,
    ;
    assert(big * (a * (2 * y)) <= (big + 0x6_0000) * (y * t)) by (nonlinear_arith)
        requires
            a * (2 * y) == near * t + 2 * (k * d),
            big * (k * d) <= 0x1_0000 * (y * t),
            big * (near * t) <= (big + 0x4_0000) * (y * t),
    ;
    assert(-(big * (a * (2 * y))) <= (big + 0x6_0000) * (y * t)) by (nonlinear_arith)
        requires
            a * (2 * y) == near * t + 2 * (k * d),
            -(big * (k * d)) <= 0x1_0000 * (y * t),
            -(big * (near * t)) <= (big + 0x4_0000) * (y * t),
    ;
    assert(a < t) by (nonlinear_arith)
        requires
            big == 0x20_0000_0000_0000,
            big * (a * (2 * y)) <= (big + 0x6_0000) * (y * t),
            y > 0,
            t > 0,
    ;
    assert(-a < t) by (nonlinear_arith)
        requires
            big == 0x20_0000_0000_0000,
            -(big * (a * (2 * y))) <= (big + 0x6_0000) * (y * t),
            y > 0,
            t > 0,
    ;
    if current == 0 {
        assert(c * k == 0) by (nonlinear_arith)
            requires
                c == 0,
        ;
        assert(n == 0) by (nonlinear_arith)
            requires
                n * t < t,
                t > 0,
                n >= 0,
        ;
    }
}

} // verus!
