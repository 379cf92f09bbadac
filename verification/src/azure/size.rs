//! A number of bytes for a person.
//!
//! The size is divided down a unit at a time in a binary64, which holds 53
//! bits, and printed to one decimal. What is printed is what those divisions
//! leave, so they are followed bit by bit here: a number is held as a whole
//! number of the binary64's smallest steps above one.

use vstd::prelude::*;

use crate::text::{decimal, number};

verus! {

/// One, in steps: a binary64 between one and two has 52 bits behind the point.
pub const ONE: u128 = 0x10_0000_0000_0000;

/// More steps than any size takes.
const WIDEST: u128 = 0x20_0000_0000_0000_0000_0000_0000_0000;

/// More steps than a size takes that has been divided.
const DIVIDED: u128 = 0x2000_0000_0000_0000_0000_0000_0000;

/// The nearest whole number to a quotient, and the even one of two.
pub open spec fn nearest(n: nat, d: nat) -> nat {
    let q = n / d;
    let r = n % d;
    if 2 * r < d || (2 * r == d && q % 2 == 0) {
        q
    } else {
        q + 1
    }
}

/// How many steps lie between one binary64 and the next, around the quotient
/// of `n` by `d`, where `floor` is `d` ones: twice as many in each doubling.
pub open spec fn grain(n: nat, floor: nat) -> nat
    decreases n - floor,
{
    if floor == 0 || n < 2 * floor {
        1
    } else {
        2 * grain(n, 2 * floor)
    }
}

/// The binary64 nearest to the quotient of `n` by `d`, both in steps.
pub open spec fn rounded(n: nat, d: nat) -> nat {
    let g = grain(n, d * ONE as nat);
    nearest(n, d * g) * g
}

/// A size divided by a thousand as often as there is a unit for it, and which
/// unit that leaves.
pub open spec fn scaled(size: nat, unit: nat) -> (nat, nat)
    decreases 4 - unit,
{
    if size >= 1_000 * ONE as nat && unit < 4 {
        scaled(rounded(size, 1_000), unit + 1)
    } else {
        (size, unit)
    }
}

pub open spec fn unit_text(unit: nat) -> Seq<char> {
    if unit == 1 {
        " kB"@
    } else if unit == 2 {
        " MB"@
    } else if unit == 3 {
        " GB"@
    } else {
        " TB"@
    }
}

/// A number of tenths, as a decimal.
pub open spec fn tenths_text(tenths: nat) -> Seq<char> {
    decimal(tenths / 10) + "."@ + decimal(tenths % 10)
}

/// Bytes in the largest of the units that there is at least one of.
pub open spec fn size_text(bytes: nat) -> Seq<char> {
    let (size, unit) = scaled(rounded(bytes * ONE as nat, 1), 0);
    if unit == 0 {
        decimal(bytes) + " B"@
    } else {
        tenths_text(nearest(10 * size, ONE as nat)) + unit_text(unit)
    }
}

fn nearest_to(n: u128, d: u128) -> (r: u128)
    requires
        0 < d <= WIDEST,
        n <= WIDEST,
    ensures
        r == nearest(n as nat, d as nat),
{
    let q: u128 = n / d;
    let rest: u128 = n % d;
    proof {
        vstd::arithmetic::div_mod::lemma_div_is_ordered_by_denominator(n as int, 1, d as int);
    }
    if 2 * rest < d || (2 * rest == d && q % 2 == 0) {
        q
    } else {
        q + 1
    }
}

fn grain_of(n: u128, floor: u128) -> (r: u128)
    requires
        0 < floor <= n,
    ensures
        r == grain(n as nat, floor as nat),
        r > 0,
        r * floor <= n,
{
    let mut g: u128 = 1;
    let mut f: u128 = floor;
    while n / 2 >= f
        invariant
            0 < floor,
            0 < g,
            0 < f,
            f == g * floor,
            f <= n,
            grain(n as nat, floor as nat) == g * grain(n as nat, f as nat),
        decreases n - f,
    {
        proof {
            let half = f as nat;
            let rest = grain(n as nat, 2 * half);
            assert(n >= 2 * half);
            assert(grain(n as nat, half) == 2 * rest);
            assert(g * (2 * rest) == (2 * g) * rest) by (nonlinear_arith);
            assert(2 * (g * floor) == (2 * g) * floor) by (nonlinear_arith);
            assert(2 * g <= 2 * f) by (nonlinear_arith)
                requires
                    f == g * floor,
                    floor > 0,
                    g > 0,
            ;
        }
        g = 2 * g;
        f = 2 * f;
    }
    proof {
        let last = grain(n as nat, f as nat);
        assert(last == 1);
        assert(g * last == g) by (nonlinear_arith)
            requires
                last == 1,
        ;
    }
    g
}

/// The quotient of a size of at least one per part, as a binary64.
fn divided(n: u128, d: u128) -> (r: u128)
    requires
        0 < d <= 1_000,
        d * ONE <= n <= WIDEST,
    ensures
        r == rounded(n as nat, d as nat),
        r * d <= 2 * n,
{
    let g: u128 = grain_of(n, d * ONE);
    proof {
        lemma_part(n as nat, d as nat, g as nat);
    }
    let q: u128 = nearest_to(n, d * g);
    q * g
}

/// A quotient rounded to its grain is less than twice the quotient.
proof fn lemma_part(n: nat, d: nat, g: nat)
    requires
        0 < d <= 1_000,
        0 < g,
        g * (d * ONE as nat) <= n,
    ensures
        0 < d * g <= n,
        nearest(n, d * g) * g * d <= 2 * n,
        nearest(n, d * g) * g <= 2 * n,
{
    let f = d * g;
    let one = ONE as nat;
    assert(g * (d * one) == f * one) by (nonlinear_arith)
        requires
            f == d * g,
    ;
    assert(0 < f) by (nonlinear_arith)
        requires
            f == d * g,
            0 < d,
            0 < g,
    ;
    assert(f * one >= f * 0x10_0000_0000_0000) by (nonlinear_arith)
        requires
            one == 0x10_0000_0000_0000,
    ;
    let q = nearest(n, f);
    vstd::arithmetic::div_mod::lemma_fundamental_div_mod(n as int, f as int);
    assert((n / f) * f <= n) by (nonlinear_arith)
        requires
            n == f * (n / f) + n % f,
            0 <= n % f,
    ;
    assert(q <= n / f + 1);
    assert(q * f <= (n / f) * f + f) by (nonlinear_arith)
        requires
            q <= n / f + 1,
            0 < f,
    ;
    assert(q * g * d == q * f) by (nonlinear_arith)
        requires
            f == d * g,
    ;
    assert(q * g <= q * g * d) by (nonlinear_arith)
        requires
            0 < d,
            0 <= q,
            0 < g,
    ;
}

proof fn lemma_nothing()
    ensures
        size_text(0) == decimal(0) + " B"@,
{
    let one = ONE as nat;
    let g = grain(0, 1 * one);
    assert(g == 1);
    let q = nearest(0, 1 * g);
    assert(q == 0);
    assert(q * g == 0) by (nonlinear_arith)
        requires
            q == 0,
    ;
    assert(0 * one == 0) by (nonlinear_arith);
    assert(rounded(0, 1) == 0);
    assert(scaled(0, 0) == (0nat, 0nat));
}

/// Bytes as `docker images` prints them: SI units, one decimal.
#[must_use]
pub fn human_size(bytes: u64) -> (r: String)
    ensures
        r@ == size_text(bytes as nat),
{
    if bytes == 0 {
        proof {
            lemma_nothing();
            reveal_strlit("0 B");
            reveal_strlit(" B");
            assert(decimal(0) =~= seq!['0']);
            assert("0 B"@ =~= decimal(0) + " B"@);
        }
        return "0 B".to_owned();
    }
    let whole: u128 = bytes as u128 * ONE;
    let mut size: u128 = divided(whole, 1);
    let mut unit: u8 = 0;
    while size >= 1_000 * ONE && unit < 4
        invariant
            unit <= 4,
            size <= WIDEST,
            unit > 0 ==> size <= DIVIDED,
            scaled(size as nat, unit as nat) == scaled(rounded(bytes as nat * ONE as nat, 1), 0),
        decreases 4 - unit,
    {
        size = divided(size, 1_000);
        unit = unit + 1;
    }
    if unit == 0 {
        let mut text = number(bytes);
        text.push_str(" B");
        return text;
    }
    let tenths: u128 = nearest_to(10 * size, ONE);
    let mut text = number((tenths / 10) as u64);
    text.push_str(".");
    text.push_str(number((tenths % 10) as u64).as_str());
    text.push_str(
        if unit == 1 {
            " kB"
        } else if unit == 2 {
            " MB"
        } else if unit == 3 {
            " GB"
        } else {
            " TB"
        },
    );
    text
}

} // verus!
