//! Sizes in bytes as people read them.

use vstd::arithmetic::power2;
use vstd::prelude::*;

use crate::strings;
use crate::text;

verus! {

/// The whole numbers below this one have a double-precision value of their own.
pub const EXACT_DOUBLES: u64 = 9007199254740992;

pub const KIB: u64 = 1024;

pub const MIB: u64 = 1048576;

pub const GIB: u64 = 1073741824;

/// `a / b` rounded to the nearest whole number, halves to the even one.
pub open spec fn nearest_even(a: nat, b: nat) -> nat {
    if 2 * (a % b) > b || (2 * (a % b) == b && (a / b) % 2 == 1) {
        a / b + 1
    } else {
        a / b
    }
}

/// How many low bits of `n` a double-precision number has no room for.
pub open spec fn excess_bits(n: nat) -> nat
    decreases n,
{
    if n < EXACT_DOUBLES {
        0
    } else {
        1 + excess_bits(n / 2)
    }
}

/// The double-precision number nearest to `n`, which is whole.
pub open spec fn nearest_double(n: nat) -> nat {
    nearest_even(n, power2::pow2(excess_bits(n))) * power2::pow2(excess_bits(n))
}

/// `n / unit` with one decimal.
pub open spec fn one_decimal(n: nat, unit: nat) -> Seq<char> {
    let tenths = nearest_even(n * 10, unit);
    text::decimal(tenths / 10) + "."@ + text::decimal(tenths % 10)
}

/// The size as it is shown: in the largest unit that it reaches, with one decimal, or in bytes.
pub open spec fn size_text(bytes: nat) -> Seq<char> {
    let n = nearest_double(bytes);
    if n >= GIB {
        one_decimal(n, GIB as nat) + " GiB"@
    } else if n >= MIB {
        one_decimal(n, MIB as nat) + " MiB"@
    } else if n >= KIB {
        one_decimal(n, KIB as nat) + " KiB"@
    } else {
        text::decimal(bytes) + " B"@
    }
}

fn rounded(a: u128, b: u128) -> (r: u128)
    requires
        0 < b <= 0x1_0000_0000,
        a < 0x1_0000_0000_0000_0000_0000,
    ensures
        r == nearest_even(a as nat, b as nat),
        r <= a / b + 1,
{
    let q: u128 = a / b;
    let rest: u128 = a % b;
    if 2 * rest > b || (2 * rest == b && q % 2 == 1) {
        assert(q <= a) by (nonlinear_arith)
            requires
                q == a / b,
                b > 0,
                a >= 0,
        ;
        q + 1
    } else {
        q
    }
}

/// The double-precision number nearest to `bytes`.
fn as_double(bytes: u64) -> (r: u128)
    ensures
        r == nearest_double(bytes as nat),
        r <= 0x1_0000_0000_0000_1000,
{
    let mut rest: u64 = bytes;
    let mut unit: u128 = 1;
    let ghost mut shift: nat = 0;
    proof {
        power2::lemma2_to64();
    }
    while rest >= EXACT_DOUBLES
        invariant
            excess_bits(bytes as nat) == shift + excess_bits(rest as nat),
            unit == power2::pow2(shift),
            rest * unit <= bytes,
            1 <= unit <= 0x1000,
            rest >= 0,
        decreases rest,
    {
        proof {
            assert(unit <= 2047) by (nonlinear_arith)
                requires
                    rest * unit <= bytes,
                    rest >= 9007199254740992,
                    bytes <= 0xffff_ffff_ffff_ffff,
            ;
            assert((rest / 2) * (unit * 2) <= rest * unit) by (nonlinear_arith)
                requires
                    rest >= 0,
                    unit >= 0,
            ;
            power2::lemma_pow2_unfold((shift + 1) as nat);
            shift = shift + 1;
        }
        rest = rest / 2;
        unit = unit * 2;
    }
    let whole: u128 = rounded(bytes as u128, unit);
    proof {
        let q = bytes as int / unit as int;
        assert(q * unit <= bytes) by (nonlinear_arith)
            requires
                q == bytes as int / unit as int,
                unit >= 1,
        ;
        assert(whole * unit <= bytes + unit) by (nonlinear_arith)
            requires
                whole <= q + 1,
                q * unit <= bytes,
                unit >= 1,
        ;
    }
    whole * unit
}

fn with_one_decimal(n: u128, unit: u64) -> (r: String)
    requires
        n <= 0x1_0000_0000_0000_1000,
        unit >= 1024,
        unit <= 0x4000_0000,
    ensures
        r@ == one_decimal(n as nat, unit as nat),
{
    let tenths: u128 = rounded(n * 10, unit as u128);
    proof {
        let q = (n * 10) as int / unit as int;
        assert(q <= 0x1_0000_0000_0000_0000) by (nonlinear_arith)
            requires
                q == (n * 10) as int / unit as int,
                unit >= 1024,
                n <= 0x1_0000_0000_0000_1000,
        ;
        assert(q * 1024 <= n * 10) by (nonlinear_arith)
            requires
                q == (n * 10) as int / unit as int,
                unit >= 1024,
                n >= 0,
        ;
    }
    let mut out: String = strings::decimal_string((tenths / 10) as u64);
    out.append(".");
    out.append(strings::decimal_string((tenths % 10) as u64).as_str());
    out
}

/// The size of `bytes` as it is shown.
pub fn format_bytes(bytes: u64) -> (r: String)
    ensures
        r@ == size_text(bytes as nat),
{
    let n: u128 = as_double(bytes);
    if n >= GIB as u128 {
        let mut out: String = with_one_decimal(n, GIB);
        out.append(" GiB");
        out
    } else if n >= MIB as u128 {
        let mut out: String = with_one_decimal(n, MIB);
        out.append(" MiB");
        out
    } else if n >= KIB as u128 {
        let mut out: String = with_one_decimal(n, KIB);
        out.append(" KiB");
        out
    } else {
        let mut out: String = strings::decimal_string(bytes);
        out.append(" B");
        out
    }
}

/// A size of so many whole units, from one to one below the next unit, is shown as that number with
/// the unit behind it; a size below a KiB is shown in bytes.
pub proof fn whole_units_are_shown_as_they_are(k: nat)
    requires
        k < 1024,
    ensures
        size_text(k) == text::decimal(k) + " B"@,
        k > 0 ==> size_text(k * 1024) == text::decimal(k) + "."@ + text::decimal(0) + " KiB"@,
        k > 0 ==> size_text(k * 1024 * 1024) == text::decimal(k) + "."@ + text::decimal(0)
            + " MiB"@,
        k > 0 ==> size_text(k * 1024 * 1024 * 1024) == text::decimal(k) + "."@ + text::decimal(0)
            + " GiB"@,
{
    lemma_small_is_exact(k);
    lemma_small_is_exact(k * 1024);
    lemma_small_is_exact(k * 1024 * 1024);
    lemma_small_is_exact(k * 1024 * 1024 * 1024);
    lemma_whole(k, 1024);
    lemma_whole(k, 1048576);
    lemma_whole(k, 1073741824);
    assert(k * 1024 * 1024 == k * 1048576);
    assert(k * 1024 * 1024 * 1024 == k * 1073741824);
}

proof fn lemma_small_is_exact(n: nat)
    requires
        n < EXACT_DOUBLES,
    ensures
        nearest_double(n) == n,
{
    power2::lemma2_to64();
    assert(excess_bits(n) == 0);
    assert(power2::pow2(0) == 1);
    assert(n / 1 == n && n % 1 == 0);
    assert(nearest_even(n, 1) == n);
    assert(n * 1 == n);
}

proof fn lemma_whole(k: nat, unit: nat)
    requires
        0 < unit,
    ensures
        one_decimal(k * unit, unit) == text::decimal(k) + "."@ + text::decimal(0),
{
    let a = k * unit * 10;
    assert(a == (k * 10) * unit) by (nonlinear_arith)
        requires
            a == k * unit * 10,
    ;
    vstd::arithmetic::div_mod::lemma_div_multiples_vanish((k * 10) as int, unit as int);
    assert(a / unit == k * 10 && a % unit == 0) by (nonlinear_arith)
        requires
            a == (k * 10) * unit,
            unit > 0,
    ;
}

/// The number shown is the nearest tenth of the unit: no tenth lies closer to the size.
pub proof fn a_size_is_rounded_to_the_nearest_tenth(n: nat, unit: nat)
    requires
        0 < unit,
    ensures
        ({
            let tenths = nearest_even(n * 10, unit) as int;
            &&& one_decimal(n, unit) == text::decimal((tenths / 10) as nat) + "."@ + text::decimal(
                (tenths % 10) as nat,
            )
            &&& -(unit as int) <= 2 * (tenths * unit - n * 10) <= unit
        }),
{
    let a = (n * 10) as int;
    let b = unit as int;
    vstd::arithmetic::div_mod::lemma_fundamental_div_mod(a, b);
    let (q, r) = (a / b, a % b);
    assert(q * b == a - r && (q + 1) * b == a - r + b) by (nonlinear_arith)
        requires
            a == b * q + r,
    ;
}

/// A size is shown in the largest unit that it reaches.
pub proof fn a_size_is_shown_in_the_largest_unit_it_reaches(n: nat)
    requires
        n < EXACT_DOUBLES,
    ensures
        n < 1024 ==> size_text(n) == text::decimal(n) + " B"@,
        1024 <= n < 1024 * 1024 ==> size_text(n) == one_decimal(n, 1024) + " KiB"@,
        1024 * 1024 <= n < 1024 * 1024 * 1024 ==> size_text(n) == one_decimal(n, 1048576) + " MiB"@,
        1024 * 1024 * 1024 <= n ==> size_text(n) == one_decimal(n, 1073741824) + " GiB"@,
{
    lemma_small_is_exact(n);
}

} // verus!
