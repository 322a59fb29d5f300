//! Sizes in a form for people.
//!
//! A size above a kilobyte is shown as the double nearest to it, divided by a
//! power of two and rounded to the digits that are shown. The division is exact,
//! so the digits are those of the exact quotient, ties to the even digit.
use vstd::prelude::*;
use vstd::string::*;
use crate::numbers::u64_to_string;
#[allow(unused_imports)]
use crate::numbers::decimal;
use crate::text::{cat, cat3};

verus! {

/// The integer nearest to a quotient, ties to the even one.
pub open spec fn nearest(n: int, unit: int) -> int {
    let q = n / unit;
    let r = n % unit;
    if 2 * r < unit || (2 * r == unit && q % 2 == 0) {
        q
    } else {
        q + 1
    }
}

/// The distance between neighbouring doubles around an integer, from a power of
/// two on.
pub open spec fn double_step(n: int, unit: int) -> int
    decreases n / unit,
{
    if unit <= 0 || n / unit < 0x20_0000_0000_0000 {
        unit
    } else {
        proof {
            assert(n / (2 * unit) < n / unit) by (nonlinear_arith)
                requires
                    unit > 0,
                    n / unit >= 0x20_0000_0000_0000,
            ;
            assert(n / (2 * unit) >= 0) by (nonlinear_arith)
                requires
                    unit > 0,
                    n / unit >= 0x20_0000_0000_0000,
            ;
        }
        double_step(n, 2 * unit)
    }
}

/// The double nearest to an integer.
pub open spec fn as_double(n: int) -> int {
    nearest(n, double_step(n, 1)) * double_step(n, 1)
}

/// A quotient with one digit behind the point.
pub open spec fn tenths_text(n: int, unit: int) -> Seq<char> {
    let t = nearest(10 * n, unit);
    decimal((t / 10) as nat) + "."@ + decimal((t % 10) as nat)
}

/// A size below a gigabyte.
pub open spec fn small_size_text(bytes: u64) -> Seq<char> {
    if bytes >= 1_000_000 {
        tenths_text(as_double(bytes as int), 1_048_576) + " MB"@
    } else if bytes >= 1_000 {
        decimal(nearest(bytes as int, 1_024) as nat) + " KB"@
    } else {
        decimal(bytes as nat) + " B"@
    }
}

/// A size.
pub open spec fn size_text(bytes: u64) -> Seq<char> {
    if bytes >= 1_000_000_000 {
        tenths_text(as_double(bytes as int), 1_073_741_824) + " GB"@
    } else {
        small_size_text(bytes)
    }
}

fn round_to(n: u128, unit: u128) -> (r: u128)
    requires
        0 < unit <= 0x1_0000_0000_0000_0000,
        n < 0x1000_0000_0000_0000_0000,
    ensures
        r == nearest(n as int, unit as int),
        r <= n + 1,
{
    let q: u128 = n / unit;
    let rest: u128 = n % unit;
    assert(q <= n) by (nonlinear_arith)
        requires
            q == n / unit,
            unit > 0,
    ;
    if 2 * rest < unit || (2 * rest == unit && q % 2 == 0) {
        q
    } else {
        q + 1
    }
}

/// Rounding to a multiple goes up by at most one of them.
proof fn lemma_nearest(n: int, unit: int)
    requires
        0 <= n,
        0 < unit,
    ensures
        nearest(n, unit) * unit <= n + unit,
        nearest(n, unit) * unit >= 0,
{
    vstd::arithmetic::div_mod::lemma_fundamental_div_mod(n, unit);
    let q = n / unit;
    let r = n % unit;
    assert(q * unit == unit * q) by (nonlinear_arith);
    assert((q + 1) * unit == q * unit + unit) by (nonlinear_arith);
    assert(q >= 0) by (nonlinear_arith)
        requires
            q == n / unit,
            n >= 0,
            unit > 0,
    ;
    assert(q * unit >= 0) by (nonlinear_arith)
        requires
            q >= 0,
            unit > 0,
    ;
}

/// Whether a number is a power of two up to the greatest distance between
/// neighbouring doubles below two to the 64th.
spec fn is_step(unit: u128) -> bool {
    unit == 1 || unit == 2 || unit == 4 || unit == 8 || unit == 16 || unit == 32 || unit == 64
        || unit == 128 || unit == 256 || unit == 512 || unit == 1024 || unit == 2048
}

fn to_double(n: u64) -> (r: u128)
    ensures
        r == as_double(n as int),
        r < 0x2_0000_0000_0000_0000,
{
    let v: u128 = n as u128;
    let mut unit: u128 = 1;
    while v / unit >= 0x20_0000_0000_0000
        invariant
            v == n,
            is_step(unit),
            double_step(n as int, 1) == double_step(n as int, unit as int),
        decreases v / unit,
    {
        assert(unit != 2048);
        assert(v / ((2 * unit) as u128) < v / unit) by (nonlinear_arith)
            requires
                0 < unit <= 1024,
                v / unit >= 0x20_0000_0000_0000,
        ;
        unit = 2 * unit;
    }
    proof {
        lemma_nearest(n as int, unit as int);
    }
    let q: u128 = round_to(v, unit);
    assert(q * unit <= n + unit);
    q * unit
}

fn tenths(n: u128, unit: u64) -> (r: String)
    requires
        n < 0x2_0000_0000_0000_0000,
        1_048_576 <= unit <= 1_073_741_824,
    ensures
        r@ == tenths_text(n as int, unit as int),
{
    let t: u128 = round_to(10 * n, unit as u128);
    proof {
        lemma_nearest((10 * n) as int, unit as int);
        assert(t <= 0x2000_0000_0000_0000) by (nonlinear_arith)
            requires
                t * unit <= 10 * n + unit,
                n < 0x2_0000_0000_0000_0000,
                1_048_576 <= unit <= 1_073_741_824,
        ;
    }
    let whole: u64 = (t / 10) as u64;
    let digit: u64 = (t % 10) as u64;
    cat3(u64_to_string(whole).as_str(), ".", u64_to_string(digit).as_str())
}

/// Human-readable size of an image or a layer.
pub fn format_size(bytes: u64) -> (r: String)
    ensures
        r@ == size_text(bytes),
{
    if bytes >= 1_000_000_000 {
        cat(tenths(to_double(bytes), 1_073_741_824).as_str(), " GB")
    } else {
        format_small(bytes)
    }
}

fn format_small(bytes: u64) -> (r: String)
    ensures
        r@ == small_size_text(bytes),
{
    if bytes >= 1_000_000 {
        cat(tenths(to_double(bytes), 1_048_576).as_str(), " MB")
    } else if bytes >= 1_000 {
        let n: u64 = round_to(bytes as u128, 1_024) as u64;
        cat(u64_to_string(n).as_str(), " KB")
    } else {
        cat(u64_to_string(bytes).as_str(), " B")
    }
}

/// Human-readable file size; the size of a file that could not be looked at is
/// unknown.
pub fn format_file_size(bytes: Option<u64>) -> (r: String)
    ensures
        r@ == match bytes {
            Some(n) => small_size_text(n),
            None => "unknown"@,
        },
{
    match bytes {
        Some(n) => format_small(n),
        None => "unknown".to_owned(),
    }
}

/// Rounding is to the nearest multiple: it is never off by more than half a unit,
/// and a multiple of the unit is not changed.
pub proof fn law_rounding_is_nearest(n: int, unit: int)
    requires
        n >= 0,
        unit > 0,
    ensures
        2 * (nearest(n, unit) * unit - n) <= unit,
        2 * (n - nearest(n, unit) * unit) <= unit,
        n % unit == 0 ==> nearest(n, unit) * unit == n,
{
    let q = n / unit;
    let r = n % unit;
    assert(n == q * unit + r && 0 <= r < unit) by (nonlinear_arith)
        requires
            unit > 0,
            q == n / unit,
            r == n % unit,
    ;
    assert((q + 1) * unit == q * unit + unit) by (nonlinear_arith);
}

/// A size below a thousand is shown in bytes, exactly; whole kibibytes below a
/// million bytes as that many kilobytes.
pub proof fn law_small_sizes_are_exact(bytes: u64, r: String, f: String)
    requires
        call_ensures(format_size, (bytes,), r),
        call_ensures(format_file_size, (Some(bytes),), f),
    ensures
        bytes < 1_000 ==> r@ == decimal(bytes as nat) + " B"@,
        1_000 <= bytes < 1_000_000 && bytes % 1_024 == 0 ==> r@ == decimal(
            (bytes / 1_024) as nat,
        ) + " KB"@,
        bytes < 1_000_000_000 ==> f@ == r@,
{
    if 1_000 <= bytes < 1_000_000 && bytes % 1_024 == 0 {
        assert(nearest(bytes as int, 1_024) == bytes as int / 1_024);
    }
}

/// Sizes are shown rounded: thousands of bytes in whole kilobytes of 1024, millions in
/// tenths of a megabyte and, for images, billions in tenths of a gigabyte; what is shown
/// is off by half a step at most.
pub proof fn law_sizes_are_rounded(bytes: u64, r: String, f: String) -> (t: (nat, nat))
    requires
        call_ensures(format_size, (bytes,), r),
        call_ensures(format_file_size, (Some(bytes),), f),
        bytes < 0x20_0000_0000_0000,
    ensures
        1_000 <= bytes < 1_000_000 ==> r@ == decimal(t.0) + " KB"@ && 2 * (t.0 * 1_024 - bytes)
            <= 1_024 && 2 * (bytes - t.0 * 1_024) <= 1_024,
        1_000_000 <= bytes < 1_000_000_000 ==> r@ == decimal(t.0 / 10) + "."@ + decimal(t.0 % 10)
            + " MB"@ && 2 * (t.0 * 1_048_576 - 10 * bytes) <= 1_048_576 && 2 * (10 * bytes - t.0
            * 1_048_576) <= 1_048_576,
        bytes >= 1_000_000_000 ==> r@ == decimal(t.0 / 10) + "."@ + decimal(t.0 % 10) + " GB"@ && 2
            * (t.0 * 1_073_741_824 - 10 * bytes) <= 1_073_741_824 && 2 * (10 * bytes - t.0
            * 1_073_741_824) <= 1_073_741_824,
        bytes >= 1_000_000 ==> f@ == decimal(t.1 / 10) + "."@ + decimal(t.1 % 10) + " MB"@ && 2 * (
        t.1 * 1_048_576 - 10 * bytes) <= 1_048_576 && 2 * (10 * bytes - t.1 * 1_048_576)
            <= 1_048_576,
{
    let n = bytes as int;
    assert(double_step(n, 1) == 1);
    assert(nearest(n, 1) == n);
    assert(as_double(n) == n);
    let mb = nearest(10 * n, 1_048_576);
    let gb = nearest(10 * n, 1_073_741_824);
    let kb = nearest(n, 1_024);
    law_rounding_is_nearest(10 * n, 1_048_576);
    law_rounding_is_nearest(10 * n, 1_073_741_824);
    law_rounding_is_nearest(n, 1_024);
    let a = if bytes < 1_000_000 {
        kb
    } else if bytes < 1_000_000_000 {
        mb
    } else {
        gb
    };
    (a as nat, mb as nat)
}

} // verus!
