//! Sizes in bytes, written for a reader.
use crate::text::{decimal, decimal_text, digit, push_decimal};
use vstd::prelude::*;
use vstd::string::StringExecFns;

verus! {

/// One kilobyte, in bytes.
pub const KB: u64 = 1024;

/// One megabyte, in bytes.
pub const MB: u64 = 1024 * 1024;

/// One gigabyte, in bytes.
pub const GB: u64 = 1024 * 1024 * 1024;

/// Below this every integer is a double.
pub const DOUBLE_EXACT: u64 = 9007199254740992;

/// The integer nearest to `a / b`; halfway between two, the even one.
pub open spec fn round_half_even(a: nat, b: nat) -> nat
    recommends
        b > 0,
{
    let quotient = a / b;
    let rest = a % b;
    if 2 * rest < b || (2 * rest == b && quotient % 2 == 0) {
        quotient
    } else {
        quotient + 1
    }
}

/// How far apart the double-precision numbers of the size of `n` are (at least one).
pub open spec fn double_spacing(n: nat) -> nat
    decreases n,
{
    if n < DOUBLE_EXACT {
        1
    } else {
        2 * double_spacing(n / 2)
    }
}

/// `n` as a double-precision number: the nearest one, ties to the even mantissa.
pub open spec fn as_double(n: nat) -> nat {
    round_half_even(n, double_spacing(n)) * double_spacing(n)
}

/// The unit in which a size of `n` bytes is written, in bytes.
pub open spec fn unit_bytes(n: nat) -> nat {
    if n < KB {
        1
    } else if n < MB {
        KB as nat
    } else if n < GB {
        MB as nat
    } else {
        GB as nat
    }
}

/// The unit in which a size of `n` bytes is written, as a word.
pub open spec fn unit_name(n: nat) -> Seq<char> {
    if n < KB {
        "B"@
    } else if n < MB {
        "KB"@
    } else if n < GB {
        "MB"@
    } else {
        "GB"@
    }
}

/// A size of `n` bytes in tenths of its unit.
pub open spec fn size_tenths(n: nat) -> nat {
    round_half_even(10 * as_double(n), unit_bytes(n))
}

/// A size of `n` bytes in words: bytes as they are, larger sizes with one decimal.
pub open spec fn size_text(n: nat) -> Seq<char> {
    if n < KB {
        decimal(n) + " "@ + unit_name(n)
    } else {
        decimal(size_tenths(n) / 10) + "."@ + seq![digit(size_tenths(n) % 10)] + " "@
            + unit_name(n)
    }
}

/// Sizes below 2^53 bytes go into the text without any loss but the last rounding.
pub proof fn small_sizes_are_exact(n: nat)
    requires
        n < DOUBLE_EXACT,
    ensures
        as_double(n) == n,
{
    assert(n / 1 == n && n % 1 == 0) by (nonlinear_arith);
    assert(n * 1 == n) by (nonlinear_arith);
}

/// The spacing of the doubles near a number is small beside the number.
proof fn spacing_is_bounded(n: nat)
    ensures
        double_spacing(n) >= 1,
        double_spacing(n) == 1 || double_spacing(n) <= n,
    decreases n,
{
    if n >= DOUBLE_EXACT {
        spacing_is_bounded(n / 2);
    }
}

/// Taking a number to the nearest double at most doubles it.
proof fn double_is_bounded(n: nat)
    ensures
        as_double(n) <= 2 * n,
{
    spacing_is_bounded(n);
    let s = double_spacing(n);
    if s == 1 {
        assert(n / 1 == n && n % 1 == 0) by (nonlinear_arith);
        assert(n * 1 == n) by (nonlinear_arith);
    } else {
        assert((n / s) * s <= n && (n / s + 1) * s <= n + s) by (nonlinear_arith)
            requires
                s > 0,
        ;
    }
}

/// The written size is within a twentieth of its unit of the true one, for every
/// size below 2^53 bytes.
pub proof fn size_text_is_close(n: nat)
    requires
        n < DOUBLE_EXACT,
    ensures
        2 * (size_tenths(n) * unit_bytes(n) - 10 * n) <= unit_bytes(n),
        2 * (10 * n - size_tenths(n) * unit_bytes(n)) <= unit_bytes(n),
{
    small_sizes_are_exact(n);
    let a = 10 * n;
    let b = unit_bytes(n);
    vstd::arithmetic::div_mod::lemma_fundamental_div_mod(a as int, b as int);
    let quotient = a / b;
    assert((quotient + 1) * b == quotient * b + b) by (nonlinear_arith);
    assert(b * quotient == quotient * b) by (nonlinear_arith);
}

/// The spacing of the doubles near `n`.
fn spacing(n: u64) -> (s: u64)
    ensures
        s == double_spacing(n as nat),
        s == 1 || 1 < s <= n / 4503599627370496,
    decreases n,
{
    if n < DOUBLE_EXACT {
        1
    } else {
        2 * spacing(n / 2)
    }
}

/// The integer nearest to `a / b`, ties to even.
fn nearest(a: u128, b: u64) -> (q: u128)
    requires
        b > 0,
        a < 0x1_0000_0000_0000_0000_0000u128,
    ensures
        q == round_half_even(a as nat, b as nat),
        q <= a / (b as u128) + 1,
{
    let quotient: u128 = a / (b as u128);
    let rest: u128 = a % (b as u128);
    if 2 * rest < b as u128 || (2 * rest == b as u128 && quotient % 2 == 0) {
        quotient
    } else {
        quotient + 1
    }
}

/// `n` bytes as a short text, in the largest of bytes, KB, MB and GB that it fills.
///
/// The value shown is the one that double-precision arithmetic with one printed decimal
/// gives, which differs from the exact quotient only from 2^53 bytes on.
pub fn human_size(n: u64) -> (text: String)
    ensures
        text@ == size_text(n as nat),
{
    if n < KB {
        let mut text: String = decimal_text(n);
        text.append(" ");
        text.append("B");
        return text;
    }
    let (unit, name): (u64, &str) = if n < MB {
        (KB, "KB")
    } else if n < GB {
        (MB, "MB")
    } else {
        (GB, "GB")
    };
    let s: u64 = spacing(n);
    let mantissa: u128 = nearest(n as u128, s);
    proof {
        double_is_bounded(n as nat);
    }
    let double: u128 = mantissa * (s as u128);
    let tenths: u128 = nearest(10 * double, unit);
    proof {
        assert(tenths < 0x1_0000_0000_0000_0000) by {
            assert((10 * double) / (unit as int) <= (10 * double) / 1024) by (nonlinear_arith)
                requires
                    unit >= 1024,
                    double >= 0,
            ;
        }
    }
    let mut text: String = String::new();
    push_decimal(&mut text, (tenths / 10) as u64);
    text.append(".");
    push_decimal(&mut text, (tenths % 10) as u64);
    text.append(" ");
    text.append(name);
    text
}

} // verus!
