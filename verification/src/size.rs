//! Sizes in words: a number of bytes as a text with two decimals and a unit.
//!
//! The text is the one that formatting the size as a double-precision
//! number gives. So the number of bytes is first rounded to 53 significant
//! bits, as a double holds it, and then scaled by powers of 1024, which a
//! double does without loss. All of it is done in whole numbers.

use crate::text::{decimal, digit, digit_char, push_char, push_decimal};
use vstd::arithmetic::div_mod::{lemma_div_denominator, lemma_fundamental_div_mod};
use vstd::prelude::*;

verus! {

/// `n / d`, rounded to the nearest whole number, and to the even one where
/// two are equally near.
pub open spec fn round_half_even(n: nat, d: nat) -> nat
    recommends
        d > 0,
{
    let q = n / d;
    let r = n % d;
    if 2 * r > d || (2 * r == d && q % 2 == 1) {
        q + 1
    } else {
        q
    }
}

/// The distance between neighbouring doubles at `n`: the power of two by
/// which `n` exceeds 53 bits.
pub open spec fn double_step(n: nat) -> nat
    decreases n,
{
    if n < 0x20_0000_0000_0000 {
        1
    } else {
        2 * double_step(n / 2)
    }
}

/// The whole number that a double holds for `n`.
pub open spec fn as_double(n: nat) -> nat {
    round_half_even(n, double_step(n)) * double_step(n)
}

/// The place of the unit in which a size is given: the first of bytes,
/// kilobytes, megabytes and gigabytes in which it stays below 1024, and
/// terabytes for anything larger.
pub open spec fn unit_index(size: nat) -> nat {
    if size < 0x400 {
        0
    } else if size < 0x10_0000 {
        1
    } else if size < 0x4000_0000 {
        2
    } else if size < 0x100_0000_0000 {
        3
    } else {
        4
    }
}

/// The number of bytes in one unit.
pub open spec fn unit_scale(unit: nat) -> nat {
    if unit == 0 {
        1
    } else if unit == 1 {
        0x400
    } else if unit == 2 {
        0x10_0000
    } else if unit == 3 {
        0x4000_0000
    } else {
        0x100_0000_0000
    }
}

/// The name of a unit.
pub open spec fn unit_name(unit: nat) -> Seq<char> {
    if unit == 0 {
        "B"@
    } else if unit == 1 {
        "KB"@
    } else if unit == 2 {
        "MB"@
    } else if unit == 3 {
        "GB"@
    } else {
        "TB"@
    }
}

/// The size in hundredths of its unit.
pub open spec fn hundredths(bytes: nat) -> nat {
    let size = as_double(bytes);
    round_half_even(size * 100, unit_scale(unit_index(size)))
}

/// The text for a size of `bytes` bytes: the whole part, a point, two
/// decimals, a blank and the unit.
pub open spec fn file_size_text(bytes: nat) -> Seq<char> {
    let h = hundredths(bytes);
    decimal(h / 100) + seq!['.', digit(h / 10 % 10), digit(h % 10), ' '] + unit_name(
        unit_index(as_double(bytes)),
    )
}

fn divide_half_even(n: u128, d: u128) -> (q: u128)
    requires
        d > 0,
        n < u128::MAX,
    ensures
        q == round_half_even(n as nat, d as nat),
        q <= n / d + 1,
{
    let q = n / d;
    let r = n % d;
    assert(q <= n) by (nonlinear_arith)
        requires
            q == n / d,
            d > 0,
    ;
    if r > d - r || (r == d - r && q % 2 == 1) {
        q + 1
    } else {
        q
    }
}

fn double_of(bytes: u64) -> (size: u128)
    ensures
        size == as_double(bytes as nat),
        size < 0x2_0000_0000_0000_0000,
{
    let mut step: u64 = 1;
    let mut rest: u64 = bytes;
    while rest >= 0x20_0000_0000_0000
        invariant
            1 <= step < 0x1000,
            rest == bytes / step,
            double_step(bytes as nat) == step * double_step(rest as nat),
        decreases rest,
    {
        proof {
            lemma_div_denominator(bytes as int, step as int, 2);
            lemma_fundamental_div_mod(bytes as int, step as int);
            assert(rest * step <= bytes) by (nonlinear_arith)
                requires
                    bytes == step * rest + (bytes % step),
                    bytes % step >= 0,
            ;
            assert(step < 0x800) by (nonlinear_arith)
                requires
                    rest * step <= bytes,
                    rest >= 0x20_0000_0000_0000,
                    bytes <= 0xffff_ffff_ffff_ffff,
                    1 <= step,
            ;
            assert(step * (2 * double_step((rest / 2) as nat)) == (step * 2) * double_step(
                (rest / 2) as nat,
            )) by (nonlinear_arith);
        }
        rest = rest / 2;
        step = step * 2;
    }
    assert(double_step(rest as nat) == 1);
    assert(double_step(bytes as nat) == step) by (nonlinear_arith)
        requires
            double_step(bytes as nat) == step * double_step(rest as nat),
            double_step(rest as nat) == 1,
    ;
    let q = divide_half_even(bytes as u128, step as u128);
    assert(q * step < 0x2_0000_0000_0000_0000) by (nonlinear_arith)
        requires
            q <= rest + 1,
            rest < 0x20_0000_0000_0000,
            1 <= step < 0x1000,
    ;
    q * (step as u128)
}

/// The text for a size of `bytes` bytes, such as `1.50 KB`.
pub fn format_file_size(bytes: u64) -> (text: String)
    ensures
        text@ == file_size_text(bytes as nat),
{
    let size = double_of(bytes);
    let mut text = String::new();
    let unit: u8 = if size < 0x400 {
        0
    } else if size < 0x10_0000 {
        1
    } else if size < 0x4000_0000 {
        2
    } else if size < 0x100_0000_0000 {
        3
    } else {
        4
    };
    let scale: u128 = if unit == 0 {
        1
    } else if unit == 1 {
        0x400
    } else if unit == 2 {
        0x10_0000
    } else if unit == 3 {
        0x4000_0000
    } else {
        0x100_0000_0000
    };
    let h = divide_half_even(size * 100, scale);
    assert(h <= 0xffff_ffff_ffff_ffff);
    push_decimal(&mut text, (h / 100) as u64);
    push_char(&mut text, '.');
    push_char(&mut text, digit_char((h / 10 % 10) as u8));
    push_char(&mut text, digit_char((h % 10) as u8));
    push_char(&mut text, ' ');
    if unit == 0 {
        text.append("B");
    } else if unit == 1 {
        text.append("KB");
    } else if unit == 2 {
        text.append("MB");
    } else if unit == 3 {
        text.append("GB");
    } else {
        text.append("TB");
    }
    assert(text@ =~= file_size_text(bytes as nat));
    text
}

} // verus!
