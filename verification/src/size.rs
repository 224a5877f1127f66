//! Sizes in bytes, added up and written for people to read.

use vstd::arithmetic::div_mod::lemma_div_denominator;
use vstd::prelude::*;

verus! {

broadcast use vstd::string::group_string_axioms;

pub const KB: u64 = 1024;

pub const MB: u64 = 1048576;

pub const GB: u64 = 1073741824;

/// The whole numbers up to this one are all exact in double precision.
pub const EXACT: u64 = 9007199254740992;

/// The decimal digit of a number below ten.
pub open spec fn digit(n: nat) -> char {
    (('0' as u32 + n) as u32) as char
}

/// A number in decimal.
pub open spec fn decimal_of(n: nat) -> Seq<char>
    decreases n,
{
    if n < 10 {
        seq![digit(n)]
    } else {
        decimal_of(n / 10).push(digit(n % 10))
    }
}

/// The whole number nearest to a fraction, and of two equally near the even one.
pub open spec fn nearest(numerator: nat, denominator: nat) -> nat {
    let quotient = numerator / denominator;
    let remainder = numerator % denominator;
    if 2 * remainder < denominator || (2 * remainder == denominator && quotient % 2 == 0) {
        quotient
    } else {
        quotient + 1
    }
}

/// The distance between neighbouring whole numbers in double precision around `n`.
pub open spec fn double_step(n: nat) -> nat
    decreases n,
{
    if n < EXACT {
        1
    } else {
        2 * double_step(n / 2)
    }
}

/// The double precision number nearest to `n`.
pub open spec fn as_double(n: nat) -> nat {
    nearest(n, double_step(n)) * double_step(n)
}

/// How many tenths of `unit` the bytes are, rounded.
pub open spec fn tenths_of(bytes: nat, unit: nat) -> nat {
    nearest(as_double(bytes) * 10, unit)
}

/// A number of tenths with one decimal place, and a unit.
pub open spec fn with_one_decimal(tenths: nat, unit: Seq<char>) -> Seq<char> {
    decimal_of(tenths / 10) + seq!['.', digit(tenths % 10)] + unit
}

/// A size for people to read: in the largest unit that it reaches, with one decimal place unless
/// that unit is the byte.
pub open spec fn size_text(bytes: nat) -> Seq<char> {
    if bytes >= GB {
        with_one_decimal(tenths_of(bytes, GB as nat), " GB"@)
    } else if bytes >= MB {
        with_one_decimal(tenths_of(bytes, MB as nat), " MB"@)
    } else if bytes >= KB {
        with_one_decimal(tenths_of(bytes, KB as nat), " KB"@)
    } else {
        decimal_of(bytes) + " B"@
    }
}

/// The sizes added up; one that is not known counts for nothing.
pub open spec fn size_sum(sizes: Seq<Option<u64>>) -> nat
    decreases sizes.len(),
{
    if sizes.len() == 0 {
        0
    } else {
        size_sum(sizes.drop_last()) + match sizes.last() {
            Some(size) => size as nat,
            None => 0,
        }
    }
}

fn digit_char(n: u8) -> (r: char)
    requires
        n < 10,
    ensures
        r == digit(n as nat),
{
    (48u8 + n) as char
}

/// A number in decimal.
pub fn decimal(n: u64) -> (r: String)
    ensures
        r@ == decimal_of(n as nat),
    decreases n,
{
    if n < 10 {
        let mut r = String::new();
        r.push(digit_char(n as u8));
        assert(r@ =~= seq![digit(n as nat)]);
        r
    } else {
        let mut r = decimal(n / 10);
        r.push(digit_char((n % 10) as u8));
        r
    }
}

fn nearest_whole(numerator: u128, denominator: u128) -> (r: u128)
    requires
        0 < denominator < 0x1_0000_0000_0000_0000,
        numerator < 0x1_0000_0000_0000_0000_0000_0000,
    ensures
        r == nearest(numerator as nat, denominator as nat),
        r <= numerator / denominator + 1,
        r * denominator <= numerator + denominator,
{
    let quotient: u128 = numerator / denominator;
    let remainder: u128 = numerator % denominator;
    assert(quotient <= numerator && quotient * denominator <= numerator) by (nonlinear_arith)
        requires
            quotient == numerator / denominator,
            denominator > 0,
    ;
    assert((quotient + 1) * denominator == quotient * denominator + denominator)
        by (nonlinear_arith);
    if 2 * remainder < denominator || (2 * remainder == denominator && quotient % 2 == 0) {
        quotient
    } else {
        quotient + 1
    }
}

/// The double precision number nearest to `n`.
fn to_double(n: u64) -> (r: u128)
    ensures
        r == as_double(n as nat),
        r <= 0x1_0000_0000_0000_ffff,
{
    let mut step: u64 = 1;
    while n / step >= EXACT
        invariant
            1 <= step <= 4094,
            double_step(n as nat) == step * double_step((n / step) as nat),
        decreases n / step,
    {
        let ghost quotient = n / step;
        assert(step < 2048) by (nonlinear_arith)
            requires
                quotient == n / step,
                quotient >= 9007199254740992,
                n <= 0xffff_ffff_ffff_ffff,
                step >= 1,
        ;
        proof {
            lemma_div_denominator(n as int, step as int, 2);
        }
        let ghost rest = double_step((n / ((step * 2) as u64)) as nat);
        assert(double_step(quotient as nat) == 2 * rest);
        assert(step * (2 * rest) == (step * 2) * rest) by (nonlinear_arith);
        step = step * 2;
    }
    let ghost rest = double_step((n / step) as nat);
    assert(step * rest == step) by (nonlinear_arith)
        requires
            rest == 1,
    ;
    nearest_whole(n as u128, step as u128) * (step as u128)
}

/// The bytes in `unit`, with one decimal place.
fn one_decimal(bytes: u64, unit: u64, name: &str) -> (r: String)
    requires
        unit >= 1024,
    ensures
        r@ == with_one_decimal(tenths_of(bytes as nat, unit as nat), name@),
{
    let numerator: u128 = to_double(bytes) * 10;
    let tenths: u128 = nearest_whole(numerator, unit as u128);
    let ghost whole = numerator / (unit as u128);
    assert(whole * 1024 <= numerator) by (nonlinear_arith)
        requires
            whole == numerator / (unit as u128),
            unit >= 1024,
    ;
    let mut r = decimal((tenths / 10) as u64);
    r.push('.');
    r.push(digit_char((tenths % 10) as u8));
    r.append(name);
    assert(r@ =~= with_one_decimal(tenths as nat, name@));
    r
}

/// A size for people to read.
pub fn format_size(bytes: u64) -> (r: String)
    ensures
        r@ == size_text(bytes as nat),
{
    if bytes >= GB {
        one_decimal(bytes, GB, " GB")
    } else if bytes >= MB {
        one_decimal(bytes, MB, " MB")
    } else if bytes >= KB {
        one_decimal(bytes, KB, " KB")
    } else {
        let mut r = decimal(bytes);
        r.append(" B");
        r
    }
}

/// The sizes added up, one that is not known counting for nothing; none if the sum does not fit.
pub fn total_size(sizes: &Vec<Option<u64>>) -> (r: Option<u64>)
    ensures
        match r {
            Some(sum) => sum == size_sum(sizes@),
            None => size_sum(sizes@) > u64::MAX,
        },
{
    let mut sum: u64 = 0;
    let mut i: usize = 0;
    while i < sizes.len()
        invariant
            i <= sizes.len(),
            sum == size_sum(sizes@.take(i as int)),
        decreases sizes.len() - i,
    {
        assert(sizes@.take(i + 1).drop_last() =~= sizes@.take(i as int));
        if let Some(size) = sizes[i] {
            match sum.checked_add(size) {
                Some(larger) => {
                    sum = larger;
                },
                None => {
                    proof {
                        size_sum_grows(sizes@, i + 1);
                    }
                    return None;
                },
            }
        }
        i += 1;
    }
    assert(sizes@.take(i as int) =~= sizes@);
    Some(sum)
}

/// More sizes never add up to less.
proof fn size_sum_grows(sizes: Seq<Option<u64>>, n: int)
    requires
        0 <= n <= sizes.len(),
    ensures
        size_sum(sizes.take(n)) <= size_sum(sizes),
    decreases sizes.len(),
{
    if n == sizes.len() {
        assert(sizes.take(n) =~= sizes);
    } else {
        assert(sizes.drop_last().take(n) =~= sizes.take(n));
        size_sum_grows(sizes.drop_last(), n);
    }
}

/// The digits of a number in decimal are those of its tens and then its last one.
pub proof fn last_digit_comes_last(tens: nat, last: nat)
    requires
        last < 10,
    ensures
        decimal_of(last).len() == 1 && decimal_of(last)[0] as u32 == 48 + last,
        tens > 0 ==> decimal_of(tens * 10 + last) == decimal_of(tens) + decimal_of(last),
{
    if tens > 0 {
        let n = tens * 10 + last;
        assert(n / 10 == tens && n % 10 == last);
        assert(decimal_of(n) =~= decimal_of(tens) + decimal_of(last));
    }
}

/// A size below a kilobyte is written in bytes, and a larger one in the largest unit that it
/// reaches, with one decimal place.
pub proof fn sizes_have_their_unit(bytes: nat)
    ensures
        bytes < 1024 ==> size_text(bytes) == decimal_of(bytes) + " B"@,
        1024 <= bytes < 1048576 ==> size_text(bytes) == with_one_decimal(
            tenths_of(bytes, 1024),
            " KB"@,
        ),
        1048576 <= bytes < 1073741824 ==> size_text(bytes) == with_one_decimal(
            tenths_of(bytes, 1048576),
            " MB"@,
        ),
        1073741824 <= bytes ==> size_text(bytes) == with_one_decimal(
            tenths_of(bytes, 1073741824),
            " GB"@,
        ),
{
}

/// A number of tenths is written as its whole part, a point and one more digit.
pub proof fn tenths_stand_after_point(whole: nat, tenth: nat, unit: Seq<char>)
    requires
        tenth < 10,
    ensures
        with_one_decimal(whole * 10 + tenth, unit) == decimal_of(whole) + seq!['.'] + decimal_of(
            tenth,
        ) + unit,
{
    let tenths = whole * 10 + tenth;
    assert(tenths / 10 == whole && tenths % 10 == tenth);
    assert(with_one_decimal(tenths, unit) =~= decimal_of(whole) + seq!['.'] + decimal_of(tenth)
        + unit);
}

/// The tenths of a size are off by at most half of one, as long as the size is exact in double
/// precision.
pub proof fn tenths_are_rounded(bytes: nat, unit: nat)
    requires
        bytes < 9007199254740992,
        unit > 0,
    ensures
        2 * (tenths_of(bytes, unit) * unit) <= 2 * (10 * bytes) + unit,
        2 * (10 * bytes) <= 2 * (tenths_of(bytes, unit) * unit) + unit,
{
    assert(double_step(bytes) == 1);
    assert(bytes / 1 == bytes && bytes % 1 == 0);
    assert(nearest(bytes, 1) == bytes);
    assert(as_double(bytes) == bytes);
    let numerator = bytes * 10;
    let quotient = numerator / unit;
    let remainder = numerator % unit;
    assert(numerator == quotient * unit + remainder && remainder < unit) by (nonlinear_arith)
        requires
            quotient == numerator / unit,
            remainder == numerator % unit,
            unit > 0,
    ;
    assert((quotient + 1) * unit == quotient * unit + unit) by (nonlinear_arith);
}

/// Sizes of two lists add up to the sum of both sums, and a size by itself counts for what it is, or
/// for nothing if it is not known.
pub proof fn sizes_add_up(a: Seq<Option<u64>>, b: Seq<Option<u64>>, size: u64)
    ensures
        size_sum(a + b) == size_sum(a) + size_sum(b),
        size_sum(seq![Some(size)]) == size,
        size_sum(seq![None]) == 0,
    decreases b.len(),
{
    let one: Seq<Option<u64>> = seq![Some(size)];
    let none: Seq<Option<u64>> = seq![None];
    assert(one.drop_last() =~= seq![]);
    assert(none.drop_last() =~= seq![]);
    assert(size_sum(one.drop_last()) == 0);
    if b.len() == 0 {
        assert(a + b =~= a);
    } else {
        assert((a + b).drop_last() =~= a + b.drop_last());
        sizes_add_up(a, b.drop_last(), size);
    }
}

/// A fraction is rounded to the nearest whole number, and to the even one of two that are equally
/// near.
pub proof fn fractions_are_rounded(numerator: nat, denominator: nat)
    requires
        denominator > 0,
    ensures
        ({
            let whole = nearest(numerator, denominator) as int;
            let off = 2 * (whole * denominator - numerator);
            &&& -denominator <= off <= denominator
            &&& off == denominator || off == -denominator ==> whole % 2 == 0
        }),
{
    let quotient = numerator / denominator;
    let remainder = numerator % denominator;
    assert(numerator == quotient * denominator + remainder && remainder < denominator)
        by (nonlinear_arith)
        requires
            quotient == numerator / denominator,
            remainder == numerator % denominator,
            denominator > 0,
    ;
    assert((quotient + 1) * denominator == quotient * denominator + denominator)
        by (nonlinear_arith);
}

/// A whole number in double precision is a multiple of a step that leaves no more than 53 bits, and
/// off by at most half of it.
pub proof fn doubles_have_steps(n: nat)
    ensures
        double_step(n) > 0,
        n / double_step(n) < 9007199254740992,
        n < 9007199254740992 ==> double_step(n) == 1 && as_double(n) == n,
        n >= 9007199254740992 ==> n / double_step(n) >= 4503599627370496,
        2 * (as_double(n) - n) <= double_step(n),
        2 * (n - as_double(n)) <= double_step(n),
        as_double(n) % double_step(n) == 0,
{
    steps_leave_bits(n);
    let step = double_step(n);
    fractions_are_rounded(n, step);
    let whole = nearest(n, step);
    assert((whole * step) % step == 0) by (nonlinear_arith)
        requires
            step > 0,
    ;
    if n < 9007199254740992 {
        assert(n / 1 == n && n % 1 == 0);
        assert(nearest(n, 1) == n);
    }
}

proof fn steps_leave_bits(n: nat)
    ensures
        double_step(n) > 0,
        n / double_step(n) < 9007199254740992,
        n >= 9007199254740992 ==> n / double_step(n) >= 4503599627370496,
    decreases n,
{
    if n >= 9007199254740992 {
        let half = n / 2;
        steps_leave_bits(half);
        let step = double_step(half);
        lemma_div_denominator(n as int, 2, step as int);
        assert(2 * step > 0);
        assert(n / (2 * step) == half / step);
        if half < 9007199254740992 {
            assert(step == 1);
            assert(half / 1 == half);
        }
    } else {
        assert(n / 1 == n);
    }
}

}
