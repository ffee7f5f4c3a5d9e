//! Decimal numbers: a whole number of units together with the number of digits
//! that stand behind the decimal point.

use vstd::arithmetic::power::*;
use vstd::prelude::*;
use vstd::string::*;

use crate::text;
use crate::text::Text;

verus! {

/// The number `mantissa / 10^scale`.
#[derive(Clone, Copy, Debug, PartialEq, Eq, Structural)]
pub struct Dec {
    pub mantissa: i128,
    pub scale: u32,
}

/// The first whole number that needs more than 96 bits.
pub const MANTISSA_LIMIT: i128 = 0x1_0000_0000_0000_0000_0000_0000;

/// Most digits behind the decimal point.
pub const SCALE_LIMIT: u32 = 28;

impl Dec {
    /// The number has at most 96 bits and at most 28 digits behind the point.
    pub open spec fn wf(self) -> bool {
        -MANTISSA_LIMIT < self.mantissa < MANTISSA_LIMIT && self.scale <= SCALE_LIMIT
    }

    /// The mantissa and the scale.
    pub open spec fn parts(self) -> (i128, u32) {
        (self.mantissa, self.scale)
    }

    /// `self < other`, as rational numbers.
    pub open spec fn less(self, other: Dec) -> bool {
        self.mantissa * pow(10, other.scale as nat) < other.mantissa * pow(10, self.scale as nat)
    }
}

/// The parts of an optional number.
pub open spec fn opt_parts(d: Option<Dec>) -> Option<(i128, u32)> {
    match d {
        Some(d) => Some(d.parts()),
        None => None,
    }
}

/// What an optional pair of parts stands for.
pub open spec fn opt_dec(p: Option<(i128, u32)>) -> Option<Dec> {
    match p {
        Some((mantissa, scale)) => Some(Dec { mantissa, scale }),
        None => None,
    }
}

/// The number that `Decimal::from_str` reads in a text, as mantissa and scale.
pub uninterp spec fn decimal_of_text(s: Seq<char>) -> Option<(i128, u32)>;

/// What `Decimal::checked_add` gives, as mantissa and scale.
pub uninterp spec fn decimal_sum(a: (i128, u32), b: (i128, u32)) -> Option<(i128, u32)>;

/// What `Decimal::checked_sub` gives, as mantissa and scale.
pub uninterp spec fn decimal_difference(a: (i128, u32), b: (i128, u32)) -> Option<(i128, u32)>;

/// What `Decimal::checked_div` gives, as mantissa and scale.
pub uninterp spec fn decimal_quotient(a: (i128, u32), b: (i128, u32)) -> Option<(i128, u32)>;

/// The larger of two scales.
pub open spec fn wider(a: u32, b: u32) -> u32 {
    if a >= b { a } else { b }
}

/// `a` counted in units of the scale `scale`.
pub open spec fn rescaled(a: Dec, scale: u32) -> int {
    a.mantissa * pow(10, (scale - a.scale) as nat)
}

/// Neither number is zero, both take 64 bits at most, and their scales differ by 19
/// at most.
pub open spec fn narrow(a: Dec, b: Dec) -> bool {
    &&& a.mantissa != 0 && b.mantissa != 0
    &&& -0x1_0000_0000_0000_0000 < a.mantissa < 0x1_0000_0000_0000_0000
    &&& -0x1_0000_0000_0000_0000 < b.mantissa < 0x1_0000_0000_0000_0000
    &&& -19 <= a.scale - b.scale <= 19
}

/// Reads a number with `rust_decimal`'s `Decimal::from_str`. The result is a
/// function of the text, and what was read has at most 96 bits and 28 digits behind
/// the point.
#[verifier::external_body]
pub(crate) fn parse_dec(s: &str) -> (d: Option<Dec>)
    ensures
        opt_parts(d) == decimal_of_text(s@),
        d matches Some(d) ==> d.wf(),
{
    let parsed: Result<rust_decimal::Decimal, rust_decimal::Error> = s.parse();
    parsed.ok().map(|d| Dec { mantissa: d.mantissa(), scale: d.scale() })
}

/// Adds with `rust_decimal`'s `Decimal::checked_add`. Where the numbers are narrow
/// and their sum takes less than 96 bits in units of the wider scale, it is that sum;
/// a zero leaves the other number as it is. `None` means that the sum is too large.
#[verifier::external_body]
pub(crate) fn add_dec(a: Dec, b: Dec) -> (d: Option<Dec>)
    requires
        a.wf(),
        b.wf(),
    ensures
        opt_parts(d) == decimal_sum(a.parts(), b.parts()),
        d matches Some(d) ==> d.wf(),
        a.mantissa == 0 ==> d == Some(b),
        a.mantissa != 0 && b.mantissa == 0 ==> d == Some(a),
        narrow(a, b) && -MANTISSA_LIMIT < rescaled(a, wider(a.scale, b.scale)) + rescaled(
            b,
            wider(a.scale, b.scale),
        ) < MANTISSA_LIMIT ==> d == Some(
            Dec {
                mantissa: (rescaled(a, wider(a.scale, b.scale)) + rescaled(
                    b,
                    wider(a.scale, b.scale),
                )) as i128,
                scale: wider(a.scale, b.scale),
            },
        ),
{
    let left = rust_decimal::Decimal::from_i128_with_scale(a.mantissa, a.scale);
    let right = rust_decimal::Decimal::from_i128_with_scale(b.mantissa, b.scale);
    left.checked_add(right).map(|d| Dec { mantissa: d.mantissa(), scale: d.scale() })
}

/// Subtracts with `rust_decimal`'s `Decimal::checked_sub`. Where the numbers are
/// narrow and their difference takes less than 96 bits in units of the wider scale,
/// it is that difference. `None` means that the difference is too large.
#[verifier::external_body]
pub(crate) fn sub_dec(a: Dec, b: Dec) -> (d: Option<Dec>)
    requires
        a.wf(),
        b.wf(),
    ensures
        opt_parts(d) == decimal_difference(a.parts(), b.parts()),
        d matches Some(d) ==> d.wf(),
        a.mantissa != 0 && b.mantissa == 0 ==> d == Some(a),
        narrow(a, b) && -MANTISSA_LIMIT < rescaled(a, wider(a.scale, b.scale)) - rescaled(
            b,
            wider(a.scale, b.scale),
        ) < MANTISSA_LIMIT ==> d == Some(
            Dec {
                mantissa: (rescaled(a, wider(a.scale, b.scale)) - rescaled(
                    b,
                    wider(a.scale, b.scale),
                )) as i128,
                scale: wider(a.scale, b.scale),
            },
        ),
{
    let left = rust_decimal::Decimal::from_i128_with_scale(a.mantissa, a.scale);
    let right = rust_decimal::Decimal::from_i128_with_scale(b.mantissa, b.scale);
    left.checked_sub(right).map(|d| Dec { mantissa: d.mantissa(), scale: d.scale() })
}

/// The number two.
pub open spec fn is_two(b: Dec) -> bool {
    b.mantissa == 2 && b.scale == 0
}

/// `q` is half of `a`, as rational numbers.
pub open spec fn is_half(q: Dec, a: Dec) -> bool {
    2 * q.mantissa * pow(10, a.scale as nat) == a.mantissa * pow(10, q.scale as nat)
}

/// Halving takes no digit behind the last one that a number can have: the number of units
/// is even, or takes 64 bits at most and leaves a digit to spare.
pub open spec fn halves(a: Dec) -> bool {
    ||| a.mantissa % 2 == 0
    ||| -0x1_0000_0000_0000_0000 < a.mantissa < 0x1_0000_0000_0000_0000 && a.scale < SCALE_LIMIT
}

/// Divides with `rust_decimal`'s `Decimal::checked_div`. Divided by two, an even number of
/// units gives half of it at the same scale, and a number that halves gives its half. `None`
/// means that the divisor is zero or the quotient too large. How many zeros a half that is
/// no whole number of units ends with is not said.
#[verifier::external_body]
pub(crate) fn div_dec(a: Dec, b: Dec) -> (d: Option<Dec>)
    requires
        a.wf(),
        b.wf(),
    ensures
        opt_parts(d) == decimal_quotient(a.parts(), b.parts()),
        d matches Some(d) ==> d.wf(),
        is_two(b) && a.mantissa != 0 && a.mantissa % 2 == 0 ==> d == Some(
            Dec { mantissa: (a.mantissa / 2) as i128, scale: a.scale },
        ),
        is_two(b) && halves(a) ==> d is Some && is_half(d->0, a),
{
    let left = rust_decimal::Decimal::from_i128_with_scale(a.mantissa, a.scale);
    let right = rust_decimal::Decimal::from_i128_with_scale(b.mantissa, b.scale);
    left.checked_div(right).map(|d| Dec { mantissa: d.mantissa(), scale: d.scale() })
}

/// Compares with `rust_decimal`'s order on `Decimal`, which is that of the rational
/// numbers.
#[verifier::external_body]
pub(crate) fn less_dec(a: Dec, b: Dec) -> (less: bool)
    requires
        a.wf(),
        b.wf(),
    ensures
        less == a.less(b),
{
    let left = rust_decimal::Decimal::from_i128_with_scale(a.mantissa, a.scale);
    let right = rust_decimal::Decimal::from_i128_with_scale(b.mantissa, b.scale);
    left < right
}

/// `n` with zeros in front, at least `width` digits wide.
pub open spec fn padded(n: nat, width: nat) -> Text
    decreases width,
{
    if width == 0 {
        seq![]
    } else {
        padded(n / 10, (width - 1) as nat).push(text::digit_char((n % 10) as int))
    }
}

/// The text of `m` units of which `10^scale` make one.
pub open spec fn magnitude_text(m: nat, scale: nat) -> Text {
    if scale == 0 {
        text::nat_text(m)
    } else {
        text::nat_text(m / pow(10, scale) as nat) + seq!['.'] + padded(m, scale)
    }
}

/// The text of a number: all digits of its scale, and a sign where it is negative.
pub open spec fn dec_text(d: Dec) -> Text {
    if d.mantissa < 0 {
        seq!['-'] + magnitude_text((-d.mantissa) as nat, d.scale as nat)
    } else {
        magnitude_text(d.mantissa as nat, d.scale as nat)
    }
}

fn digit_of(d: u128) -> (c: char)
    requires
        d < 10,
    ensures
        c == text::digit_char(d as int),
{
    match d {
        0 => '0',
        1 => '1',
        2 => '2',
        3 => '3',
        4 => '4',
        5 => '5',
        6 => '6',
        7 => '7',
        8 => '8',
        _ => '9',
    }
}

fn push_nat(out: &mut String, n: u128)
    ensures
        final(out)@ == old(out)@ + text::nat_text(n as nat),
    decreases n,
{
    if n >= 10 {
        push_nat(out, n / 10);
    }
    out.push(digit_of(n % 10));
    assert(out@ =~= old(out)@ + text::nat_text(n as nat));
}

fn push_padded(out: &mut String, n: u128, width: u32)
    ensures
        final(out)@ == old(out)@ + padded(n as nat, width as nat),
    decreases width,
{
    if width > 0 {
        push_padded(out, n / 10, width - 1);
        out.push(digit_of(n % 10));
    }
    assert(out@ =~= old(out)@ + padded(n as nat, width as nat));
}

fn power_of_ten(n: u32) -> (p: u128)
    requires
        n <= SCALE_LIMIT,
    ensures
        p == pow(10, n as nat),
        p > 0,
{
    let mut p: u128 = 1;
    let mut i: u32 = 0;
    proof {
        lemma_pow0(10);
        assert(pow(10, 28) == 10_000_000_000_000_000_000_000_000_000int) by {
            reveal_with_fuel(pow, 29);
        }
    }
    while i < n
        invariant
            i <= n <= SCALE_LIMIT,
            p == pow(10, i as nat),
            0 < p,
            pow(10, 28) == 10_000_000_000_000_000_000_000_000_000int,
        decreases n - i,
    {
        proof {
            lemma_power_step(i as nat, n as nat);
        }
        p = p * 10;
        i = i + 1;
    }
    p
}

proof fn lemma_power_step(i: nat, n: nat)
    requires
        i < n <= 28,
    ensures
        pow(10, i + 1) == 10 * pow(10, i),
        pow(10, i + 1) <= pow(10, 28),
{
    reveal(pow);
    vstd::arithmetic::power::lemma_pow_increases(10, i + 1, 28);
}

impl Dec {
    /// The text of this number.
    pub fn to_text(&self) -> (s: String)
        requires
            self.wf(),
        ensures
            s@ == dec_text(*self),
    {
        let mut s: String = String::new();
        let m: u128 = if self.mantissa < 0 {
            s.push('-');
            (-self.mantissa) as u128
        } else {
            self.mantissa as u128
        };
        if self.scale == 0 {
            push_nat(&mut s, m);
        } else {
            let unit: u128 = power_of_ten(self.scale);
            push_nat(&mut s, m / unit);
            s.push('.');
            push_padded(&mut s, m, self.scale);
        }
        assert(s@ =~= dec_text(*self));
        s
    }
}

// Laws

/// Numbers of the same scale compare as their mantissas do; a number is not less than itself, and
/// of two numbers not both are less than the other.
pub proof fn numbers_compare_by_their_units(a: Dec, b: Dec)
    ensures
        a.scale == b.scale ==> (a.less(b) <==> a.mantissa < b.mantissa),
        !a.less(a),
        a.less(b) ==> !b.less(a),
{
    let p = pow(10, a.scale as nat);
    lemma_pow_positive(10, a.scale as nat);
    if a.scale == b.scale {
        assert(a.mantissa * p < b.mantissa * p <==> a.mantissa < b.mantissa) by (nonlinear_arith)
            requires
                p > 0,
        ;
    }
}

/// What is less than a lesser number is less.
pub proof fn order_of_numbers_is_transitive(a: Dec, b: Dec, c: Dec)
    requires
        a.less(b),
        b.less(c),
    ensures
        a.less(c),
{
    let (pa, pb, pc) = (pow(10, a.scale as nat), pow(10, b.scale as nat), pow(10, c.scale as nat));
    let (x, y, z) = (a.mantissa as int, b.mantissa as int, c.mantissa as int);
    lemma_pow_positive(10, a.scale as nat);
    lemma_pow_positive(10, b.scale as nat);
    lemma_pow_positive(10, c.scale as nat);
    assert(x * pc < z * pa) by (nonlinear_arith)
        requires
            x * pb < y * pa,
            y * pc < z * pb,
            pa > 0,
            pb > 0,
            pc > 0,
    {
        assert((x * pb) * pc < (y * pa) * pc);
        assert((y * pc) * pa < (z * pb) * pa);
        assert((y * pa) * pc == (y * pc) * pa);
        assert((x * pb) * pc == (x * pc) * pb);
        assert((z * pb) * pa == (z * pa) * pb);
        assert((x * pc) * pb < (z * pa) * pb);
    }
}

/// There are as many digits as asked for, in their order: the last one counts units, the one before
/// it tens, and so on.
pub proof fn digits_are_written_in_order(n: nat, width: nat, i: int)
    requires
        0 <= i < width,
    ensures
        padded(n, width).len() == width,
        padded(n, width)[width - 1 - i] == text::digit_char((n as int / pow(10, i as nat)) % 10),
    decreases width,
{
    lemma_padded_len(n, width);
    lemma_padded_len(n / 10, (width - 1) as nat);
    if i == 0 {
        lemma_pow0(10);
        assert(n as int / 1 == n as int);
    } else {
        digits_are_written_in_order(n / 10, (width - 1) as nat, i - 1);
        lemma_pow_positive(10, (i - 1) as nat);
        lemma_pow_adds(10, 1, (i - 1) as nat);
        lemma_pow1(10);
        vstd::arithmetic::div_mod::lemma_div_denominator(n as int, 10, pow(10, (i - 1) as nat));
    }
}

proof fn lemma_padded_len(n: nat, width: nat)
    ensures
        padded(n, width).len() == width,
    decreases width,
{
    if width > 0 {
        lemma_padded_len(n / 10, (width - 1) as nat);
    }
}

/// A number is written with all digits of its scale behind the point and the whole units before it;
/// only a negative one has a sign.
pub proof fn numbers_are_written_out(d: Dec)
    requires
        d.wf(),
    ensures
        ({
            let t = dec_text(d);
            let m = if d.mantissa < 0 { -(d.mantissa as int) } else { d.mantissa as int };
            let sign = if d.mantissa < 0 { seq!['-'] } else { Seq::<char>::empty() };
            &&& d.scale == 0 ==> t == sign + text::nat_text(m as nat)
            &&& d.scale > 0 ==> t[t.len() - 1 - d.scale] == '.' && t.take(
                t.len() - 1 - d.scale,
            ) == sign + text::nat_text((m / pow(10, d.scale as nat)) as nat) && t.skip(
                t.len() - d.scale,
            ) == padded(m as nat, d.scale as nat)
        }),
{
    let t = dec_text(d);
    let m = if d.mantissa < 0 { -(d.mantissa as int) } else { d.mantissa as int };
    let sign = if d.mantissa < 0 { seq!['-'] } else { Seq::<char>::empty() };
    lemma_padded_len(m as nat, d.scale as nat);
    let whole = text::nat_text((m / pow(10, d.scale as nat)) as nat);
    lemma_pow_positive(10, d.scale as nat);
    if d.scale > 0 {
        vstd::arithmetic::div_mod::lemma_div_pos_is_pos(m, pow(10, d.scale as nat));
        assert(m as nat / pow(10, d.scale as nat) as nat == (m / pow(10, d.scale as nat)) as nat);
        assert(t =~= sign + whole + seq!['.'] + padded(m as nat, d.scale as nat));
        assert(t.take(t.len() - 1 - d.scale) =~= sign + whole);
        assert(t.skip(t.len() - d.scale) =~= padded(m as nat, d.scale as nat));
    } else {
        assert(t =~= sign + text::nat_text(m as nat));
    }
}

} // verus!
