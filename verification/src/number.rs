//! Numbers written out for people.
use vstd::prelude::*;
use vstd::string::*;

verus! {

/// One decimal digit.
pub open spec fn digit(d: int) -> char {
    (d + 48) as char
}

/// `n` in decimal notation.
pub open spec fn decimal(n: nat) -> Seq<char>
    decreases n,
{
    if n < 10 {
        seq![digit(n as int)]
    } else {
        decimal(n / 10).push(digit((n % 10) as int))
    }
}

/// `a / b` to the nearest whole number; a tie goes to the even one.
pub open spec fn nearest_even(a: nat, b: nat) -> nat
    recommends
        b > 0,
{
    let q = a / b;
    let r = a % b;
    if 2 * r < b || (2 * r == b && q % 2 == 0) {
        q
    } else {
        q + 1
    }
}

/// The distance of the double-precision numbers next to `n`.
pub open spec fn double_spacing(n: nat) -> nat
    decreases n,
{
    if n < 0x20_0000_0000_0000 {
        1
    } else {
        2 * double_spacing(n / 2)
    }
}

/// The double-precision number nearest to `n`.
pub open spec fn as_double(n: nat) -> nat {
    nearest_even(n, double_spacing(n)) * double_spacing(n)
}

/// A number of tenths with one digit behind the point.
pub open spec fn tenths_text(tenths: nat) -> Seq<char> {
    decimal(tenths / 10).push('.').push(digit((tenths % 10) as int))
}

/// A size in bytes, or to a tenth in the largest binary unit that it reaches. The size is taken as
/// a double-precision number first, which matters from 2^53 bytes on.
pub open spec fn size_text(bytes: nat) -> Seq<char> {
    let value = as_double(bytes);
    if value >= 0x4000_0000 {
        tenths_text(nearest_even(10 * value, 0x4000_0000)) + " GB"@
    } else if value >= 0x10_0000 {
        tenths_text(nearest_even(10 * value, 0x10_0000)) + " MB"@
    } else if value >= 0x400 {
        tenths_text(nearest_even(10 * value, 0x400)) + " KB"@
    } else {
        decimal(value) + " B"@
    }
}

/// `n` in decimal notation.
pub fn u128_text(n: u128) -> (r: String)
    ensures
        r@ == decimal(n as nat),
    decreases n,
{
    let last: u8 = (n % 10) as u8;
    let c: char = (48u8 + last) as char;
    if n < 10 {
        let mut out: String = String::new();
        out.push(c);
        assert(out@ =~= decimal(n as nat));
        out
    } else {
        let mut out: String = u128_text(n / 10);
        out.push(c);
        out
    }
}

/// `n` in decimal notation.
pub fn u64_text(n: u64) -> (r: String)
    ensures
        r@ == decimal(n as nat),
{
    u128_text(n as u128)
}

/// `a / b` to the nearest whole number; a tie goes to the even one.
pub fn divide_nearest_even(a: u128, b: u128) -> (r: u128)
    requires
        0 < b <= 0x1_0000_0000_0000_0000,
        a <= 0x100_0000_0000_0000_0000,
    ensures
        r == nearest_even(a as nat, b as nat),
        r <= a,
{
    let q: u128 = a / b;
    let rest: u128 = a % b;
    proof {
        assert(q <= a) by (nonlinear_arith)
            requires
                q == a / b,
                b > 0,
        ;
        assert(a == 0 ==> rest == 0) by (nonlinear_arith)
            requires
                rest == a % b,
                b > 0,
        ;
        if b == 1 {
            assert(rest == 0);
        } else {
            assert(a > 0 ==> q < a) by (nonlinear_arith)
                requires
                    q == a / b,
                    b > 1,
            ;
        }
    }
    if 2 * rest < b || (2 * rest == b && q % 2 == 0) {
        q
    } else {
        q + 1
    }
}

/// The double-precision number nearest to `n`, as a whole number.
fn double_value(n: u64) -> (r: u128)
    ensures
        r == as_double(n as nat),
        r <= 0x2_0000_0000_0000_0000,
{
    let mut spacing: u128 = 1;
    let mut head: u64 = n;
    while head >= 0x20_0000_0000_0000
        invariant
            1 <= spacing <= 0x1_0000_0000_0000_0000,
            spacing * head <= n,
            double_spacing(n as nat) == spacing * double_spacing(head as nat),
        decreases head,
    {
        let half: u64 = head / 2;
        proof {
            assert(spacing * 2 * half <= spacing * head) by (nonlinear_arith)
                requires
                    half == head / 2,
                    spacing >= 1,
            ;
            assert(2 * spacing * half <= n) by (nonlinear_arith)
                requires
                    spacing * 2 * half <= spacing * head,
                    spacing * head <= n,
            ;
            assert(2 * spacing <= 0x1_0000_0000_0000_0000) by (nonlinear_arith)
                requires
                    2 * spacing * half <= n,
                    half >= 1,
                    n <= 0xffff_ffff_ffff_ffffu64,
            ;
            assert(spacing * double_spacing(head as nat) == 2 * spacing * double_spacing(
                half as nat,
            )) by (nonlinear_arith)
                requires
                    double_spacing(head as nat) == 2 * double_spacing(half as nat),
            ;
        }
        spacing = 2 * spacing;
        head = half;
    }
    assert(double_spacing(n as nat) == spacing) by {
        assert(double_spacing(head as nat) == 1);
        assert(spacing * double_spacing(head as nat) == spacing) by (nonlinear_arith)
            requires
                double_spacing(head as nat) == 1,
        ;
    }
    let units: u128 = divide_nearest_even(n as u128, spacing);
    proof {
        assert(units * spacing <= n + spacing) by (nonlinear_arith)
            requires
                units <= n as u128 / spacing + 1,
                spacing >= 1,
        ;
    }
    units * spacing
}

/// A number of tenths with one digit behind the point.
fn tenths(count: u128) -> (r: String)
    ensures
        r@ == tenths_text(count as nat),
{
    let last: u8 = (count % 10) as u8;
    let mut out: String = u128_text(count / 10);
    out.push('.');
    out.push((48u8 + last) as char);
    out
}

/// A size for people to read.
pub fn format_remote_size(bytes: u64) -> (r: String)
    ensures
        r@ == size_text(bytes as nat),
{
    let value: u128 = double_value(bytes);
    if value >= 0x4000_0000 {
        let mut out: String = tenths(divide_nearest_even(10 * value, 0x4000_0000));
        out.append(" GB");
        out
    } else if value >= 0x10_0000 {
        let mut out: String = tenths(divide_nearest_even(10 * value, 0x10_0000));
        out.append(" MB");
        out
    } else if value >= 0x400 {
        let mut out: String = tenths(divide_nearest_even(10 * value, 0x400));
        out.append(" KB");
        out
    } else {
        let mut out: String = u128_text(value);
        out.append(" B");
        out
    }
}

/// Below 2^53 every whole number is a double-precision number.
pub proof fn as_double_exact(n: nat)
    requires
        n < 0x20_0000_0000_0000,
    ensures
        as_double(n) == n,
{
    assert(double_spacing(n) == 1);
    assert(n / 1 == n && n % 1 == 0) by (nonlinear_arith);
    assert(n * 1 == n) by (nonlinear_arith);
}

/// A decimal digit.
pub open spec fn is_digit(c: char) -> bool {
    '0' <= c <= '9'
}

/// The number that a run of decimal digits stands for.
pub open spec fn decimal_value(digits: Seq<char>) -> nat
    decreases digits.len(),
{
    if digits.len() == 0 {
        0
    } else {
        10 * decimal_value(digits.drop_last()) + (digits.last() as int - '0' as int) as nat
    }
}

/// The digits of a number that may have a plus sign before them.
pub open spec fn unsigned_digits(text: Seq<char>) -> Seq<char> {
    if text.len() > 0 && text[0] == '+' {
        text.skip(1)
    } else {
        text
    }
}

/// The number up to `max` that a text stands for.
pub open spec fn parsed_number(text: Seq<char>, max: nat) -> Option<nat> {
    let digits = unsigned_digits(text);
    if digits.len() > 0 && (forall|i: int| 0 <= i < digits.len() ==> is_digit(#[trigger] digits[i]))
        && decimal_value(digits) <= max {
        Some(decimal_value(digits))
    } else {
        None
    }
}

/// The number below 2^16 that a text stands for.
pub open spec fn parsed_u16(text: Seq<char>) -> Option<u16> {
    match parsed_number(text, 0xffff) {
        Some(n) => Some(n as u16),
        None => None,
    }
}

/// The first digits stand for no more than all of them.
proof fn decimal_value_grows(digits: Seq<char>, n: int)
    requires
        0 <= n <= digits.len(),
        forall|i: int| 0 <= i < digits.len() ==> is_digit(#[trigger] digits[i]),
    ensures
        decimal_value(digits.take(n)) <= decimal_value(digits),
    decreases digits.len() - n,
{
    if n == digits.len() {
        assert(digits.take(n) =~= digits);
    } else {
        decimal_value_grows(digits, n + 1);
        assert(digits.take(n + 1).drop_last() =~= digits.take(n));
        assert(is_digit(digits[n]));
    }
}

/// The number up to `max` that a text stands for.
pub fn parse_number(text: &str, max: u64) -> (r: Option<u64>)
    ensures
        match r {
            Some(n) => parsed_number(text@, max as nat) == Some(n as nat),
            None => parsed_number(text@, max as nat) is None,
        },
{
    let chars = crate::text::chars_of(text);
    let start: usize = if chars.len() > 0 && chars[0] == '+' {
        1
    } else {
        0
    };
    let ghost digits = unsigned_digits(text@);
    assert(digits =~= text@.skip(start as int));
    if start == chars.len() {
        return None;
    }
    let mut value: u128 = 0;
    let mut i: usize = start;
    assert(digits.take(0) =~= Seq::<char>::empty());
    while i < chars.len()
        invariant
            start <= i <= chars@.len(),
            start < chars@.len(),
            chars@ == text@,
            digits == unsigned_digits(text@),
            digits == text@.skip(start as int),
            forall|k: int| 0 <= k < i - start ==> is_digit(#[trigger] digits[k]),
            value == decimal_value(digits.take(i - start)),
            value <= max,
        decreases chars@.len() - i,
    {
        let c: char = chars[i];
        assert(digits[i - start] == c);
        if !('0' <= c && c <= '9') {
            return None;
        }
        let digit: u128 = (c as u32 - '0' as u32) as u128;
        value = 10 * value + digit;
        proof {
            assert(digits.take(i + 1 - start).drop_last() =~= digits.take(i - start));
            assert(digits.take(i + 1 - start).last() == c);
        }
        if value > max as u128 {
            proof {
                if forall|k: int| 0 <= k < digits.len() ==> is_digit(#[trigger] digits[k]) {
                    decimal_value_grows(digits, i + 1 - start);
                }
            }
            return None;
        }
        i = i + 1;
    }
    assert(digits.take(i - start) =~= digits);
    Some(value as u64)
}

/// The number below 2^16 that a text stands for.
pub fn parse_u16(text: &str) -> (r: Option<u16>)
    ensures
        r == parsed_u16(text@),
{
    match parse_number(text, 0xffff) {
        Some(n) => Some(n as u16),
        None => None,
    }
}

/// A number's decimal notation is made of digits and stands for the number.
pub proof fn decimal_value_of_decimal(n: nat)
    ensures
        decimal(n).len() > 0,
        forall|i: int| 0 <= i < decimal(n).len() ==> is_digit(#[trigger] decimal(n)[i]),
        decimal_value(decimal(n)) == n,
    decreases n,
{
    if n < 10 {
        assert(decimal(n).drop_last() =~= Seq::<char>::empty());
        assert(decimal_value(decimal(n).drop_last()) == 0);
    } else {
        decimal_value_of_decimal(n / 10);
        assert(decimal(n).drop_last() =~= decimal(n / 10));
        assert forall|i: int| 0 <= i < decimal(n).len() implies is_digit(
            #[trigger] decimal(n)[i],
        ) by {
            if i < decimal(n / 10).len() {
                assert(decimal(n)[i] == decimal(n / 10)[i]);
            }
        }
    }
}

/// Reading a number's decimal notation gives back the number.
pub proof fn parse_of_decimal(n: nat, max: nat)
    requires
        n <= max,
    ensures
        parsed_number(decimal(n), max) == Some(n),
{
    decimal_value_of_decimal(n);
    assert(is_digit(decimal(n)[0]));
}

/// A size is shown in the largest binary unit that it reaches: bytes as they are, else to a tenth
/// of the unit.
pub proof fn size_is_shown_in_its_unit(bytes: nat)
    requires
        bytes < 0x20_0000_0000_0000,
    ensures
        bytes < 1024 ==> size_text(bytes) == decimal(bytes) + " B"@,
        1024 <= bytes < 1024 * 1024 ==> size_text(bytes) == tenths_text(
            nearest_even(10 * bytes, 1024),
        ) + " KB"@,
        1024 * 1024 <= bytes < 1024 * 1024 * 1024 ==> size_text(bytes) == tenths_text(
            nearest_even(10 * bytes, 1024 * 1024),
        ) + " MB"@,
        1024 * 1024 * 1024 <= bytes ==> size_text(bytes) == tenths_text(
            nearest_even(10 * bytes, 1024 * 1024 * 1024),
        ) + " GB"@,
{
    as_double_exact(bytes);
}

/// A division that is rounded is off by half at most.
pub proof fn rounding_is_off_by_half_at_most(a: nat, b: nat)
    requires
        b > 0,
    ensures
        2 * (nearest_even(a, b) * b) <= 2 * a + b,
        2 * a <= 2 * (nearest_even(a, b) * b) + b,
        a % b == 0 ==> nearest_even(a, b) * b == a,
{
    let q = a / b;
    let r = a % b;
    vstd::arithmetic::div_mod::lemma_fundamental_div_mod(a as int, b as int);
    assert(b * q == q * b) by (nonlinear_arith);
    assert((q + 1) * b == q * b + b) by (nonlinear_arith);
}

/// The digits of a number with one digit more: the number ten times, and the digit.
pub proof fn one_digit_more(digits: Seq<char>, c: char)
    requires
        '0' <= c <= '9',
    ensures
        decimal_value(Seq::empty()) == 0,
        decimal_value(digits.push(c)) == 10 * decimal_value(digits) + (c as int - '0' as int),
{
    assert(digits.push(c).drop_last() =~= digits);
}

/// A text stands for a number only where it is made of digits, at least one, after at most one
/// plus sign, and the number is not too large.
pub proof fn only_digits_are_a_number(text: Seq<char>, max: nat, i: int)
    requires
        parsed_number(text, max) is Some,
        0 <= i < text.len(),
    ensures
        text.len() > 0,
        '0' <= text[i] <= '9' || (i == 0 && text[0] == '+' && text.len() > 1),
        parsed_number(text, max)->0 <= max,
{
    let digits = unsigned_digits(text);
    if text[0] == '+' {
        if i > 0 {
            assert(digits[i - 1] == text[i]);
            assert(is_digit(digits[i - 1]));
        }
    } else {
        assert(is_digit(digits[i]));
    }
}

} // verus!
