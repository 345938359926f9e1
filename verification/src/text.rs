//! Building text: digits, numbers and concatenation.
use vstd::prelude::*;

verus! {

/// `String::push` of the standard library appends the character to the end of the string.
pub assume_specification[ String::push ](s: &mut String, c: char)
    ensures
        final(s)@ == old(s)@.push(c),
;

/// The character of a hexadecimal digit, in lower case.
pub open spec fn hex_digit(d: int) -> char {
    if d < 10 {
        ('0' as int + d) as char
    } else {
        ('a' as int + d - 10) as char
    }
}

/// The last `n` hexadecimal digits of `value`, leading zeros included.
pub open spec fn hex_digits(value: nat, n: nat) -> Seq<char>
    decreases n,
{
    if n == 0 {
        Seq::empty()
    } else {
        hex_digits(value / 16, (n - 1) as nat).push(hex_digit((value % 16) as int))
    }
}

/// The decimal digits of `value`, without leading zeros.
pub open spec fn decimal(value: nat) -> Seq<char>
    decreases value,
{
    if value < 10 {
        seq![hex_digit(value as int)]
    } else {
        decimal(value / 10).push(hex_digit((value % 10) as int))
    }
}

/// The last `n` decimal digits of `value`, leading zeros included.
pub open spec fn decimal_digits(value: nat, n: nat) -> Seq<char>
    decreases n,
{
    if n == 0 {
        Seq::empty()
    } else {
        decimal_digits(value / 10, (n - 1) as nat).push(hex_digit((value % 10) as int))
    }
}

/// The character of a digit below 16.
fn digit(d: u8) -> (c: char)
    requires
        d < 16,
    ensures
        c == hex_digit(d as int),
{
    if d < 10 {
        (48u8 + d) as char
    } else {
        (97u8 + (d - 10)) as char
    }
}

/// Append `value` in decimal.
pub fn push_decimal(s: &mut String, value: u64)
    ensures
        final(s)@ == old(s)@ + decimal(value as nat),
    decreases value,
{
    let ghost before = s@;
    if value >= 10 {
        push_decimal(s, value / 10);
    }
    s.push(digit((value % 10) as u8));
    assert(s@ =~= before + decimal(value as nat));
}

/// Append the last `n` decimal digits of `value`, leading zeros included.
pub fn push_decimal_digits(s: &mut String, value: u32, n: u32)
    ensures
        final(s)@ == old(s)@ + decimal_digits(value as nat, n as nat),
    decreases n,
{
    let ghost before = s@;
    if n > 0 {
        push_decimal_digits(s, value / 10, n - 1);
        s.push(digit((value % 10) as u8));
    }
    assert(s@ =~= before + decimal_digits(value as nat, n as nat));
}

/// Append the last `n` hexadecimal digits of `value`, leading zeros included.
pub fn push_hex_digits(s: &mut String, value: u32, n: u32)
    ensures
        final(s)@ == old(s)@ + hex_digits(value as nat, n as nat),
    decreases n,
{
    let ghost before = s@;
    if n > 0 {
        push_hex_digits(s, value / 16, n - 1);
        s.push(digit((value % 16) as u8));
    }
    assert(s@ =~= before + hex_digits(value as nat, n as nat));
}

/// A number in decimal is made of decimal digits, at least one.
pub proof fn decimals_are_digits(value: nat)
    ensures
        decimal(value).len() > 0,
        forall|i: int| 0 <= i < decimal(value).len() ==> '0' <= #[trigger] decimal(value)[i] <= '9',
    decreases value,
{
    if value >= 10 {
        decimals_are_digits(value / 10);
    }
}

/// Different numbers differ in decimal.
pub proof fn decimals_tell_numbers_apart(a: nat, b: nat)
    requires
        decimal(a) == decimal(b),
    ensures
        a == b,
    decreases a,
{
    decimals_are_digits(a / 10);
    decimals_are_digits(b / 10);
    assert(decimal(a).last() == hex_digit((a % 10) as int));
    assert(decimal(b).last() == hex_digit((b % 10) as int));
    assert(a % 10 == b % 10);
    if a >= 10 && b >= 10 {
        assert(decimal(a).drop_last() == decimal(a / 10));
        assert(decimal(b).drop_last() == decimal(b / 10));
        decimals_tell_numbers_apart(a / 10, b / 10);
    }
}

/// The number that decimal digits stand for.
pub open spec fn number_of(digits: Seq<char>) -> int
    decreases digits.len(),
{
    if digits.len() == 0 {
        0
    } else {
        10 * number_of(digits.drop_last()) + (digits.last() as int - '0' as int)
    }
}

/// The number that hexadecimal digits stand for.
pub open spec fn hex_number_of(digits: Seq<char>) -> int
    decreases digits.len(),
{
    if digits.len() == 0 {
        0
    } else {
        16 * hex_number_of(digits.drop_last()) + (if digits.last() <= '9' {
            digits.last() as int - '0' as int
        } else {
            digits.last() as int - 'a' as int + 10
        })
    }
}

/// A number in decimal reads as that number, and has no zero in front unless it is zero.
pub proof fn decimals_read_as_their_number(value: nat)
    ensures
        number_of(decimal(value)) == value,
        value > 0 ==> decimal(value)[0] != '0',
    decreases value,
{
    decimals_are_digits(value);
    if value >= 10 {
        decimals_read_as_their_number(value / 10);
        decimals_are_digits(value / 10);
        assert(decimal(value).drop_last() == decimal(value / 10));
        assert(decimal(value)[0] == decimal(value / 10)[0]);
    } else {
        assert(decimal(value).drop_last() == Seq::<char>::empty());
        assert(number_of(Seq::<char>::empty()) == 0);
    }
}

/// Ten to the power of `n`.
pub open spec fn ten_to(n: nat) -> int
    decreases n,
{
    if n == 0 {
        1
    } else {
        10 * ten_to((n - 1) as nat)
    }
}

/// Sixteen to the power of `n`.
pub open spec fn sixteen_to(n: nat) -> int
    decreases n,
{
    if n == 0 {
        1
    } else {
        16 * sixteen_to((n - 1) as nat)
    }
}

/// A number that fits `n` decimal digits reads as itself, and so does one that fits `n`
/// hexadecimal digits. There are always `n` of them.
pub proof fn padded_digits_read_as_their_number(value: nat, n: nat)
    ensures
        decimal_digits(value, n).len() == n,
        hex_digits(value, n).len() == n,
        value < ten_to(n) ==> number_of(decimal_digits(value, n)) == value,
        value < sixteen_to(n) ==> hex_number_of(hex_digits(value, n)) == value,
    decreases n,
{
    if n > 0 {
        let m = (n - 1) as nat;
        padded_digits_read_as_their_number(value / 10, m);
        padded_digits_read_as_their_number(value / 16, m);
        assert(decimal_digits(value, n).drop_last() == decimal_digits(value / 10, m));
        assert(hex_digits(value, n).drop_last() == hex_digits(value / 16, m));
    }
}

} // verus!
