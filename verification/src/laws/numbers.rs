//! What the texts of numbers tell.

use crate::number::{
    decimal, decimal_int, digits_value, hex, hex_digit, is_digit, is_hex_digit, parse_unsigned,
};
use crate::run_id::{hyphenated, simple};
use vstd::arithmetic::div_mod::lemma_div_denominator;
use vstd::arithmetic::power::{lemma_pow_positive, pow};
use vstd::prelude::*;

verus! {

/// The number that decimal digits tell: each counts ten times the one behind it.
pub open spec fn told(s: Seq<char>) -> int
    decreases s.len(),
{
    if s.len() == 0 {
        0
    } else {
        10 * told(s.drop_last()) + (s.last() as int - '0' as int)
    }
}

/// The text is made of the ten digits alone.
pub open spec fn all_digits(s: Seq<char>) -> bool {
    forall|i: int| 0 <= i < s.len() ==> 48 <= #[trigger] s[i] as int <= 57
}

/// The decimal text of a number is made of digits, tells the number, and starts
/// with a zero only for zero.
pub proof fn a_decimal_text_tells_its_number(n: nat)
    ensures
        decimal(n).len() > 0,
        all_digits(decimal(n)),
        told(decimal(n)) == n,
        decimal(n)[0] == '0' <==> n == 0,
        n == 0 ==> decimal(n).len() == 1,
    decreases n,
{
    if n < 10 {
        let s = decimal(n);
        assert(s.drop_last() =~= Seq::<char>::empty());
        assert(told(s.drop_last()) == 0);
    } else {
        a_decimal_text_tells_its_number(n / 10);
        assert(decimal(n).drop_last() =~= decimal(n / 10));
        assert(decimal(n)[0] == decimal(n / 10)[0]);
        assert(n == (n / 10) * 10 + n % 10);
    }
}

/// A negative number is told by a minus sign and the decimal text of its size.
pub proof fn a_minus_sign_tells_a_negative_number(n: int)
    ensures
        n >= 0 ==> told(decimal_int(n)) == n && all_digits(decimal_int(n)),
        n < 0 ==> decimal_int(n).len() > 1 && decimal_int(n)[0] == '-' && told(decimal_int(n).drop_first()) == -n
            && all_digits(decimal_int(n).drop_first()),
{
    if n >= 0 {
        a_decimal_text_tells_its_number(n as nat);
    } else {
        a_decimal_text_tells_its_number((-n) as nat);
        assert(decimal_int(n).drop_first() =~= decimal((-n) as nat));
    }
}

/// The value of digits is what they tell.
proof fn lemma_digits_value(s: Seq<char>)
    ensures
        s.len() > 0 && all_digits(s) ==> told(s) >= 0 && digits_value(s) == Some(told(s) as nat),
        !(s.len() > 0 && all_digits(s)) ==> digits_value(s) is None,
    decreases s.len(),
{
    if s.len() > 0 {
        let front = s.drop_last();
        lemma_digits_value(front);
        if all_digits(s) {
            assert(48 <= s.last() as int <= 57) by {
                assert(s[s.len() - 1] == s.last());
            }
            assert(all_digits(front)) by {
                assert forall|i: int| 0 <= i < front.len() implies 48 <= #[trigger] front[i] as int <= 57 by {
                    assert(48 <= s[i] as int <= 57);
                }
            }
            if s.len() == 1 {
                assert(front =~= Seq::<char>::empty());
                assert(told(front) == 0);
            }
        } else if is_digit(s.last()) {
            let i = choose|i: int| 0 <= i < s.len() && !(48 <= #[trigger] s[i] as int <= 57);
            assert(i < s.len() - 1);
            assert(!(48 <= front[i] as int <= 57));
        }
    }
}

/// A number is read from a text of digits, perhaps behind a plus sign, as what
/// the digits tell, where that is not too large; no other text is a number.
pub proof fn a_number_is_read_as_its_digits_tell(s: Seq<char>, max: nat)
    ensures
        ({
            let digits = if s.len() > 0 && s[0] == '+' {
                s.drop_first()
            } else {
                s
            };
            parse_unsigned(s, max) == if digits.len() > 0 && all_digits(digits) && told(digits) <= max {
                Some(told(digits) as nat)
            } else {
                None
            }
        }),
{
    let digits = if s.len() > 0 && s[0] == '+' {
        s.drop_first()
    } else {
        s
    };
    lemma_digits_value(digits);
}

/// What is written as a number is read as that number.
pub proof fn a_written_number_is_read_back(n: nat, max: nat)
    requires
        n <= max,
    ensures
        parse_unsigned(decimal(n), max) == Some(n),
{
    a_decimal_text_tells_its_number(n);
    assert(48 <= decimal(n)[0] as int <= 57);
    a_number_is_read_as_its_digits_tell(decimal(n), max);
}

/// The number that a hexadecimal digit in lower case tells.
pub open spec fn hex_told(c: char) -> int {
    if 48 <= c as int <= 57 {
        c as int - 48
    } else {
        c as int - 97 + 10
    }
}

/// The hexadecimal digits of numbers below sixteen, and what they tell.
pub proof fn a_hexadecimal_digit_tells_its_number(n: int)
    requires
        0 <= n < 16,
    ensures
        hex_digit(n) == "0123456789abcdef"@[n],
        hex_told(hex_digit(n)) == n,
        is_hex_digit(hex_digit(n)),
{
    reveal_strlit("0123456789abcdef");
}

/// The hexadecimal text of bytes: two digits for each, which tell it, the
/// higher one first.
pub proof fn a_hexadecimal_text_tells_its_bytes(bytes: Seq<u8>, i: int)
    requires
        0 <= i < bytes.len(),
    ensures
        hex(bytes).len() == 2 * bytes.len(),
        16 * hex_told(hex(bytes)[2 * i]) + hex_told(hex(bytes)[2 * i + 1]) == bytes[i],
{
    let b = bytes[i] as int;
    assert((2 * i) % 2 == 0 && (2 * i) / 2 == i);
    assert((2 * i + 1) % 2 == 1 && (2 * i + 1) / 2 == i);
    a_hexadecimal_digit_tells_its_number(b / 16);
    a_hexadecimal_digit_tells_its_number(b % 16);
}

/// The number that hexadecimal digits tell: each counts sixteen times the one behind it.
pub open spec fn hex_number(s: Seq<char>) -> int
    decreases s.len(),
{
    if s.len() == 0 {
        0
    } else {
        16 * hex_number(s.drop_last()) + hex_told(s.last())
    }
}

proof fn lemma_digits_so_far(value: u128, n: int)
    requires
        0 <= n <= 32,
    ensures
        hex_number(simple(value).take(n)) == value as int / pow(16, (32 - n) as nat),
    decreases n,
{
    let digits = simple(value);
    if n == 0 {
        assert(digits.take(0) =~= Seq::<char>::empty());
        assert(pow(16, 32) == 0x1_0000_0000_0000_0000_0000_0000_0000_0000) by {
            reveal_with_fuel(pow, 33);
        }
        vstd::arithmetic::div_mod::lemma_basic_div(value as int, pow(16, 32));
    } else {
        lemma_digits_so_far(value, n - 1);
        assert(digits.take(n).drop_last() =~= digits.take(n - 1));
        let k = (32 - n) as nat;
        let a = value as int / pow(16, k);
        lemma_pow_positive(16, k);
        assert(pow(16, k + 1) == pow(16, k) * 16) by {
            reveal(pow);
            assert(16 * pow(16, k) == pow(16, k) * 16) by (nonlinear_arith);
        }
        lemma_div_denominator(value as int, pow(16, k), 16);
        assert(a / 16 == value as int / pow(16, k + 1));
        assert(a >= 0) by {
            vstd::arithmetic::div_mod::lemma_div_pos_is_pos(value as int, pow(16, k));
        }
        assert(digits.take(n).last() == hex_digit(a % 16));
        a_hexadecimal_digit_tells_its_number(a % 16);
    }
}

/// The digits of an identifier tell its value.
pub proof fn the_digits_of_an_identifier_tell_its_value(value: u128)
    ensures
        simple(value).len() == 32,
        hex_number(simple(value)) == value,
{
    lemma_digits_so_far(value, 32);
    assert(simple(value).take(32) =~= simple(value));
    reveal(pow);
}

/// The text of an identifier has its digits, with hyphens behind the eighth, the
/// twelfth, the sixteenth and the twentieth.
pub proof fn an_identifier_is_written_in_five_groups(value: u128)
    ensures
        hyphenated(value).len() == 36,
        hyphenated(value)[8] == '-' && hyphenated(value)[13] == '-' && hyphenated(value)[18] == '-' && hyphenated(value)[23] == '-',
        hyphenated(value).subrange(0, 8) + hyphenated(value).subrange(9, 13) + hyphenated(value).subrange(14, 18)
            + hyphenated(value).subrange(19, 23) + hyphenated(value).subrange(24, 36) == simple(value),
{
    let t = hyphenated(value);
    let d = simple(value);
    assert(t.subrange(0, 8) + t.subrange(9, 13) + t.subrange(14, 18) + t.subrange(19, 23) + t.subrange(24, 36) =~= d);
}

} // verus!
