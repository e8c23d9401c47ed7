//! Decimal numbers: reading them from the bytes of a reply and writing them as text.

use vstd::prelude::*;

verus! {

/// The ASCII digit 0.
pub const ZERO: u8 = 0x30;

/// The ASCII digit 9.
pub const NINE: u8 = 0x39;

/// The ASCII plus sign.
pub const PLUS: u8 = 0x2b;

/// Whether `byte` is an ASCII digit.
pub open spec fn is_digit(byte: u8) -> bool {
    ZERO <= byte <= NINE
}

/// Whether every byte of `bytes` is an ASCII digit.
pub open spec fn all_digits(bytes: Seq<u8>) -> bool {
    forall|i: int| 0 <= i < bytes.len() ==> is_digit(#[trigger] bytes[i])
}

/// The number that the decimal digits `digits` write; 0 for no digit.
pub open spec fn digits_value(digits: Seq<u8>) -> nat
    decreases digits.len(),
{
    if digits.len() == 0 {
        0
    } else {
        (digits_value(digits.drop_last()) * 10 + (digits.last() - ZERO)) as nat
    }
}

/// `bytes` without the one plus sign that may open a number.
pub open spec fn without_plus(bytes: Seq<u8>) -> Seq<u8> {
    if bytes.len() > 0 && bytes[0] == PLUS {
        bytes.skip(1)
    } else {
        bytes
    }
}

/// The `u32` that `bytes` writes: at least one digit, only digits, a plus sign before them or
/// not, and a value that a `u32` can hold.
pub open spec fn parsed_u32(bytes: Seq<u8>) -> Option<u32> {
    let digits = without_plus(bytes);
    if digits.len() > 0 && all_digits(digits) && digits_value(digits) <= u32::MAX {
        Some(digits_value(digits) as u32)
    } else {
        None
    }
}

/// The character of the digit `digit`.
pub open spec fn digit_char(digit: nat) -> char {
    (('0' as u32) + digit) as char
}

/// The decimal text of `value`, without leading zeros.
pub open spec fn decimal(value: nat) -> Seq<char>
    decreases value,
{
    if value < 10 {
        seq![digit_char(value)]
    } else {
        decimal(value / 10).push(digit_char(value % 10))
    }
}

/// More digits never make a smaller number.
proof fn digits_value_grows(digits: Seq<u8>, len: int)
    requires
        all_digits(digits),
        0 <= len <= digits.len(),
    ensures
        digits_value(digits.take(len)) <= digits_value(digits),
    decreases digits.len() - len,
{
    if len < digits.len() {
        let longer = digits.take(len + 1);
        assert(longer.drop_last() =~= digits.take(len));
        assert(is_digit(digits[len]));
        digits_value_grows(digits, len + 1);
    } else {
        assert(digits.take(len) =~= digits);
    }
}

/// Reads `bytes` as a decimal `u32`.
pub fn parse_u32(bytes: &[u8]) -> (value: Option<u32>)
    ensures
        value == parsed_u32(bytes@),
{
    let start: usize = if bytes.len() > 0 && bytes[0] == PLUS {
        1
    } else {
        0
    };
    let ghost digits = without_plus(bytes@);
    if start >= bytes.len() {
        return None;
    }
    let mut value: u32 = 0;
    let mut i: usize = start;
    while i < bytes.len()
        invariant
            start <= 1,
            start <= i <= bytes.len(),
            digits == bytes@.skip(start as int),
            digits == without_plus(bytes@),
            all_digits(digits.take(i - start)),
            value == digits_value(digits.take(i - start)),
        decreases bytes.len() - i,
    {
        let byte: u8 = bytes[i];
        let ghost longer = digits.take(i - start + 1);
        assert(longer.drop_last() =~= digits.take(i - start));
        assert(longer.last() == byte);
        assert(digits[i - start] == byte);
        if byte < ZERO || byte > NINE {
            return None;
        }
        assert(all_digits(longer)) by {
            assert forall|j: int| 0 <= j < longer.len() implies is_digit(#[trigger] longer[j]) by {
                if j < i - start {
                    assert(is_digit(digits.take(i - start)[j]));
                }
            }
        }
        let tens: Option<u32> = value.checked_mul(10);
        let next: Option<u32> = match tens {
            Some(tens) => tens.checked_add((byte - ZERO) as u32),
            None => None,
        };
        match next {
            Some(next) => {
                value = next;
            },
            None => {
                proof {
                    if all_digits(digits) {
                        digits_value_grows(digits, i - start + 1);
                    }
                }
                return None;
            },
        }
        i = i + 1;
    }
    assert(digits.take(i - start) =~= digits);
    Some(value)
}

/// The text of one digit.
fn digit_str(digit: u32) -> (text: &'static str)
    requires
        digit < 10,
    ensures
        text@ == seq![digit_char(digit as nat)],
{
    proof {
        reveal_strlit("0");
        reveal_strlit("1");
        reveal_strlit("2");
        reveal_strlit("3");
        reveal_strlit("4");
        reveal_strlit("5");
        reveal_strlit("6");
        reveal_strlit("7");
        reveal_strlit("8");
        reveal_strlit("9");
    }
    let text: &'static str = match digit {
        0 => "0",
        1 => "1",
        2 => "2",
        3 => "3",
        4 => "4",
        5 => "5",
        6 => "6",
        7 => "7",
        8 => "8",
        _ => "9",
    };
    assert(text@ =~= seq![digit_char(digit as nat)]);
    text
}

/// Writes `value` as decimal text.
pub fn decimal_text(value: u32) -> (text: String)
    ensures
        text@ == decimal(value as nat),
    decreases value,
{
    let mut text: String = if value < 10 {
        String::new()
    } else {
        decimal_text(value / 10)
    };
    text.append(digit_str(value % 10));
    assert(text@ =~= decimal(value as nat));
    text
}

/// The bytes of ASCII text.
pub open spec fn ascii_bytes(text: Seq<char>) -> Seq<u8> {
    text.map_values(|c: char| c as u8)
}

/// The decimal text of a number consists of digits and writes that number.
proof fn decimal_digits(value: nat)
    ensures
        decimal(value).len() > 0,
        all_digits(ascii_bytes(decimal(value))),
        digits_value(ascii_bytes(decimal(value))) == value,
    decreases value,
{
    let bytes = ascii_bytes(decimal(value));
    assert(decimal(value).last() == digit_char(value % 10));
    assert(bytes.last() == ZERO + value % 10);
    if value < 10 {
        assert(bytes.drop_last() =~= Seq::<u8>::empty());
        assert(digits_value(bytes.drop_last()) == 0);
    } else {
        decimal_digits(value / 10);
        let shorter = ascii_bytes(decimal(value / 10));
        assert(bytes.drop_last() =~= shorter);
        assert forall|i: int| 0 <= i < bytes.len() implies is_digit(#[trigger] bytes[i]) by {
            if i < shorter.len() {
                assert(is_digit(shorter[i]));
            }
        }
    }
}

/// One digit writes its value, and no other byte writes a number.
pub proof fn one_byte_is_parsed(byte: u8)
    ensures
        parsed_u32(seq![byte]) == (if 0x30 <= byte <= 0x39 {
            Some((byte - 0x30) as u32)
        } else {
            None
        }),
{
    let bytes = seq![byte];
    assert(bytes.drop_last() =~= Seq::<u8>::empty());
    assert(bytes.last() == byte);
    assert(bytes[0] == byte);
    assert(digits_value(bytes) == byte - ZERO || byte < ZERO) by {
        assert(digits_value(bytes.drop_last()) == 0);
    }
    if byte == PLUS {
        assert(bytes.skip(1) =~= Seq::<u8>::empty());
    }
    if is_digit(byte) {
        assert(all_digits(bytes));
    }
}

/// No byte at all writes no number.
pub proof fn no_byte_is_parsed()
    ensures
        parsed_u32(Seq::empty()) is None,
{
}

/// A further digit multiplies a number by ten and adds the digit, as long as a `u32` can hold
/// that. Behind what writes no number, a further byte writes none either, unless the number only
/// begins there: behind nothing or behind a lone plus sign.
pub proof fn further_byte_is_parsed(bytes: Seq<u8>, byte: u8)
    requires
        bytes.len() > 0,
        bytes != seq![0x2bu8],
    ensures
        parsed_u32(bytes.push(byte)) == (match parsed_u32(bytes) {
            Some(value) => if 0x30 <= byte <= 0x39 && value * 10 + (byte - 0x30) <= u32::MAX {
                Some((value * 10 + (byte - 0x30)) as u32)
            } else {
                None
            },
            None => None,
        }),
{
    let longer = bytes.push(byte);
    let digits = without_plus(bytes);
    let more = without_plus(longer);
    assert(longer[0] == bytes[0]);
    assert(more =~= digits.push(byte));
    if bytes[0] == PLUS && digits.len() == 0 {
        assert(bytes =~= seq![0x2bu8]);
    }
    assert(more.drop_last() =~= digits);
    assert(more.last() == byte);
    assert forall|i: int| 0 <= i < digits.len() implies digits[i] == #[trigger] more[i] by {}
    if all_digits(digits) && is_digit(byte) {
        assert(all_digits(more));
    }
    if all_digits(more) {
        assert(is_digit(more[more.len() - 1]));
        assert forall|i: int| 0 <= i < digits.len() implies is_digit(#[trigger] digits[i]) by {
            assert(is_digit(more[i]));
        }
    }
}

/// A plus sign before a number makes no difference, and there is at most one.
pub proof fn plus_sign_is_ignored(bytes: Seq<u8>)
    ensures
        parsed_u32(seq![0x2bu8] + bytes) == (if bytes.len() > 0 && bytes[0] == 0x2b {
            None
        } else {
            parsed_u32(bytes)
        }),
{
    let signed = seq![0x2bu8] + bytes;
    assert(signed.skip(1) =~= bytes);
    assert(signed[0] == PLUS);
    if bytes.len() > 0 && bytes[0] == 0x2b {
        assert(!is_digit(bytes[0]));
    }
}

/// The decimal text of a number below ten is its digit; that of a larger one is the text of its
/// tens and the digit of its ones.
pub proof fn decimal_is_built_of_digits(tens: nat, ones: nat)
    requires
        ones < 10,
    ensures
        decimal(ones) == seq![(0x30 + ones) as char],
        tens > 0 ==> decimal(tens * 10 + ones) == decimal(tens).push((0x30 + ones) as char),
{
    let value = tens * 10 + ones;
    assert(value / 10 == tens && value % 10 == ones);
}

/// Two different numbers are written differently.
pub proof fn decimals_differ(a: u32, b: u32)
    requires
        a != b,
    ensures
        decimal(a as nat) != decimal(b as nat),
{
    parsed_decimal(a);
    parsed_decimal(b);
}

/// A number is read back from its decimal text.
pub proof fn parsed_decimal(value: u32)
    ensures
        parsed_u32(ascii_bytes(decimal(value as nat))) == Some(value),
{
    decimal_digits(value as nat);
    let bytes = ascii_bytes(decimal(value as nat));
    assert(is_digit(bytes[0]));
}

} // verus!
