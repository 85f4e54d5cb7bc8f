//! Addresses as a user types them: hexadecimal, with or without a leading `0x`.
use crate::text::words::chars_of;
use vstd::prelude::*;

verus! {

/// The value of a hexadecimal digit of either case.
pub open spec fn hex_digit(c: char) -> Option<nat> {
    if '0' <= c <= '9' {
        Some((c as u32 - '0' as u32) as nat)
    } else if 'a' <= c <= 'f' {
        Some((c as u32 - 'a' as u32 + 10) as nat)
    } else if 'A' <= c <= 'F' {
        Some((c as u32 - 'A' as u32 + 10) as nat)
    } else {
        None
    }
}

/// Whether `s` holds hexadecimal digits only.
pub open spec fn all_hex(s: Seq<char>) -> bool {
    forall|i: int| 0 <= i < s.len() ==> hex_digit(#[trigger] s[i]) is Some
}

/// The number that the digits `s` stand for, most significant first.
pub open spec fn hex_value(s: Seq<char>) -> nat
    decreases s.len(),
{
    if s.len() == 0 {
        0
    } else {
        hex_value(s.drop_last()) * 16 + hex_digit(s.last()).unwrap_or(0)
    }
}

/// Whether `s` begins with `0x` or `0X`.
pub open spec fn has_hex_prefix(s: Seq<char>) -> bool {
    s.len() >= 2 && s[0] == '0' && (s[1] == 'x' || s[1] == 'X')
}

/// `s` without its leading `0x`, if it has one.
pub open spec fn without_prefix(s: Seq<char>) -> Seq<char> {
    if has_hex_prefix(s) {
        s.skip(2)
    } else {
        s
    }
}

/// `s` without its leading plus sign, if it has one.
pub open spec fn without_plus(s: Seq<char>) -> Seq<char> {
    if s.len() > 0 && s[0] == '+' {
        s.skip(1)
    } else {
        s
    }
}

/// The digits of an address: what is left behind an optional `0x` and an optional plus sign.
pub open spec fn address_digits(s: Seq<char>) -> Seq<char> {
    without_plus(without_prefix(s))
}

/// The address that `s` spells: at least one hexadecimal digit, nothing else, and a value that
/// fits a machine word.
pub open spec fn address_of(s: Seq<char>) -> Option<usize> {
    let digits = address_digits(s);
    if digits.len() > 0 && all_hex(digits) && hex_value(digits) <= usize::MAX {
        Some(hex_value(digits) as usize)
    } else {
        None
    }
}

proof fn lemma_prefix_value(s: Seq<char>, i: int)
    requires
        0 <= i <= s.len(),
    ensures
        hex_value(s.take(i)) <= hex_value(s),
    decreases s.len() - i,
{
    if i == s.len() {
        assert(s.take(i) =~= s);
    } else {
        lemma_prefix_value(s, i + 1);
        assert(s.take(i + 1).drop_last() =~= s.take(i));
    }
}

/// The value of one hexadecimal digit.
fn digit_value(c: char) -> (value: Option<usize>)
    ensures
        value is Some <==> hex_digit(c) is Some,
        value matches Some(v) ==> v == hex_digit(c)->0 && v < 16,
{
    if '0' <= c && c <= '9' {
        Some((c as u32 - '0' as u32) as usize)
    } else if 'a' <= c && c <= 'f' {
        Some((c as u32 - 'a' as u32 + 10) as usize)
    } else if 'A' <= c && c <= 'F' {
        Some((c as u32 - 'A' as u32 + 10) as usize)
    } else {
        None
    }
}

/// Reads an address: hexadecimal, an optional `0x` before it, `None` for anything else and for a
/// number that does not fit.
pub fn parse_address(addr: &str) -> (parsed: Option<usize>)
    ensures
        parsed == address_of(addr@),
{
    let chars = chars_of(addr);
    let mut start: usize = 0;
    if chars.len() >= 2 && chars[0] == '0' && (chars[1] == 'x' || chars[1] == 'X') {
        start = 2;
    }
    assert(without_prefix(addr@) =~= addr@.skip(start as int));
    if start < chars.len() && chars[start] == '+' {
        start = start + 1;
    }
    let ghost digits = address_digits(addr@);
    assert(digits =~= addr@.skip(start as int));
    if start == chars.len() {
        return None;
    }
    let mut value: usize = 0;
    let mut i: usize = start;
    assert(digits.take(0) =~= Seq::empty());
    while i < chars.len()
        invariant
            start <= i <= chars.len(),
            chars@ == addr@,
            digits == addr@.skip(start as int),
            digits == address_digits(addr@),
            value == hex_value(digits.take(i - start)),
            forall|k: int| 0 <= k < i - start ==> hex_digit(#[trigger] digits[k]) is Some,
        decreases chars.len() - i,
    {
        let c = chars[i];
        assert(c == digits[i - start]);
        assert(digits.take(i - start + 1).drop_last() =~= digits.take(i - start));
        assert(digits.take(i - start + 1).last() == c);
        proof {
            lemma_prefix_value(digits, i - start + 1);
        }
        match digit_value(c) {
            None => {
                return None;
            },
            Some(digit) => {
                match value.checked_mul(16) {
                    None => {
                        return None;
                    },
                    Some(shifted) => {
                        match shifted.checked_add(digit) {
                            None => {
                                return None;
                            },
                            Some(next) => {
                                value = next;
                            },
                        }
                    },
                }
            },
        }
        i = i + 1;
    }
    assert(digits.take(i - start) =~= digits);
    Some(value)
}

/// The `0x` before an address changes nothing, in either case.
pub proof fn law_prefix_is_optional(s: Seq<char>)
    requires
        !(s.len() >= 2 && s[0] == '0' && (s[1] == 'x' || s[1] == 'X')),
    ensures
        address_of(seq!['0', 'x'] + s) == address_of(s),
        address_of(seq!['0', 'X'] + s) == address_of(s),
{
    assert((seq!['0', 'x'] + s).skip(2) =~= s);
    assert((seq!['0', 'X'] + s).skip(2) =~= s);
}

/// A `0x` counts once, and before a plus sign: behind either of them it makes the text no address.
pub proof fn law_a_prefix_comes_first_and_once(s: Seq<char>)
    requires
        s.len() >= 2,
        s[0] == '0',
        s[1] == 'x' || s[1] == 'X',
    ensures
        address_of(seq!['0', 'x'] + s) is None,
        address_of(seq!['0', 'X'] + s) is None,
        address_of(seq!['+'] + s) is None,
{
    assert((seq!['0', 'x'] + s).skip(2) =~= s);
    assert((seq!['0', 'X'] + s).skip(2) =~= s);
    assert((seq!['+'] + s).skip(1) =~= s);
    assert(hex_digit(s[1]) is None);
}

/// A plus sign before an address changes nothing, and there is at most one.
pub proof fn law_a_plus_sign_is_optional(s: Seq<char>)
    requires
        !(s.len() >= 2 && s[0] == '0' && (s[1] == 'x' || s[1] == 'X')),
    ensures
        s.len() > 0 && s[0] == '+' ==> address_of(seq!['+'] + s) is None,
        !(s.len() > 0 && s[0] == '+') ==> address_of(seq!['+'] + s) == address_of(s),
{
    assert((seq!['+'] + s).skip(1) =~= s);
    if s.len() > 0 && s[0] == '+' {
        assert(hex_digit(s[0]) is None);
    }
}

/// One character is an address exactly if it is a hexadecimal digit of either case; the address is
/// the value of the digit. No text is none.
pub proof fn law_one_digit_is_an_address(c: char)
    ensures
        '0' <= c <= '9' ==> address_of(seq![c]) == Some((c as int - '0' as int) as usize),
        'a' <= c <= 'f' ==> address_of(seq![c]) == Some((c as int - 'a' as int + 10) as usize),
        'A' <= c <= 'F' ==> address_of(seq![c]) == Some((c as int - 'A' as int + 10) as usize),
        !('0' <= c <= '9' || 'a' <= c <= 'f' || 'A' <= c <= 'F') ==> address_of(seq![c]) is None,
        address_of(Seq::empty()) is None,
{
    let s = seq![c];
    assert(s.drop_last() =~= Seq::empty());
    assert(hex_value(s.drop_last()) == 0);
    if c == '+' {
        assert(s.skip(1) =~= Seq::empty());
    } else {
        assert(address_digits(s) == s);
        assert(hex_digit(s[0]) == hex_digit(c));
        assert(all_hex(s) <==> hex_digit(c) is Some);
    }
}

/// One more digit behind an address multiplies it by sixteen and adds the digit, whatever the
/// number of digits. There is no address if the result does not fit, if there was none before, or
/// if what comes behind is no digit.
pub proof fn law_one_more_digit_counts_sixteenfold(s: Seq<char>, c: char)
    requires
        s.len() > 0,
        forall|i: int|
            0 <= i < s.len() ==> {
                ||| '0' <= #[trigger] s[i] <= '9'
                ||| 'a' <= s[i] <= 'f'
                ||| 'A' <= s[i] <= 'F'
            },
    ensures
        match (address_of(s), address_of(seq![c])) {
            (Some(value), Some(digit)) => if value * 16 + digit <= usize::MAX {
                address_of(s.push(c)) == Some((value * 16 + digit) as usize)
            } else {
                address_of(s.push(c)) is None
            },
            _ => address_of(s.push(c)) is None,
        },
{
    let longer = s.push(c);
    law_one_digit_is_an_address(c);
    assert(longer.drop_last() =~= s);
    assert(longer[0] == s[0]);
    assert(all_hex(s)) by {
        assert forall|i: int| 0 <= i < s.len() implies hex_digit(#[trigger] s[i]) is Some by {}
    }
    assert(address_digits(s) == s) by {
        assert(hex_digit(s[0]) is Some);
        if s.len() >= 2 {
            assert(hex_digit(s[1]) is Some);
        }
    }
    if hex_digit(c) is Some {
        assert(address_digits(longer) == longer) by {
            if s.len() >= 2 {
                assert(longer[1] == s[1]);
                assert(hex_digit(s[1]) is Some);
            }
        }
        assert(all_hex(longer)) by {
            assert forall|i: int| 0 <= i < longer.len() implies hex_digit(#[trigger] longer[i]) is Some by {
                if i < s.len() {
                    assert(longer[i] == s[i]);
                }
            }
        }
    } else if has_hex_prefix(longer) {
        assert(s.len() == 1) by {
            if s.len() >= 2 {
                assert(longer[1] == s[1]);
                assert(hex_digit(s[1]) is Some);
            }
        }
        assert(longer.skip(2) =~= Seq::empty());
    } else {
        assert(address_digits(longer) == longer);
        assert(hex_digit(longer[s.len() as int]) is None);
    }
}

/// Text with a character that is no hexadecimal digit is no address, but for a plus sign or a `0x`
/// at its front.
pub proof fn law_only_digits_make_an_address(s: Seq<char>, i: int)
    requires
        0 <= i < s.len(),
        !('0' <= s[i] <= '9' || 'a' <= s[i] <= 'f' || 'A' <= s[i] <= 'F'),
        !(s[0] == '+'),
        !(s.len() >= 2 && s[0] == '0' && (s[1] == 'x' || s[1] == 'X')),
    ensures
        address_of(s) is None,
{
    assert(hex_digit(s[i]) is None);
}

/// The digit for a value below sixteen, in lower case or upper case.
pub open spec fn digit_char(value: nat, upper: bool) -> char {
    if value < 10 {
        ('0' as u32 + value) as char
    } else if upper {
        ('A' as u32 + (value - 10)) as char
    } else {
        ('a' as u32 + (value - 10)) as char
    }
}

/// The hexadecimal spelling of `n`, without leading zeros.
pub open spec fn hex_text(n: nat, upper: bool) -> Seq<char>
    decreases n,
{
    if n < 16 {
        seq![digit_char(n, upper)]
    } else {
        hex_text(n / 16, upper).push(digit_char(n % 16, upper))
    }
}

proof fn lemma_hex_text(n: nat, upper: bool)
    ensures
        hex_text(n, upper).len() > 0,
        all_hex(hex_text(n, upper)),
        hex_value(hex_text(n, upper)) == n,
    decreases n,
{
    let text = hex_text(n, upper);
    if n < 16 {
        assert(text.drop_last() =~= Seq::empty());
        assert(hex_value(text.drop_last()) == 0);
    } else {
        lemma_hex_text(n / 16, upper);
        assert(text.drop_last() =~= hex_text(n / 16, upper));
    }
}

/// Every address can be typed: its hexadecimal spelling in either case, with `0x` before it or
/// without, reads back as the address.
pub proof fn law_hex_text_reads_back(n: usize, upper: bool)
    ensures
        address_of(hex_text(n as nat, upper)) == Some(n),
        address_of(seq!['0', 'x'] + hex_text(n as nat, upper)) == Some(n),
{
    let text = hex_text(n as nat, upper);
    lemma_hex_text(n as nat, upper);
    assert(!has_hex_prefix(text)) by {
        if has_hex_prefix(text) {
            assert(hex_digit(text[1]) is Some);
        }
    }
    assert(text[0] != '+') by {
        assert(hex_digit(text[0]) is Some);
    }
    law_prefix_is_optional(text);
}

} // verus!
