//! Unsigned decimal numbers as text.

use vstd::prelude::*;
use crate::text::{chars_of, push_char};

verus! {

/// `c` is one of `0` to `9`.
pub open spec fn is_digit(c: char) -> bool {
    48 <= c as u32 <= 57
}

/// The value of the digit `c`; 0 for any other character.
pub open spec fn digit_of(c: char) -> nat {
    if is_digit(c) {
        (c as u32 - 48) as nat
    } else {
        0
    }
}

/// The digit that stands for `d`, for `d` below ten.
pub open spec fn digit_char(d: nat) -> char {
    ((48 + d) as u8) as char
}

/// Every character of `s` is a digit.
pub open spec fn all_digits(s: Seq<char>) -> bool {
    forall|i: int| 0 <= i < s.len() ==> is_digit(#[trigger] s[i])
}

/// The number that the digits `s` denote in base ten; 0 for no digits.
pub open spec fn decimal_value(s: Seq<char>) -> nat
    decreases s.len(),
{
    if s.len() == 0 {
        0
    } else {
        decimal_value(s.drop_last()) * 10 + digit_of(s.last())
    }
}

/// The shortest decimal text of `n`: no leading zero, and `0` for zero.
pub open spec fn decimal_text(n: nat) -> Seq<char>
    decreases n,
{
    if n < 10 {
        seq![digit_char(n)]
    } else {
        decimal_text(n / 10).push(digit_char(n % 10))
    }
}

/// `s` is the shortest decimal text of some number.
pub open spec fn is_canonical(s: Seq<char>) -> bool {
    &&& s.len() > 0
    &&& all_digits(s)
    &&& s.len() > 1 ==> s[0] != '0'
}

/// What a text denotes as a `u64`: an optional `+`, then one digit or more
/// and nothing else, with a value that fits. Anything else denotes nothing.
pub open spec fn u64_of_text(s: Seq<char>) -> Option<u64> {
    let digits = if s.len() > 0 && s[0] == '+' {
        s.skip(1)
    } else {
        s
    };
    if digits.len() > 0 && all_digits(digits) && decimal_value(digits) <= u64::MAX {
        Some(decimal_value(digits) as u64)
    } else {
        None
    }
}

/// `digit_char` and `digit_of` undo each other.
pub proof fn lemma_digit_roundtrip(d: nat, c: char)
    ensures
        d < 10 ==> is_digit(digit_char(d)) && digit_of(digit_char(d)) == d,
        is_digit(c) ==> digit_of(c) < 10 && digit_char(digit_of(c)) == c,
{
}

/// `0` is the one character with the code 48.
pub proof fn lemma_zero_digit(c: char)
    ensures
        c == '0' <==> c as u32 == 48,
{
    if c as u32 == 48 {
        vstd::utf8::char_u32_cast(c, 48);
        vstd::utf8::char_u32_cast('0', 48);
    }
}

/// A longer run of digits denotes no smaller number than its beginning.
pub proof fn lemma_value_monotonic(s: Seq<char>, k: int)
    requires
        0 <= k <= s.len(),
    ensures
        decimal_value(s.take(k)) <= decimal_value(s),
    decreases s.len(),
{
    if k == s.len() {
        assert(s.take(k) =~= s);
    } else {
        assert(s.drop_last().take(k) =~= s.take(k));
        lemma_value_monotonic(s.drop_last(), k);
    }
}

/// Digits that do not start with `0` denote a positive number.
pub proof fn lemma_value_positive(s: Seq<char>)
    requires
        s.len() > 0,
        all_digits(s),
        s[0] != '0',
    ensures
        decimal_value(s) >= 1,
    decreases s.len(),
{
    if s.len() == 1 {
        assert(decimal_value(s.drop_last()) == 0);
        assert(is_digit(s[0]));
        assert(s.last() == s[0]);
        lemma_zero_digit(s[0]);
    } else {
        assert(s.drop_last()[0] == s[0]);
        lemma_value_positive(s.drop_last());
    }
}

/// The decimal text of `n` is canonical and denotes `n`.
pub proof fn lemma_decimal_text(n: nat)
    ensures
        is_canonical(decimal_text(n)),
        decimal_value(decimal_text(n)) == n,
    decreases n,
{
    let text = decimal_text(n);
    if n < 10 {
        lemma_digit_roundtrip(n, '0');
        assert(text.drop_last() =~= Seq::<char>::empty());
        assert(decimal_value(text.drop_last()) == 0);
    } else {
        lemma_decimal_text(n / 10);
        lemma_digit_roundtrip(n % 10, '0');
        let front = decimal_text(n / 10);
        assert(text.drop_last() =~= front);
        assert(text[0] == front[0]);
        if front.len() == 1 {
            if n / 10 >= 10 {
                lemma_decimal_text((n / 10) / 10);
                assert(false);
            }
            assert(front[0] == digit_char(n / 10));
            lemma_digit_roundtrip(n / 10, '0');
            lemma_zero_digit(front[0]);
        }
    }
}

/// A canonical text is the decimal text of the number it denotes.
pub proof fn lemma_canonical_text(s: Seq<char>)
    requires
        is_canonical(s),
    ensures
        decimal_text(decimal_value(s)) == s,
    decreases s.len(),
{
    let front = s.drop_last();
    lemma_digit_roundtrip(0, s.last());
    if s.len() == 1 {
        assert(front.len() == 0);
        assert(decimal_value(s) == digit_of(s.last()));
        assert(s =~= seq![s.last()]);
    } else {
        assert(front[0] == s[0]);
        assert(is_canonical(front));
        lemma_canonical_text(front);
        lemma_value_positive(front);
        let v = decimal_value(s);
        assert(v / 10 == decimal_value(front) && v % 10 == digit_of(s.last()));
        assert(s =~= front.push(s.last()));
    }
}

/// Two numbers with the same decimal text are the same number.
pub proof fn lemma_decimal_text_injective(a: nat, b: nat)
    requires
        decimal_text(a) == decimal_text(b),
    ensures
        a == b,
{
    lemma_decimal_text(a);
    lemma_decimal_text(b);
}

/// Reads the digits `chars[from..]` as a number.
///
/// Gives the number exactly when there is at least one character from
/// `from` on, all of them are digits, and the number fits a `u64`.
pub fn parse_digits(chars: &Vec<char>, from: usize) -> (value: Option<u64>)
    ensures
        value == ({
            let digits = chars@.skip(from as int);
            if from < chars.len() && all_digits(digits) && decimal_value(digits) <= u64::MAX {
                Some(decimal_value(digits) as u64)
            } else {
                None
            }
        }),
{
    let ghost digits = chars@.skip(from as int);
    if from >= chars.len() {
        return None;
    }
    let mut acc: u64 = 0;
    let mut i: usize = from;
    proof {
        assert(digits.take(0) =~= Seq::<char>::empty());
    }
    while i < chars.len()
        invariant
            from <= i <= chars.len(),
            digits == chars@.skip(from as int),
            all_digits(digits.take(i - from)),
            acc == decimal_value(digits.take(i - from)),
        decreases chars.len() - i,
    {
        let c = chars[i];
        let code: u32 = c as u32;
        let ghost k = i - from;
        proof {
            assert(digits[k] == c);
            assert(digits.take(k + 1).drop_last() =~= digits.take(k));
            assert(digits.take(k + 1).last() == c);
            lemma_value_monotonic(digits, k + 1);
        }
        if code < 48 || code > 57 {
            return None;
        }
        let d: u64 = (code - 48) as u64;
        if acc > (u64::MAX - d) / 10 {
            return None;
        }
        acc = acc * 10 + d;
        i += 1;
    }
    proof {
        assert(digits.take(i - from) =~= digits);
    }
    Some(acc)
}

/// Reads `chars` as a `u64` the way `str::parse` does: after an optional
/// `+`, digits only.
pub fn parse_u64_chars(chars: &Vec<char>) -> (value: Option<u64>)
    ensures
        value == u64_of_text(chars@),
{
    if chars.len() > 0 && chars[0] == '+' {
        parse_digits(chars, 1)
    } else {
        assert(chars@.skip(0) =~= chars@);
        parse_digits(chars, 0)
    }
}

/// Reads `text` as a `u64` the way `str::parse` does: after an optional `+`,
/// digits only.
pub fn parse_u64(text: &str) -> (value: Option<u64>)
    ensures
        value == u64_of_text(text@),
{
    let chars = chars_of(text);
    parse_u64_chars(&chars)
}

/// Appends the decimal text of `n` to `out`.
pub fn write_decimal(n: u64, out: &mut String)
    ensures
        final(out)@ == old(out)@ + decimal_text(n as nat),
    decreases n,
{
    if n >= 10 {
        write_decimal(n / 10, out);
    }
    let digit: u8 = 48u8 + (n % 10) as u8;
    push_char(out, digit as char);
    proof {
        let before = old(out)@;
        if n >= 10 {
            assert(before + decimal_text(n as nat) =~= (before + decimal_text((n / 10) as nat)).push(
                digit_char((n % 10) as nat),
            ));
        } else {
            assert(before + decimal_text(n as nat) =~= before.push(digit_char(n as nat)));
        }
    }
}

/// The decimal text of `n`.
pub fn format_decimal(n: u64) -> (text: String)
    ensures
        text@ == decimal_text(n as nat),
{
    let mut text = String::new();
    write_decimal(n, &mut text);
    assert(Seq::<char>::empty() + decimal_text(n as nat) =~= decimal_text(n as nat));
    text
}

} // verus!
