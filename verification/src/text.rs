//! Text as Telegram counts it: UTF-16 code units, white space and decimal numbers.

use vstd::prelude::*;

verus! {

/// The lead surrogates, which open a pair.
pub open spec fn is_lead(unit: u16) -> bool {
    0xD800 <= unit < 0xDC00
}

/// The trail surrogates, which close a pair.
pub open spec fn is_trail(unit: u16) -> bool {
    0xDC00 <= unit < 0xE000
}

/// The code point that a surrogate pair stands for.
pub open spec fn paired(lead: u16, trail: u16) -> int {
    0x10000 + (lead - 0xD800) * 0x400 + (trail - 0xDC00)
}

/// The UTF-16 form of one character: itself, or a surrogate pair.
pub open spec fn utf16_of(c: char) -> Seq<u16> {
    if (c as int) < 0x10000 {
        seq![c as u16]
    } else {
        let rest = c as int - 0x10000;
        seq![(0xD800 + rest / 0x400) as u16, (0xDC00 + rest % 0x400) as u16]
    }
}

/// The UTF-16 form of a text.
pub open spec fn utf16(s: Seq<char>) -> Seq<u16>
    decreases s.len(),
{
    if s.len() == 0 {
        Seq::empty()
    } else {
        utf16_of(s[0]) + utf16(s.skip(1))
    }
}

/// The text that UTF-16 units stand for, with U+FFFD for each unpaired surrogate.
pub open spec fn utf16_lossy(units: Seq<u16>) -> Seq<char>
    decreases units.len(),
{
    if units.len() == 0 {
        Seq::empty()
    } else if !is_lead(units[0]) && !is_trail(units[0]) {
        seq![units[0] as char] + utf16_lossy(units.skip(1))
    } else if is_lead(units[0]) && units.len() > 1 && is_trail(units[1]) {
        seq![paired(units[0], units[1]) as char] + utf16_lossy(units.skip(2))
    } else {
        seq!['\u{FFFD}'] + utf16_lossy(units.skip(1))
    }
}

/// The characters with the Unicode property White_Space.
pub open spec fn is_white_space(c: char) -> bool {
    let code = c as int;
    ||| 0x9 <= code <= 0xD
    ||| code == 0x20
    ||| code == 0x85
    ||| code == 0xA0
    ||| code == 0x1680
    ||| 0x2000 <= code <= 0x200A
    ||| code == 0x2028
    ||| code == 0x2029
    ||| code == 0x202F
    ||| code == 0x205F
    ||| code == 0x3000
}

/// A text without the white space at its end.
pub open spec fn trimmed_end(s: Seq<char>) -> Seq<char>
    decreases s.len(),
{
    if s.len() > 0 && is_white_space(s.last()) {
        trimmed_end(s.drop_last())
    } else {
        s
    }
}

/// The character of a decimal digit.
pub open spec fn digit(n: nat) -> char {
    (0x30 + n) as char
}

/// The decimal notation of a natural number.
pub open spec fn decimal(n: nat) -> Seq<char>
    decreases n,
{
    if n < 10 {
        seq![digit(n)]
    } else {
        decimal(n / 10).push(digit(n % 10))
    }
}

/// The decimal notation of an integer, with `-` in front of a negative one.
pub open spec fn signed_decimal(n: int) -> Seq<char> {
    if n < 0 {
        seq!['-'] + decimal((-n) as nat)
    } else {
        decimal(n as nat)
    }
}

/// `String::push` appends the character to the text.
pub assume_specification[ String::push ](text: &mut String, c: char)
    ensures
        final(text)@ == old(text)@.push(c),
;

/// `char::from_u32` gives the character with that code, and `None` for a surrogate or a
/// number above U+10FFFF.
pub assume_specification[ char::from_u32 ](code: u32) -> (c: Option<char>)
    ensures
        c is Some <==> code < 0xD800 || 0xE000 <= code <= 0x10FFFF,
        c matches Some(c) ==> c as u32 == code,
;

/// `char::is_whitespace` tells the characters with the property White_Space.
pub assume_specification[ char::is_whitespace ](c: char) -> (b: bool)
    ensures
        b == is_white_space(c),
;

proof fn lemma_code(c: char)
    ensures
        c as int == c as u32,
        c as u32 <= 0x10FFFF,
        !(0xD800 <= c as u32 <= 0xDFFF),
{
}

/// The characters of a text.
pub fn chars_of(s: &str) -> (chars: Vec<char>)
    ensures
        chars@ == s@,
{
    let mut chars: Vec<char> = Vec::new();
    for c in it: s.chars()
        invariant
            it.seq() == s@,
            chars@ == s@.take(it.index()),
    {
        chars.push(c);
    }
    chars
}

/// The text made of some characters.
pub fn string_of(chars: &[char]) -> (s: String)
    ensures
        s@ == chars@,
{
    let mut s = String::new();
    let mut i: usize = 0;
    while i < chars.len()
        invariant
            i <= chars@.len(),
            s@ == chars@.take(i as int),
        decreases chars@.len() - i,
    {
        s.push(chars[i]);
        i += 1;
    }
    s
}

/// Encodes a text as UTF-16.
pub fn encode_utf16(s: &str) -> (units: Vec<u16>)
    ensures
        units@ == utf16(s@),
{
    let chars = chars_of(s);
    let mut units: Vec<u16> = Vec::new();
    let mut i: usize = 0;
    proof {
        assert(s@.skip(0) == s@);
    }
    while i < chars.len()
        invariant
            i <= chars@.len(),
            chars@ == s@,
            units@ + utf16(s@.skip(i as int)) == utf16(s@),
        decreases chars@.len() - i,
    {
        let c = chars[i];
        let code = c as u32;
        proof {
            lemma_code(c);
            assert(s@.skip(i as int).skip(1) == s@.skip(i + 1));
            assert(utf16(s@.skip(i as int)) == utf16_of(s@[i as int]) + utf16(s@.skip(i + 1)));
        }
        let ghost before = units@;
        if code < 0x10000 {
            units.push(code as u16);
        } else {
            let rest: u32 = code - 0x10000;
            units.push((0xD800 + rest / 0x400) as u16);
            units.push((0xDC00 + rest % 0x400) as u16);
        }
        proof {
            assert(units@ == before + utf16_of(c));
        }
        i += 1;
    }
    units
}

/// Decodes UTF-16, with U+FFFD for each unpaired surrogate.
pub fn decode_utf16_lossy(units: &[u16]) -> (s: String)
    ensures
        s@ == utf16_lossy(units@),
{
    let mut s = String::new();
    let mut i: usize = 0;
    proof {
        assert(units@.skip(0) == units@);
    }
    while i < units.len()
        invariant
            i <= units@.len(),
            s@ + utf16_lossy(units@.skip(i as int)) == utf16_lossy(units@),
        decreases units@.len() - i,
    {
        let unit = units[i];
        let ghost rest = units@.skip(i as int);
        let ghost before = s@;
        proof {
            assert(rest.skip(1) == units@.skip(i + 1));
        }
        if unit < 0xD800 || unit >= 0xE000 {
            if let Some(c) = char::from_u32(unit as u32) {
                proof {
                    vstd::utf8::char_u32_cast(c, unit as u32);
                }
                s.push(c);
            }
            proof {
                assert(s@ == before + seq![unit as char]);
            }
            i += 1;
        } else if unit < 0xDC00 && units.len() - i > 1 && units[i + 1] >= 0xDC00 && units[i + 1]
            < 0xE000 {
            let code: u32 = 0x10000 + (unit as u32 - 0xD800) * 0x400 + (units[i + 1] as u32
                - 0xDC00);
            if let Some(c) = char::from_u32(code) {
                proof {
                    vstd::utf8::char_u32_cast(c, code);
                }
                s.push(c);
            }
            proof {
                assert(rest.skip(2) == units@.skip(i + 2));
                assert(rest[1] == units@[i + 1]);
                assert(code == paired(unit, rest[1]));
                assert(s@ == before + seq![paired(unit, rest[1]) as char]);
            }
            i += 2;
        } else {
            s.push('\u{FFFD}');
            proof {
                assert(s@ == before + seq!['\u{FFFD}']);
            }
            i += 1;
        }
    }
    s
}

/// A text without the white space at its end.
pub fn trim_end(s: &str) -> (trimmed: String)
    ensures
        trimmed@ == trimmed_end(s@),
{
    let mut chars = chars_of(s);
    proof {
        assert(s@.take(s@.len() as int) == s@);
    }
    while chars.len() > 0 && chars[chars.len() - 1].is_whitespace()
        invariant
            trimmed_end(chars@) == trimmed_end(s@),
        decreases chars@.len(),
    {
        chars.pop();
    }
    string_of(chars.as_slice())
}

/// Appends the decimal notation of `n`.
fn push_decimal(text: &mut String, n: u64)
    ensures
        final(text)@ == old(text)@ + decimal(n as nat),
    decreases n,
{
    if n >= 10 {
        push_decimal(text, n / 10);
    }
    let c = (0x30u8 + (n % 10) as u8) as char;
    text.push(c);
}

/// The decimal notation of `n`.
pub fn decimal_string(n: i64) -> (text: String)
    ensures
        text@ == signed_decimal(n as int),
{
    let mut text = String::new();
    if n < 0 {
        text.push('-');
        let size: u64 = (-(n + 1)) as u64 + 1;
        push_decimal(&mut text, size);
    } else {
        push_decimal(&mut text, n as u64);
    }
    text
}

/// Decoding gives back every text that was encoded.
pub proof fn law_utf16_round_trip(s: Seq<char>)
    ensures
        utf16_lossy(utf16(s)) == s,
    decreases s.len(),
{
    if s.len() > 0 {
        let c = s[0];
        let rest = utf16(s.skip(1));
        let units = utf16(s);
        lemma_code(c);
        law_utf16_round_trip(s.skip(1));
        assert(seq![c] + s.skip(1) == s);
        if (c as int) < 0x10000 {
            assert(units.skip(1) == rest);
            assert(units[0] as char == c);
        } else {
            assert(units.skip(2) == rest);
            assert(paired(units[0], units[1]) == c as int);
            assert(paired(units[0], units[1]) as char == c);
        }
    }
}

/// The number that decimal digits stand for.
pub open spec fn number(digits: Seq<char>) -> int
    decreases digits.len(),
{
    if digits.len() == 0 {
        0
    } else {
        10 * number(digits.drop_last()) + (digits.last() as int - 0x30)
    }
}

/// Decimal notation is made of digits and gives the number back.
pub proof fn law_decimal_is_read_back(n: nat)
    ensures
        number(decimal(n)) == n,
        decimal(n).len() > 0,
        forall|i: int| 0 <= i < decimal(n).len() ==> '0' <= #[trigger] decimal(n)[i] <= '9',
    decreases n,
{
    reveal_with_fuel(number, 2);
    assert(n % 10 < 10);
    assert(digit(n % 10) as int == 0x30 + n % 10);
    if n < 10 {
        assert(decimal(n).drop_last() =~= Seq::empty());
    } else {
        law_decimal_is_read_back(n / 10);
        assert(decimal(n).drop_last() =~= decimal(n / 10));
        assert forall|i: int| 0 <= i < decimal(n).len() implies '0' <= #[trigger] decimal(n)[i]
            <= '9' by {
            if i < decimal(n / 10).len() {
                assert(decimal(n)[i] == decimal(n / 10)[i]);
            }
        }
    }
}

/// Different numbers have different notations.
pub proof fn law_decimals_differ(a: int, b: int)
    requires
        a != b,
    ensures
        signed_decimal(a) != signed_decimal(b),
{
    let x = if a < 0 {
        (-a) as nat
    } else {
        a as nat
    };
    let y = if b < 0 {
        (-b) as nat
    } else {
        b as nat
    };
    law_decimal_is_read_back(x);
    law_decimal_is_read_back(y);
    assert(decimal(x)[0] != '-');
    assert(decimal(y)[0] != '-');
    if signed_decimal(a) == signed_decimal(b) {
        assert(signed_decimal(a)[0] == signed_decimal(b)[0]);
        if a < 0 {
            assert(signed_decimal(a).skip(1) =~= decimal(x));
            assert(signed_decimal(b).skip(1) =~= decimal(y));
        }
    }
}

/// The UTF-16 form of two texts one after the other is that of the one and that of the other.
pub proof fn law_utf16_of_joined_texts(s: Seq<char>, t: Seq<char>)
    ensures
        utf16(s + t) == utf16(s) + utf16(t),
    decreases s.len(),
{
    if s.len() == 0 {
        assert(s + t == t);
    } else {
        law_utf16_of_joined_texts(s.skip(1), t);
        assert((s + t).skip(1) == s.skip(1) + t);
        assert((s + t)[0] == s[0]);
        assert(utf16_of(s[0]) + (utf16(s.skip(1)) + utf16(t)) == (utf16_of(s[0]) + utf16(s.skip(1)))
            + utf16(t));
    }
}

/// A character up to U+FFFF is one UTF-16 unit, its code; any other is two, which hold the upper
/// and the lower ten bits of what its code is above U+FFFF.
pub proof fn law_utf16_of_a_character(c: char)
    ensures
        c as int <= 0xFFFF ==> utf16(seq![c]).len() == 1 && utf16(seq![c])[0] as int == c as int,
        c as int > 0xFFFF ==> {
            &&& utf16(seq![c]).len() == 2
            &&& 0xD800 <= utf16(seq![c])[0] <= 0xDBFF
            &&& 0xDC00 <= utf16(seq![c])[1] <= 0xDFFF
            &&& (utf16(seq![c])[0] - 0xD800) * 1024 + (utf16(seq![c])[1] - 0xDC00) == c as int
                - 0x10000
        },
{
    lemma_code(c);
    assert(utf16(seq![c].skip(1)) =~= Seq::empty());
    assert(utf16(seq![c]) =~= utf16_of(c));
}

/// A unit that is no surrogate is read as the character with that code, wherever it stands.
pub proof fn law_plain_unit_is_read(unit: u16, rest: Seq<u16>)
    requires
        unit < 0xD800 || 0xDFFF < unit,
    ensures
        utf16_lossy(seq![unit] + rest).len() == 1 + utf16_lossy(rest).len(),
        utf16_lossy(seq![unit] + rest)[0] as int == unit as int,
        utf16_lossy(seq![unit] + rest).skip(1) == utf16_lossy(rest),
{
    let units = seq![unit] + rest;
    assert(units.skip(1) =~= rest);
    assert(utf16_lossy(units).skip(1) =~= utf16_lossy(rest));
}

/// A lead surrogate before a trail surrogate is read with it as one character.
pub proof fn law_pair_is_read(lead: u16, trail: u16, rest: Seq<u16>)
    requires
        0xD800 <= lead <= 0xDBFF,
        0xDC00 <= trail <= 0xDFFF,
    ensures
        utf16_lossy(seq![lead, trail] + rest).len() == 1 + utf16_lossy(rest).len(),
        utf16_lossy(seq![lead, trail] + rest)[0] as int == 0x10000 + (lead - 0xD800) * 1024 + (trail
            - 0xDC00),
        utf16_lossy(seq![lead, trail] + rest).skip(1) == utf16_lossy(rest),
{
    let units = seq![lead, trail] + rest;
    assert(units.skip(2) =~= rest);
    assert(units[0] == lead && units[1] == trail);
    assert(utf16_lossy(units).skip(1) =~= utf16_lossy(rest));
}

/// A surrogate without its other half is read as U+FFFD, and what follows as if it stood alone.
pub proof fn law_half_of_a_pair_is_replaced(unit: u16, rest: Seq<u16>)
    requires
        0xD800 <= unit <= 0xDFFF,
        unit <= 0xDBFF ==> rest.len() == 0 || !(0xDC00 <= rest[0] <= 0xDFFF),
    ensures
        utf16_lossy(seq![unit] + rest) == seq!['\u{FFFD}'] + utf16_lossy(rest),
{
    let units = seq![unit] + rest;
    assert(units.skip(1) =~= rest);
    assert(units.len() > 1 ==> units[1] == rest[0]);
}

/// Only white space is dropped at the end of a text, and all of it is.
pub proof fn law_white_space_is_trimmed(s: Seq<char>)
    ensures
        trimmed_end(s).is_prefix_of(s),
        forall|i: int|
            trimmed_end(s).len() <= i < s.len() ==> is_white_space(#[trigger] s[i]),
        trimmed_end(s).len() > 0 ==> !is_white_space(trimmed_end(s).last()),
    decreases s.len(),
{
    if s.len() > 0 && is_white_space(s.last()) {
        law_white_space_is_trimmed(s.drop_last());
        assert forall|i: int| trimmed_end(s).len() <= i < s.len() implies is_white_space(
            #[trigger] s[i],
        ) by {
            if i < s.len() - 1 {
                assert(s.drop_last()[i] == s[i]);
            }
        }
    }
}

/// Among the characters up to U+00FF, white space is the six control characters that space text
/// out, the space and the space that does not break.
pub proof fn law_common_white_space(c: char)
    requires
        c as int <= 0xFF,
    ensures
        is_white_space(c) <==> c == '\t' || c == '\n' || c == '\u{B}' || c == '\u{C}' || c == '\r'
            || c == ' ' || c == '\u{85}' || c == '\u{A0}',
{
}

/// Decimal notation does not begin with zero, but for zero itself.
pub proof fn law_decimal_has_no_leading_zero(n: nat)
    ensures
        decimal(n).len() > 0,
        n > 0 ==> decimal(n)[0] != '0',
        n == 0 ==> decimal(n) == seq!['0'],
    decreases n,
{
    assert(digit(n % 10) as int == 0x30 + n % 10);
    if n >= 10 {
        law_decimal_has_no_leading_zero(n / 10);
        assert(decimal(n)[0] == decimal(n / 10)[0]);
    } else {
        assert(digit(n) as int == 0x30 + n);
    }
}

/// A negative number is written as its size after `-`, and any other as its size alone.
pub proof fn law_sign_is_written(n: int)
    ensures
        n < 0 ==> signed_decimal(n)[0] == '-' && number(signed_decimal(n).skip(1)) == -n && forall|
            i: int,
        |
            1 <= i < signed_decimal(n).len() ==> '0' <= #[trigger] signed_decimal(n)[i] <= '9',
        n < 0 ==> signed_decimal(n).len() > 1 && signed_decimal(n)[1] != '0',
        n >= 0 ==> number(signed_decimal(n)) == n && forall|i: int|
            0 <= i < signed_decimal(n).len() ==> '0' <= #[trigger] signed_decimal(n)[i] <= '9',
        n > 0 ==> signed_decimal(n)[0] != '0',
        n == 0 ==> signed_decimal(n) == seq!['0'],
{
    let size = if n < 0 {
        (-n) as nat
    } else {
        n as nat
    };
    law_decimal_is_read_back(size);
    law_decimal_has_no_leading_zero(size);
    if n < 0 {
        assert(signed_decimal(n).skip(1) =~= decimal(size));
        assert forall|i: int| 1 <= i < signed_decimal(n).len() implies '0'
            <= #[trigger] signed_decimal(n)[i] <= '9' by {
            assert(signed_decimal(n)[i] == decimal(size)[i - 1]);
        }
    }
}

} // verus!
