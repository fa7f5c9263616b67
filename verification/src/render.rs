//! The text of each attribute of a character.

use crate::selector::Display;
use crate::text::{
    chars_of, decimal, digit, digit_char, hex_len, hex_value, is_lower_hex_digit, is_upper_hex_digit,
    lemma_decimal, lemma_digit_char, lemma_hex_value_ordered, lemma_hex_value_zeros,
    lemma_upper_hex, lemma_upper_hex_len, precedes, push_decimal, push_repeat, push_upper_hex,
    repeat, smaller_at, upper_hex,
};
use crate::ucd::{
    age_of, block_name, block_name_of, category_abbr_of, general_category_abbr,
    has_case_ignorable, has_cased, has_changes_when_casefolded, has_changes_when_casemapped,
    has_changes_when_lowercased, has_changes_when_titlecased, has_changes_when_uppercased,
    has_lowercase, has_uppercase, unicode_age, Version,
};
use vstd::prelude::*;
use vstd::string::*;
use vstd::utf8::*;

verus! {

/// The number of hexadecimal digits that a code point is shown with, given
/// the number of digits of its numeral: at least four, and even.
pub open spec fn code_point_digits(len: nat) -> nat {
    if len < 4 {
        4
    } else {
        len + len % 2
    }
}

/// The text of the code point `n`: `U+`, then the upper-case hexadecimal
/// numeral of `n`, with zeros in front to make up four digits, or an even
/// number of digits where it has more than four.
pub open spec fn code_point_text(n: u32) -> Seq<char> {
    let hex = upper_hex(n as nat);
    seq!['U', '+'] + repeat('0', (code_point_digits(hex.len()) - hex.len()) as nat) + hex
}

/// Renders the code point of `c`, as in `U+E621`.
pub fn render_code_point(c: char) -> (r: String)
    ensures
        r@ == code_point_text(c as u32),
{
    let mut hex = String::new();
    push_upper_hex(&mut hex, c as u32);
    let len: usize = hex.as_str().unicode_len();
    proof {
        lemma_upper_hex_len(c as u32);
    }
    let digits: usize = if len < 4 { 4 } else { len + len % 2 };
    let mut r = String::new();
    r.push('U');
    r.push('+');
    push_repeat(&mut r, '0', digits - len);
    r.append(hex.as_str());
    r
}

/// The shape of a code point's text: `U+`, then an even number of
/// hexadecimal digits, at least four and no more than are needed for that,
/// which stand for the code point.
pub proof fn lemma_code_point_text(n: u32)
    ensures
        code_point_text(n).len() == 2 + code_point_digits(hex_len(n)),
        code_point_digits(hex_len(n)) % 2 == 0,
        4 <= code_point_digits(hex_len(n)) <= 8,
        n <= 0xFFFF <==> code_point_digits(hex_len(n)) == 4,
        n <= 0x10FFFF ==> code_point_digits(hex_len(n)) <= 6,
        code_point_text(n)[0] == 'U',
        code_point_text(n)[1] == '+',
        forall|i: int|
            2 <= i < code_point_text(n).len() ==> is_upper_hex_digit(
                #[trigger] code_point_text(n)[i],
            ),
        hex_value(code_point_text(n).skip(2)) == n,
        n > 0xFFFF ==> !(code_point_text(n)[2] == '0' && code_point_text(n)[3] == '0'),
{
    let hex = upper_hex(n as nat);
    let zeros = repeat('0', (code_point_digits(hex.len()) - hex.len()) as nat);
    lemma_upper_hex_len(n);
    lemma_upper_hex(n as nat);
    lemma_hex_value_zeros(zeros.len(), hex);
    assert(code_point_text(n).skip(2) == zeros + hex);
    assert forall|i: int| 2 <= i < code_point_text(n).len() implies is_upper_hex_digit(
        #[trigger] code_point_text(n)[i],
    ) by {
        if i - 2 >= zeros.len() {
            assert(code_point_text(n)[i] == hex[i - 2 - zeros.len()]);
        }
    }
    if n > 0xFFFF {
        if zeros.len() == 0 {
            assert(code_point_text(n)[2] == hex[0]);
        } else {
            assert(code_point_text(n)[3] == hex[0]);
        }
    }
}

/// Rendering a code point twice gives the same text, and two code points
/// with the same text are one code point.
pub proof fn lemma_code_point_text_one_to_one(a: u32, b: u32)
    ensures
        a == b <==> code_point_text(a) == code_point_text(b),
{
    lemma_code_point_text(a);
    lemma_code_point_text(b);
}

/// The texts of code points are ordered as the code points are: the text of
/// the smaller one is shorter, or as long and smaller at the first character
/// that differs.
pub proof fn lemma_code_point_text_ordered(a: u32, b: u32)
    requires
        a < b,
    ensures
        precedes(code_point_text(a), code_point_text(b)),
{
    let text_a = code_point_text(a);
    let text_b = code_point_text(b);
    lemma_code_point_text(a);
    lemma_code_point_text(b);
    if text_a.len() == text_b.len() {
        let digits_a = text_a.skip(2);
        let digits_b = text_b.skip(2);
        assert forall|i: int| 0 <= i < digits_a.len() implies is_upper_hex_digit(
            #[trigger] digits_a[i],
        ) by {
            assert(digits_a[i] == text_a[i + 2]);
        }
        assert forall|i: int| 0 <= i < digits_b.len() implies is_upper_hex_digit(
            #[trigger] digits_b[i],
        ) by {
            assert(digits_b[i] == text_b[i + 2]);
        }
        lemma_hex_value_ordered(digits_a, digits_b);
        let i = choose|i: int| smaller_at(digits_a, digits_b, i);
        assert(text_a.take(i + 2) == seq!['U', '+'] + digits_a.take(i));
        assert(text_b.take(i + 2) == seq!['U', '+'] + digits_b.take(i));
        assert(smaller_at(text_a, text_b, i + 2));
    }
}

/// Each byte of `bytes` as two lower-case hexadecimal digits, the high one
/// first.
pub open spec fn hex_pairs(bytes: Seq<u8>) -> Seq<char> {
    Seq::new(
        2 * bytes.len(),
        |i: int|
            if i % 2 == 0 {
                digit_char((bytes[i / 2] / 16) as nat, false)
            } else {
                digit_char((bytes[i / 2] % 16) as nat, false)
            },
    )
}

/// The text of the UTF-8 encoding of `c`: its bytes as pairs of hexadecimal
/// digits, between angle brackets.
pub open spec fn encoding_text(c: char) -> Seq<char> {
    seq!['<'] + hex_pairs(encode_scalar(c as u32)) + seq!['>']
}

/// Renders the UTF-8 encoding of `c`, as in `<ee98a1>`.
pub fn render_encoding(c: char) -> (r: String)
    ensures
        r@ == encoding_text(c),
{
    let mut one = String::new();
    one.push(c);
    let bytes = one.as_str().as_bytes();
    proof {
        reveal_with_fuel(encode_utf8, 2);
        assert(one@.drop_first().len() == 0);
        assert(bytes@ == encode_scalar(c as u32));
    }
    let mut r = String::new();
    r.push('<');
    let mut i: usize = 0;
    while i < bytes.len()
        invariant
            i <= bytes.len(),
            r@ == seq!['<'] + hex_pairs(bytes@.take(i as int)),
        decreases bytes.len() - i,
    {
        let b: u8 = bytes[i];
        r.push(digit(b / 16, false));
        r.push(digit(b % 16, false));
        assert(hex_pairs(bytes@.take(i + 1)) == hex_pairs(bytes@.take(i as int)).push(
            digit_char((b / 16) as nat, false),
        ).push(digit_char((b % 16) as nat, false)));
        i = i + 1;
    }
    assert(bytes@.take(i as int) == bytes@);
    r.push('>');
    r
}

/// The shape of an encoding's text: an opening bracket, two lower-case
/// hexadecimal digits for each byte of the UTF-8 encoding, of which there
/// are one to four, and a closing bracket.
pub proof fn lemma_encoding_text(c: char)
    ensures
        1 <= encode_scalar(c as u32).len() <= 4,
        encode_scalar(c as u32).len() == if c as u32 <= 0x7F {
            1nat
        } else if c as u32 <= 0x7FF {
            2nat
        } else if c as u32 <= 0xFFFF {
            3nat
        } else {
            4nat
        },
        encoding_text(c).len() == 2 * encode_scalar(c as u32).len() + 2,
        encoding_text(c)[0] == '<',
        encoding_text(c).last() == '>',
        forall|i: int|
            0 <= i < encode_scalar(c as u32).len() ==> {
                &&& #[trigger] encoding_text(c)[1 + 2 * i] == digit_char(
                    (encode_scalar(c as u32)[i] / 16) as nat,
                    false,
                )
                &&& encoding_text(c)[2 + 2 * i] == digit_char(
                    (encode_scalar(c as u32)[i] % 16) as nat,
                    false,
                )
            },
        forall|i: int|
            1 <= i < encoding_text(c).len() - 1 ==> is_lower_hex_digit(
                #[trigger] encoding_text(c)[i],
            ),
{
    let bytes = encode_scalar(c as u32);
    let pairs = hex_pairs(bytes);
    assert forall|i: int| 0 <= i < bytes.len() implies {
        &&& #[trigger] encoding_text(c)[1 + 2 * i] == digit_char((bytes[i] / 16) as nat, false)
        &&& encoding_text(c)[2 + 2 * i] == digit_char((bytes[i] % 16) as nat, false)
    } by {
        assert(encoding_text(c)[1 + 2 * i] == pairs[2 * i]);
        assert(encoding_text(c)[2 + 2 * i] == pairs[2 * i + 1]);
    }
    assert forall|i: int| 1 <= i < encoding_text(c).len() - 1 implies is_lower_hex_digit(
        #[trigger] encoding_text(c)[i],
    ) by {
        assert(encoding_text(c)[i] == pairs[i - 1]);
        let b = bytes[(i - 1) / 2];
        lemma_digit_char((b / 16) as nat, false);
        lemma_digit_char((b % 16) as nat, false);
    }
}

/// The text of an age: `v`, then the three numbers of the version with a dot
/// between them; for a character without an age, the words that say so.
pub open spec fn age_text(age: Option<Version>) -> Seq<char> {
    match age {
        Some(version) => seq!['v'] + decimal(version.major as nat) + seq!['.'] + decimal(
            version.minor as nat,
        ) + seq!['.'] + decimal(version.micro as nat),
        None => "(unknown version)"@,
    }
}

/// Renders the age of a character, as in `v1.1.0`.
pub fn render_age(age: Option<Version>) -> (r: String)
    ensures
        r@ == age_text(age),
{
    match age {
        Some(version) => {
            let mut r = String::new();
            r.push('v');
            push_decimal(&mut r, version.major);
            r.push('.');
            push_decimal(&mut r, version.minor);
            r.push('.');
            push_decimal(&mut r, version.micro);
            r
        },
        None => "(unknown version)".to_owned(),
    }
}

/// A character without an age is shown by the words `(unknown version)`,
/// and any age by a text that is not empty.
pub proof fn lemma_age_text(age: Option<Version>)
    ensures
        age is None ==> age_text(age) == "(unknown version)"@,
        age is None ==> age_text(age).len() == 17,
        age_text(age).len() >= 6,
        age is Some ==> age_text(age)[0] == 'v',
{
    reveal_strlit("(unknown version)");
    if let Some(version) = age {
        lemma_decimal(version.major as nat);
        lemma_decimal(version.minor as nat);
        lemma_decimal(version.micro as nat);
    }
}

/// The text of a block: its name between square brackets; for a character
/// outside every block, the words that say so.
pub open spec fn block_text(name: Option<Seq<char>>) -> Seq<char> {
    match name {
        Some(name) => seq!['['] + name + seq![']'],
        None => "(unknown block)"@,
    }
}

/// Renders the block of a character, as in `[Private Use Area]`.
pub fn render_block(name: Option<&str>) -> (r: String)
    ensures
        r@ == block_text(chars_of(name)),
{
    match name {
        Some(name) => {
            let mut r = String::new();
            r.push('[');
            r.append(name);
            r.push(']');
            r
        },
        None => "(unknown block)".to_owned(),
    }
}

/// A character outside every block is shown by the words `(unknown block)`,
/// and a block by its name between brackets.
pub proof fn lemma_block_text(name: Option<Seq<char>>)
    ensures
        name is None ==> block_text(name) == "(unknown block)"@,
        name is None ==> block_text(name).len() == 15,
        name matches Some(n) ==> block_text(name).len() == n.len() + 2,
        block_text(name).len() >= 2,
{
    reveal_strlit("(unknown block)");
}

/// The letters that stand for the nine case properties, in the order in which
/// they are shown.
pub open spec fn case_markers() -> Seq<char> {
    seq!['i', 'c', 'f', 'm', 'l', 'u', 't', 'L', 'U']
}

/// The text of nine case properties: between parentheses, for each property
/// its letter where the character has it, and a space where it has not.
pub open spec fn case_text(flags: Seq<bool>) -> Seq<char> {
    seq!['('] + Seq::new(
        9,
        |i: int|
            if flags[i] {
                case_markers()[i]
            } else {
                ' '
            },
    ) + seq![')']
}

/// Renders the case properties of a character, as in `( c m utL )`.
pub fn render_case(flags: &[bool; 9]) -> (r: String)
    ensures
        r@ == case_text(flags@),
{
    let markers: [char; 9] = ['i', 'c', 'f', 'm', 'l', 'u', 't', 'L', 'U'];
    assert(markers@ == case_markers());
    let mut r = String::new();
    r.push('(');
    let mut i: usize = 0;
    while i < 9
        invariant
            i <= 9,
            markers@ == case_markers(),
            r@ == seq!['('] + Seq::new(
                i as nat,
                |k: int|
                    if flags@[k] {
                        case_markers()[k]
                    } else {
                        ' '
                    },
            ),
        decreases 9 - i,
    {
        if flags[i] {
            r.push(markers[i]);
        } else {
            r.push(' ');
        }
        i = i + 1;
    }
    r.push(')');
    r
}

/// The shape of the text of the case properties: nine characters between
/// parentheses, the one at each place either the letter of that place or a
/// space, as the property of that place holds or not.
pub proof fn lemma_case_text(flags: Seq<bool>)
    ensures
        case_text(flags).len() == 11,
        case_text(flags)[0] == '(',
        case_text(flags)[10] == ')',
        forall|i: int|
            0 <= i < 9 ==> #[trigger] case_text(flags)[i + 1] == if flags[i] {
                case_markers()[i]
            } else {
                ' '
            },
{
}

/// The nine case properties of `c`, in the order in which they are shown.
pub open spec fn case_flags(c: char) -> Seq<bool> {
    seq![
        has_case_ignorable(c),
        has_cased(c),
        has_changes_when_casefolded(c),
        has_changes_when_casemapped(c),
        has_changes_when_lowercased(c),
        has_changes_when_uppercased(c),
        has_changes_when_titlecased(c),
        has_lowercase(c),
        has_uppercase(c),
    ]
}

/// Looks up the nine case properties of `c`.
pub fn case_flags_of(c: char) -> (r: [bool; 9])
    ensures
        r@ == case_flags(c),
{
    [
        unic_ucd::case::case_ignorable::is_case_ignorable(c),
        unic_ucd::case::cased::is_cased(c),
        unic_ucd::case::changes_when_casefolded::changes_when_casefolded(c),
        unic_ucd::case::changes_when_casemapped::changes_when_casemapped(c),
        unic_ucd::case::changes_when_lowercased::changes_when_lowercased(c),
        unic_ucd::case::changes_when_uppercased::changes_when_uppercased(c),
        unic_ucd::case::changes_when_titlecased::changes_when_titlecased(c),
        unic_ucd::case::lowercase::is_lowercase(c),
        unic_ucd::case::uppercase::is_uppercase(c),
    ]
}

impl Display {
    /// The text of this attribute of `c`.
    pub open spec fn text(self, c: char) -> Seq<char> {
        match self {
            Display::CodePoint => code_point_text(c as u32),
            Display::Encoding => encoding_text(c),
            Display::Age => age_text(unicode_age(c)),
            Display::Category => general_category_abbr(c),
            Display::Block => block_text(block_name(c)),
            Display::Case => case_text(case_flags(c)),
        }
    }

    /// Renders this attribute of `c`.
    pub fn info_for(&self, c: char) -> (r: String)
        ensures
            r@ == self.text(c),
            *self == Display::Category ==> r@.len() == 2,
    {
        match self {
            Display::CodePoint => render_code_point(c),
            Display::Encoding => render_encoding(c),
            Display::Age => render_age(age_of(c)),
            Display::Category => category_abbr_of(c).to_owned(),
            Display::Block => render_block(block_name_of(c)),
            Display::Case => {
                let flags = case_flags_of(c);
                render_case(&flags)
            },
        }
    }
}

/// A character of which the age or the block is not known is shown by the
/// words that say so, and neither attribute is ever shown by an empty text.
pub proof fn lemma_unknown_text(c: char)
    ensures
        unicode_age(c) is None ==> Display::Age.text(c) == "(unknown version)"@,
        block_name(c) is None ==> Display::Block.text(c) == "(unknown block)"@,
        Display::Age.text(c).len() > 0,
        Display::Block.text(c).len() > 0,
{
    lemma_age_text(unicode_age(c));
    lemma_block_text(block_name(c));
}

} // verus!
