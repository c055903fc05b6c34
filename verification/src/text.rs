//! Text helpers: blank strings, decimal numbers and lists of texts.
use vstd::prelude::*;
use vstd::string::*;

verus! {

/// The characters with the Unicode property `White_Space`.
pub open spec fn white_space(c: char) -> bool {
    let code = c as u32;
    ||| 0x09 <= code <= 0x0d
    ||| code == 0x20
    ||| code == 0x85
    ||| code == 0xa0
    ||| code == 0x1680
    ||| 0x2000 <= code <= 0x200a
    ||| code == 0x2028
    ||| code == 0x2029
    ||| code == 0x202f
    ||| code == 0x205f
    ||| code == 0x3000
}

/// `char::is_whitespace` tells whether a character has the Unicode property
/// `White_Space`; the characters that have it are those of [`white_space`].
pub assume_specification[ char::is_whitespace ](c: char) -> (result: bool)
    ensures
        result == white_space(c),
;

/// A text with nothing but white space in it.
pub open spec fn blank(text: Seq<char>) -> bool {
    forall|i: int| 0 <= i < text.len() ==> white_space(#[trigger] text[i])
}

/// Whether trimming `text` leaves nothing.
pub fn is_blank(text: &str) -> (result: bool)
    ensures
        result == blank(text@),
{
    for c in chars: text.chars()
        invariant
            chars.seq() == text@,
            forall|i: int| 0 <= i < chars.index() ==> white_space(#[trigger] text@[i]),
    {
        if !c.is_whitespace() {
            return false;
        }
    }
    true
}

/// The texts of a list of strings.
pub open spec fn texts(strings: Seq<String>) -> Seq<Seq<char>> {
    strings.map_values(|entry: String| entry@)
}

/// The character of a decimal digit.
pub open spec fn digit_char(digit: nat) -> char {
    (48 + digit) as char
}

/// A number in decimal notation, without leading zeros.
pub open spec fn decimal_text(number: nat) -> Seq<char>
    decreases number,
{
    if number < 10 {
        seq![digit_char(number)]
    } else {
        decimal_text(number / 10).push(digit_char(number % 10))
    }
}

fn digit(value: u128) -> (text: &'static str)
    requires
        value < 10,
    ensures
        text@ == seq![digit_char(value as nat)],
{
    proof {
        reveal_strlit("0");
        reveal_strlit("1");
        reveal_strlit("2");
        reveal_strlit("3");
        reveal_strlit("4");
        reveal_strlit("5");
        reveal_strlit("6");
        reveal_strlit("7");
        reveal_strlit("8");
        reveal_strlit("9");
    }
    if value == 0 {
        "0"
    } else if value == 1 {
        "1"
    } else if value == 2 {
        "2"
    } else if value == 3 {
        "3"
    } else if value == 4 {
        "4"
    } else if value == 5 {
        "5"
    } else if value == 6 {
        "6"
    } else if value == 7 {
        "7"
    } else if value == 8 {
        "8"
    } else {
        "9"
    }
}

/// Writes `number` in decimal notation.
pub fn decimal(number: u128) -> (text: String)
    ensures
        text@ == decimal_text(number as nat),
    decreases number,
{
    if number < 10 {
        digit(number).to_owned()
    } else {
        let mut text = decimal(number / 10);
        text.append(digit(number % 10));
        proof {
            assert(seq![digit_char((number % 10) as nat)] =~= Seq::<char>::empty().push(
                digit_char((number % 10) as nat),
            ));
        }
        text
    }
}

/// Joins two texts.
pub fn joined(left: &str, right: &str) -> (text: String)
    ensures
        text@ == left@ + right@,
{
    let mut text = left.to_owned();
    text.append(right);
    text
}

/// A number in decimal notation is made of digits, at least one.
pub proof fn decimal_text_is_digits(number: nat)
    ensures
        decimal_text(number).len() > 0,
        forall|i: int|
            0 <= i < decimal_text(number).len() ==> '0' <= #[trigger] decimal_text(number)[i]
                <= '9',
    decreases number,
{
    if number >= 10 {
        decimal_text_is_digits(number / 10);
    }
}

/// Two numbers are the same where their decimal notations are.
pub proof fn decimal_text_is_injective(left: nat, right: nat)
    requires
        decimal_text(left) == decimal_text(right),
    ensures
        left == right,
    decreases left,
{
    decimal_text_is_digits(left / 10);
    decimal_text_is_digits(right / 10);
    let text = decimal_text(left);
    assert(text.last() == digit_char(left % 10));
    assert(text.last() == digit_char(right % 10));
    assert(left % 10 == right % 10);
    if left >= 10 && right >= 10 {
        assert(decimal_text(left / 10) =~= text.drop_last());
        assert(decimal_text(right / 10) =~= text.drop_last());
        decimal_text_is_injective(left / 10, right / 10);
    }
}

} // verus!
