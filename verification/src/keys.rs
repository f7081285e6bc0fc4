//! The key mapper: from the label of a key, as a client names it, to the code
//! that the input device knows it by and whether shift has to be held.
//!
//! Codes are those of the Linux input event interface.

use crate::text::same_text;
use vstd::prelude::*;

verus! {

pub const KEY_BACKSPACE: u16 = 14;

pub const KEY_Q: u16 = 16;

pub const KEY_W: u16 = 17;

pub const KEY_E: u16 = 18;

pub const KEY_R: u16 = 19;

pub const KEY_T: u16 = 20;

pub const KEY_Y: u16 = 21;

pub const KEY_U: u16 = 22;

pub const KEY_I: u16 = 23;

pub const KEY_O: u16 = 24;

pub const KEY_P: u16 = 25;

pub const KEY_ENTER: u16 = 28;

pub const KEY_A: u16 = 30;

pub const KEY_S: u16 = 31;

pub const KEY_D: u16 = 32;

pub const KEY_F: u16 = 33;

pub const KEY_G: u16 = 34;

pub const KEY_H: u16 = 35;

pub const KEY_J: u16 = 36;

pub const KEY_K: u16 = 37;

pub const KEY_L: u16 = 38;

pub const KEY_LEFTSHIFT: u16 = 42;

pub const KEY_Z: u16 = 44;

pub const KEY_X: u16 = 45;

pub const KEY_C: u16 = 46;

pub const KEY_V: u16 = 47;

pub const KEY_B: u16 = 48;

pub const KEY_N: u16 = 49;

pub const KEY_M: u16 = 50;

pub const KEY_DOT: u16 = 52;

pub const KEY_SPACE: u16 = 57;

pub const KEY_LEFTMETA: u16 = 125;

/// The primary pointer button.
pub const BTN_LEFT: u16 = 0x110;

/// The digit keys occupy ten consecutive codes from this one, in the order
/// `0` to `9`.
pub const KEY_NUMERIC_0: u16 = 0x200;

/// One key of the device, and whether shift is held while it is clicked.
#[derive(Clone, Copy, Debug, PartialEq, Eq, Structural)]
pub struct KeyStroke {
    pub code: u16,
    pub shift: bool,
}

/// The code of the letter at position `i` of the alphabet, counted from 0.
pub open spec fn letter_key(i: int) -> u16 {
    if i == 0 {
        KEY_A
    } else if i == 1 {
        KEY_B
    } else if i == 2 {
        KEY_C
    } else if i == 3 {
        KEY_D
    } else if i == 4 {
        KEY_E
    } else if i == 5 {
        KEY_F
    } else if i == 6 {
        KEY_G
    } else if i == 7 {
        KEY_H
    } else if i == 8 {
        KEY_I
    } else if i == 9 {
        KEY_J
    } else if i == 10 {
        KEY_K
    } else if i == 11 {
        KEY_L
    } else if i == 12 {
        KEY_M
    } else if i == 13 {
        KEY_N
    } else if i == 14 {
        KEY_O
    } else if i == 15 {
        KEY_P
    } else if i == 16 {
        KEY_Q
    } else if i == 17 {
        KEY_R
    } else if i == 18 {
        KEY_S
    } else if i == 19 {
        KEY_T
    } else if i == 20 {
        KEY_U
    } else if i == 21 {
        KEY_V
    } else if i == 22 {
        KEY_W
    } else if i == 23 {
        KEY_X
    } else if i == 24 {
        KEY_Y
    } else {
        KEY_Z
    }
}

/// The code of the key that carries the digit `d`.
pub open spec fn digit_key(d: int) -> u16
    recommends
        0 <= d <= 9,
{
    (KEY_NUMERIC_0 + d) as u16
}

/// The digit whose key, with shift held, produces the symbol `c`; `None` for
/// every character that is no such symbol.
pub open spec fn symbol_digit(c: char) -> Option<int> {
    if c == '=' {
        Some(0)
    } else if c == '!' {
        Some(1)
    } else if c == '"' {
        Some(2)
    } else if c == '#' {
        Some(3)
    } else if c == '%' {
        Some(5)
    } else if c == '&' {
        Some(6)
    } else if c == '/' {
        Some(7)
    } else if c == '(' {
        Some(8)
    } else if c == ')' {
        Some(9)
    } else {
        None
    }
}

/// The label, two characters long, of the symbol on the key of the digit 4.
pub open spec fn currency_label() -> Seq<char> {
    seq!['\u{c2}', '\u{a4}']
}

pub open spec fn is_small_letter(c: char) -> bool {
    'a' <= c <= 'z'
}

pub open spec fn is_capital_letter(c: char) -> bool {
    'A' <= c <= 'Z'
}

pub open spec fn is_digit(c: char) -> bool {
    '0' <= c <= '9'
}

/// What a label of one character maps to.
pub open spec fn key_for_char(c: char) -> Option<KeyStroke> {
    if is_small_letter(c) {
        Some(KeyStroke { code: letter_key(c as int - 'a' as int), shift: false })
    } else if is_capital_letter(c) {
        Some(KeyStroke { code: letter_key(c as int - 'A' as int), shift: true })
    } else if is_digit(c) {
        Some(KeyStroke { code: digit_key(c as int - '0' as int), shift: false })
    } else if symbol_digit(c) is Some {
        Some(KeyStroke { code: digit_key(symbol_digit(c).unwrap()), shift: true })
    } else if c == '.' {
        Some(KeyStroke { code: KEY_DOT, shift: false })
    } else {
        None
    }
}

/// The key mapping: what the label of a key maps to, and `None` for every
/// label that the table does not hold.
pub open spec fn key_for(label: Seq<char>) -> Option<KeyStroke> {
    if label.len() == 1 {
        key_for_char(label[0])
    } else if label == "Enter"@ {
        Some(KeyStroke { code: KEY_ENTER, shift: false })
    } else if label == "Backspace"@ {
        Some(KeyStroke { code: KEY_BACKSPACE, shift: false })
    } else if label == "Space"@ {
        Some(KeyStroke { code: KEY_SPACE, shift: false })
    } else if label == currency_label() {
        Some(KeyStroke { code: digit_key(4), shift: true })
    } else {
        None
    }
}

/// A capital letter is typed on the key of its small letter, with shift
/// held; the small letter is typed without.
pub proof fn lemma_capital_shares_key(small: char, capital: char)
    requires
        is_small_letter(small),
        capital as int == small as int - ('a' as int - 'A' as int),
    ensures
        key_for_char(small) matches Some(plain) && key_for_char(capital) == Some(
            KeyStroke { code: plain.code, shift: true },
        ) && !plain.shift,
{
}

/// A shifted symbol is typed on the key of its digit, with shift held; the
/// digit is typed without.
pub proof fn lemma_symbol_shares_digit_key(symbol: char, digit: char)
    requires
        is_digit(digit),
        symbol_digit(symbol) == Some(digit as int - '0' as int),
    ensures
        key_for_char(digit) matches Some(plain) && key_for_char(symbol) == Some(
            KeyStroke { code: plain.code, shift: true },
        ) && !plain.shift,
{
}

/// The named labels and their keys. A blank is no label: the space key goes
/// by its name.
pub proof fn lemma_named_labels()
    ensures
        key_for("Enter"@) == Some(KeyStroke { code: KEY_ENTER, shift: false }),
        key_for("Backspace"@) == Some(KeyStroke { code: KEY_BACKSPACE, shift: false }),
        key_for("Space"@) == Some(KeyStroke { code: KEY_SPACE, shift: false }),
        key_for("."@) == Some(KeyStroke { code: KEY_DOT, shift: false }),
        key_for(" "@) is None,
{
    reveal_strlit("Enter");
    reveal_strlit("Backspace");
    reveal_strlit("Space");
    reveal_strlit(".");
    reveal_strlit(" ");
    assert("Backspace"@.len() == 9 && "Enter"@.len() == 5 && "Space"@.len() == 5);
    assert("Space"@[0] == 'S' && "Enter"@[0] == 'E');
}

/// Two characters that map to the same key with the same shift are one
/// character.
pub proof fn lemma_characters_are_told_apart(a: char, b: char)
    requires
        key_for_char(a) is Some,
        key_for_char(a) == key_for_char(b),
    ensures
        a == b,
{
}

/// The table is one-to-one: two labels that map to the same key with the
/// same shift are one label.
pub proof fn lemma_labels_are_told_apart(a: Seq<char>, b: Seq<char>)
    requires
        key_for(a) is Some,
        key_for(a) == key_for(b),
    ensures
        a == b,
{
    reveal_strlit("Enter");
    reveal_strlit("Backspace");
    reveal_strlit("Space");
    assert("Backspace"@.len() == 9 && "Enter"@.len() == 5 && "Space"@.len() == 5);
    if a.len() == 1 && b.len() == 1 {
        lemma_characters_are_told_apart(a[0], b[0]);
        assert(a =~= b);
    }
}

/// No label maps to a modifier: the keys of the table are other keys than
/// shift and meta.
pub proof fn lemma_no_label_maps_to_a_modifier(label: Seq<char>)
    ensures
        key_for(label) matches Some(stroke) ==> stroke.code != KEY_LEFTSHIFT && stroke.code
            != KEY_LEFTMETA,
{
}

fn letter_code(position: u32) -> (code: u16)
    requires
        position < 26,
    ensures
        code == letter_key(position as int),
{
    match position {
        0 => KEY_A,
        1 => KEY_B,
        2 => KEY_C,
        3 => KEY_D,
        4 => KEY_E,
        5 => KEY_F,
        6 => KEY_G,
        7 => KEY_H,
        8 => KEY_I,
        9 => KEY_J,
        10 => KEY_K,
        11 => KEY_L,
        12 => KEY_M,
        13 => KEY_N,
        14 => KEY_O,
        15 => KEY_P,
        16 => KEY_Q,
        17 => KEY_R,
        18 => KEY_S,
        19 => KEY_T,
        20 => KEY_U,
        21 => KEY_V,
        22 => KEY_W,
        23 => KEY_X,
        24 => KEY_Y,
        _ => KEY_Z,
    }
}

fn digit_code(digit: u16) -> (code: u16)
    requires
        digit <= 9,
    ensures
        code == digit_key(digit as int),
{
    KEY_NUMERIC_0 + digit
}

fn symbol_to_digit(c: char) -> (digit: Option<u16>)
    ensures
        digit is Some == symbol_digit(c) is Some,
        digit is Some ==> digit.unwrap() == symbol_digit(c).unwrap() && digit.unwrap() <= 9,
{
    match c {
        '=' => Some(0),
        '!' => Some(1),
        '"' => Some(2),
        '#' => Some(3),
        '%' => Some(5),
        '&' => Some(6),
        '/' => Some(7),
        '(' => Some(8),
        ')' => Some(9),
        _ => None,
    }
}

/// Maps a label of one character.
fn map_char(c: char) -> (stroke: Option<KeyStroke>)
    ensures
        stroke == key_for_char(c),
{
    let point: u32 = c as u32;
    if 'a' <= c && c <= 'z' {
        Some(KeyStroke { code: letter_code(point - 'a' as u32), shift: false })
    } else if 'A' <= c && c <= 'Z' {
        Some(KeyStroke { code: letter_code(point - 'A' as u32), shift: true })
    } else if '0' <= c && c <= '9' {
        let digit: u16 = (point - '0' as u32) as u16;
        Some(KeyStroke { code: digit_code(digit), shift: false })
    } else if c == '.' {
        Some(KeyStroke { code: KEY_DOT, shift: false })
    } else {
        match symbol_to_digit(c) {
            Some(digit) => Some(KeyStroke { code: digit_code(digit), shift: true }),
            None => None,
        }
    }
}

/// The key mapper. A label that the table holds gives its key; any other
/// label gives `None`, and nothing is to be sent to the device for it.
pub fn map_key(label: &str) -> (stroke: Option<KeyStroke>)
    ensures
        stroke == key_for(label@),
{
    let length = label.unicode_len();
    if length == 1 {
        map_char(label.get_char(0))
    } else if same_text(label, "Enter") {
        Some(KeyStroke { code: KEY_ENTER, shift: false })
    } else if same_text(label, "Backspace") {
        Some(KeyStroke { code: KEY_BACKSPACE, shift: false })
    } else if same_text(label, "Space") {
        Some(KeyStroke { code: KEY_SPACE, shift: false })
    } else if length == 2 && label.get_char(0) == '\u{c2}' && label.get_char(1) == '\u{a4}' {
        assert(label@ =~= currency_label());
        Some(KeyStroke { code: digit_code(4), shift: true })
    } else {
        None
    }
}

} // verus!
