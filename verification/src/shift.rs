//! Shifted characters after the US layout, used where no live keymap can be
//! asked.

use vstd::prelude::*;
use crate::platform::PlatformKeyboardMap;

verus! {

/// What Shift makes of a character on a US keyboard: the punctuation above
/// the digits and beside the letters, the capital of a small letter, and
/// every other character as it is.
pub open spec fn us_shifted(key: char) -> char {
    match key {
        '`' => '~',
        '1' => '!',
        '2' => '@',
        '3' => '#',
        '4' => '$',
        '5' => '%',
        '6' => '^',
        '7' => '&',
        '8' => '*',
        '9' => '(',
        '0' => ')',
        '-' => '_',
        '=' => '+',
        '[' => '{',
        ']' => '}',
        '\\' => '|',
        ';' => ':',
        '\'' => '"',
        ',' => '<',
        '.' => '>',
        '/' => '?',
        c => if 'a' <= c && c <= 'z' {
            (c as int - ('a' as int - 'A' as int)) as char
        } else {
            c
        },
    }
}

/// The low eight bits of a code, as a number from 0 to 255.
pub open spec fn low_byte(code: i64) -> int {
    code as int % 256
}

/// The shifted form of a code: none for a code of 256 or more, and otherwise
/// the shifted form of the character that the code's low byte names.
pub open spec fn shifted_code(code: i64) -> Option<i64> {
    if code < 256 {
        Some(us_shifted(low_byte(code) as char) as i64)
    } else {
        None
    }
}

/// A cast to `u8` keeps the remainder modulo 256.
proof fn lemma_low_byte(code: i64)
    ensures
        (code as u8) as int == low_byte(code),
{
    let byte: u8 = code as u8;
    let rest: i64 = code >> 8;
    assert(code == rest * 256 + (byte as i64)) by (bit_vector)
        requires
            byte == code as u8,
            rest == code >> 8,
    ;
}

impl PlatformKeyboardMap {
    /// Shifts one character as a US keyboard does.
    pub fn _shift_key(key: char) -> (shifted: char)
        ensures
            shifted == us_shifted(key),
            key as int <= 0xff ==> shifted as int <= 0xff,
    {
        match key {
            '`' => '~',
            '1' => '!',
            '2' => '@',
            '3' => '#',
            '4' => '$',
            '5' => '%',
            '6' => '^',
            '7' => '&',
            '8' => '*',
            '9' => '(',
            '0' => ')',
            '-' => '_',
            '=' => '+',
            '[' => '{',
            ']' => '}',
            '\\' => '|',
            ';' => ':',
            '\'' => '"',
            ',' => '<',
            '.' => '>',
            '/' => '?',
            c => {
                if c >= 'a' && c <= 'z' {
                    let delta: u8 = 'a' as u8 - 'A' as u8;
                    (c as u8 - delta) as char
                } else {
                    c
                }
            },
        }
    }

    /// Shifts a code that fits in one byte; a code of 256 or more has no
    /// shifted form.
    pub fn shift_key(key: i64) -> (shifted: Option<i64>)
        ensures
            shifted == shifted_code(key),
            key >= 256 ==> shifted is None,
            key < 256 ==> shifted is Some,
            shifted matches Some(code) ==> 0 <= code < 256,
    {
        if key < 256 {
            proof {
                lemma_low_byte(key);
            }
            let byte: u8 = #[verifier::truncate] (key as u8);
            Some(Self::_shift_key(byte as char) as u8 as i64)
        } else {
            None
        }
    }
}

} // verus!
