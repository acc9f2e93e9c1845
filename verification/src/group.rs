//! The choice of the layout group that the keyboard map is built for: a group
//! whose letter keys give plain small letters, and by preference one whose
//! digit keys give digits.

use vstd::prelude::*;
use crate::live::{lookup, looked_up, LiveKey, LiveKeymap};
use crate::platform::PlatformKeyboardMap;

verus! {

/// How many groups are gone through in search of a usable one.
pub const GROUP_COUNT: u8 = 3;

/// The codes of the three letter rows: `q` to `o`, `a` to `k`, `z` to `n`.
pub open spec fn is_letter_row_code(code: u32) -> bool {
    ||| 24 <= code < 33
    ||| 38 <= code < 46
    ||| 52 <= code < 58
}

/// The codes of the digit row: `1` to `9`.
pub open spec fn is_digit_row_code(code: u32) -> bool {
    10 <= code < 19
}

/// Whether a code point is that of a digit, `0` to `9`.
pub open spec fn is_digit_char(code_point: i64) -> bool {
    '0' as int <= code_point <= '9' as int
}

/// Whether a code point is that of a small letter, `a` to `z`, or of a digit.
pub open spec fn is_plain_char(code_point: i64) -> bool {
    'a' as int <= code_point <= 'z' as int || is_digit_char(code_point)
}

/// Whether `code`, unshifted, gives a small letter or a digit in `group`.
pub open spec fn yields_ascii(keys: Seq<LiveKey>, group: u8, code: u32) -> bool {
    looked_up(keys, code, group, 0) matches Some(c) && is_plain_char(c)
}

/// Whether `code`, unshifted, gives a digit in `group`.
pub open spec fn yields_digit(keys: Seq<LiveKey>, group: u8, code: u32) -> bool {
    looked_up(keys, code, group, 0) matches Some(c) && is_digit_char(c)
}

/// Whether `group` can type plain text: every key of the letter rows gives a
/// small letter or a digit and, where `including_numbers` asks for it, every
/// key of the digit row gives a digit.
pub open spec fn ascii_capable(keys: Seq<LiveKey>, including_numbers: bool, group: u8) -> bool {
    &&& forall|code: u32| #[trigger] is_letter_row_code(code) ==> yields_ascii(keys, group, code)
    &&& including_numbers ==> forall|code: u32| #[trigger]
        is_digit_row_code(code) ==> yields_digit(keys, group, code)
}

/// The group to build for. The current group stays if its letters will do.
/// Failing that, the first of the groups 0, 1, 2 whose letters and digits
/// both will do is taken; failing that, the first whose letters will do;
/// and failing that, the current group after all.
pub open spec fn selected_group(keys: Seq<LiveKey>, current: u8) -> u8 {
    if ascii_capable(keys, false, current) {
        current
    } else if ascii_capable(keys, true, 0) {
        0
    } else if ascii_capable(keys, true, 1) {
        1
    } else if ascii_capable(keys, true, 2) {
        2
    } else if ascii_capable(keys, false, 0) {
        0
    } else if ascii_capable(keys, false, 1) {
        1
    } else if ascii_capable(keys, false, 2) {
        2
    } else {
        current
    }
}

/// The selected group is one of the groups 0, 1, 2 or the current one, and
/// the current one where its letters will do.
pub proof fn lemma_selected_group_is_near(keys: Seq<LiveKey>, current: u8)
    ensures
        selected_group(keys, current) == current || selected_group(keys, current) < GROUP_COUNT,
        ascii_capable(keys, false, current) ==> selected_group(keys, current) == current,
{
}

/// Selection settles: with the selected group as the current one, the same
/// group is selected again.
pub proof fn lemma_selected_group_is_stable(keys: Seq<LiveKey>, current: u8)
    ensures
        selected_group(keys, selected_group(keys, current)) == selected_group(keys, current),
{
}

impl PlatformKeyboardMap {
    /// Whether `code`, unshifted, gives a small letter or a digit in `group`.
    pub fn is_ascii(keymap: &LiveKeymap, group: u8, code: u32) -> (ascii: bool)
        ensures
            ascii == yields_ascii(keymap@, group, code),
    {
        match lookup(keymap, code, group, 0) {
            Some(key) => (key >= 'a' as i64 && key <= 'z' as i64) || (key >= '0' as i64 && key <= '9' as i64),
            None => false,
        }
    }

    /// Whether `code`, unshifted, gives a digit in `group`.
    pub fn is_digit(keymap: &LiveKeymap, group: u8, code: u32) -> (digit: bool)
        ensures
            digit == yields_digit(keymap@, group, code),
    {
        match lookup(keymap, code, group, 0) {
            Some(key) => key >= '0' as i64 && key <= '9' as i64,
            None => false,
        }
    }

    /// Whether every code from `first` up to, not including, `end` gives a
    /// small letter or a digit in `group`.
    fn row_is_ascii(keymap: &LiveKeymap, group: u8, first: u32, end: u32) -> (ascii: bool)
        requires
            first <= end,
        ensures
            ascii == forall|code: u32| first <= code < end ==> #[trigger] yields_ascii(keymap@, group, code),
    {
        let mut code: u32 = first;
        while code < end
            invariant
                first <= code <= end,
                forall|c: u32| first <= c < code ==> #[trigger] yields_ascii(keymap@, group, c),
            decreases end - code,
        {
            if !Self::is_ascii(keymap, group, code) {
                return false;
            }
            code += 1;
        }
        true
    }

    /// Whether `group` can type plain text, with or without its digit row.
    pub fn is_ascii_capable(keymap: &LiveKeymap, including_numbers: bool, group: u8) -> (capable: bool)
        ensures
            capable == ascii_capable(keymap@, including_numbers, group),
    {
        // Q - O
        if !Self::row_is_ascii(keymap, group, 24, 33) {
            assert(!ascii_capable(keymap@, including_numbers, group)) by {
                let c = choose|c: u32| 24 <= c < 33 && !yields_ascii(keymap@, group, c);
                assert(is_letter_row_code(c));
            }
            return false;
        }
        // A - K
        if !Self::row_is_ascii(keymap, group, 38, 46) {
            assert(!ascii_capable(keymap@, including_numbers, group)) by {
                let c = choose|c: u32| 38 <= c < 46 && !yields_ascii(keymap@, group, c);
                assert(is_letter_row_code(c));
            }
            return false;
        }
        // Z - N
        if !Self::row_is_ascii(keymap, group, 52, 58) {
            assert(!ascii_capable(keymap@, including_numbers, group)) by {
                let c = choose|c: u32| 52 <= c < 58 && !yields_ascii(keymap@, group, c);
                assert(is_letter_row_code(c));
            }
            return false;
        }
        if including_numbers {
            // 1 - 9
            let mut code: u32 = 10;
            while code < 19
                invariant
                    including_numbers,
                    10 <= code <= 19,
                    forall|c: u32| #[trigger] is_letter_row_code(c) ==> yields_ascii(keymap@, group, c),
                    forall|c: u32| 10 <= c < code ==> #[trigger] yields_digit(keymap@, group, c),
                decreases 19 - code,
            {
                if !Self::is_digit(keymap, group, code) {
                    assert(is_digit_row_code(code));
                    return false;
                }
                code += 1;
            }
        }
        true
    }

    /// Chooses the group to build the map for, given the group that was
    /// last seen in use.
    pub fn get_group(keymap: &LiveKeymap, current: u8) -> (group: u8)
        ensures
            group == selected_group(keymap@, current),
            group == current || group < GROUP_COUNT,
            ascii_capable(keymap@, false, current) ==> group == current,
    {
        // If the current layout can type letters, accept it even where its
        // digit row gives something else.
        if Self::is_ascii_capable(keymap, false, current) {
            return current;
        }
        // Choosing among the groups, prefer one that has the digits too.
        let mut group: u8 = 0;
        while group < GROUP_COUNT
            invariant
                group <= GROUP_COUNT,
                !ascii_capable(keymap@, false, current),
                forall|g: u8| g < group ==> !ascii_capable(keymap@, true, g),
            decreases GROUP_COUNT - group,
        {
            if Self::is_ascii_capable(keymap, true, group) {
                return group;
            }
            group += 1;
        }
        let mut group: u8 = 0;
        while group < GROUP_COUNT
            invariant
                group <= GROUP_COUNT,
                !ascii_capable(keymap@, false, current),
                forall|g: u8| g < GROUP_COUNT ==> !ascii_capable(keymap@, true, g),
                forall|g: u8| g < group ==> !ascii_capable(keymap@, false, g),
            decreases GROUP_COUNT - group,
        {
            if Self::is_ascii_capable(keymap, false, group) {
                return group;
            }
            group += 1;
        }
        current
    }
}

} // verus!
