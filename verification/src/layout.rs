//! Building a keyboard map from the key table: from the live keymap where
//! there is one, and from the table's own fallback characters where not.

use vstd::prelude::*;
use crate::group::{
    ascii_capable, is_digit_row_code, is_letter_row_code, selected_group, yields_ascii, yields_digit,
};
use crate::live::{first_key, is_excluded, live_view, lookup, looked_up, LiveKey, LiveKeymap};
use crate::model::{Key, KeyMapEntry, KeyboardMap};
use crate::platform::PlatformKeyboardMap;
use crate::shift::shifted_code;

verus! {

/// The code under which the live keymap is asked for a key of the table: the
/// low 32 bits of the key's platform code.
pub open spec fn service_code(platform: i64) -> u32 {
    (platform as int % 0x1_0000_0000) as u32
}

/// The key that a row of the table gives when no live keymap can be asked:
/// its fallback character, and that character shifted.
pub open spec fn fallback_key(entry: KeyMapEntry) -> Key {
    Key {
        platform: entry.platform,
        physical: entry.physical,
        logical: entry.fallback,
        logical_shift: match entry.fallback {
            Some(code) => shifted_code(code),
            None => None,
        },
        logical_alt: None,
        logical_alt_shift: None,
        logical_meta: None,
    }
}

/// The key that a row of the table gives under a live keymap in `group`: the
/// character that the keymap has for it, with its shifted form, or else the
/// row's fallback character with no shifted form.
pub open spec fn live_key(keys: Seq<LiveKey>, entry: KeyMapEntry, group: u8) -> Key {
    let code = service_code(entry.platform);
    let plain = looked_up(keys, code, group, 0);
    Key {
        platform: entry.platform,
        physical: entry.physical,
        logical: if plain is Some { plain } else { entry.fallback },
        logical_shift: if plain is Some { looked_up(keys, code, group, 1) } else { None },
        logical_alt: None,
        logical_alt_shift: None,
        logical_meta: None,
    }
}

/// The map built without a live keymap.
pub open spec fn fallback_layout(table: Seq<KeyMapEntry>) -> Seq<Key> {
    Seq::new(table.len(), |i: int| fallback_key(table[i]))
}

/// The map built from a live keymap in `group`.
pub open spec fn live_layout(table: Seq<KeyMapEntry>, keys: Seq<LiveKey>, group: u8) -> Seq<Key> {
    Seq::new(table.len(), |i: int| live_key(keys, table[i], group))
}

/// The map built from the table: from the live keymap in the group selected
/// for `current_group` where the keymap could be had, and from the fallback
/// characters where not.
pub open spec fn built_layout(
    table: Seq<KeyMapEntry>,
    live: Option<Seq<LiveKey>>,
    current_group: u8,
) -> Seq<Key> {
    match live {
        Some(keys) => live_layout(table, keys, selected_group(keys, current_group)),
        None => fallback_layout(table),
    }
}

/// Whether a map has one key for each row of the table, in the table's
/// order, each with its row's physical key and platform code.
pub open spec fn follows_table(layout: Seq<Key>, table: Seq<KeyMapEntry>) -> bool {
    &&& layout.len() == table.len()
    &&& forall|i: int|
        0 <= i < table.len() ==> (#[trigger] layout[i]).physical == table[i].physical
            && layout[i].platform == table[i].platform
}

/// Whether a map leaves every key variant but the plain and the shifted one
/// empty.
pub open spec fn only_plain_and_shift(layout: Seq<Key>) -> bool {
    forall|i: int|
        0 <= i < layout.len() ==> (#[trigger] layout[i]).logical_alt is None
            && layout[i].logical_alt_shift is None && layout[i].logical_meta is None
}

/// Whether no two rows of a table name the same physical key.
pub open spec fn distinct_physical_keys(table: Seq<KeyMapEntry>) -> bool {
    forall|i: int, j: int|
        0 <= i < j < table.len() ==> (#[trigger] table[i]).physical != (#[trigger] table[j]).physical
}

/// Whether building a map from the table may ask the live keymap for `code`:
/// the codes of the letter rows and of the digit row, by which the group is
/// chosen, and the code of each row of the table.
pub open spec fn is_consulted(table: Seq<KeyMapEntry>, code: u32) -> bool {
    ||| is_letter_row_code(code)
    ||| is_digit_row_code(code)
    ||| exists|i: int| 0 <= i < table.len() && service_code(#[trigger] table[i].platform) == code
}

/// The codes from `first` up to, not including, `end`, in rising order.
pub open spec fn code_range(first: u32, end: u32) -> Seq<u32> {
    Seq::new((end - first) as nat, |i: int| (first + i) as u32)
}

/// The codes by which the group is chosen: the digit row, then the three
/// letter rows.
pub open spec fn row_codes() -> Seq<u32> {
    code_range(10, 19) + code_range(24, 33) + code_range(38, 46) + code_range(52, 58)
}

/// The code of each row of a table, in the table's order.
pub open spec fn table_codes(table: Seq<KeyMapEntry>) -> Seq<u32> {
    Seq::new(table.len(), |i: int| service_code(table[i].platform))
}

/// Whether two keymaps have the same first entry for every code that
/// building a map from the table may ask for, in every group and at every
/// level.
pub open spec fn agree_where_consulted(
    table: Seq<KeyMapEntry>,
    a: Seq<LiveKey>,
    b: Seq<LiveKey>,
) -> bool {
    forall|code: u32, group: u8, level: u8|
        is_consulted(table, code) ==> #[trigger] first_key(a, code, group, level) == first_key(
            b,
            code,
            group,
            level,
        )
}

/// A map built from a table follows the table and fills in nothing but the
/// plain and the shifted character of each key, whether it was built from a
/// live keymap or without one.
pub proof fn lemma_built_layout_follows_table(
    table: Seq<KeyMapEntry>,
    live: Option<Seq<LiveKey>>,
    current_group: u8,
)
    ensures
        follows_table(built_layout(table, live, current_group), table),
        only_plain_and_shift(built_layout(table, live, current_group)),
{
}

/// The listed codes are the consulted ones, and no others.
pub proof fn lemma_consulted_codes(table: Seq<KeyMapEntry>)
    ensures
        forall|code: u32| (row_codes() + table_codes(table)).contains(code) <==> is_consulted(table, code),
{
    let rows = row_codes();
    let codes = rows + table_codes(table);
    assert forall|code: u32| codes.contains(code) <==> is_consulted(table, code) by {
        if codes.contains(code) {
            let k = choose|k: int| 0 <= k < codes.len() && codes[k] == code;
            if k >= rows.len() {
                assert(service_code(table[k - rows.len()].platform) == code);
            }
        }
        if is_digit_row_code(code) {
            assert(codes[code - 10] == code);
        }
        if 24 <= code < 33 {
            assert(codes[9 + (code - 24)] == code);
        }
        if 38 <= code < 46 {
            assert(codes[18 + (code - 38)] == code);
        }
        if 52 <= code < 58 {
            assert(codes[26 + (code - 52)] == code);
        }
        if exists|i: int| 0 <= i < table.len() && service_code(#[trigger] table[i].platform) == code {
            let i = choose|i: int| 0 <= i < table.len() && service_code(#[trigger] table[i].platform) == code;
            assert(codes[rows.len() + i] == code);
        }
    }
}

/// A map that follows a table of distinct physical keys names no physical
/// key twice.
pub proof fn lemma_distinct_physical_keys_kept(layout: Seq<Key>, table: Seq<KeyMapEntry>)
    requires
        follows_table(layout, table),
        distinct_physical_keys(table),
    ensures
        forall|i: int, j: int|
            0 <= i < j < layout.len() ==> (#[trigger] layout[i]).physical != (
            #[trigger] layout[j]).physical,
{
    assert forall|i: int, j: int| 0 <= i < j < layout.len() implies (#[trigger] layout[i]).physical
        != (#[trigger] layout[j]).physical by {
        assert(table[i].physical != table[j].physical);
    }
}

/// The map built from a live keymap depends on no more of it than the first
/// entry for each code that is consulted: two keymaps that agree on those
/// give the same map.
pub proof fn lemma_consulted_codes_suffice(
    table: Seq<KeyMapEntry>,
    a: Seq<LiveKey>,
    b: Seq<LiveKey>,
    current_group: u8,
)
    requires
        agree_where_consulted(table, a, b),
    ensures
        built_layout(table, Some(a), current_group) == built_layout(table, Some(b), current_group),
{
    assert forall|code: u32, group: u8, level: u8| is_consulted(table, code) implies looked_up(
        a,
        code,
        group,
        level,
    ) == looked_up(b, code, group, level) by {
        assert(first_key(a, code, group, level) == first_key(b, code, group, level));
    }
    assert forall|numbers: bool, group: u8| ascii_capable(a, numbers, group) == ascii_capable(
        b,
        numbers,
        group,
    ) by {
        assert forall|code: u32| is_letter_row_code(code) implies yields_ascii(a, group, code)
            == yields_ascii(b, group, code) by {
            assert(is_consulted(table, code));
            assert(looked_up(a, code, group, 0) == looked_up(b, code, group, 0));
        }
        assert forall|code: u32| is_digit_row_code(code) implies yields_digit(a, group, code)
            == yields_digit(b, group, code) by {
            assert(is_consulted(table, code));
            assert(looked_up(a, code, group, 0) == looked_up(b, code, group, 0));
        }
    }
    let group = selected_group(a, current_group);
    assert(group == selected_group(b, current_group));
    assert forall|i: int| 0 <= i < table.len() implies live_key(a, table[i], group) == live_key(
        b,
        table[i],
        group,
    ) by {
        let code = service_code(table[i].platform);
        assert(is_consulted(table, code));
        assert(looked_up(a, code, group, 0) == looked_up(b, code, group, 0));
        assert(looked_up(a, code, group, 1) == looked_up(b, code, group, 1));
    }
    assert(live_layout(table, a, group) =~= live_layout(table, b, group));
}

/// A cast to `u32` keeps the remainder modulo 2^32.
proof fn lemma_service_code(platform: i64)
    ensures
        platform as u32 == service_code(platform),
{
    let word: u32 = platform as u32;
    let rest: i64 = platform >> 32;
    assert(platform == rest * 0x1_0000_0000 + (word as i64)) by (bit_vector)
        requires
            word == platform as u32,
            rest == platform >> 32,
    ;
}

impl PlatformKeyboardMap {
    /// Lists the codes that building a map from the table may ask the live
    /// keymap for: those of the digit row and of the letter rows, then that
    /// of each row of the table.
    pub fn consulted_codes(key_map: &[KeyMapEntry]) -> (codes: Vec<u32>)
        ensures
            codes@ == row_codes() + table_codes(key_map@),
            forall|code: u32| codes@.contains(code) <==> is_consulted(key_map@, code),
    {
        let mut codes: Vec<u32> = Vec::new();
        Self::push_codes(&mut codes, 10, 19);
        Self::push_codes(&mut codes, 24, 33);
        Self::push_codes(&mut codes, 38, 46);
        Self::push_codes(&mut codes, 52, 58);
        let n: usize = key_map.len();
        let mut i: usize = 0;
        while i < n
            invariant
                n == key_map@.len(),
                i <= n,
                codes@ == row_codes() + table_codes(key_map@.subrange(0, i as int)),
            decreases n - i,
        {
            proof {
                lemma_service_code(key_map@[i as int].platform);
            }
            let code: u32 = #[verifier::truncate] (key_map[i].platform as u32);
            codes.push(code);
            i += 1;
        }
        proof {
            assert(key_map@.subrange(0, n as int) == key_map@);
            lemma_consulted_codes(key_map@);
        }
        codes
    }

    /// Appends each code from `first` up to, not including, `end`.
    fn push_codes(codes: &mut Vec<u32>, first: u32, end: u32)
        requires
            first <= end,
        ensures
            final(codes)@ == old(codes)@ + code_range(first, end),
    {
        let mut code: u32 = first;
        while code < end
            invariant
                first <= code <= end,
                codes@ == old(codes)@ + code_range(first, code),
            decreases end - code,
        {
            codes.push(code);
            code += 1;
        }
    }

    /// Makes the key of one row of the table from the live keymap.
    pub fn key_from_entry(entry: &KeyMapEntry, keymap: &LiveKeymap, group: u8) -> (key: Key)
        ensures
            key == live_key(keymap@, *entry, group),
            key.platform == entry.platform,
            key.physical == entry.physical,
            is_excluded(service_code(entry.platform)) ==> key.logical == entry.fallback
                && key.logical_shift is None,
    {
        proof {
            lemma_service_code(entry.platform);
        }
        let code: u32 = #[verifier::truncate] (entry.platform as u32);
        let plain: Option<i64> = lookup(keymap, code, group, 0);
        let key_shift: Option<i64> = if plain.is_some() {
            lookup(keymap, code, group, 1)
        } else {
            None
        };
        Key {
            platform: entry.platform,
            physical: entry.physical,
            logical: if plain.is_some() { plain } else { entry.fallback },
            logical_shift: key_shift,
            logical_alt: None,
            logical_alt_shift: None,
            logical_meta: None,
        }
    }

    /// Makes the key of one row of the table from its fallback character.
    pub fn fallback_key_from_entry(entry: &KeyMapEntry) -> (key: Key)
        ensures
            key == fallback_key(*entry),
            key.platform == entry.platform,
            key.physical == entry.physical,
            key.logical == entry.fallback,
    {
        Key {
            platform: entry.platform,
            physical: entry.physical,
            logical: entry.fallback,
            logical_shift: match entry.fallback {
                Some(code) => Self::shift_key(code),
                None => None,
            },
            logical_alt: None,
            logical_alt_shift: None,
            logical_meta: None,
        }
    }

    /// Builds the map of a table from its fallback characters alone.
    pub fn fallback_map(keys: &[KeyMapEntry]) -> (map: KeyboardMap)
        ensures
            map@ == fallback_layout(keys@),
            follows_table(map@, keys@),
            only_plain_and_shift(map@),
    {
        let n: usize = keys.len();
        let mut out: Vec<Key> = Vec::new();
        let mut i: usize = 0;
        while i < n
            invariant
                n == keys@.len(),
                i <= n,
                out@.len() == i,
                forall|j: int| 0 <= j < i ==> #[trigger] out@[j] == fallback_key(keys@[j]),
            decreases n - i,
        {
            out.push(Self::fallback_key_from_entry(&keys[i]));
            i += 1;
        }
        KeyboardMap { keys: out }
    }

    /// Builds the map of a table: from the live keymap, in the group chosen
    /// for `current_group`, or from the fallback characters where `live` is
    /// absent.
    pub fn create_keyboard_layout(
        key_map: &[KeyMapEntry],
        live: Option<&LiveKeymap>,
        current_group: u8,
    ) -> (map: KeyboardMap)
        ensures
            map@ == built_layout(key_map@, live_view(live), current_group),
            follows_table(map@, key_map@),
            only_plain_and_shift(map@),
    {
        match live {
            Some(keymap) => {
                let group: u8 = Self::get_group(keymap, current_group);
                let n: usize = key_map.len();
                let mut out: Vec<Key> = Vec::new();
                let mut i: usize = 0;
                while i < n
                    invariant
                        n == key_map@.len(),
                        i <= n,
                        out@.len() == i,
                        forall|j: int| 0 <= j < i ==> #[trigger] out@[j] == live_key(keymap@, key_map@[j], group),
                    decreases n - i,
                {
                    out.push(Self::key_from_entry(&key_map[i], keymap, group));
                    i += 1;
                }
                KeyboardMap { keys: out }
            },
            None => Self::fallback_map(key_map),
        }
    }
}

} // verus!
