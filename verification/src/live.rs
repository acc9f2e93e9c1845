//! A snapshot of the live keymap, and the lookup of one key in it.
//!
//! The windowing system lists, for a key code, the group and level of each
//! entry it has for that code, and resolves an entry to a character. A
//! snapshot holds such entries as plain values, in the order in which the
//! system listed them.

use vstd::prelude::*;

verus! {

/// The code under which some layouts report a letter for the Enter key.
pub const ENTER_KEYCODE: u32 = 36;

/// The code under which some layouts report a letter for the left Control key.
pub const LEFT_CONTROL_KEYCODE: u32 = 37;

/// The first code point that is no control character.
pub const FIRST_PRINTABLE: i64 = 0x20;

/// One entry of the live keymap: the code it is listed under, its group and
/// level, and the code point of the character it resolves to, if it resolves
/// to any.
#[derive(Clone, Copy, Debug, PartialEq, Eq)]
pub struct LiveKey {
    pub keycode: u32,
    pub group: i32,
    pub level: i32,
    pub unicode: Option<u32>,
}

impl LiveKey {
    /// Whether this is an entry for `code` in `group` at `level`.
    pub open spec fn is_at(self, code: u32, group: u8, level: u8) -> bool {
        &&& self.keycode == code
        &&& self.group == group as int
        &&& self.level == level as int
    }
}

/// The entries of the live keymap as they stood when it was asked.
#[derive(Debug, PartialEq, Eq)]
pub struct LiveKeymap {
    pub keys: Vec<LiveKey>,
}

impl View for LiveKeymap {
    type V = Seq<LiveKey>;

    open spec fn view(&self) -> Seq<LiveKey> {
        self.keys@
    }
}

/// The entries of a keymap that may be absent; absent when the windowing
/// system could not be reached.
pub open spec fn live_view(live: Option<&LiveKeymap>) -> Option<Seq<LiveKey>> {
    match live {
        Some(keymap) => Some(keymap@),
        None => None,
    }
}

/// The first entry of `keys` for `code` in `group` at `level`.
pub open spec fn first_key(keys: Seq<LiveKey>, code: u32, group: u8, level: u8) -> Option<LiveKey>
    decreases keys.len(),
{
    if keys.len() == 0 {
        None
    } else if keys[0].is_at(code, group, level) {
        Some(keys[0])
    } else {
        first_key(keys.drop_first(), code, group, level)
    }
}

/// Whether lookups of `code` are refused whatever the keymap holds.
pub open spec fn is_excluded(code: u32) -> bool {
    code == ENTER_KEYCODE || code == LEFT_CONTROL_KEYCODE
}

/// The character that an entry stands for: none for an excluded code, for an
/// entry that resolves to nothing and for a control character.
pub open spec fn usable_char(key: LiveKey) -> Option<i64> {
    match key.unicode {
        Some(c) => if is_excluded(key.keycode) || c < FIRST_PRINTABLE {
            None
        } else {
            Some(c as i64)
        },
        None => None,
    }
}

/// The character that `code` produces in `group` at `level`.
pub open spec fn looked_up(keys: Seq<LiveKey>, code: u32, group: u8, level: u8) -> Option<i64> {
    match first_key(keys, code, group, level) {
        Some(key) => usable_char(key),
        None => None,
    }
}

/// `first_key` finds an entry exactly when some entry matches, and then the
/// earliest such entry.
pub proof fn lemma_first_key(keys: Seq<LiveKey>, code: u32, group: u8, level: u8)
    ensures
        match first_key(keys, code, group, level) {
            Some(key) => exists|i: int|
                0 <= i < keys.len() && keys[i] == key && key.is_at(code, group, level)
                    && forall|j: int| 0 <= j < i ==> !(#[trigger] keys[j]).is_at(code, group, level),
            None => forall|i: int| 0 <= i < keys.len() ==> !(#[trigger] keys[i]).is_at(code, group, level),
        },
    decreases keys.len(),
{
    if keys.len() == 0 {
    } else if keys[0].is_at(code, group, level) {
    } else {
        let rest = keys.drop_first();
        lemma_first_key(rest, code, group, level);
        match first_key(rest, code, group, level) {
            Some(key) => {
                let i = choose|i: int|
                    0 <= i < rest.len() && rest[i] == key && key.is_at(code, group, level)
                        && forall|j: int| 0 <= j < i ==> !(#[trigger] rest[j]).is_at(code, group, level);
                assert forall|j: int| 0 <= j < i + 1 implies !(#[trigger] keys[j]).is_at(code, group, level) by {
                    if j > 0 {
                        assert(keys[j] == rest[j - 1]);
                    }
                }
                assert(keys[i + 1] == key);
            },
            None => {
                assert forall|i: int| 0 <= i < keys.len() implies !(#[trigger] keys[i]).is_at(code, group, level) by {
                    if i > 0 {
                        assert(keys[i] == rest[i - 1]);
                    }
                }
            },
        }
    }
}

/// Finds the entry of the keymap for `code` in `group` at `level`.
pub fn get_key(keymap: &LiveKeymap, code: u32, group: u8, level: u8) -> (key: Option<LiveKey>)
    ensures
        key == first_key(keymap@, code, group, level),
{
    let n: usize = keymap.keys.len();
    let mut i: usize = 0;
    assert(keymap@.subrange(0, n as int) == keymap@);
    while i < n
        invariant
            n == keymap@.len(),
            i <= n,
            first_key(keymap@, code, group, level) == first_key(
                keymap@.subrange(i as int, n as int),
                code,
                group,
                level,
            ),
        decreases n - i,
    {
        let key: LiveKey = keymap.keys[i];
        proof {
            let tail = keymap@.subrange(i as int, n as int);
            assert(tail[0] == key);
            assert(tail.drop_first() == keymap@.subrange(i as int + 1, n as int));
        }
        if key.keycode == code && key.group == group as i32 && key.level == level as i32 {
            return Some(key);
        }
        i += 1;
    }
    None
}

/// Resolves an entry to the character it stands for, leaving out the two
/// codes that misreport and every control character.
pub fn lookup_key(key: &LiveKey) -> (code_point: Option<i64>)
    ensures
        code_point == usable_char(*key),
{
    if key.keycode == ENTER_KEYCODE || key.keycode == LEFT_CONTROL_KEYCODE {
        return None;
    }
    match key.unicode {
        Some(c) => {
            let res: i64 = c as i64;
            if res < FIRST_PRINTABLE {
                None
            } else {
                Some(res)
            }
        },
        None => None,
    }
}

/// Looks `code` up in `group` at `level`: the character of the first entry
/// that the keymap has for them, where there is one and it is usable.
pub fn lookup(keymap: &LiveKeymap, code: u32, group: u8, level: u8) -> (code_point: Option<i64>)
    ensures
        code_point == looked_up(keymap@, code, group, level),
        is_excluded(code) ==> code_point is None,
        code_point matches Some(c) ==> FIRST_PRINTABLE <= c <= u32::MAX,
{
    proof {
        lemma_first_key(keymap@, code, group, level);
    }
    match get_key(keymap, code, group, level) {
        Some(key) => lookup_key(&key),
        None => None,
    }
}

} // verus!
