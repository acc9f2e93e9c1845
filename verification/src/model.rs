//! The data that the keyboard map is made of: the key table that it is built
//! from, and the keys that it hands out.

use vstd::prelude::*;

verus! {

/// One row of the key table: a physical key, the code under which the platform
/// knows it, and the character to fall back on when the live keymap gives none.
#[derive(Clone, Copy, Debug, PartialEq, Eq)]
pub struct KeyMapEntry {
    pub platform: i64,
    pub physical: i64,
    pub fallback: Option<i64>,
}

/// One key of a keyboard map. Only `logical` and `logical_shift` are ever
/// filled in here; the other variants are carried for whoever fills them.
#[derive(Clone, Copy, Debug, PartialEq, Eq)]
pub struct Key {
    pub platform: i64,
    pub physical: i64,
    pub logical: Option<i64>,
    pub logical_shift: Option<i64>,
    pub logical_alt: Option<i64>,
    pub logical_alt_shift: Option<i64>,
    pub logical_meta: Option<i64>,
}

/// A keyboard map: one key for each row of the key table, in the table's order.
#[derive(Debug, PartialEq, Eq)]
pub struct KeyboardMap {
    pub keys: Vec<Key>,
}

impl View for KeyboardMap {
    type V = Seq<Key>;

    open spec fn view(&self) -> Seq<Key> {
        self.keys@
    }
}

impl Clone for KeyboardMap {
    fn clone(&self) -> (res: Self)
        ensures
            res@ == self@,
    {
        let mut keys: Vec<Key> = Vec::new();
        let n: usize = self.keys.len();
        let mut i: usize = 0;
        while i < n
            invariant
                n == self.keys.len(),
                i <= n,
                keys@ == self.keys@.subrange(0, i as int),
            decreases n - i,
        {
            keys.push(self.keys[i]);
            i += 1;
        }
        KeyboardMap { keys }
    }
}

} // verus!
