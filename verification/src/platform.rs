//! The keyboard map of the platform: built when it is first asked for, kept
//! until the layout group in use changes, and then built afresh.

use vstd::prelude::*;
use crate::layout::{
    built_layout, follows_table, lemma_built_layout_follows_table, only_plain_and_shift, row_codes,
    table_codes,
};
use crate::live::{live_view, LiveKey, LiveKeymap};
use crate::model::{Key, KeyMapEntry, KeyboardMap};

verus! {

/// What a `PlatformKeyboardMap` holds: its key table, the group last seen in
/// use, and the map it has kept, if it has kept one.
#[verifier::ext_equal]
pub struct MapState {
    pub table: Seq<KeyMapEntry>,
    pub group: u8,
    pub layout: Option<Seq<Key>>,
}

impl MapState {
    /// The state to start from: group 0, and no map kept.
    pub open spec fn initial(table: Seq<KeyMapEntry>) -> MapState {
        MapState { table, group: 0, layout: None }
    }

    /// A kept map is one that was built from the table for the group last
    /// seen in use.
    pub open spec fn wf(self) -> bool {
        self.layout matches Some(layout) ==> exists|live: Option<Seq<LiveKey>>|
            layout == #[trigger] built_layout(self.table, live, self.group)
    }

    /// The map that is handed out when one is asked for: the kept one, or,
    /// where none is kept, one built from `live`.
    pub open spec fn served(self, live: Option<Seq<LiveKey>>) -> Seq<Key> {
        match self.layout {
            Some(layout) => layout,
            None => built_layout(self.table, live, self.group),
        }
    }

    /// The state after a map was asked for: the map handed out is kept.
    pub open spec fn after_request(self, live: Option<Seq<LiveKey>>) -> MapState {
        MapState { layout: Some(self.served(live)), ..self }
    }

    /// The codes that the live keymap is to be asked for before a map is
    /// next asked for: none while a map is kept.
    pub open spec fn wanted_codes(self) -> Option<Seq<u32>> {
        match self.layout {
            Some(_) => None,
            None => Some(row_codes() + table_codes(self.table)),
        }
    }

    /// Whether a key event that reports `observed` tells of a new group.
    pub open spec fn group_changes(self, observed: Option<u8>) -> bool {
        observed matches Some(group) && group != self.group
    }

    /// The state with no map kept.
    pub open spec fn invalidated(self) -> MapState {
        MapState { layout: None, ..self }
    }

    /// The state after a key event: a new group is taken over and the kept
    /// map is dropped; any other event changes nothing.
    pub open spec fn after_event(self, observed: Option<u8>) -> MapState {
        match observed {
            Some(group) if group != self.group => MapState { group, ..self }.invalidated(),
            _ => self,
        }
    }
}

/// Once a map has been handed out, it is handed out again, the same, until
/// a key event tells of a new group: events that tell of none change
/// nothing, the live keymap is not asked again, and what it holds by then
/// plays no part.
pub proof fn lemma_kept_map_is_served_again(
    state: MapState,
    first: Option<Seq<LiveKey>>,
    observed: Option<u8>,
    second: Option<Seq<LiveKey>>,
)
    requires
        !state.group_changes(observed),
    ensures
        ({
            let kept = state.after_request(first);
            &&& kept.after_event(observed) == kept
            &&& kept.wanted_codes() is None
            &&& kept.served(second) == state.served(first)
            &&& kept.after_request(second) == kept
        }),
{
}

/// A key event that tells of a new group takes effect at once: no map is
/// kept after it, and the next map asked for is built for the new group.
pub proof fn lemma_new_group_rebuilds(state: MapState, group: u8, live: Option<Seq<LiveKey>>)
    requires
        group != state.group,
    ensures
        ({
            let changed = state.after_event(Some(group));
            &&& state.group_changes(Some(group))
            &&& changed.layout is None
            &&& changed.wanted_codes() is Some
            &&& changed.served(live) == built_layout(state.table, live, group)
        }),
{
}

/// At the start and after every step, a kept map is one that was built for
/// the group last seen in use.
pub proof fn lemma_steps_keep_wf(state: MapState, live: Option<Seq<LiveKey>>, observed: Option<u8>)
    ensures
        MapState::initial(state.table).wf(),
        state.wf() ==> state.after_request(live).wf(),
        state.wf() ==> state.after_event(observed).wf(),
        state.invalidated().wf(),
{
    if state.wf() {
        let kept = state.after_request(live);
        let from = match state.layout {
            Some(layout) => choose|from: Option<Seq<LiveKey>>|
                layout == #[trigger] built_layout(state.table, from, state.group),
            None => live,
        };
        assert(kept.layout.unwrap() == built_layout(kept.table, from, kept.group));
    }
}

/// A kept map has one key for each row of the table, in the table's order
/// and with the row's physical key and platform code, and fills in nothing
/// but the plain and the shifted character.
pub proof fn lemma_kept_map_follows_table(state: MapState)
    requires
        state.wf(),
        state.layout is Some,
    ensures
        follows_table(state.layout.unwrap(), state.table),
        only_plain_and_shift(state.layout.unwrap()),
{
    let live = choose|live: Option<Seq<LiveKey>>|
        state.layout.unwrap() == #[trigger] built_layout(state.table, live, state.group);
    lemma_built_layout_follows_table(state.table, live, state.group);
}

/// The keyboard map of the platform, with its key table.
pub struct PlatformKeyboardMap {
    key_map: Vec<KeyMapEntry>,
    current_group: u8,
    current_layout: Option<KeyboardMap>,
}

impl View for PlatformKeyboardMap {
    type V = MapState;

    closed spec fn view(&self) -> MapState {
        MapState {
            table: self.key_map@,
            group: self.current_group,
            layout: match self.current_layout {
                Some(layout) => Some(layout@),
                None => None,
            },
        }
    }
}

impl PlatformKeyboardMap {
    #[verifier::type_invariant]
    spec fn kept_map_is_of_current_group(&self) -> bool {
        self@.wf()
    }

    /// Makes the keyboard map of a key table. Nothing is built yet.
    pub fn new(key_map: Vec<KeyMapEntry>) -> (map: Self)
        ensures
            map@ == MapState::initial(key_map@),
            map@.wf(),
    {
        PlatformKeyboardMap { key_map, current_group: 0, current_layout: None }
    }

    /// The group last seen in use.
    pub fn current_group(&self) -> (group: u8)
        ensures
            group == self@.group,
    {
        self.current_group
    }

    /// Says what the live keymap is to be asked for before `get_current_map`
    /// is called: nothing while a map is kept, and otherwise each code that
    /// building the map may look up.
    pub fn snapshot_request(&self) -> (codes: Option<Vec<u32>>)
        ensures
            codes is Some <==> self@.layout is None,
            match codes {
                Some(codes) => self@.wanted_codes() == Some(codes@),
                None => self@.wanted_codes() is None,
            },
    {
        if self.current_layout.is_some() {
            None
        } else {
            Some(Self::consulted_codes(self.key_map.as_slice()))
        }
    }

    /// Hands out the map: the one kept, or else one built now from `live`,
    /// which is then kept. `live` is the live keymap, absent where the
    /// windowing system cannot be reached; it is not looked at when a map is
    /// kept.
    pub fn get_current_map(&mut self, live: Option<&LiveKeymap>) -> (map: KeyboardMap)
        ensures
            map@ == old(self)@.served(live_view(live)),
            final(self)@ == old(self)@.after_request(live_view(live)),
            final(self)@.wf(),
            follows_table(map@, old(self)@.table),
            only_plain_and_shift(map@),
    {
        proof {
            use_type_invariant(&*self);
            lemma_steps_keep_wf(self@, live_view(live), None);
            if self@.layout is Some {
                lemma_kept_map_follows_table(self@);
            }
        }
        match &self.current_layout {
            Some(layout) => layout.clone(),
            None => {
                let layout = Self::create_keyboard_layout(
                    self.key_map.as_slice(),
                    live,
                    self.current_group,
                );
                let map = layout.clone();
                self.current_layout = Some(layout);
                map
            },
        }
    }

    /// Takes note of the group that a key event reports, if it reports one.
    /// Where the group is new, the kept map is dropped, and the result says
    /// that the delegate is to be told that the map changed.
    pub fn on_key_event(&mut self, group: Option<u8>) -> (changed: bool)
        ensures
            changed == old(self)@.group_changes(group),
            final(self)@ == old(self)@.after_event(group),
            final(self)@.wf(),
    {
        proof {
            use_type_invariant(&*self);
        }
        match group {
            Some(group) => {
                if group != self.current_group {
                    self.on_layout_changed();
                    self.current_group = group;
                    true
                } else {
                    false
                }
            },
            None => false,
        }
    }

    /// Drops the kept map, so that the next one asked for is built anew.
    pub fn on_layout_changed(&mut self)
        ensures
            final(self)@ == old(self)@.invalidated(),
            final(self)@.wf(),
    {
        proof {
            use_type_invariant(&*self);
        }
        self.current_layout = None;
    }
}

} // verus!
