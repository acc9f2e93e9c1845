use keyboard_map::{Key, KeyMapEntry, KeyboardMap, LiveKey, LiveKeymap, PlatformKeyboardMap};

fn row(platform: i64, physical: i64, fallback: Option<char>) -> KeyMapEntry {
    KeyMapEntry { platform, physical, fallback: fallback.map(|c| c as i64) }
}

fn live(keycode: u32, group: i32, level: i32, c: char) -> LiveKey {
    LiveKey { keycode, group, level, unicode: Some(c as u32) }
}

fn plain_key(platform: i64, physical: i64, logical: Option<i64>, logical_shift: Option<i64>) -> Key {
    Key {
        platform,
        physical,
        logical,
        logical_shift,
        logical_alt: None,
        logical_alt_shift: None,
        logical_meta: None,
    }
}

fn sample_table() -> Vec<KeyMapEntry> {
    vec![
        row(24, 0x0007_0014, Some('q')),
        row(10, 0x0007_001e, Some('1')),
        row(49, 0x0007_0035, Some('`')),
        row(36, 0x0007_0028, None),
        row(38, 0x0007_0004, Some('a')),
        row(94, 0x0007_0064, Some('\u{20ac}')),
        row(65, 0x0007_002c, Some(' ')),
    ]
}

fn us_block(group: i32) -> Vec<LiveKey> {
    let letters = [
        (24u32, 'q'),
        (25, 'w'),
        (26, 'e'),
        (27, 'r'),
        (28, 't'),
        (29, 'y'),
        (30, 'u'),
        (31, 'i'),
        (32, 'o'),
        (38, 'a'),
        (39, 's'),
        (40, 'd'),
        (41, 'f'),
        (42, 'g'),
        (43, 'h'),
        (44, 'j'),
        (45, 'k'),
        (52, 'z'),
        (53, 'x'),
        (54, 'c'),
        (55, 'v'),
        (56, 'b'),
        (57, 'n'),
    ];
    let digits = [
        (10u32, '1', '!'),
        (11, '2', '@'),
        (12, '3', '#'),
        (13, '4', '$'),
        (14, '5', '%'),
        (15, '6', '^'),
        (16, '7', '&'),
        (17, '8', '*'),
        (18, '9', '('),
    ];
    let mut keys = Vec::new();
    for (keycode, c) in letters {
        keys.push(live(keycode, group, 0, c));
        keys.push(live(keycode, group, 1, c.to_ascii_uppercase()));
    }
    for (keycode, plain, shifted) in digits {
        keys.push(live(keycode, group, 0, plain));
        keys.push(live(keycode, group, 1, shifted));
    }
    keys
}

#[test]
fn fallback_key_has_the_fallback_character_and_its_shifted_form() {
    assert_eq!(
        PlatformKeyboardMap::fallback_key_from_entry(&row(24, 7, Some('q'))),
        plain_key(24, 7, Some(113), Some(81))
    );
    assert_eq!(
        PlatformKeyboardMap::fallback_key_from_entry(&row(10, 8, Some('1'))),
        plain_key(10, 8, Some(49), Some(33))
    );
    assert_eq!(
        PlatformKeyboardMap::fallback_key_from_entry(&row(65, 9, Some(' '))),
        plain_key(65, 9, Some(32), Some(32))
    );
}

#[test]
fn fallback_key_of_a_character_past_one_byte_has_no_shifted_form() {
    assert_eq!(
        PlatformKeyboardMap::fallback_key_from_entry(&row(94, 7, Some('\u{20ac}'))),
        plain_key(94, 7, Some(0x20ac), None)
    );
    assert_eq!(
        PlatformKeyboardMap::fallback_key_from_entry(&row(94, 7, Some('\u{100}'))),
        plain_key(94, 7, Some(256), None)
    );
}

#[test]
fn fallback_key_of_a_row_without_fallback_is_empty() {
    assert_eq!(
        PlatformKeyboardMap::fallback_key_from_entry(&row(36, 7, None)),
        plain_key(36, 7, None, None)
    );
}

#[test]
fn fallback_map_has_one_key_for_each_row_in_order() {
    let table = sample_table();
    let map = PlatformKeyboardMap::fallback_map(&table);
    assert_eq!(
        map,
        KeyboardMap {
            keys: vec![
                plain_key(24, 0x0007_0014, Some(113), Some(81)),
                plain_key(10, 0x0007_001e, Some(49), Some(33)),
                plain_key(49, 0x0007_0035, Some(96), Some(126)),
                plain_key(36, 0x0007_0028, None, None),
                plain_key(38, 0x0007_0004, Some(97), Some(65)),
                plain_key(94, 0x0007_0064, Some(0x20ac), None),
                plain_key(65, 0x0007_002c, Some(32), Some(32)),
            ],
        }
    );
    assert_eq!(PlatformKeyboardMap::fallback_map(&[]), KeyboardMap { keys: vec![] });
}

#[test]
fn key_from_entry_takes_both_characters_from_the_keymap() {
    let keymap = LiveKeymap {
        keys: vec![live(24, 0, 0, 'a'), live(24, 0, 1, 'A'), live(24, 1, 0, 'q'), live(24, 1, 1, 'Q')],
    };
    assert_eq!(
        PlatformKeyboardMap::key_from_entry(&row(24, 7, Some('q')), &keymap, 0),
        plain_key(24, 7, Some(97), Some(65))
    );
    assert_eq!(
        PlatformKeyboardMap::key_from_entry(&row(24, 7, Some('x')), &keymap, 1),
        plain_key(24, 7, Some(113), Some(81))
    );
}

#[test]
fn key_from_entry_falls_back_where_the_keymap_has_no_plain_character() {
    let keymap = LiveKeymap {
        keys: vec![live(24, 0, 1, 'Q'), live(25, 0, 0, '\u{8}'), live(25, 0, 1, 'W'), live(36, 0, 0, 'a'), live(36, 0, 1, 'A')],
    };
    assert_eq!(
        PlatformKeyboardMap::key_from_entry(&row(24, 7, Some('q')), &keymap, 0),
        plain_key(24, 7, Some(113), None)
    );
    assert_eq!(
        PlatformKeyboardMap::key_from_entry(&row(25, 8, Some('w')), &keymap, 0),
        plain_key(25, 8, Some(119), None)
    );
    assert_eq!(
        PlatformKeyboardMap::key_from_entry(&row(36, 9, Some('\r')), &keymap, 0),
        plain_key(36, 9, Some(13), None)
    );
    assert_eq!(
        PlatformKeyboardMap::key_from_entry(&row(26, 10, None), &keymap, 0),
        plain_key(26, 10, None, None)
    );
}

#[test]
fn key_from_entry_has_no_shifted_form_where_the_keymap_has_none() {
    let keymap = LiveKeymap { keys: vec![live(24, 0, 0, 'q'), live(25, 0, 0, 'w'), live(25, 0, 1, '\u{1}')] };
    assert_eq!(
        PlatformKeyboardMap::key_from_entry(&row(24, 7, Some('x')), &keymap, 0),
        plain_key(24, 7, Some(113), None)
    );
    assert_eq!(
        PlatformKeyboardMap::key_from_entry(&row(25, 8, Some('x')), &keymap, 0),
        plain_key(25, 8, Some(119), None)
    );
}

#[test]
fn key_from_entry_asks_by_the_low_32_bits_of_the_platform_code() {
    let keymap = LiveKeymap { keys: vec![live(24, 0, 0, 'q'), live(24, 0, 1, 'Q'), live(0xffff_ffff, 0, 0, 'm')] };
    assert_eq!(
        PlatformKeyboardMap::key_from_entry(&row(0x1_0000_0018, 7, None), &keymap, 0),
        plain_key(0x1_0000_0018, 7, Some(113), Some(81))
    );
    assert_eq!(
        PlatformKeyboardMap::key_from_entry(&row(-1, 8, None), &keymap, 0),
        plain_key(-1, 8, Some(109), None)
    );
    assert_eq!(
        PlatformKeyboardMap::key_from_entry(&row(0x1_0000_0024, 9, Some('x')), &LiveKeymap { keys: vec![live(36, 0, 0, 'a')] }, 0),
        plain_key(0x1_0000_0024, 9, Some(120), None)
    );
}

#[test]
fn layout_without_a_keymap_is_the_fallback_map() {
    let table = sample_table();
    for group in vec![0u8, 1, 2, 200] {
        assert_eq!(
            PlatformKeyboardMap::create_keyboard_layout(&table, None, group),
            PlatformKeyboardMap::fallback_map(&table)
        );
    }
}

#[test]
fn layout_from_a_keymap_is_built_in_the_selected_group() {
    let table = sample_table();
    let mut keys = vec![
        live(24, 0, 0, '\u{439}'),
        live(24, 0, 1, '\u{419}'),
        live(49, 0, 0, '\u{451}'),
        live(49, 0, 1, '\u{401}'),
        live(65, 0, 0, ' '),
        live(65, 0, 1, ' '),
        live(49, 1, 0, '`'),
        live(49, 1, 1, '~'),
        live(36, 1, 0, 'a'),
        live(36, 1, 1, 'A'),
        live(65, 1, 0, ' '),
    ];
    keys.extend(us_block(1));
    let keymap = LiveKeymap { keys };
    let map = PlatformKeyboardMap::create_keyboard_layout(&table, Some(&keymap), 0);
    assert_eq!(
        map,
        KeyboardMap {
            keys: vec![
                plain_key(24, 0x0007_0014, Some(113), Some(81)),
                plain_key(10, 0x0007_001e, Some(49), Some(33)),
                plain_key(49, 0x0007_0035, Some(96), Some(126)),
                plain_key(36, 0x0007_0028, None, None),
                plain_key(38, 0x0007_0004, Some(97), Some(65)),
                plain_key(94, 0x0007_0064, Some(0x20ac), None),
                plain_key(65, 0x0007_002c, Some(32), None),
            ],
        }
    );
}

#[test]
fn layout_in_a_group_that_cannot_type_letters_still_has_every_key() {
    let table = sample_table();
    let keymap = LiveKeymap {
        keys: vec![live(24, 4, 0, '\u{439}'), live(24, 4, 1, '\u{419}'), live(10, 4, 0, '1')],
    };
    let map = PlatformKeyboardMap::create_keyboard_layout(&table, Some(&keymap), 4);
    assert_eq!(
        map,
        KeyboardMap {
            keys: vec![
                plain_key(24, 0x0007_0014, Some(0x439), Some(0x419)),
                plain_key(10, 0x0007_001e, Some(49), None),
                plain_key(49, 0x0007_0035, Some(96), None),
                plain_key(36, 0x0007_0028, None, None),
                plain_key(38, 0x0007_0004, Some(97), None),
                plain_key(94, 0x0007_0064, Some(0x20ac), None),
                plain_key(65, 0x0007_002c, Some(32), None),
            ],
        }
    );
}

#[test]
fn layout_keeps_physical_key_platform_code_and_order_of_the_table() {
    let table = sample_table();
    let keymap = LiveKeymap { keys: us_block(0) };
    let empty = LiveKeymap { keys: vec![] };
    for live in vec![None, Some(&keymap), Some(&empty)] {
        let map = PlatformKeyboardMap::create_keyboard_layout(&table, live, 0);
        assert_eq!(map.keys.len(), table.len());
        for (key, entry) in map.keys.iter().zip(table.iter()) {
            assert_eq!(key.physical, entry.physical);
            assert_eq!(key.platform, entry.platform);
            assert_eq!(key.logical_alt, None);
            assert_eq!(key.logical_alt_shift, None);
            assert_eq!(key.logical_meta, None);
        }
    }
    assert_eq!(
        PlatformKeyboardMap::create_keyboard_layout(&[], Some(&keymap), 0),
        KeyboardMap { keys: vec![] }
    );
}

#[test]
fn consulted_codes_are_the_rows_and_the_table() {
    let table = vec![row(24, 1, None), row(0x1_0000_0063, 2, None), row(-1, 3, None), row(24, 4, None)];
    let mut expected: Vec<u32> = Vec::new();
    expected.extend(10..19);
    expected.extend(24..33);
    expected.extend(38..46);
    expected.extend(52..58);
    assert_eq!(PlatformKeyboardMap::consulted_codes(&[]), expected);
    expected.extend(vec![24, 0x63, 0xffff_ffff, 24]);
    assert_eq!(PlatformKeyboardMap::consulted_codes(&table), expected);
}

#[test]
fn entries_for_codes_that_are_not_consulted_change_nothing() {
    let table = sample_table();
    let consulted = PlatformKeyboardMap::consulted_codes(&table);
    let mut keys = us_block(1);
    keys.push(live(49, 1, 0, '`'));
    keys.push(live(65, 1, 0, ' '));
    let lean = LiveKeymap { keys: keys.clone() };
    for keycode in 0..300u32 {
        if !consulted.contains(&keycode) {
            for group in 0..3 {
                keys.insert(0, live(keycode, group, 0, '\u{161}'));
                keys.push(live(keycode, group, 1, 'x'));
            }
        }
    }
    let crowded = LiveKeymap { keys };
    for current in 0..4u8 {
        assert_eq!(
            PlatformKeyboardMap::create_keyboard_layout(&table, Some(&crowded), current),
            PlatformKeyboardMap::create_keyboard_layout(&table, Some(&lean), current)
        );
    }
}

#[test]
fn layout_built_twice_from_the_same_keymap_is_the_same() {
    let table = sample_table();
    let keymap = LiveKeymap { keys: us_block(2) };
    for current in vec![0u8, 1, 2, 3] {
        let first = PlatformKeyboardMap::create_keyboard_layout(&table, Some(&keymap), current);
        let second = PlatformKeyboardMap::create_keyboard_layout(&table, Some(&keymap), current);
        assert_eq!(first, second);
        assert_eq!(first.keys[0].logical, Some(113));
        assert_eq!(first.keys[0].logical_shift, Some(81));
    }
}

#[test]
fn layout_of_a_table_of_distinct_physical_keys_names_none_twice() {
    let table = sample_table();
    let keymap = LiveKeymap { keys: us_block(0) };
    for live in vec![None, Some(&keymap)] {
        let map = PlatformKeyboardMap::create_keyboard_layout(&table, live, 0);
        for (i, a) in map.keys.iter().enumerate() {
            for b in map.keys.iter().skip(i + 1) {
                assert_ne!(a.physical, b.physical);
            }
        }
    }
}
