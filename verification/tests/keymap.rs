use chip8::keymap::key_for;

#[test]
fn keymap_follows_the_keyboard_rows() {
    let rows: [(&str, [u8; 4]); 4] = [
        ("1234", [0x1, 0x2, 0x3, 0xC]),
        ("qwer", [0x4, 0x5, 0x6, 0xD]),
        ("asdf", [0x7, 0x8, 0x9, 0xE]),
        ("zxcv", [0xA, 0x0, 0xB, 0xF]),
    ];
    for (chars, keys) in rows {
        for (c, key) in chars.chars().zip(keys) {
            assert_eq!(key_for(c), Some(key), "for {}", c);
        }
    }
    assert_eq!(key_for('y'), Some(0xA));
}

#[test]
fn keymap_knows_seventeen_characters() {
    let mut mapped = 0;
    let mut keys = [false; 16];
    for code in 0..=0x10FFFFu32 {
        if let Some(c) = char::from_u32(code) {
            if let Some(key) = key_for(c) {
                assert!(key < 16);
                keys[key as usize] = true;
                mapped += 1;
            }
        }
    }
    assert_eq!(mapped, 17);
    assert!(keys.iter().all(|seen| *seen));
}

#[test]
fn keymap_ignores_other_characters() {
    for c in ['0', '5', '9', 'Q', 'Z', 'b', ' ', '\u{1b}', '\n', 'é'] {
        assert_eq!(key_for(c), None, "for {:?}", c);
    }
}
