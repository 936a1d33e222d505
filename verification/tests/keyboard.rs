use chip8_emulator::keyboard::{key_index, Keyboard};

#[test]
fn new_keyboard_has_no_key_pressed() {
    let mut kb = Keyboard::new();
    for k in 0..16 {
        assert!(!kb.is_key_pressed(k));
    }
}

#[test]
fn update_sets_and_clears_one_key() {
    let mut kb = Keyboard::new();
    kb.update(7, true);
    assert!(kb.is_key_pressed(7));
    assert!(!kb.is_key_pressed(6));
    kb.update(7, false);
    assert!(!kb.is_key_pressed(7));
}

#[test]
fn first_poll_arms_and_forgets_earlier_press() {
    let mut kb = Keyboard::new();
    kb.update(3, true);
    assert_eq!(kb.wait_for_key(), None);
    assert_eq!(kb.wait_for_key(), None);
    kb.update(9, true);
    assert_eq!(kb.wait_for_key(), Some(9));
}

#[test]
fn release_is_not_a_press() {
    let mut kb = Keyboard::new();
    assert_eq!(kb.wait_for_key(), None);
    kb.update(4, false);
    assert_eq!(kb.wait_for_key(), None);
}

#[test]
fn poll_after_capture_arms_again() {
    let mut kb = Keyboard::new();
    assert_eq!(kb.wait_for_key(), None);
    kb.update(1, true);
    assert_eq!(kb.wait_for_key(), Some(1));
    assert_eq!(kb.wait_for_key(), None);
    kb.update(2, true);
    kb.update(5, true);
    assert_eq!(kb.wait_for_key(), Some(5));
}

#[test]
fn key_index_follows_the_keypad_layout() {
    let rows = [
        ("1234", [0x1, 0x2, 0x3, 0xC]),
        ("QWER", [0x4, 0x5, 0x6, 0xD]),
        ("ASDF", [0x7, 0x8, 0x9, 0xE]),
        ("ZXCV", [0xA, 0x0, 0xB, 0xF]),
    ];
    for (symbols, keys) in rows {
        for (symbol, key) in symbols.chars().zip(keys) {
            assert_eq!(key_index(symbol), Some(key));
            assert_eq!(key_index(symbol.to_ascii_lowercase()), Some(key));
        }
    }
}

#[test]
fn key_index_reaches_every_key_once() {
    let mut seen = [0u32; 16];
    for symbol in "1234QWERASDFZXCV".chars() {
        seen[key_index(symbol).unwrap()] += 1;
    }
    assert_eq!(seen, [1u32; 16]);
}

#[test]
fn key_index_knows_no_other_symbol() {
    for symbol in ['0', '5', '9', 'G', 'p', ' ', '\n', 'é'] {
        assert_eq!(key_index(symbol), None);
    }
}
