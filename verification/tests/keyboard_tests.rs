//! Keycode assignment and keymap generation.

use squeekboard::action::{Action, KeySym};
use squeekboard::keyboard::{generate_keycodes, generate_keymap, sorted, KeyState, PressType};

#[test]
fn sorted_orders_names() {
    let names = vec![
        String::from("b"),
        String::from("A"),
        String::from("a"),
        String::from("Z"),
    ];
    let r = sorted(names);
    assert_eq!(
        r,
        vec![
            String::from("A"),
            String::from("Z"),
            String::from("a"),
            String::from("b"),
        ],
    );
}

#[test]
fn keycodes_start_at_nine() {
    let r = generate_keycodes(vec![String::from("a"), String::from("c")]);
    // Sorted: BackSpace, Return, a, c — numbered from 9.
    assert_eq!(
        r,
        vec![
            (String::from("BackSpace"), 9),
            (String::from("Return"), 10),
            (String::from("a"), 11),
            (String::from("c"), 12),
        ],
    );
}

/// A submitting key with several keysyms binds each to its own keycode.
#[test]
fn test_keymap_multi() {
    let keymap_str = generate_keymap(&vec![(
        String::from("ac"),
        KeyState {
            action: Action::Submit {
                text: None,
                keys: vec![KeySym(String::from("a")), KeySym(String::from("c"))],
            },
            keycodes: vec![9, 10],
            pressed: PressType::Released,
        },
    )])
    .expect("Failed to create keymap");

    assert!(keymap_str.contains("key <I9> { [ a ] };"));
    assert!(keymap_str.contains("key <I10> { [ c ] };"));
    assert!(keymap_str.contains("xkb_keycodes \"squeekboard\""));
    assert!(keymap_str.contains("minimum = 8;"));
    assert!(keymap_str.contains("maximum = 999;"));
    assert!(keymap_str.contains("<I998> = 998;"));
    assert!(!keymap_str.contains("<I999> = 999;"));
}

/// The keymap opens with the expected header.
#[test]
fn keymap_header_is_exact() {
    let keymap_str = generate_keymap(&Vec::new()).expect("Failed to create keymap");
    assert!(keymap_str.starts_with(
        "xkb_keymap {\n\n    xkb_keycodes \"squeekboard\" {\n        minimum = 8;\n        maximum = 999;\n\n        <I9> = 9;"
    ));
    assert!(keymap_str.ends_with("};\n"));
}

/// An erasing key binds BackSpace to its first keycode.
#[test]
fn keymap_erase_key() {
    let keymap_str = generate_keymap(&vec![(
        String::from("erase"),
        KeyState {
            action: Action::Erase,
            keycodes: vec![42],
            pressed: PressType::Released,
        },
    )])
    .expect("Failed to create keymap");
    assert!(keymap_str.contains("key <I42> { [ BackSpace ] };"));
}

#[test]
fn key_press_state_builders() {
    let key = KeyState {
        pressed: PressType::Released,
        keycodes: vec![9],
        action: Action::Erase,
    };
    let key = key.into_pressed();
    assert!(matches!(key.pressed, PressType::Pressed));
    let key = key.into_released();
    assert!(matches!(key.pressed, PressType::Released));
    assert_eq!(key.keycodes, vec![9]);
}

/// View-switching keys produce no bindings.
#[test]
fn keymap_ignores_switches() {
    let keymap_str = generate_keymap(&vec![(
        String::from("switch"),
        KeyState {
            action: Action::SetView(String::from("upper")),
            keycodes: vec![9],
            pressed: PressType::Released,
        },
    )])
    .expect("Failed to create keymap");
    assert!(!keymap_str.contains("key <I9>"));
}
