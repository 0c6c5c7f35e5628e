use cheap8::emulator::io::keyboard::{Keyboard, MacroquadKeyboard, WindowKey};

#[test]
fn new_keyboard_holds_no_key() {
    let keyboard = MacroquadKeyboard::new();
    for key in 0..16 {
        assert!(!keyboard.is_key_pressed(key));
    }
    assert_eq!(keyboard.wait_key_press(), None);
}

#[test]
fn pressed_key_is_held() {
    let mut keyboard = MacroquadKeyboard::new();
    keyboard.press_key(0xA);
    assert!(keyboard.is_key_pressed(0xA));
    assert!(!keyboard.is_key_pressed(0xB));
}

#[test]
fn wait_gives_the_first_pressed_key() {
    let mut keyboard = MacroquadKeyboard::new();
    keyboard.press_key(7);
    keyboard.press_key(3);
    assert_eq!(keyboard.wait_key_press(), Some(7));
}

#[test]
fn unpressed_key_is_released_and_others_stay() {
    let mut keyboard = MacroquadKeyboard::new();
    keyboard.press_key(7);
    keyboard.press_key(3);
    keyboard.press_key(7);
    keyboard.unpress_key(7);
    assert!(!keyboard.is_key_pressed(7));
    assert!(keyboard.is_key_pressed(3));
    assert_eq!(keyboard.wait_key_press(), Some(3));
}

#[test]
fn update_state_replaces_held_keys() {
    let mut keyboard = MacroquadKeyboard::new();
    keyboard.press_key(1);
    let mut down = [false; 16];
    down[4] = true;
    down[0xF] = true;
    keyboard.update_state(down);
    assert!(!keyboard.is_key_pressed(1));
    assert!(keyboard.is_key_pressed(4));
    assert!(keyboard.is_key_pressed(0xF));
    assert_eq!(keyboard.wait_key_press(), Some(4));
}

#[test]
fn map_gives_the_window_key_of_each_keypad_key() {
    let keyboard = MacroquadKeyboard::new();
    let expected = [
        WindowKey::X,
        WindowKey::Key1,
        WindowKey::Key2,
        WindowKey::Key3,
        WindowKey::Q,
        WindowKey::W,
        WindowKey::E,
        WindowKey::A,
        WindowKey::S,
        WindowKey::D,
        WindowKey::Y,
        WindowKey::C,
        WindowKey::Key4,
        WindowKey::R,
        WindowKey::F,
        WindowKey::V,
    ];
    for key in 0..16u8 {
        assert_eq!(keyboard.map(key), expected[key as usize]);
    }
    for a in 0..16u8 {
        for b in 0..16u8 {
            if a != b {
                assert_ne!(keyboard.map(a), keyboard.map(b));
            }
        }
    }
}

#[test]
fn keys_after_update_then_press() {
    let mut keyboard = MacroquadKeyboard::new();
    let mut down = [false; 16];
    down[3] = true;
    keyboard.update_state(down);
    keyboard.press_key(7);
    assert!(keyboard.is_key_pressed(7));
    assert!(keyboard.is_key_pressed(3));
    assert!(!keyboard.is_key_pressed(4));
    keyboard.unpress_key(3);
    assert!(!keyboard.is_key_pressed(3));
    assert!(keyboard.is_key_pressed(7));
}
