use chip_8::error::Chip8Error;
use chip_8::keyboard::Keyboard;

#[test]
fn new_keypad_has_every_key_released() {
    let keys = Keyboard::new();
    for key in 0..16 {
        assert_eq!(keys.is_pressed(key), Ok(false));
    }
}

#[test]
fn set_key_changes_that_key_only() {
    let mut keys = Keyboard::new();
    assert_eq!(keys.set_key(0xA, true), Ok(()));
    for key in 0..16 {
        assert_eq!(keys.is_pressed(key), Ok(key == 0xA));
    }
    assert_eq!(keys.set_key(0xA, false), Ok(()));
    assert_eq!(keys.is_pressed(0xA), Ok(false));
}

#[test]
fn keys_above_0xf_are_invalid() {
    let mut keys = Keyboard::new();
    assert_eq!(keys.set_key(0xF, true), Ok(()));
    assert_eq!(keys.set_key(0x10, true), Err(Chip8Error::InvalidKey));
    assert_eq!(keys.is_pressed(0x10), Err(Chip8Error::InvalidKey));
    assert_eq!(keys.is_pressed(0xF), Ok(true));
}
