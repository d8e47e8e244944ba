use gameboy::joypad::{Button, Joypad};

const BUTTONS: [Button; 8] = [
    Button::Right,
    Button::Left,
    Button::Up,
    Button::Down,
    Button::A,
    Button::B,
    Button::Select,
    Button::Start,
];

#[test]
fn nothing_selected_shows_no_button() {
    let mut joypad = Joypad::new();
    assert_eq!(joypad.read(), 0xFF);
    for button in BUTTONS {
        joypad.press(button);
    }
    assert_eq!(joypad.read(), 0xFF);
}

#[test]
fn lines_are_active_low() {
    for (i, button) in BUTTONS.iter().enumerate() {
        let mut joypad = Joypad::new();
        joypad.press(*button);
        let line = 0x0F & !(1u8 << (i % 4));
        joypad.write(0x20);
        assert_eq!(joypad.read(), 0xE0 | if i < 4 { line } else { 0x0F });
        joypad.write(0x10);
        assert_eq!(joypad.read(), 0xD0 | if i < 4 { 0x0F } else { line });
        joypad.write(0x00);
        assert_eq!(joypad.read(), 0xC0 | line);
    }
}

#[test]
fn only_the_select_bits_are_written() {
    let mut joypad = Joypad::new();
    joypad.write(0xCF);
    assert_eq!(joypad.read(), 0xCF);
    joypad.write(0xFF);
    assert_eq!(joypad.read(), 0xFF);
}

#[test]
fn press_reports_the_edge() {
    let mut joypad = Joypad::new();
    assert!(joypad.press(Button::A));
    assert!(!joypad.press(Button::A));
    joypad.release(Button::A);
    assert!(joypad.press(Button::A));
}

#[test]
fn buttons_are_independent() {
    let mut joypad = Joypad::new();
    joypad.press(Button::Start);
    joypad.press(Button::Left);
    joypad.release(Button::Left);
    for button in BUTTONS {
        assert_eq!(joypad.is_pressed(button), button == Button::Start);
    }
}

#[test]
fn buttons_have_their_positions() {
    for (i, button) in BUTTONS.iter().enumerate() {
        assert_eq!(button.index(), i);
    }
}
