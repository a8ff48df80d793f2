use gatedkey::keys::{is_modifier, vk_name, Chord};

#[test]
fn copilot_chord_matches_the_microsoft_spec() {
    let c = Chord::copilot_key();
    assert_eq!(c.vk, 0x86);
    assert!(c.shift && c.win);
    assert!(!c.ctrl && !c.alt);
    assert_eq!(c.label(), "Win + Shift + F23");
}

#[test]
fn f_keys_are_named_correctly() {
    assert_eq!(vk_name(0x70), "F1");
    assert_eq!(vk_name(0x86), "F23");
    assert_eq!(vk_name(0x87), "F24");
}

#[test]
fn every_modifier_variant_is_recognised() {
    for vk in [
        0x10, 0x11, 0x12, 0x5B, 0x5C, 0xA0, 0xA1, 0xA2, 0xA3, 0xA4, 0xA5,
    ] {
        assert!(is_modifier(vk), "vk {vk:#X} should be a modifier");
    }
    assert!(!is_modifier(0x86));
    assert!(!is_modifier(0x41));
}

#[test]
fn named_keys_use_their_names() {
    assert_eq!(vk_name(0x08), "Backspace");
    assert_eq!(vk_name(0x2C), "Print Screen");
    assert_eq!(vk_name(0xB3), "Play/Pause");
    assert_eq!(vk_name(0xDC), "\\");
    assert_eq!(vk_name(0xDE), "'");
}

#[test]
fn digits_and_letters_are_themselves() {
    assert_eq!(vk_name(0x30), "0");
    assert_eq!(vk_name(0x39), "9");
    assert_eq!(vk_name(0x41), "A");
    assert_eq!(vk_name(0x5A), "Z");
}

#[test]
fn numpad_and_unknown_keys() {
    assert_eq!(vk_name(0x60), "Numpad 0");
    assert_eq!(vk_name(0x69), "Numpad 9");
    assert_eq!(vk_name(0xFF), "Key 255");
    assert_eq!(vk_name(0), "Key 0");
    assert_eq!(vk_name(4294967295), "Key 4294967295");
    assert_eq!(vk_name(0x7B), "F12");
}

#[test]
fn labels_order_modifiers_ctrl_win_alt_shift() {
    let c = Chord { vk: 0x41, ctrl: true, shift: true, alt: true, win: true };
    assert_eq!(c.label(), "Ctrl + Win + Alt + Shift + A");
    let plain = Chord { vk: 0x20, ctrl: false, shift: false, alt: false, win: false };
    assert_eq!(plain.label(), "Space");
    let alt = Chord { vk: 0x70, ctrl: false, shift: false, alt: true, win: false };
    assert_eq!(alt.label(), "Alt + F1");
}

#[test]
fn no_two_keys_share_a_name() {
    let mut seen = std::collections::HashSet::new();
    for vk in 0u32..=0x1FF {
        let name = vk_name(vk);
        assert!(!name.is_empty());
        assert!(seen.insert(name), "vk {vk:#X} repeats a name");
    }
}

#[test]
fn no_two_chords_share_a_label() {
    let mut seen = std::collections::HashSet::new();
    for vk in 0u32..=0xFF {
        for m in 0u8..16 {
            let c = Chord { vk, ctrl: m & 1 != 0, shift: m & 2 != 0, alt: m & 4 != 0, win: m & 8 != 0 };
            assert!(seen.insert(c.label()), "{c:?} repeats a label");
        }
    }
}
