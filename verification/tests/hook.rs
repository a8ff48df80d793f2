use gatedkey::config::{Action, Binding};
use gatedkey::hook::{
    diagnosable, on_key, set_bindings, set_enabled, set_learn_mode, update_mods, HookFlags,
    HookOutcome, KeyEvent, INJECT_TAG, M_CTRL, M_SHIFT, M_WIN, WM_KEYDOWN, WM_KEYUP, WM_SYSKEYDOWN,
    WM_SYSKEYUP,
};
use gatedkey::keys::Chord;

fn reset() -> HookFlags {
    HookFlags::new()
}

#[test]
fn modifier_state_tracks_press_and_release() {
    let mut st = reset();
    update_mods(&mut st, 0xA0, true); // left shift down
    assert_eq!(st.mods & M_SHIFT, M_SHIFT);
    update_mods(&mut st, 0x5B, true); // left win down
    assert_eq!(st.mods & M_WIN, M_WIN);
    update_mods(&mut st, 0xA0, false);
    assert_eq!(st.mods & M_SHIFT, 0);
    assert_eq!(st.mods & M_WIN, M_WIN);
}

#[test]
fn left_and_right_modifiers_set_the_same_bit() {
    let mut st = reset();
    update_mods(&mut st, 0xA2, true); // left ctrl
    update_mods(&mut st, 0xA3, true); // right ctrl
    update_mods(&mut st, 0xA2, false);
    // Releasing one clears the bit.
    assert_eq!(st.mods & M_CTRL, 0);
}

#[test]
fn non_modifier_keys_do_not_touch_the_mask() {
    let mut st = reset();
    update_mods(&mut st, 0x41, true); // 'A'
    assert_eq!(st.mods, 0);
}

#[test]
fn enabled_and_learn_flags_toggle() {
    let mut st = reset();
    set_enabled(&mut st, false);
    assert!(!st.enabled);
    set_enabled(&mut st, true);
    assert!(st.enabled);
    set_learn_mode(&mut st, true);
    assert!(st.learn_mode);
    set_learn_mode(&mut st, false);
    assert!(!st.learn_mode);
}

fn ev(msg: u32, vk: u32) -> KeyEvent {
    KeyEvent { code: 0, msg, vk, extra_info: 0 }
}

fn copilot_binding() -> Binding {
    Binding {
        id: "a".into(),
        name: "Test".into(),
        chord: Chord::copilot_key(),
        action: Action::OpenUrl { url: "https://example.com".into() },
        enabled: true,
    }
}

#[test]
fn copilot_chord_fires_and_both_edges_are_swallowed() {
    let mut st = reset();
    let mut list = Vec::new();
    set_bindings(&mut list, vec![copilot_binding()]);
    let b = Some(&list);
    assert_eq!(on_key(&mut st, b, ev(WM_KEYDOWN, 0xA0)), HookOutcome::Pass);
    assert_eq!(on_key(&mut st, b, ev(WM_KEYDOWN, 0x5B)), HookOutcome::Pass);
    assert_eq!(
        on_key(&mut st, b, ev(WM_KEYDOWN, 0x86)),
        HookOutcome::Fired { index: 0, break_start_menu: true }
    );
    assert_eq!(st.swallowed_vk, 0x86);
    assert_eq!(on_key(&mut st, b, ev(WM_KEYUP, 0x86)), HookOutcome::Swallow);
    assert_eq!(st.swallowed_vk, 0);
    assert_eq!(on_key(&mut st, b, ev(WM_KEYUP, 0x86)), HookOutcome::Pass);
    assert_eq!(on_key(&mut st, b, ev(WM_KEYUP, 0x5B)), HookOutcome::Pass);
    assert_eq!(st.mods, M_SHIFT);
    assert_eq!(st.seen, 6);
}

#[test]
fn unmatched_keys_pass_and_leave_no_trace() {
    let mut st = reset();
    let list = vec![copilot_binding()];
    let b = Some(&list);
    assert_eq!(on_key(&mut st, b, ev(WM_KEYDOWN, 0x86)), HookOutcome::Pass);
    assert_eq!(on_key(&mut st, b, ev(WM_KEYDOWN, 0x41)), HookOutcome::Pass);
    assert_eq!(st.swallowed_vk, 0);
    assert_eq!(st.mods, 0);
    assert_eq!(st.seen, 2);
}

#[test]
fn disabled_bindings_and_master_switch() {
    let mut st = reset();
    let mut off = copilot_binding();
    off.enabled = false;
    let mut ctrl_a = copilot_binding();
    ctrl_a.chord = Chord { vk: 0x41, ctrl: true, shift: false, alt: false, win: false };
    let list = vec![off, copilot_binding(), ctrl_a];
    let b = Some(&list);
    on_key(&mut st, b, ev(WM_KEYDOWN, 0xA0));
    on_key(&mut st, b, ev(WM_SYSKEYDOWN, 0x5C));
    assert_eq!(
        on_key(&mut st, b, ev(WM_SYSKEYDOWN, 0x86)),
        HookOutcome::Fired { index: 1, break_start_menu: true }
    );
    set_enabled(&mut st, false);
    // the keyup still goes, even though the hook is now off
    assert_eq!(on_key(&mut st, b, ev(WM_SYSKEYUP, 0x86)), HookOutcome::Swallow);
    assert_eq!(on_key(&mut st, b, ev(WM_KEYDOWN, 0x86)), HookOutcome::Pass);
    set_enabled(&mut st, true);
    on_key(&mut st, b, ev(WM_KEYUP, 0xA0));
    on_key(&mut st, b, ev(WM_KEYUP, 0x5C));
    on_key(&mut st, b, ev(WM_KEYDOWN, 0xA3));
    assert_eq!(
        on_key(&mut st, b, ev(WM_KEYDOWN, 0x41)),
        HookOutcome::Fired { index: 2, break_start_menu: false }
    );
}

#[test]
fn learn_mode_captures_every_keydown() {
    let mut st = reset();
    let list = vec![copilot_binding()];
    let b = Some(&list);
    set_learn_mode(&mut st, true);
    on_key(&mut st, b, ev(WM_KEYDOWN, 0x12));
    assert_eq!(
        on_key(&mut st, b, ev(WM_KEYDOWN, 0x42)),
        HookOutcome::Learned {
            chord: Chord { vk: 0x42, ctrl: false, shift: false, alt: true, win: false },
            break_start_menu: false,
        }
    );
    assert_eq!(on_key(&mut st, b, ev(WM_KEYUP, 0x42)), HookOutcome::Swallow);
    // modifiers alone are never captured
    assert_eq!(on_key(&mut st, b, ev(WM_KEYDOWN, 0x5B)), HookOutcome::Pass);
}

#[test]
fn injected_keys_and_negative_codes_pass_untouched() {
    let mut st = reset();
    let b = None;
    set_learn_mode(&mut st, true);
    let injected = KeyEvent { code: 0, msg: WM_KEYDOWN, vk: 0x11, extra_info: INJECT_TAG };
    assert_eq!(on_key(&mut st, b, injected), HookOutcome::Pass);
    assert_eq!(st.mods, 0);
    assert_eq!(st.seen, 1);
    let negative = KeyEvent { code: -1, msg: WM_KEYDOWN, vk: 0x41, extra_info: 0 };
    assert_eq!(on_key(&mut st, b, negative), HookOutcome::Pass);
    assert_eq!(st.seen, 1);
    assert_eq!(st.swallowed_vk, 0);
}

#[test]
fn the_count_wraps() {
    let mut st = reset();
    st.seen = u64::MAX;
    on_key(&mut st, None, ev(WM_KEYDOWN, 0x41));
    assert_eq!(st.seen, 0);
}

#[test]
fn only_modifiers_and_high_function_keys_are_diagnosable() {
    assert!(diagnosable(0x10));
    assert!(diagnosable(0xA5));
    assert!(diagnosable(0x7C)); // F13
    assert!(diagnosable(0x87)); // F24
    assert!(!diagnosable(0x7B)); // F12
    assert!(!diagnosable(0x41));
    assert!(!diagnosable(0x88));
}

#[test]
fn learn_mode_captures_even_when_switched_off() {
    let mut st = reset();
    let list = vec![copilot_binding()];
    let b = Some(&list);
    set_enabled(&mut st, false);
    set_learn_mode(&mut st, true);
    on_key(&mut st, b, ev(WM_KEYDOWN, 0xA0));
    on_key(&mut st, b, ev(WM_KEYDOWN, 0x5B));
    assert_eq!(
        on_key(&mut st, b, ev(WM_KEYDOWN, 0x86)),
        HookOutcome::Learned { chord: Chord::copilot_key(), break_start_menu: true }
    );
    assert_eq!(on_key(&mut st, b, ev(WM_KEYUP, 0x86)), HookOutcome::Swallow);
}

#[test]
fn an_unreadable_binding_set_fires_nothing_but_keeps_track() {
    let mut st = reset();
    let list = vec![copilot_binding()];
    on_key(&mut st, None, ev(WM_KEYDOWN, 0xA0));
    on_key(&mut st, None, ev(WM_KEYDOWN, 0x5B));
    assert_eq!(on_key(&mut st, None, ev(WM_KEYDOWN, 0x86)), HookOutcome::Pass);
    assert_eq!(st.mods, M_SHIFT | M_WIN);
    assert_eq!(
        on_key(&mut st, Some(&list), ev(WM_KEYDOWN, 0x86)),
        HookOutcome::Fired { index: 0, break_start_menu: true }
    );
    // the keyup is swallowed even if the binding set is busy again
    assert_eq!(on_key(&mut st, None, ev(WM_KEYUP, 0x86)), HookOutcome::Swallow);
    on_key(&mut st, None, ev(WM_KEYUP, 0x5B));
    assert_eq!(st.mods, M_SHIFT);
    assert_eq!(st.seen, 6);
}
