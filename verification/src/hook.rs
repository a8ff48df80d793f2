//! The decisions of the low-level keyboard hook.
//!
//! Every keystroke on the machine is handed to [`on_key`] together with the
//! hook's state. It decides whether the key passes on to the rest of the
//! system or is swallowed, and which binding, if any, fires. Keys that do not
//! match a binding are compared and dropped on the spot: nothing about them is
//! kept in the state.
use vstd::prelude::*;

use crate::config::Binding;
use crate::keys::{is_modifier, is_modifier_spec, Chord};

verus! {

/// Stamped onto keys the application synthesises itself, so the hook ignores
/// its own work.
pub const INJECT_TAG: usize = 0x6761_7465;

/// Bit of the held-modifier mask for Control.
pub const M_CTRL: u8 = 1;
/// Bit of the held-modifier mask for Shift.
pub const M_SHIFT: u8 = 2;
/// Bit of the held-modifier mask for Alt.
pub const M_ALT: u8 = 4;
/// Bit of the held-modifier mask for the Windows key.
pub const M_WIN: u8 = 8;

/// Window messages a low-level keyboard hook receives.
pub const WM_KEYDOWN: u32 = 0x0100;
pub const WM_KEYUP: u32 = 0x0101;
pub const WM_SYSKEYDOWN: u32 = 0x0104;
pub const WM_SYSKEYUP: u32 = 0x0105;

/// What the hook keeps between keystrokes, apart from the binding set.
#[derive(Clone, Copy, Debug, PartialEq, Eq, Structural)]
pub struct HookFlags {
    /// Master on/off: when off, no binding fires.
    pub enabled: bool,
    /// In learn mode every non-modifier keydown is captured and swallowed.
    pub learn_mode: bool,
    /// Which modifiers are currently held (`M_*` bits).
    pub mods: u8,
    /// The vk of a keydown that was swallowed, so its keyup can be swallowed
    /// too; 0 means none.
    pub swallowed_vk: u32,
    /// How many times the hook has run, wrapping around. A bare count with no
    /// key identity.
    pub seen: u64,
}

/// One call of the hook: the hook code, the window message, the virtual-key
/// code and the extra information stamped on the key.
#[derive(Clone, Copy, Debug, PartialEq, Eq, Structural)]
pub struct KeyEvent {
    pub code: i32,
    pub msg: u32,
    pub vk: u32,
    pub extra_info: usize,
}

/// What the hook does with a keystroke.
#[derive(Clone, Copy, Debug, PartialEq, Eq, Structural)]
pub enum HookOutcome {
    /// Hand the key on to the rest of the system.
    Pass,
    /// Swallow the key (the keyup of a keydown swallowed earlier).
    Swallow,
    /// Learn mode captured this chord; the key is swallowed. When the chord
    /// holds the Windows key, a harmless Ctrl tap must be injected so the
    /// Start menu does not open on release.
    Learned { chord: Chord, break_start_menu: bool },
    /// The binding at this index matched; the key is swallowed and the
    /// binding's action is to run. `break_start_menu` as for `Learned`.
    Fired { index: usize, break_start_menu: bool },
}

/// The mask bit that a modifier key sets; 0 for any other key. Left and right
/// variants share a bit: no chord distinguishes them.
pub open spec fn mod_bit(vk: u32) -> u8 {
    if vk == 0x11 || vk == 0xA2 || vk == 0xA3 {
        M_CTRL
    } else if vk == 0x10 || vk == 0xA0 || vk == 0xA1 {
        M_SHIFT
    } else if vk == 0x12 || vk == 0xA4 || vk == 0xA5 {
        M_ALT
    } else if vk == 0x5B || vk == 0x5C {
        M_WIN
    } else {
        0
    }
}

/// The mask after `vk` went down (`down`) or up.
pub open spec fn mods_after(mods: u8, vk: u32, down: bool) -> u8 {
    if mod_bit(vk) == 0 {
        mods
    } else if down {
        mods | mod_bit(vk)
    } else {
        mods & !mod_bit(vk)
    }
}

/// The chord made by `vk` with the modifiers held in `mods`.
pub open spec fn chord_of(vk: u32, mods: u8) -> Chord {
    Chord {
        vk,
        ctrl: mods & M_CTRL != 0,
        shift: mods & M_SHIFT != 0,
        alt: mods & M_ALT != 0,
        win: mods & M_WIN != 0,
    }
}

pub open spec fn is_down_msg(msg: u32) -> bool {
    msg == WM_KEYDOWN || msg == WM_SYSKEYDOWN
}

pub open spec fn is_up_msg(msg: u32) -> bool {
    msg == WM_KEYUP || msg == WM_SYSKEYUP
}

/// Whether `b` fires for `chord`.
pub open spec fn binding_matches(b: Binding, chord: Chord) -> bool {
    b.enabled && b.chord == chord
}

/// `i` is the first binding that fires for `chord`.
pub open spec fn first_match(bindings: Seq<Binding>, chord: Chord, i: int) -> bool {
    &&& 0 <= i < bindings.len()
    &&& binding_matches(bindings[i], chord)
    &&& forall|j: int| 0 <= j < i ==> !binding_matches(#[trigger] bindings[j], chord)
}

/// There is at most one first match.
pub proof fn lemma_first_match_unique(bindings: Seq<Binding>, chord: Chord, i: int, j: int)
    requires
        first_match(bindings, chord, i),
        first_match(bindings, chord, j),
    ensures
        i == j,
{
    if i < j {
        assert(!binding_matches(bindings[i], chord));
    } else if j < i {
        assert(!binding_matches(bindings[j], chord));
    }
}

/// No binding fires for `chord`.
pub open spec fn no_match(bindings: Seq<Binding>, chord: Chord) -> bool {
    forall|j: int| 0 <= j < bindings.len() ==> !binding_matches(#[trigger] bindings[j], chord)
}

/// The index of the binding that fires for `chord`, if any.
pub open spec fn fire_index(bindings: Seq<Binding>, chord: Chord) -> Option<int> {
    if exists|i: int| first_match(bindings, chord, i) {
        Some(choose|i: int| first_match(bindings, chord, i))
    } else {
        None
    }
}

/// The binding set as the decisions see it: `None` when it could not be read
/// (the hook never waits for it), in which case no binding fires.
pub open spec fn bindings_view(bindings: Option<&Vec<Binding>>) -> Option<Seq<Binding>> {
    match bindings {
        Some(v) => Some(v@),
        None => None,
    }
}

/// The hook's decision on one keystroke, and the flags it leaves behind.
///
/// In order: a negative hook code is passed on untouched; otherwise the call
/// is counted. A key the application injected itself passes. A modifier only
/// updates the held mask and passes. The keyup of the key swallowed last is
/// swallowed too, whatever the switches say. Any other keyup passes. In learn
/// mode a keydown is captured with the modifiers held. Otherwise, switched
/// off, it passes; switched on, the first enabled binding with this chord
/// fires, if the binding set could be read. Anything else passes.
pub open spec fn hook_step(f: HookFlags, bindings: Option<Seq<Binding>>, ev: KeyEvent) -> (HookFlags, HookOutcome) {
    if ev.code < 0 {
        (f, HookOutcome::Pass)
    } else {
        let f = counted(f);
        if ev.extra_info == INJECT_TAG {
            (f, HookOutcome::Pass)
        } else if is_modifier_spec(ev.vk) {
            (HookFlags { mods: mods_after(f.mods, ev.vk, is_down_msg(ev.msg)), ..f }, HookOutcome::Pass)
        } else if is_up_msg(ev.msg) && f.swallowed_vk == ev.vk {
            (HookFlags { swallowed_vk: 0, ..f }, HookOutcome::Swallow)
        } else if !is_down_msg(ev.msg) {
            (f, HookOutcome::Pass)
        } else {
            let chord = chord_of(ev.vk, f.mods);
            if f.learn_mode {
                (
                    HookFlags { swallowed_vk: ev.vk, ..f },
                    HookOutcome::Learned { chord, break_start_menu: chord.win },
                )
            } else if !f.enabled {
                (f, HookOutcome::Pass)
            } else {
                match bindings {
                    Some(b) => match fire_index(b, chord) {
                        Some(i) => (
                            HookFlags { swallowed_vk: ev.vk, ..f },
                            HookOutcome::Fired { index: i as usize, break_start_menu: chord.win },
                        ),
                        None => (f, HookOutcome::Pass),
                    },
                    None => (f, HookOutcome::Pass),
                }
            }
        }
    }
}

/// The flags after a counted call that changed nothing else.
pub open spec fn counted(f: HookFlags) -> HookFlags {
    HookFlags { seen: (if f.seen == u64::MAX { 0 } else { (f.seen + 1) as u64 }), ..f }
}

impl HookFlags {
    /// Switched on, out of learn mode, with nothing held, nothing swallowed
    /// and nothing counted.
    pub fn new() -> (f: HookFlags)
        ensures
            f == (HookFlags { enabled: true, learn_mode: false, mods: 0, swallowed_vk: 0, seen: 0 }),
    {
        HookFlags { enabled: true, learn_mode: false, mods: 0, swallowed_vk: 0, seen: 0 }
    }
}

/// Replace the active binding set. Called whenever the user saves.
pub fn set_bindings(bindings: &mut Vec<Binding>, new: Vec<Binding>)
    ensures
        final(bindings)@ == new@,
{
    *bindings = new;
}

/// Master on/off. The hook stays installed either way, so toggling can never
/// leave a key half-captured.
pub fn set_enabled(flags: &mut HookFlags, on: bool)
    ensures
        *final(flags) == (HookFlags { enabled: on, ..*old(flags) }),
{
    flags.enabled = on;
}

/// In learn mode every non-modifier keydown is captured and swallowed, and
/// reported so the user can see what they pressed.
pub fn set_learn_mode(flags: &mut HookFlags, on: bool)
    ensures
        *final(flags) == (HookFlags { learn_mode: on, ..*old(flags) }),
{
    flags.learn_mode = on;
}

/// Record that a modifier went down or up. Any other key leaves the mask as
/// it is.
pub fn update_mods(flags: &mut HookFlags, vk: u32, down: bool)
    ensures
        *final(flags) == (HookFlags { mods: mods_after(old(flags).mods, vk, down), ..*old(flags) }),
{
    let bit: u8 = if vk == 0x11 || vk == 0xA2 || vk == 0xA3 {
        M_CTRL
    } else if vk == 0x10 || vk == 0xA0 || vk == 0xA1 {
        M_SHIFT
    } else if vk == 0x12 || vk == 0xA4 || vk == 0xA5 {
        M_ALT
    } else if vk == 0x5B || vk == 0x5C {
        M_WIN
    } else {
        return;
    };
    if down {
        flags.mods = flags.mods | bit;
    } else {
        flags.mods = flags.mods & !bit;
    }
}

/// The first enabled binding with this chord.
fn find_binding(bindings: &Vec<Binding>, chord: Chord) -> (r: Option<usize>)
    ensures
        match r {
            Some(i) => first_match(bindings@, chord, i as int),
            None => no_match(bindings@, chord),
        },
{
    let n = bindings.len();
    let mut i: usize = 0;
    while i < n
        invariant
            n == bindings@.len(),
            i <= n,
            forall|j: int| 0 <= j < i ==> !binding_matches(#[trigger] bindings@[j], chord),
        decreases n - i,
    {
        let b = &bindings[i];
        if b.enabled && b.chord == chord {
            return Some(i);
        }
        i = i + 1;
    }
    None
}

/// Decide what happens to one keystroke, updating the hook's flags. The
/// binding set is `None` when it could not be read without waiting.
pub fn on_key(flags: &mut HookFlags, bindings: Option<&Vec<Binding>>, ev: KeyEvent) -> (out: HookOutcome)
    ensures
        (*final(flags), out) == hook_step(*old(flags), bindings_view(bindings), ev),
{
    if ev.code < 0 {
        return HookOutcome::Pass;
    }
    flags.seen = flags.seen.wrapping_add(1);
    if ev.extra_info == INJECT_TAG {
        return HookOutcome::Pass;
    }
    let is_down = ev.msg == WM_KEYDOWN || ev.msg == WM_SYSKEYDOWN;
    let is_up = ev.msg == WM_KEYUP || ev.msg == WM_SYSKEYUP;
    let vk = ev.vk;
    if is_modifier(vk) {
        update_mods(flags, vk, is_down);
        return HookOutcome::Pass;
    }
    if is_up && flags.swallowed_vk == vk {
        flags.swallowed_vk = 0;
        return HookOutcome::Swallow;
    }
    if !is_down {
        return HookOutcome::Pass;
    }
    let m = flags.mods;
    let chord = Chord {
        vk,
        ctrl: m & M_CTRL != 0,
        shift: m & M_SHIFT != 0,
        alt: m & M_ALT != 0,
        win: m & M_WIN != 0,
    };
    if flags.learn_mode {
        flags.swallowed_vk = vk;
        return HookOutcome::Learned { chord, break_start_menu: chord.win };
    }
    if !flags.enabled {
        return HookOutcome::Pass;
    }
    let list = match bindings {
        Some(list) => list,
        None => {
            return HookOutcome::Pass;
        },
    };
    match find_binding(list, chord) {
        Some(i) => {
            proof {
                assert(first_match(list@, chord, i as int));
                let k = choose|k: int| first_match(list@, chord, k);
                lemma_first_match_unique(list@, chord, i as int, k);
            }
            flags.swallowed_vk = vk;
            HookOutcome::Fired { index: i, break_start_menu: chord.win }
        },
        None => {
            assert(!exists|k: int| first_match(list@, chord, k));
            HookOutcome::Pass
        },
    }
}

/// The keys that diagnostics may report: modifiers and F13 through F24.
pub open spec fn diagnosable_spec(vk: u32) -> bool {
    is_modifier_spec(vk) || 0x7C <= vk <= 0x87
}

/// Whether diagnostics may mention this key. Ordinary typing is unreportable
/// by construction, so turning diagnostics on can never turn the hook into a
/// keylogger.
pub fn diagnosable(vk: u32) -> (r: bool)
    ensures
        r == diagnosable_spec(vk),
{
    is_modifier(vk) || (0x7C <= vk && vk <= 0x87)
}

/// A negative hook code is handed on untouched, and not even counted.
pub proof fn law_negative_code_is_untouched(f: HookFlags, bindings: Option<Seq<Binding>>, ev: KeyEvent)
    requires
        ev.code < 0,
    ensures
        hook_step(f, bindings, ev) == (f, HookOutcome::Pass),
{
}

/// Every other call is counted, whatever it decides.
pub proof fn law_calls_are_counted(f: HookFlags, bindings: Option<Seq<Binding>>, ev: KeyEvent)
    requires
        ev.code >= 0,
    ensures
        hook_step(f, bindings, ev).0.seen == counted(f).seen,
        hook_step(f, bindings, ev).0.seen == (f.seen + 1) % 0x1_0000_0000_0000_0000,
{
}

/// A key the application injected itself passes straight through and
/// changes nothing but the count; otherwise the Ctrl tap that breaks the
/// Start menu would recurse into the hook forever.
pub proof fn law_injected_keys_pass(f: HookFlags, bindings: Option<Seq<Binding>>, ev: KeyEvent)
    requires
        ev.code >= 0,
        ev.extra_info == INJECT_TAG,
    ensures
        hook_step(f, bindings, ev) == (counted(f), HookOutcome::Pass),
{
}

/// Modifiers never match on their own and always reach the rest of the
/// system; they only update the held-modifier mask.
pub proof fn law_modifiers_always_pass(f: HookFlags, bindings: Option<Seq<Binding>>, ev: KeyEvent)
    requires
        ev.code >= 0,
        ev.extra_info != INJECT_TAG,
        is_modifier_spec(ev.vk),
    ensures
        hook_step(f, bindings, ev) == (
            HookFlags { mods: mods_after(f.mods, ev.vk, is_down_msg(ev.msg)), ..counted(f) },
            HookOutcome::Pass,
        ),
{
}

/// A key that is passed on leaves no trace: apart from the count (and the
/// held mask for a modifier), the state is exactly as it was. Nothing about
/// an unmatched keystroke is kept.
pub proof fn law_passed_keys_leave_no_trace(f: HookFlags, bindings: Option<Seq<Binding>>, ev: KeyEvent)
    requires
        hook_step(f, bindings, ev).1 is Pass,
        !is_modifier_spec(ev.vk) || ev.extra_info == INJECT_TAG,
    ensures
        hook_step(f, bindings, ev).0 == (if ev.code < 0 { f } else { counted(f) }),
{
}

/// The keyup of the key swallowed last is swallowed too, and forgotten. This
/// holds whatever the switches say, so turning the hook off (or learn mode on
/// or off) mid-press cannot strand a keyup.
pub proof fn law_swallowed_keyup_is_swallowed(f: HookFlags, bindings: Option<Seq<Binding>>, ev: KeyEvent)
    requires
        ev.code >= 0,
        ev.extra_info != INJECT_TAG,
        !is_modifier_spec(ev.vk),
        is_up_msg(ev.msg),
        f.swallowed_vk == ev.vk,
    ensures
        hook_step(f, bindings, ev) == (HookFlags { swallowed_vk: 0, ..counted(f) }, HookOutcome::Swallow),
{
}

/// Swallowing a key is not one event: when a keydown is swallowed (captured
/// in learn mode or matched by a binding), its keyup is swallowed as well,
/// even if the switches and the bindings changed in between.
pub proof fn law_swallowed_keydown_swallows_its_keyup(
    f: HookFlags,
    bindings: Option<Seq<Binding>>,
    down: KeyEvent,
    enabled: bool,
    learn_mode: bool,
    later_bindings: Option<Seq<Binding>>,
    up: KeyEvent,
)
    requires
        hook_step(f, bindings, down).1 is Learned || hook_step(f, bindings, down).1 is Fired,
        up.code >= 0,
        up.extra_info != INJECT_TAG,
        is_up_msg(up.msg),
        up.vk == down.vk,
    ensures
        ({
            let after_down = hook_step(f, bindings, down).0;
            let g = HookFlags { enabled, learn_mode, ..after_down };
            hook_step(g, later_bindings, up) == (HookFlags { swallowed_vk: 0, ..counted(g) }, HookOutcome::Swallow)
        }),
{
}

/// Switched off, the hook matches no binding: a key is passed on, swallowed
/// as the keyup of a swallowed keydown, or captured in learn mode.
pub proof fn law_disabled_matches_nothing(f: HookFlags, bindings: Option<Seq<Binding>>, ev: KeyEvent)
    requires
        !f.enabled,
    ensures
        !(hook_step(f, bindings, ev).1 is Fired),
        hook_step(f, bindings, ev).1 is Learned ==> f.learn_mode,
{
}

/// The binding set is consulted only to fire a binding: when it could not be
/// read, the decision is the one with no binding at all.
pub proof fn law_unreadable_bindings_fire_nothing(f: HookFlags, ev: KeyEvent)
    ensures
        hook_step(f, None, ev) == hook_step(f, Some(Seq::<Binding>::empty()), ev),
{
    let chord = chord_of(ev.vk, counted(f).mods);
    assert(!exists|i: int| first_match(Seq::<Binding>::empty(), chord, i));
}

/// In learn mode every non-modifier keydown is captured with the modifiers
/// held, swallowed, and remembered so that its keyup is swallowed too,
/// whether the hook is switched on or off; no binding fires.
pub proof fn law_learn_mode_captures_every_keydown(f: HookFlags, bindings: Option<Seq<Binding>>, ev: KeyEvent)
    requires
        ev.code >= 0,
        ev.extra_info != INJECT_TAG,
        !is_modifier_spec(ev.vk),
        is_down_msg(ev.msg),
        f.learn_mode,
    ensures
        hook_step(f, bindings, ev) == (
            HookFlags { swallowed_vk: ev.vk, ..counted(f) },
            HookOutcome::Learned {
                chord: Chord {
                    vk: ev.vk,
                    ctrl: f.mods & 1 != 0,
                    shift: f.mods & 2 != 0,
                    alt: f.mods & 4 != 0,
                    win: f.mods & 8 != 0,
                },
                break_start_menu: f.mods & 8 != 0,
            },
        ),
{
}

/// A binding fires only on a keydown, only while switched on and out of learn
/// mode, and only if it is the first enabled binding whose chord is the key
/// with the modifiers held; when the binding set could be read and such a
/// binding exists, it fires.
pub proof fn law_first_matching_binding_fires(f: HookFlags, bindings: Option<Seq<Binding>>, ev: KeyEvent)
    requires
        ev.code >= 0,
        ev.extra_info != INJECT_TAG,
        !is_modifier_spec(ev.vk),
        !(is_up_msg(ev.msg) && f.swallowed_vk == ev.vk),
        bindings matches Some(b) ==> b.len() <= usize::MAX,
    ensures
        (hook_step(f, bindings, ev).1 is Fired) <==> ({
            &&& f.enabled && !f.learn_mode && is_down_msg(ev.msg)
            &&& bindings is Some
            &&& exists|i: int| first_match(bindings->0, chord_of(ev.vk, f.mods), i)
        }),
        hook_step(f, bindings, ev).1 matches HookOutcome::Fired { index, break_start_menu } ==> {
            &&& bindings is Some
            &&& first_match(bindings->0, chord_of(ev.vk, f.mods), index as int)
            &&& break_start_menu == (f.mods & M_WIN != 0)
            &&& hook_step(f, bindings, ev).0 == HookFlags { swallowed_vk: ev.vk, ..counted(f) }
        },
{
    if f.enabled && !f.learn_mode && is_down_msg(ev.msg) {
        if let Some(b) = bindings {
            let chord = chord_of(ev.vk, f.mods);
            if exists|i: int| first_match(b, chord, i) {
                let i = choose|i: int| first_match(b, chord, i);
                assert(first_match(b, chord, i));
            }
        }
    }
}

/// The Start menu is only ever broken up when the swallowed chord holds the
/// Windows key.
pub proof fn law_start_menu_break_only_with_win(f: HookFlags, bindings: Option<Seq<Binding>>, ev: KeyEvent)
    ensures
        hook_step(f, bindings, ev).1 matches HookOutcome::Learned { chord, break_start_menu } ==> (
            break_start_menu == chord.win && chord.win == (f.mods & M_WIN != 0)),
        hook_step(f, bindings, ev).1 matches HookOutcome::Fired { index, break_start_menu } ==> (
            break_start_menu == (f.mods & M_WIN != 0)),
{
}

/// Exactly the modifier keys are tracked in the held mask.
pub proof fn law_modifiers_are_tracked(vk: u32)
    ensures
        is_modifier_spec(vk) <==> mod_bit(vk) != 0,
{
}

/// Pressing a modifier sets its bit and releasing it clears the bit (left and
/// right share one); the other bits stay as they were.
pub proof fn law_mask_follows_press_and_release(mods: u8, vk: u32, down: bool)
    requires
        mod_bit(vk) != 0,
    ensures
        down ==> mods_after(mods, vk, down) & mod_bit(vk) == mod_bit(vk),
        !down ==> mods_after(mods, vk, down) & mod_bit(vk) == 0,
        mods_after(mods, vk, down) & !mod_bit(vk) == mods & !mod_bit(vk),
{
    let b = mod_bit(vk);
    assert(b == M_CTRL || b == M_SHIFT || b == M_ALT || b == M_WIN);
    assert(b != 0 ==> (mods | b) & b == b) by (bit_vector);
    assert((mods & !b) & b == 0) by (bit_vector);
    assert((mods | b) & !b == mods & !b) by (bit_vector);
    assert((mods & !b) & !b == mods & !b) by (bit_vector);
}

/// Each modifier key sets and clears the bit of its own modifier, whatever
/// else is held: Control (0x11, 0xA2, 0xA3) bit 1, Shift (0x10, 0xA0, 0xA1)
/// bit 2, Alt (0x12, 0xA4, 0xA5) bit 4, the Windows keys (0x5B, 0x5C) bit 8.
/// Any other key leaves the mask alone.
pub proof fn law_each_modifier_sets_its_own_bit(m: u8, vk: u32)
    ensures
        (vk == 0x11 || vk == 0xA2 || vk == 0xA3) ==> mods_after(m, vk, true) == m | 1u8 && mods_after(m, vk, false)
            == m & 0xFEu8,
        (vk == 0x10 || vk == 0xA0 || vk == 0xA1) ==> mods_after(m, vk, true) == m | 2u8 && mods_after(m, vk, false)
            == m & 0xFDu8,
        (vk == 0x12 || vk == 0xA4 || vk == 0xA5) ==> mods_after(m, vk, true) == m | 4u8 && mods_after(m, vk, false)
            == m & 0xFBu8,
        (vk == 0x5B || vk == 0x5C) ==> mods_after(m, vk, true) == m | 8u8 && mods_after(m, vk, false) == m & 0xF7u8,
        !(vk == 0x10 || vk == 0x11 || vk == 0x12 || vk == 0x5B || vk == 0x5C || 0xA0 <= vk <= 0xA5) ==> (
            mods_after(m, vk, true) == m && mods_after(m, vk, false) == m),
{
    assert(m & !1u8 == m & 0xFEu8) by (bit_vector);
    assert(m & !2u8 == m & 0xFDu8) by (bit_vector);
    assert(m & !4u8 == m & 0xFBu8) by (bit_vector);
    assert(m & !8u8 == m & 0xF7u8) by (bit_vector);
}

/// The chord of a keydown is the key with the modifiers held: Control for
/// bit 1 of the mask, Shift for bit 2, Alt for bit 4, Windows for bit 8.
pub proof fn law_chord_is_key_with_held_modifiers(vk: u32, m: u8)
    ensures
        chord_of(vk, m) == (Chord {
            vk,
            ctrl: m & 1 != 0,
            shift: m & 2 != 0,
            alt: m & 4 != 0,
            win: m & 8 != 0,
        }),
{
}

/// A modifier pressed before a key is part of that key's chord: after a
/// keydown of any Alt key, a binding whose chord is Alt plus the next key
/// (with no other modifier held) fires on that key, if it is the first
/// enabled binding for that chord.
pub proof fn law_modifier_then_key_fires_the_modified_chord(
    f: HookFlags,
    bindings: Seq<Binding>,
    modifier: KeyEvent,
    key: KeyEvent,
    i: int,
)
    requires
        modifier.code >= 0,
        modifier.extra_info != INJECT_TAG,
        modifier.vk == 0x12 || modifier.vk == 0xA4 || modifier.vk == 0xA5,
        modifier.msg == WM_KEYDOWN,
        key.code >= 0,
        key.extra_info != INJECT_TAG,
        key.msg == WM_KEYDOWN,
        !is_modifier_spec(key.vk),
        f.mods == 0,
        f.enabled,
        !f.learn_mode,
        bindings.len() <= usize::MAX,
        first_match(bindings, Chord { vk: key.vk, ctrl: false, shift: false, alt: true, win: false }, i),
    ensures
        ({
            let g = hook_step(f, Some(bindings), modifier).0;
            hook_step(g, Some(bindings), key).1 == HookOutcome::Fired { index: i as usize, break_start_menu: false }
        }),
{
    let g = hook_step(f, Some(bindings), modifier).0;
    let chord = Chord { vk: key.vk, ctrl: false, shift: false, alt: true, win: false };
    law_each_modifier_sets_its_own_bit(0, modifier.vk);
    assert(g.mods == 4u8) by {
        assert(0u8 | 4u8 == 4u8) by (bit_vector);
    }
    assert(4u8 & 1 == 0 && 4u8 & 2 == 0 && 4u8 & 4 != 0 && 4u8 & 8 == 0) by (bit_vector);
    assert(chord_of(key.vk, g.mods) == chord);
    let k = choose|k: int| first_match(bindings, chord, k);
    lemma_first_match_unique(bindings, chord, i, k);
}

/// The messages of a low-level keyboard hook: 0x100 and 0x104 are key
/// presses, 0x101 and 0x105 key releases; a key the application injects
/// itself carries the tag 0x67617465 ("gate").
pub proof fn law_key_messages(msg: u32)
    ensures
        is_down_msg(msg) <==> (msg == 0x100 || msg == 0x104),
        is_up_msg(msg) <==> (msg == 0x101 || msg == 0x105),
        INJECT_TAG == 0x6761_7465,
{
}

/// The modifier keys are Shift, Control and Alt (generic, left and right)
/// and the two Windows keys; diagnostics may name those and F13 to F24, and
/// no other key.
pub proof fn law_modifier_and_diagnosable_keys(vk: u32)
    ensures
        is_modifier_spec(vk) <==> (vk == 0x10 || vk == 0x11 || vk == 0x12 || vk == 0xA0 || vk == 0xA1 || vk == 0xA2
            || vk == 0xA3 || vk == 0xA4 || vk == 0xA5 || vk == 0x5B || vk == 0x5C),
        diagnosable_spec(vk) <==> (is_modifier_spec(vk) || (0x7C <= vk && vk <= 0x87)),
{
}

} // verus!
