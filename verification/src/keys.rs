//! Virtual-key codes, chord representation, and display names.
use vstd::prelude::*;

use crate::text::{decimal, digit_char, push_char, push_decimal};

verus! {

/// Virtual-key code of the Control key.
pub const VK_CONTROL: u32 = 0x11;

/// Virtual-key code of F23, the key a Copilot key emits.
pub const VK_F23: u32 = 0x86;

/// One non-modifier key plus whichever modifiers were held with it.
#[derive(Clone, Copy, Debug, PartialEq, Eq, Structural)]
pub struct Chord {
    pub vk: u32,
    pub ctrl: bool,
    pub shift: bool,
    pub alt: bool,
    pub win: bool,
}

/// The modifier keys: generic, left and right Shift, Control and Alt, and the
/// two Windows keys.
pub open spec fn is_modifier_spec(vk: u32) -> bool {
    ||| vk == 0x10
    ||| vk == 0x11
    ||| vk == 0x12
    ||| vk == 0x5B
    ||| vk == 0x5C
    ||| 0xA0 <= vk <= 0xA5
}

/// Modifier keys never form a chord on their own, so the hook passes them
/// straight through after recording that they are held.
pub fn is_modifier(vk: u32) -> (r: bool)
    ensures
        r == is_modifier_spec(vk),
{
    vk == 0x10 || vk == 0x11 || vk == 0x12 || vk == 0x5B || vk == 0x5C || (0xA0 <= vk && vk <= 0xA5)
}

/// The keys that have a name of their own.
pub open spec fn key_name_table(vk: u32) -> Option<Seq<char>> {
    match vk {
        0x08 => Some("Backspace"@),
        0x09 => Some("Tab"@),
        0x0D => Some("Enter"@),
        0x13 => Some("Pause"@),
        0x14 => Some("Caps Lock"@),
        0x1B => Some("Esc"@),
        0x20 => Some("Space"@),
        0x21 => Some("Page Up"@),
        0x22 => Some("Page Down"@),
        0x23 => Some("End"@),
        0x24 => Some("Home"@),
        0x25 => Some("Left"@),
        0x26 => Some("Up"@),
        0x27 => Some("Right"@),
        0x28 => Some("Down"@),
        0x2C => Some("Print Screen"@),
        0x2D => Some("Insert"@),
        0x2E => Some("Delete"@),
        0x5D => Some("Menu"@),
        0x90 => Some("Num Lock"@),
        0x91 => Some("Scroll Lock"@),
        0xA6 => Some("Browser Back"@),
        0xA7 => Some("Browser Forward"@),
        0xAD => Some("Mute"@),
        0xAE => Some("Volume Down"@),
        0xAF => Some("Volume Up"@),
        0xB0 => Some("Next Track"@),
        0xB1 => Some("Previous Track"@),
        0xB2 => Some("Stop Media"@),
        0xB3 => Some("Play/Pause"@),
        0xBA => Some(";"@),
        0xBB => Some("="@),
        0xBC => Some(","@),
        0xBD => Some("-"@),
        0xBE => Some("."@),
        0xBF => Some("/"@),
        0xC0 => Some("`"@),
        0xDB => Some("["@),
        0xDC => Some("\\"@),
        0xDD => Some("]"@),
        0xDE => Some("'"@),
        _ => None,
    }
}

/// The display name of a virtual-key code: its own name where it has one,
/// the character itself for 0-9 and A-Z, "F1".."F24", "Numpad 0".."Numpad 9",
/// and "Key <code in decimal>" for everything else.
pub open spec fn vk_name_spec(vk: u32) -> Seq<char> {
    match key_name_table(vk) {
        Some(name) => name,
        None => if (0x30 <= vk <= 0x39) || (0x41 <= vk <= 0x5A) {
            seq![vk as char]
        } else if 0x70 <= vk <= 0x87 {
            "F"@ + decimal((vk - 0x6F) as nat)
        } else if 0x60 <= vk <= 0x69 {
            "Numpad "@ + decimal((vk - 0x60) as nat)
        } else {
            "Key "@ + decimal(vk as nat)
        },
    }
}

fn named_key(vk: u32) -> (r: Option<&'static str>)
    ensures
        match r {
            Some(s) => key_name_table(vk) == Some(s@),
            None => key_name_table(vk) is None,
        },
{
    match vk {
        0x08 => Some("Backspace"),
        0x09 => Some("Tab"),
        0x0D => Some("Enter"),
        0x13 => Some("Pause"),
        0x14 => Some("Caps Lock"),
        0x1B => Some("Esc"),
        0x20 => Some("Space"),
        0x21 => Some("Page Up"),
        0x22 => Some("Page Down"),
        0x23 => Some("End"),
        0x24 => Some("Home"),
        0x25 => Some("Left"),
        0x26 => Some("Up"),
        0x27 => Some("Right"),
        0x28 => Some("Down"),
        0x2C => Some("Print Screen"),
        0x2D => Some("Insert"),
        0x2E => Some("Delete"),
        0x5D => Some("Menu"),
        0x90 => Some("Num Lock"),
        0x91 => Some("Scroll Lock"),
        0xA6 => Some("Browser Back"),
        0xA7 => Some("Browser Forward"),
        0xAD => Some("Mute"),
        0xAE => Some("Volume Down"),
        0xAF => Some("Volume Up"),
        0xB0 => Some("Next Track"),
        0xB1 => Some("Previous Track"),
        0xB2 => Some("Stop Media"),
        0xB3 => Some("Play/Pause"),
        0xBA => Some(";"),
        0xBB => Some("="),
        0xBC => Some(","),
        0xBD => Some("-"),
        0xBE => Some("."),
        0xBF => Some("/"),
        0xC0 => Some("`"),
        0xDB => Some("["),
        0xDC => Some("\\"),
        0xDD => Some("]"),
        0xDE => Some("'"),
        _ => None,
    }
}

/// The name shown for a virtual-key code.
pub fn vk_name(vk: u32) -> (r: String)
    ensures
        r@ == vk_name_spec(vk),
{
    if let Some(name) = named_key(vk) {
        return String::from_str(name);
    }
    // 0-9 and A-Z map straight to their ASCII character.
    if (0x30 <= vk && vk <= 0x39) || (0x41 <= vk && vk <= 0x5A) {
        let b: u8 = vk as u8;
        let mut s = String::new();
        push_char(&mut s, b as char);
        return s;
    }
    // F1 through F24.
    if 0x70 <= vk && vk <= 0x87 {
        let mut s = String::from_str("F");
        push_decimal(&mut s, vk - 0x6F);
        return s;
    }
    if 0x60 <= vk && vk <= 0x69 {
        let mut s = String::from_str("Numpad ");
        push_decimal(&mut s, vk - 0x60);
        return s;
    }
    let mut s = String::from_str("Key ");
    push_decimal(&mut s, vk);
    s
}

/// The text a modifier contributes to a label when it is held.
pub open spec fn modifier_part(held: bool, name: Seq<char>) -> Seq<char> {
    if held {
        name + " + "@
    } else {
        Seq::empty()
    }
}

/// A chord's label: the held modifiers in the order Ctrl, Win, Alt, Shift,
/// then the key's name, all joined by " + ".
pub open spec fn label_spec(c: Chord) -> Seq<char> {
    modifier_part(c.ctrl, "Ctrl"@) + modifier_part(c.win, "Win"@) + modifier_part(c.alt, "Alt"@)
        + modifier_part(c.shift, "Shift"@) + vk_name_spec(c.vk)
}

impl Chord {
    /// What a Copilot key emits, per Microsoft's keyboard spec:
    /// Left Shift + Left Win + F23. F23 is used precisely because no physical
    /// keyboard has one, so nothing else can collide with it.
    pub fn copilot_key() -> (c: Chord)
        ensures
            c == (Chord { vk: VK_F23, ctrl: false, shift: true, alt: false, win: true }),
    {
        Chord { vk: VK_F23, ctrl: false, shift: true, alt: false, win: true }
    }

    /// Describes the chord for display, e.g. "Win + Shift + F23".
    pub fn label(&self) -> (r: String)
        ensures
            r@ == label_spec(*self),
    {
        let mut out = String::new();
        if self.ctrl {
            out.append("Ctrl");
            out.append(" + ");
        }
        if self.win {
            out.append("Win");
            out.append(" + ");
        }
        if self.alt {
            out.append("Alt");
            out.append(" + ");
        }
        if self.shift {
            out.append("Shift");
            out.append(" + ");
        }
        let key = vk_name(self.vk);
        out.append(key.as_str());
        assert(out@ =~= label_spec(*self));
        out
    }
}


/// The value a decimal representation stands for.
pub open spec fn parse_decimal(s: Seq<char>) -> int
    decreases s.len(),
{
    if s.len() == 0 {
        0
    } else {
        parse_decimal(s.drop_last()) * 10 + ((s.last() as int) - 48)
    }
}

proof fn lemma_decimal(n: nat)
    ensures
        parse_decimal(decimal(n)) == n,
        decimal(n).len() > 0,
        forall|i: int| 0 <= i < decimal(n).len() ==> '0' <= #[trigger] decimal(n)[i] <= '9',
    decreases n,
{
    if n >= 10 {
        lemma_decimal(n / 10);
        let d = decimal(n / 10);
        assert(n == (n / 10) * 10 + n % 10);
        assert(((digit_char(n % 10) as int) - 48) == n % 10);
        assert(decimal(n).drop_last() =~= d);
        assert(decimal(n).last() == digit_char(n % 10));
        assert(parse_decimal(d) == n / 10);
        assert(parse_decimal(decimal(n)) == parse_decimal(d) * 10 + ((decimal(n).last() as int) - 48));
        assert(parse_decimal(decimal(n)) == n);
        assert forall|i: int| 0 <= i < decimal(n).len() implies '0' <= #[trigger] decimal(n)[i] <= '9' by {
            if i < d.len() {
                assert(decimal(n)[i] == d[i]);
            }
        }
    } else {
        assert(decimal(n).drop_last() =~= Seq::<char>::empty());
        assert(((digit_char(n) as int) - 48) == n);
        assert(decimal(n).last() == digit_char(n));
        assert(parse_decimal(decimal(n).drop_last()) == 0);
        assert(parse_decimal(decimal(n)) == n);
    }
}

/// The key code a one-character display name stands for.
pub open spec fn single_char_code(c: char) -> int {
    if c == ';' {
        0xBA
    } else if c == '=' {
        0xBB
    } else if c == ',' {
        0xBC
    } else if c == '-' {
        0xBD
    } else if c == '.' {
        0xBE
    } else if c == '/' {
        0xBF
    } else if c == '`' {
        0xC0
    } else if c == '[' {
        0xDB
    } else if c == '\\' {
        0xDC
    } else if c == ']' {
        0xDD
    } else if c == '\'' {
        0xDE
    } else {
        c as int
    }
}

/// The key code a display name stands for: the inverse of `vk_name_spec`.
pub open spec fn vk_of_name(s: Seq<char>) -> int {
    if s == seq!['B', 'a', 'c', 'k', 's', 'p', 'a', 'c', 'e'] {
        0x08
    } else if s == seq!['T', 'a', 'b'] {
        0x09
    } else if s == seq!['E', 'n', 't', 'e', 'r'] {
        0x0D
    } else if s == seq!['P', 'a', 'u', 's', 'e'] {
        0x13
    } else if s == seq!['C', 'a', 'p', 's', ' ', 'L', 'o', 'c', 'k'] {
        0x14
    } else if s == seq!['E', 's', 'c'] {
        0x1B
    } else if s == seq!['S', 'p', 'a', 'c', 'e'] {
        0x20
    } else if s == seq!['P', 'a', 'g', 'e', ' ', 'U', 'p'] {
        0x21
    } else if s == seq!['P', 'a', 'g', 'e', ' ', 'D', 'o', 'w', 'n'] {
        0x22
    } else if s == seq!['E', 'n', 'd'] {
        0x23
    } else if s == seq!['H', 'o', 'm', 'e'] {
        0x24
    } else if s == seq!['L', 'e', 'f', 't'] {
        0x25
    } else if s == seq!['U', 'p'] {
        0x26
    } else if s == seq!['R', 'i', 'g', 'h', 't'] {
        0x27
    } else if s == seq!['D', 'o', 'w', 'n'] {
        0x28
    } else if s == seq!['P', 'r', 'i', 'n', 't', ' ', 'S', 'c', 'r', 'e', 'e', 'n'] {
        0x2C
    } else if s == seq!['I', 'n', 's', 'e', 'r', 't'] {
        0x2D
    } else if s == seq!['D', 'e', 'l', 'e', 't', 'e'] {
        0x2E
    } else if s == seq!['M', 'e', 'n', 'u'] {
        0x5D
    } else if s == seq!['N', 'u', 'm', ' ', 'L', 'o', 'c', 'k'] {
        0x90
    } else if s == seq!['S', 'c', 'r', 'o', 'l', 'l', ' ', 'L', 'o', 'c', 'k'] {
        0x91
    } else if s == seq!['B', 'r', 'o', 'w', 's', 'e', 'r', ' ', 'B', 'a', 'c', 'k'] {
        0xA6
    } else if s == seq!['B', 'r', 'o', 'w', 's', 'e', 'r', ' ', 'F', 'o', 'r', 'w', 'a', 'r', 'd'] {
        0xA7
    } else if s == seq!['M', 'u', 't', 'e'] {
        0xAD
    } else if s == seq!['V', 'o', 'l', 'u', 'm', 'e', ' ', 'D', 'o', 'w', 'n'] {
        0xAE
    } else if s == seq!['V', 'o', 'l', 'u', 'm', 'e', ' ', 'U', 'p'] {
        0xAF
    } else if s == seq!['N', 'e', 'x', 't', ' ', 'T', 'r', 'a', 'c', 'k'] {
        0xB0
    } else if s == seq!['P', 'r', 'e', 'v', 'i', 'o', 'u', 's', ' ', 'T', 'r', 'a', 'c', 'k'] {
        0xB1
    } else if s == seq!['S', 't', 'o', 'p', ' ', 'M', 'e', 'd', 'i', 'a'] {
        0xB2
    } else if s == seq!['P', 'l', 'a', 'y', '/', 'P', 'a', 'u', 's', 'e'] {
        0xB3
    } else if s.len() == 1 {
        single_char_code(s[0])
    } else if s[0] == 'F' {
        0x6F + parse_decimal(s.drop_first())
    } else if s.len() > 7 && s.subrange(0, 7) == seq!['N', 'u', 'm', 'p', 'a', 'd', ' '] {
        0x60 + parse_decimal(s.skip(7))
    } else {
        parse_decimal(s.skip(4))
    }
}

proof fn lemma_named_key(vk: u32)
    requires
        key_name_table(vk) is Some,
    ensures
        vk_of_name(key_name_table(vk)->0) == vk,
        key_name_table(vk)->0.len() > 0,
        !key_name_table(vk)->0.contains('+'),
{
    match vk {
        0x08 => {
            reveal_strlit("Backspace");
            assert("Backspace"@ =~= seq!['B', 'a', 'c', 'k', 's', 'p', 'a', 'c', 'e']);
        },
        0x09 => {
            reveal_strlit("Tab");
            assert("Tab"@ =~= seq!['T', 'a', 'b']);
        },
        0x0D => {
            reveal_strlit("Enter");
            assert("Enter"@ =~= seq!['E', 'n', 't', 'e', 'r']);
        },
        0x13 => {
            reveal_strlit("Pause");
            assert("Pause"@ =~= seq!['P', 'a', 'u', 's', 'e']);
        },
        0x14 => {
            reveal_strlit("Caps Lock");
            assert("Caps Lock"@ =~= seq!['C', 'a', 'p', 's', ' ', 'L', 'o', 'c', 'k']);
        },
        0x1B => {
            reveal_strlit("Esc");
            assert("Esc"@ =~= seq!['E', 's', 'c']);
        },
        0x20 => {
            reveal_strlit("Space");
            assert("Space"@ =~= seq!['S', 'p', 'a', 'c', 'e']);
        },
        0x21 => {
            reveal_strlit("Page Up");
            assert("Page Up"@ =~= seq!['P', 'a', 'g', 'e', ' ', 'U', 'p']);
        },
        0x22 => {
            reveal_strlit("Page Down");
            assert("Page Down"@ =~= seq!['P', 'a', 'g', 'e', ' ', 'D', 'o', 'w', 'n']);
        },
        0x23 => {
            reveal_strlit("End");
            assert("End"@ =~= seq!['E', 'n', 'd']);
        },
        0x24 => {
            reveal_strlit("Home");
            assert("Home"@ =~= seq!['H', 'o', 'm', 'e']);
        },
        0x25 => {
            reveal_strlit("Left");
            assert("Left"@ =~= seq!['L', 'e', 'f', 't']);
        },
        0x26 => {
            reveal_strlit("Up");
            assert("Up"@ =~= seq!['U', 'p']);
        },
        0x27 => {
            reveal_strlit("Right");
            assert("Right"@ =~= seq!['R', 'i', 'g', 'h', 't']);
        },
        0x28 => {
            reveal_strlit("Down");
            assert("Down"@ =~= seq!['D', 'o', 'w', 'n']);
        },
        0x2C => {
            reveal_strlit("Print Screen");
            assert("Print Screen"@ =~= seq!['P', 'r', 'i', 'n', 't', ' ', 'S', 'c', 'r', 'e', 'e', 'n']);
        },
        0x2D => {
            reveal_strlit("Insert");
            assert("Insert"@ =~= seq!['I', 'n', 's', 'e', 'r', 't']);
        },
        0x2E => {
            reveal_strlit("Delete");
            assert("Delete"@ =~= seq!['D', 'e', 'l', 'e', 't', 'e']);
        },
        0x5D => {
            reveal_strlit("Menu");
            assert("Menu"@ =~= seq!['M', 'e', 'n', 'u']);
        },
        0x90 => {
            reveal_strlit("Num Lock");
            assert("Num Lock"@ =~= seq!['N', 'u', 'm', ' ', 'L', 'o', 'c', 'k']);
        },
        0x91 => {
            reveal_strlit("Scroll Lock");
            assert("Scroll Lock"@ =~= seq!['S', 'c', 'r', 'o', 'l', 'l', ' ', 'L', 'o', 'c', 'k']);
        },
        0xA6 => {
            reveal_strlit("Browser Back");
            assert("Browser Back"@ =~= seq!['B', 'r', 'o', 'w', 's', 'e', 'r', ' ', 'B', 'a', 'c', 'k']);
        },
        0xA7 => {
            reveal_strlit("Browser Forward");
            assert("Browser Forward"@ =~= seq!['B', 'r', 'o', 'w', 's', 'e', 'r', ' ', 'F', 'o', 'r', 'w', 'a', 'r', 'd']);
        },
        0xAD => {
            reveal_strlit("Mute");
            assert("Mute"@ =~= seq!['M', 'u', 't', 'e']);
        },
        0xAE => {
            reveal_strlit("Volume Down");
            assert("Volume Down"@ =~= seq!['V', 'o', 'l', 'u', 'm', 'e', ' ', 'D', 'o', 'w', 'n']);
        },
        0xAF => {
            reveal_strlit("Volume Up");
            assert("Volume Up"@ =~= seq!['V', 'o', 'l', 'u', 'm', 'e', ' ', 'U', 'p']);
        },
        0xB0 => {
            reveal_strlit("Next Track");
            assert("Next Track"@ =~= seq!['N', 'e', 'x', 't', ' ', 'T', 'r', 'a', 'c', 'k']);
        },
        0xB1 => {
            reveal_strlit("Previous Track");
            assert("Previous Track"@ =~= seq!['P', 'r', 'e', 'v', 'i', 'o', 'u', 's', ' ', 'T', 'r', 'a', 'c', 'k']);
        },
        0xB2 => {
            reveal_strlit("Stop Media");
            assert("Stop Media"@ =~= seq!['S', 't', 'o', 'p', ' ', 'M', 'e', 'd', 'i', 'a']);
        },
        0xB3 => {
            reveal_strlit("Play/Pause");
            assert("Play/Pause"@ =~= seq!['P', 'l', 'a', 'y', '/', 'P', 'a', 'u', 's', 'e']);
        },
        0xBA => {
            reveal_strlit(";");
            assert(";"@ =~= Seq::<char>::empty().push(';'));
        },
        0xBB => {
            reveal_strlit("=");
            assert("="@ =~= Seq::<char>::empty().push('='));
        },
        0xBC => {
            reveal_strlit(",");
            assert(","@ =~= Seq::<char>::empty().push(','));
        },
        0xBD => {
            reveal_strlit("-");
            assert("-"@ =~= Seq::<char>::empty().push('-'));
        },
        0xBE => {
            reveal_strlit(".");
            assert("."@ =~= Seq::<char>::empty().push('.'));
        },
        0xBF => {
            reveal_strlit("/");
            assert("/"@ =~= Seq::<char>::empty().push('/'));
        },
        0xC0 => {
            reveal_strlit("`");
            assert("`"@ =~= Seq::<char>::empty().push('`'));
        },
        0xDB => {
            reveal_strlit("[");
            assert("["@ =~= Seq::<char>::empty().push('['));
        },
        0xDC => {
            reveal_strlit("\\");
            assert("\\"@ =~= Seq::<char>::empty().push('\\'));
        },
        0xDD => {
            reveal_strlit("]");
            assert("]"@ =~= Seq::<char>::empty().push(']'));
        },
        0xDE => {
            reveal_strlit("'");
            assert("'"@ =~= Seq::<char>::empty().push('\''));
        },
        _ => {},
    }
}

proof fn lemma_vk_of_name(vk: u32)
    ensures
        vk_of_name(vk_name_spec(vk)) == vk,
        vk_name_spec(vk).len() > 0,
        !vk_name_spec(vk).contains('+'),
{
    reveal_strlit("F");
    reveal_strlit("Numpad ");
    reveal_strlit("Key ");
    assert("Numpad "@ =~= seq!['N', 'u', 'm', 'p', 'a', 'd', ' ']);
    let s = vk_name_spec(vk);
    if key_name_table(vk) is Some {
        lemma_named_key(vk);
    } else if (0x30 <= vk <= 0x39) || (0x41 <= vk <= 0x5A) {
        assert(s.len() == 1);
        assert(s[0] == vk as char);
    } else if 0x70 <= vk <= 0x87 {
        let k = (vk - 0x6F) as nat;
        lemma_decimal(k);
        assert(s[0] == 'F');
        assert(s.drop_first() =~= decimal(k));
    } else if 0x60 <= vk <= 0x69 {
        let k = (vk - 0x60) as nat;
        lemma_decimal(k);
        assert(s.subrange(0, 7) =~= "Numpad "@);
        assert(s.skip(7) =~= decimal(k));
    } else {
        lemma_decimal(vk as nat);
        assert(s[0] == 'K');
        assert(s.skip(4) =~= decimal(vk as nat));
    }
}

/// Every key has a non-empty display name, and no two keys share one.
pub proof fn law_vk_names_are_distinct(a: u32, b: u32)
    ensures
        vk_name_spec(a).len() > 0,
        vk_name_spec(a) == vk_name_spec(b) ==> a == b,
{
    lemma_vk_of_name(a);
    lemma_vk_of_name(b);
}

/// `p` begins `s`.
pub open spec fn begins(s: Seq<char>, p: Seq<char>) -> bool {
    p.len() <= s.len() && s.subrange(0, p.len() as int) == p
}

/// Whether `s` begins with the label part `x + " + "`, and what follows it.
pub open spec fn take_part(s: Seq<char>, x: Seq<char>) -> (bool, Seq<char>) {
    let p = x + " + "@;
    if begins(s, p) {
        (true, s.skip(p.len() as int))
    } else {
        (false, s)
    }
}

/// The chord a label describes: the inverse of `label_spec`.
pub open spec fn chord_of_label(s: Seq<char>) -> Chord {
    let (ctrl, s1) = take_part(s, "Ctrl"@);
    let (win, s2) = take_part(s1, "Win"@);
    let (alt, s3) = take_part(s2, "Alt"@);
    let (shift, s4) = take_part(s3, "Shift"@);
    Chord { vk: vk_of_name(s4) as u32, ctrl, shift, alt, win }
}

proof fn lemma_not_begins(r: Seq<char>, p: Seq<char>, k: int)
    requires
        (r.len() > 0 && p.len() > 0 && r[0] != p[0]) || (0 <= k < p.len() && p[k] == '+' && !r.contains('+')),
    ensures
        !begins(r, p),
{
    if begins(r, p) {
        if r.len() > 0 && p.len() > 0 && r[0] != p[0] {
            assert(r.subrange(0, p.len() as int)[0] == r[0]);
        } else {
            assert(r.subrange(0, p.len() as int)[k] == r[k]);
        }
    }
}

proof fn lemma_take_part(held: bool, x: Seq<char>, r: Seq<char>)
    requires
        !begins(r, x + " + "@),
    ensures
        take_part(modifier_part(held, x) + r, x) == (held, r),
{
    let p = x + " + "@;
    if held {
        let s = modifier_part(held, x) + r;
        assert(s =~= p + r);
        assert(s.subrange(0, p.len() as int) =~= p);
        assert(s.skip(p.len() as int) =~= r);
    } else {
        assert(modifier_part(held, x) + r =~= r);
    }
}

proof fn lemma_chord_of_label(c: Chord)
    ensures
        chord_of_label(label_spec(c)) == c,
{
    reveal_strlit("Ctrl");
    reveal_strlit("Win");
    reveal_strlit("Alt");
    reveal_strlit("Shift");
    reveal_strlit(" + ");
    lemma_vk_of_name(c.vk);
    let n = vk_name_spec(c.vk);
    let d = modifier_part(c.shift, "Shift"@) + n;
    let e = modifier_part(c.alt, "Alt"@) + d;
    let b = modifier_part(c.win, "Win"@) + e;
    let a = modifier_part(c.ctrl, "Ctrl"@) + b;
    assert(label_spec(c) =~= a);
    let pc = "Ctrl"@ + " + "@;
    let pw = "Win"@ + " + "@;
    let pa = "Alt"@ + " + "@;
    let ps = "Shift"@ + " + "@;
    assert(pc[0] == 'C' && pc[5] == '+');
    assert(pw[0] == 'W' && pw[4] == '+');
    assert(pa[0] == 'A' && pa[4] == '+');
    assert(ps[0] == 'S' && ps[6] == '+');
    // what follows the Shift part is the key's name, which holds no '+'
    lemma_not_begins(n, ps, 6);
    lemma_take_part(c.shift, "Shift"@, n);
    // what follows the Alt part
    if c.shift {
        assert(d[0] == 'S');
    } else {
        assert(d =~= n);
    }
    lemma_not_begins(d, pa, 4);
    lemma_take_part(c.alt, "Alt"@, d);
    // what follows the Win part
    if c.alt {
        assert(e[0] == 'A');
    } else if c.shift {
        assert(e =~= d);
        assert(e[0] == 'S');
    } else {
        assert(e =~= n);
    }
    lemma_not_begins(e, pw, 4);
    lemma_take_part(c.win, "Win"@, e);
    // what follows the Ctrl part
    if c.win {
        assert(b[0] == 'W');
    } else if c.alt {
        assert(b =~= e);
        assert(b[0] == 'A');
    } else if c.shift {
        assert(b =~= d);
        assert(b[0] == 'S');
    } else {
        assert(b =~= n);
    }
    lemma_not_begins(b, pc, 5);
    lemma_take_part(c.ctrl, "Ctrl"@, b);
}

/// Distinct chords are always displayed differently.
pub proof fn law_labels_are_distinct(c1: Chord, c2: Chord)
    ensures
        label_spec(c1) == label_spec(c2) ==> c1 == c2,
{
    lemma_chord_of_label(c1);
    lemma_chord_of_label(c2);
}

/// The keys with a name of their own are shown by that name.
pub proof fn law_named_keys_have_their_names()
    ensures
        vk_name_spec(0x08) == "Backspace"@,
        vk_name_spec(0x09) == "Tab"@,
        vk_name_spec(0x0D) == "Enter"@,
        vk_name_spec(0x13) == "Pause"@,
        vk_name_spec(0x14) == "Caps Lock"@,
        vk_name_spec(0x1B) == "Esc"@,
        vk_name_spec(0x20) == "Space"@,
        vk_name_spec(0x21) == "Page Up"@,
        vk_name_spec(0x22) == "Page Down"@,
        vk_name_spec(0x23) == "End"@,
        vk_name_spec(0x24) == "Home"@,
        vk_name_spec(0x25) == "Left"@,
        vk_name_spec(0x26) == "Up"@,
        vk_name_spec(0x27) == "Right"@,
        vk_name_spec(0x28) == "Down"@,
        vk_name_spec(0x2C) == "Print Screen"@,
        vk_name_spec(0x2D) == "Insert"@,
        vk_name_spec(0x2E) == "Delete"@,
        vk_name_spec(0x5D) == "Menu"@,
        vk_name_spec(0x90) == "Num Lock"@,
        vk_name_spec(0x91) == "Scroll Lock"@,
        vk_name_spec(0xA6) == "Browser Back"@,
        vk_name_spec(0xA7) == "Browser Forward"@,
        vk_name_spec(0xAD) == "Mute"@,
        vk_name_spec(0xAE) == "Volume Down"@,
        vk_name_spec(0xAF) == "Volume Up"@,
        vk_name_spec(0xB0) == "Next Track"@,
        vk_name_spec(0xB1) == "Previous Track"@,
        vk_name_spec(0xB2) == "Stop Media"@,
        vk_name_spec(0xB3) == "Play/Pause"@,
        vk_name_spec(0xBA) == ";"@,
        vk_name_spec(0xBB) == "="@,
        vk_name_spec(0xBC) == ","@,
        vk_name_spec(0xBD) == "-"@,
        vk_name_spec(0xBE) == "."@,
        vk_name_spec(0xBF) == "/"@,
        vk_name_spec(0xC0) == "`"@,
        vk_name_spec(0xDB) == "["@,
        vk_name_spec(0xDC) == "\\"@,
        vk_name_spec(0xDD) == "]"@,
        vk_name_spec(0xDE) == "'"@,
{
}

/// The decimal form of a number: non-empty, all digits, no leading zero
/// (except zero itself), and reading back to the number.
pub proof fn law_decimal_is_base_ten(n: nat)
    ensures
        decimal(n).len() > 0,
        forall|i: int| 0 <= i < decimal(n).len() ==> '0' <= #[trigger] decimal(n)[i] <= '9',
        n > 0 ==> decimal(n)[0] != '0',
        parse_decimal(decimal(n)) == n,
    decreases n,
{
    lemma_decimal(n);
    if n >= 10 {
        law_decimal_is_base_ten(n / 10);
        assert(decimal(n)[0] == decimal(n / 10)[0]);
    }
}

/// The keys without a name of their own: 0-9 and A-Z are the character
/// itself, 0x70-0x87 are "F1" to "F24", 0x60-0x69 are "Numpad 0" to
/// "Numpad 9", and every other key is "Key " and its code in decimal.
pub proof fn law_unnamed_keys(vk: u32)
    ensures
        (0x30 <= vk <= 0x39 || 0x41 <= vk <= 0x5A) ==> vk_name_spec(vk) == seq![vk as char],
        0x70 <= vk <= 0x87 ==> vk_name_spec(vk) == seq!['F'] + decimal((vk - 0x6F) as nat),
        0x60 <= vk <= 0x69 ==> vk_name_spec(vk) == seq!['N', 'u', 'm', 'p', 'a', 'd', ' '] + decimal(
            (vk - 0x60) as nat,
        ),
        (key_name_table(vk) is None && !(0x30 <= vk <= 0x39 || 0x41 <= vk <= 0x5A || 0x60 <= vk <= 0x69 || 0x70
            <= vk <= 0x87)) ==> vk_name_spec(vk) == seq!['K', 'e', 'y', ' '] + decimal(vk as nat),
{
    reveal_strlit("F");
    reveal_strlit("Numpad ");
    reveal_strlit("Key ");
    assert("F"@ =~= seq!['F']);
    assert("Numpad "@ =~= seq!['N', 'u', 'm', 'p', 'a', 'd', ' ']);
    assert("Key "@ =~= seq!['K', 'e', 'y', ' ']);
}

/// The keys that have a name of their own: the table above, and no other.
pub proof fn law_only_listed_keys_are_named(vk: u32)
    ensures
        key_name_table(vk) is Some <==> (vk == 0x08 || vk == 0x09 || vk == 0x0D || vk == 0x13 || vk == 0x14 || vk
            == 0x1B || (0x20 <= vk <= 0x28) || (0x2C <= vk <= 0x2E) || vk == 0x5D || vk == 0x90 || vk == 0x91 || vk
            == 0xA6 || vk == 0xA7 || (0xAD <= vk <= 0xB3) || (0xBA <= vk <= 0xC0) || (0xDB <= vk <= 0xDE)),
{
}

/// A label is "Ctrl + ", "Win + ", "Alt + " and "Shift + " for the modifiers
/// held, in that order, followed by the key's name.
pub proof fn law_label_lists_modifiers_then_key(c: Chord)
    ensures
        label_spec(c) == (if c.ctrl { "Ctrl + "@ } else { Seq::<char>::empty() }) + (if c.win {
            "Win + "@
        } else {
            Seq::<char>::empty()
        }) + (if c.alt { "Alt + "@ } else { Seq::<char>::empty() }) + (if c.shift {
            "Shift + "@
        } else {
            Seq::<char>::empty()
        }) + vk_name_spec(c.vk),
{
    reveal_strlit("Ctrl");
    reveal_strlit("Win");
    reveal_strlit("Alt");
    reveal_strlit("Shift");
    reveal_strlit(" + ");
    reveal_strlit("Ctrl + ");
    reveal_strlit("Win + ");
    reveal_strlit("Alt + ");
    reveal_strlit("Shift + ");
    assert("Ctrl"@ + " + "@ =~= "Ctrl + "@);
    assert("Win"@ + " + "@ =~= "Win + "@);
    assert("Alt"@ + " + "@ =~= "Alt + "@);
    assert("Shift"@ + " + "@ =~= "Shift + "@);
}

} // verus!
