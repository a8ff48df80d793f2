//! Bindings, actions, and the configuration they live in.
//!
//! The configuration holds key bindings and nothing else: no telemetry, no
//! identifiers, no history.
use vstd::prelude::*;

use crate::keys::Chord;
use crate::text::push_char;

verus! {

/// What a bound key does when pressed.
#[derive(Clone, Debug, PartialEq, Eq)]
pub enum Action {
    /// Run an executable directly.
    LaunchApp { path: String, args: String },
    /// Hand a URL to the default browser.
    OpenUrl { url: String },
    /// Open a folder in Explorer.
    OpenFolder { path: String },
    /// Run a shell command.
    RunCommand { command: String },
}

/// A key chord together with what it does.
#[derive(Clone, Debug)]
pub struct Binding {
    pub id: String,
    pub name: String,
    pub chord: Chord,
    pub action: Action,
    pub enabled: bool,
}

/// The whole configuration.
#[derive(Clone, Debug)]
pub struct Config {
    pub bindings: Vec<Binding>,
    /// Master switch. When false the hook stays installed but matches nothing,
    /// so toggling is instant and never leaves a key half-captured.
    pub enabled: bool,
    pub start_with_windows: bool,
    pub start_minimised: bool,
}

/// The value a binding's `enabled` flag takes when the stored configuration
/// leaves it out: a binding is on unless switched off.
pub fn default_true() -> (r: bool)
    ensures
        r,
{
    true
}

impl Default for Config {
    /// No bindings, the master switch on, and both start-up options on: bound
    /// keys stop working entirely when the app is not running, so starting
    /// with Windows and starting minimised are the defaults.
    fn default() -> (c: Config)
        ensures
            c.bindings@.len() == 0,
            c.enabled,
            c.start_with_windows,
            c.start_minimised,
    {
        Config { bindings: Vec::new(), enabled: true, start_with_windows: true, start_minimised: true }
    }
}

/// The UTF-8 byte-order mark as a character.
pub open spec fn bom() -> char {
    '\u{feff}'
}

/// The text of a stored configuration with a leading byte-order mark taken
/// off, if it has one.
pub open spec fn without_bom(text: Seq<char>) -> Seq<char> {
    if text.len() > 0 && text[0] == bom() {
        text.drop_first()
    } else {
        text
    }
}

/// Notepad, and most Windows editors, save UTF-8 with a byte-order mark, and a
/// JSON parser refuses one. The configuration is documented as hand-editable,
/// so the mark is taken off before parsing: otherwise opening the file in
/// Notepad and pressing save would throw away every binding.
pub fn strip_bom(text: &str) -> (r: String)
    ensures
        r@ == without_bom(text@),
{
    let mut out = String::new();
    let mut first = true;
    for c in it: text.chars()
        invariant
            it.seq() == text@,
            first == (it.index() == 0),
            out@ == without_bom(text@.take(it.index() as int)),
    {
        if !(first && c == '\u{feff}') {
            push_char(&mut out, c);
        }
        first = false;
        proof {
            assert(text@.take(it.index() + 1) =~= text@.take(it.index() as int).push(c));
        }
    }
    proof {
        assert(text@.take(text@.len() as int) =~= text@);
    }
    out
}

/// Only a leading U+FEFF is taken off, and only one: the rest of the text
/// is kept as it is.
pub proof fn law_only_a_leading_bom_is_dropped(text: Seq<char>)
    ensures
        (text.len() > 0 && text[0] as u32 == 0xFEFF) ==> without_bom(text) == text.subrange(1, text.len() as int),
        !(text.len() > 0 && text[0] as u32 == 0xFEFF) ==> without_bom(text) == text,
{
    if text.len() > 0 {
        vstd::utf8::char_u32_cast(text[0], text[0] as u32);
        vstd::utf8::char_u32_cast(bom(), bom() as u32);
    }
}

} // verus!
