//! Decisions taken when the application starts.
use vstd::prelude::*;

use crate::config::Config;

verus! {

/// The argument Windows passes when it starts the application at login.
pub open spec fn autostart_flag() -> Seq<char> {
    "--autostart"@
}

/// Whether the command line holds the login flag: the only way to tell an
/// automatic launch from the user opening the app.
pub fn launched_at_login(args: &Vec<String>) -> (r: bool)
    ensures
        r == exists|i: int| 0 <= i < args@.len() && (#[trigger] args@[i])@ == autostart_flag(),
{
    let flag = String::from_str("--autostart");
    let mut i: usize = 0;
    while i < args.len()
        invariant
            i <= args@.len(),
            flag@ == autostart_flag(),
            forall|k: int| 0 <= k < i ==> (#[trigger] args@[k])@ != autostart_flag(),
        decreases args@.len() - i,
    {
        if args[i] == flag {
            return true;
        }
        i = i + 1;
    }
    false
}

/// Only hide when Windows launched the application at login. If the user
/// opened it themselves they want to see it: an app that starts to nothing
/// visible reads as an app that failed to start.
pub fn start_hidden(cfg: &Config, at_login: bool) -> (r: bool)
    ensures
        r == (cfg.start_minimised && at_login),
{
    cfg.start_minimised && at_login
}

/// A key remapper that does not survive a reboot is not a working key
/// remapper, so on the first run starting with Windows is switched on and the
/// configuration is to be written out. Returns whether to write it.
pub fn prepare_first_run(cfg: &mut Config, first_run: bool) -> (save: bool)
    ensures
        save == first_run,
        final(cfg).start_with_windows == (old(cfg).start_with_windows || first_run),
        final(cfg).bindings@ == old(cfg).bindings@,
        final(cfg).enabled == old(cfg).enabled,
        final(cfg).start_minimised == old(cfg).start_minimised,
{
    if first_run {
        cfg.start_with_windows = true;
    }
    first_run
}

/// The login flag is exactly "--autostart".
pub proof fn law_autostart_flag()
    ensures
        autostart_flag() == seq!['-', '-', 'a', 'u', 't', 'o', 's', 't', 'a', 'r', 't'],
{
    reveal_strlit("--autostart");
    assert("--autostart"@ =~= seq!['-', '-', 'a', 'u', 't', 'o', 's', 't', 'a', 'r', 't']);
}

} // verus!
