//! What carrying out a binding's action amounts to.
//!
//! [`plan`] decides, for an action, which target is handed to the shell or
//! which program is started with which arguments, and refuses what must not
//! run. Starting processes and calling the shell is left to the caller.
use vstd::prelude::*;

use crate::config::Action;

verus! {

/// Characters with the Unicode White_Space property, which is what
/// `char::is_whitespace` tests.
pub open spec fn is_whitespace_spec(c: char) -> bool {
    let u = c as u32;
    ||| 0x09 <= u <= 0x0D
    ||| u == 0x20
    ||| u == 0x85
    ||| u == 0xA0
    ||| u == 0x1680
    ||| 0x2000 <= u <= 0x200A
    ||| u == 0x2028
    ||| u == 0x2029
    ||| u == 0x202F
    ||| u == 0x205F
    ||| u == 0x3000
}

/// Whether `c` is Unicode white space.
pub fn is_whitespace(c: char) -> (r: bool)
    ensures
        r == is_whitespace_spec(c),
{
    let u = c as u32;
    (0x09 <= u && u <= 0x0D) || u == 0x20 || u == 0x85 || u == 0xA0 || u == 0x1680 || (0x2000 <= u
        && u <= 0x200A) || u == 0x2028 || u == 0x2029 || u == 0x202F || u == 0x205F || u == 0x3000
}

/// Every character of `s` is white space (so `s` trims to nothing).
pub open spec fn all_whitespace(s: Seq<char>) -> bool {
    forall|i: int| 0 <= i < s.len() ==> is_whitespace_spec(#[trigger] s[i])
}

/// Progress of splitting an argument string: the arguments finished so far,
/// the one being read, and whether a double quote is open.
pub struct SplitScan {
    pub done: Seq<Seq<char>>,
    pub current: Seq<char>,
    pub in_quotes: bool,
}

/// One character of argument splitting: a double quote toggles quoting and is
/// dropped; white space outside quotes ends the current argument, if there is
/// one; anything else belongs to the current argument.
pub open spec fn split_step(st: SplitScan, c: char) -> SplitScan {
    if c == '"' {
        SplitScan { in_quotes: !st.in_quotes, ..st }
    } else if is_whitespace_spec(c) && !st.in_quotes {
        if st.current.len() > 0 {
            SplitScan { done: st.done.push(st.current), current: Seq::empty(), in_quotes: st.in_quotes }
        } else {
            st
        }
    } else {
        SplitScan { current: st.current.push(c), ..st }
    }
}

/// The state after reading all of `s` from the start.
pub open spec fn split_scan(s: Seq<char>) -> SplitScan
    decreases s.len(),
{
    if s.len() == 0 {
        SplitScan { done: Seq::empty(), current: Seq::empty(), in_quotes: false }
    } else {
        split_step(split_scan(s.drop_last()), s.last())
    }
}

/// The arguments of a command-line string, honouring double quotes.
pub open spec fn split_args_spec(s: Seq<char>) -> Seq<Seq<char>> {
    let st = split_scan(s);
    if st.current.len() > 0 {
        st.done.push(st.current)
    } else {
        st.done
    }
}

/// The text of each string in `v`.
pub open spec fn texts(v: Seq<String>) -> Seq<Seq<char>> {
    v.map_values(|t: String| t@)
}

/// Split a command-line argument string, honouring double quotes.
pub fn split_args(raw: &str) -> (out: Vec<String>)
    ensures
        texts(out@) == split_args_spec(raw@),
{
    let mut out: Vec<String> = Vec::new();
    let mut current = String::new();
    let mut in_quotes = false;
    for c in it: raw.chars()
        invariant
            it.seq() == raw@,
            texts(out@) == split_scan(raw@.take(it.index() as int)).done,
            current@ == split_scan(raw@.take(it.index() as int)).current,
            in_quotes == split_scan(raw@.take(it.index() as int)).in_quotes,
    {
        proof {
            let pre = raw@.take(it.index() as int);
            let next = raw@.take(it.index() + 1);
            assert(next.drop_last() =~= pre);
            assert(next.last() == c);
        }
        if c == '"' {
            in_quotes = !in_quotes;
        } else if is_whitespace(c) && !in_quotes {
            if !current.as_str().is_empty() {
                let ghost before = out@;
                out.push(current);
                current = String::new();
                assert(texts(out@) =~= texts(before).push(split_scan(raw@.take(it.index() as int)).current));
            }
        } else {
            crate::text::push_char(&mut current, c);
        }
    }
    proof {
        assert(raw@.take(raw@.len() as int) =~= raw@);
    }
    if !current.as_str().is_empty() {
        let ghost before = out@;
        out.push(current);
        assert(texts(out@) =~= texts(before).push(split_scan(raw@).current));
    }
    out
}

/// What holds of the scan at every point: each finished argument is
/// non-empty, and no argument holds a double quote; without quotes in the
/// input, quoting never opens and no argument holds white space.
proof fn lemma_split_scan(s: Seq<char>)
    ensures
        ({
            let st = split_scan(s);
            &&& forall|i: int| 0 <= i < st.done.len() ==> (#[trigger] st.done[i]).len() > 0
            &&& forall|i: int| 0 <= i < st.done.len() ==> !(#[trigger] st.done[i]).contains('"')
            &&& !st.current.contains('"')
            &&& !s.contains('"') ==> {
                &&& !st.in_quotes
                &&& forall|i: int, k: int|
                    0 <= i < st.done.len() && 0 <= k < st.done[i].len() ==> !is_whitespace_spec(
                        #[trigger] st.done[i][k],
                    )
                &&& forall|k: int| 0 <= k < st.current.len() ==> !is_whitespace_spec(#[trigger] st.current[k])
            }
            &&& all_whitespace(s) ==> st.done.len() == 0 && st.current.len() == 0
        }),
    decreases s.len(),
{
    if s.len() > 0 {
        let p = s.drop_last();
        lemma_split_scan(p);
        let c = s.last();
        if !s.contains('"') {
            assert forall|k: int| 0 <= k < p.len() implies p[k] != '"' by {
                assert(s[k] == p[k]);
            }
            assert(c == s[s.len() - 1]);
        }
        if all_whitespace(s) {
            assert forall|k: int| 0 <= k < p.len() implies is_whitespace_spec(#[trigger] p[k]) by {
                assert(s[k] == p[k]);
            }
            assert(is_whitespace_spec(s[s.len() - 1]));
        }
        let pre = split_scan(p);
        let st = split_scan(s);
        if c != '"' && !(is_whitespace_spec(c) && !pre.in_quotes) {
            assert(st.current =~= pre.current.push(c));
            assert forall|k: int| 0 <= k < st.current.len() implies st.current[k] != '"' by {
                if k < pre.current.len() {
                    assert(st.current[k] == pre.current[k]);
                }
            }
        }
    }
}

/// Every argument that splitting yields is non-empty and holds no double
/// quote: quotes only group, they are never part of an argument.
pub proof fn law_split_args_are_nonempty_and_unquoted(s: Seq<char>)
    ensures
        forall|i: int| 0 <= i < split_args_spec(s).len() ==> (#[trigger] split_args_spec(s)[i]).len() > 0,
        forall|i: int| 0 <= i < split_args_spec(s).len() ==> !(#[trigger] split_args_spec(s)[i]).contains('"'),
{
    lemma_split_scan(s);
    let st = split_scan(s);
    if st.current.len() > 0 {
        assert forall|i: int| 0 <= i < split_args_spec(s).len() implies !(#[trigger] split_args_spec(s)[i]).contains('"') by {
            if i < st.done.len() {
                assert(split_args_spec(s)[i] == st.done[i]);
            }
        }
    }
}

/// Without double quotes, white space separates arguments: no argument holds
/// any.
pub proof fn law_unquoted_args_hold_no_whitespace(s: Seq<char>)
    requires
        !s.contains('"'),
    ensures
        forall|i: int, k: int|
            0 <= i < split_args_spec(s).len() && 0 <= k < split_args_spec(s)[i].len()
                ==> !is_whitespace_spec(#[trigger] split_args_spec(s)[i][k]),
{
    lemma_split_scan(s);
    let st = split_scan(s);
    assert forall|i: int, k: int|
        0 <= i < split_args_spec(s).len() && 0 <= k < split_args_spec(s)[i].len()
        implies !is_whitespace_spec(#[trigger] split_args_spec(s)[i][k]) by {
        if i < st.done.len() {
            assert(split_args_spec(s)[i] == st.done[i]);
        } else {
            assert(split_args_spec(s)[i] == st.current);
        }
    }
}

/// A string of nothing but white space (the empty string among them) yields
/// no arguments.
pub proof fn law_blank_input_yields_no_args(s: Seq<char>)
    requires
        all_whitespace(s),
    ensures
        split_args_spec(s).len() == 0,
{
    lemma_split_scan(s);
}

/// The gaps and words laid end to end: `gaps[0] + words[0] + gaps[1] + ...
/// + words[k-1] + gaps[k]`.
pub open spec fn interleave(gaps: Seq<Seq<char>>, words: Seq<Seq<char>>) -> Seq<char>
    decreases words.len(),
{
    if words.len() == 0 {
        if gaps.len() > 0 {
            gaps[0]
        } else {
            Seq::empty()
        }
    } else {
        interleave(gaps.drop_last(), words.drop_last()) + words.last() + gaps.last()
    }
}

/// `words` are the white-space separated words of `s`: `s` is the words with
/// runs of white space between them (and possibly before and after), each
/// word non-empty and free of white space. This is what splitting at white
/// space (`str::split_whitespace`) yields.
pub open spec fn is_whitespace_split(s: Seq<char>, words: Seq<Seq<char>>) -> bool {
    exists|gaps: Seq<Seq<char>>|
        {
            &&& gaps.len() == words.len() + 1
            &&& s == interleave(gaps, words)
            &&& forall|i: int| 0 <= i < gaps.len() ==> all_whitespace(#[trigger] gaps[i])
            &&& forall|i: int| 0 < i < words.len() ==> (#[trigger] gaps[i]).len() > 0
            &&& forall|i: int| 0 <= i < words.len() ==> (#[trigger] words[i]).len() > 0
            &&& forall|i: int, k: int|
                0 <= i < words.len() && 0 <= k < words[i].len() ==> !is_whitespace_spec(
                    #[trigger] words[i][k],
                )
        }
}

proof fn lemma_interleave_grow_last_gap(gaps: Seq<Seq<char>>, words: Seq<Seq<char>>, c: char)
    requires
        gaps.len() == words.len() + 1,
    ensures
        interleave(gaps.update(words.len() as int, gaps.last().push(c)), words) == interleave(gaps, words).push(c),
{
    let g2 = gaps.update(words.len() as int, gaps.last().push(c));
    if words.len() > 0 {
        assert(g2.drop_last() =~= gaps.drop_last());
        assert(interleave(g2, words) =~= interleave(gaps, words).push(c));
    }
}

proof fn lemma_interleave_push(gaps: Seq<Seq<char>>, words: Seq<Seq<char>>, w: Seq<char>, g: Seq<char>)
    ensures
        interleave(gaps.push(g), words.push(w)) == interleave(gaps, words) + w + g,
{
    assert(gaps.push(g).drop_last() =~= gaps);
    assert(words.push(w).drop_last() =~= words);
}

/// The gaps of an unquoted string as the scan goes: the white space before
/// each finished argument and after the last one, the current argument
/// following the last gap.
proof fn lemma_unquoted_gaps(s: Seq<char>) -> (gaps: Seq<Seq<char>>)
    requires
        !s.contains('"'),
    ensures
        gaps.len() == split_scan(s).done.len() + 1,
        s == interleave(gaps, split_scan(s).done) + split_scan(s).current,
        forall|i: int| 0 <= i < gaps.len() ==> all_whitespace(#[trigger] gaps[i]),
        forall|i: int| 0 < i < gaps.len() ==> (#[trigger] gaps[i]).len() > 0,
        !split_scan(s).in_quotes,
    decreases s.len(),
{
    if s.len() == 0 {
        let gaps = seq![Seq::<char>::empty()];
        assert(interleave(gaps, split_scan(s).done) =~= Seq::<char>::empty());
        assert(s =~= Seq::<char>::empty());
        gaps
    } else {
        let p = s.drop_last();
        let c = s.last();
        assert forall|k: int| 0 <= k < p.len() implies p[k] != '"' by {
            assert(s[k] == p[k]);
        }
        assert(c == s[s.len() - 1]);
        let g = lemma_unquoted_gaps(p);
        let pre = split_scan(p);
        assert(s =~= p.push(c));
        if is_whitespace_spec(c) {
            if pre.current.len() > 0 {
                let gaps = g.push(seq![c]);
                lemma_interleave_push(g, pre.done, pre.current, seq![c]);
                assert(split_scan(s).current =~= Seq::<char>::empty());
                assert(s =~= interleave(gaps, split_scan(s).done) + split_scan(s).current);
                assert forall|i: int| 0 <= i < gaps.len() implies all_whitespace(#[trigger] gaps[i]) by {
                    if i < g.len() {
                        assert(gaps[i] == g[i]);
                    } else {
                        assert(gaps[i] =~= seq![c]);
                    }
                }
                assert forall|i: int| 0 < i < gaps.len() implies (#[trigger] gaps[i]).len() > 0 by {
                    if i < g.len() {
                        assert(gaps[i] == g[i]);
                    }
                }
                gaps
            } else {
                let k = pre.done.len() as int;
                let gaps = g.update(k, g.last().push(c));
                lemma_interleave_grow_last_gap(g, pre.done, c);
                assert(pre.current =~= Seq::<char>::empty());
                assert(s =~= interleave(gaps, split_scan(s).done) + split_scan(s).current);
                assert forall|i: int| 0 <= i < gaps.len() implies all_whitespace(#[trigger] gaps[i]) by {
                    if i < k {
                        assert(gaps[i] == g[i]);
                    } else {
                        assert(all_whitespace(g[k]));
                        assert forall|j: int| 0 <= j < gaps[i].len() implies is_whitespace_spec(#[trigger] gaps[i][j]) by {
                            if j < g[k].len() {
                                assert(gaps[i][j] == g[k][j]);
                            }
                        }
                    }
                }
                assert forall|i: int| 0 < i < gaps.len() implies (#[trigger] gaps[i]).len() > 0 by {
                    if i < k {
                        assert(gaps[i] == g[i]);
                    }
                }
                g.update(k, g.last().push(c))
            }
        } else {
            assert(split_scan(s).current =~= pre.current.push(c));
            assert(s =~= interleave(g, split_scan(s).done) + split_scan(s).current);
            g
        }
    }
}

/// Without double quotes, splitting arguments is splitting at white space:
/// the arguments are exactly the runs of non-white-space characters, in
/// order.
pub proof fn law_unquoted_split_is_split_at_whitespace(s: Seq<char>)
    requires
        !s.contains('"'),
    ensures
        is_whitespace_split(s, split_args_spec(s)),
{
    let g = lemma_unquoted_gaps(s);
    let st = split_scan(s);
    let words = split_args_spec(s);
    law_split_args_are_nonempty_and_unquoted(s);
    law_unquoted_args_hold_no_whitespace(s);
    if st.current.len() > 0 {
        let gaps = g.push(Seq::<char>::empty());
        lemma_interleave_push(g, st.done, st.current, Seq::<char>::empty());
        assert(s =~= interleave(gaps, words));
        assert forall|i: int| 0 <= i < gaps.len() implies all_whitespace(#[trigger] gaps[i]) by {
            if i < g.len() {
                assert(gaps[i] == g[i]);
            }
        }
        assert forall|i: int| 0 < i < words.len() implies (#[trigger] gaps[i]).len() > 0 by {
            assert(gaps[i] == g[i]);
        }
        assert(gaps.len() == words.len() + 1);
    } else {
        assert(s =~= interleave(g, words));
    }
}

/// How an action is carried out.
#[derive(Debug)]
pub enum Launch {
    /// Hand the target to the shell's "open" verb. It handles .exe, .lnk,
    /// .bat, URLs, folders and anything else with a registered handler.
    ShellOpen { target: String },
    /// Start `program` with `args` as a detached process with no console
    /// window, in the program's own folder when `in_program_folder` holds
    /// (and that folder exists). Should starting fail, the error is reported
    /// as `failure`, a colon, and the system's reason.
    Spawn { program: String, args: Vec<String>, in_program_folder: bool, failure: String },
}

/// `prefix` starts `s`.
pub open spec fn has_prefix(s: Seq<char>, prefix: Seq<char>) -> bool {
    prefix.len() <= s.len() && s.subrange(0, prefix.len() as int) == prefix
}

/// A URL that is plainly a web URL.
pub open spec fn is_web_url(url: Seq<char>) -> bool {
    has_prefix(url, "http://"@) || has_prefix(url, "https://"@)
}

/// The message with which a URL that is not a web URL is refused.
pub open spec fn refused_url_message() -> Seq<char> {
    "only http and https URLs are allowed"@
}

fn starts_with(s: &str, prefix: &str) -> (r: bool)
    ensures
        r == has_prefix(s@, prefix@),
{
    let n = prefix.unicode_len();
    let m = s.unicode_len();
    if n > m {
        return false;
    }
    let mut i: usize = 0;
    while i < n
        invariant
            n == prefix@.len(),
            m == s@.len(),
            n <= m,
            i <= n,
            forall|k: int| 0 <= k < i ==> s@[k] == prefix@[k],
        decreases n - i,
    {
        if s.get_char(i) != prefix.get_char(i) {
            assert(s@.subrange(0, n as int)[i as int] != prefix@[i as int]);
            return false;
        }
        i = i + 1;
    }
    assert(s@.subrange(0, n as int) =~= prefix@);
    true
}

fn is_blank(s: &str) -> (r: bool)
    ensures
        r == all_whitespace(s@),
{
    for c in it: s.chars()
        invariant
            it.seq() == s@,
            forall|k: int| 0 <= k < it.index() ==> is_whitespace_spec(#[trigger] s@[k]),
    {
        if !is_whitespace(c) {
            assert(s@[it.index() as int] == c);
            return false;
        }
    }
    true
}

/// Decide how to carry out an action.
///
/// An app with no arguments goes to the shell, which can also run Start Menu
/// shortcuts (a direct start cannot); with arguments it is started directly,
/// its arguments split honouring double quotes. A URL that is not plainly a
/// web URL is refused: without this, a configuration file would be a way to
/// run arbitrary schemes. Folders go to the shell; a command runs through
/// `cmd /C`.
pub fn plan(action: &Action) -> (r: Result<Launch, String>)
    ensures
        match *action {
            Action::LaunchApp { path, args } => if all_whitespace(args@) {
                r matches Ok(Launch::ShellOpen { target }) && target@ == path@
            } else {
                r matches Ok(Launch::Spawn { program, args: a, in_program_folder, failure }) && {
                    &&& program@ == path@
                    &&& texts(a@) == split_args_spec(args@)
                    &&& in_program_folder
                    &&& failure@ == "could not launch "@ + path@
                }
            },
            Action::OpenUrl { url } => if is_web_url(url@) {
                r matches Ok(Launch::ShellOpen { target }) && target@ == url@
            } else {
                r matches Err(e) && e@ == refused_url_message()
            },
            Action::OpenFolder { path } => r matches Ok(Launch::ShellOpen { target }) && target@ == path@,
            Action::RunCommand { command } => r matches Ok(Launch::Spawn { program, args: a, in_program_folder, failure }) && {
                &&& program@ == "cmd"@
                &&& texts(a@) == seq!["/C"@, command@]
                &&& !in_program_folder
                &&& failure@ == "could not run command"@
            },
        },
{
    match action {
        Action::LaunchApp { path, args } => {
            if is_blank(args.as_str()) {
                Ok(Launch::ShellOpen { target: path.clone() })
            } else {
                let mut failure = String::from_str("could not launch ");
                failure.append(path.as_str());
                Ok(
                    Launch::Spawn {
                        program: path.clone(),
                        args: split_args(args.as_str()),
                        in_program_folder: true,
                        failure,
                    },
                )
            }
        },
        Action::OpenUrl { url } => {
            if starts_with(url.as_str(), "http://") || starts_with(url.as_str(), "https://") {
                Ok(Launch::ShellOpen { target: url.clone() })
            } else {
                Err(String::from_str("only http and https URLs are allowed"))
            }
        },
        Action::OpenFolder { path } => Ok(Launch::ShellOpen { target: path.clone() }),
        Action::RunCommand { command } => {
            let mut a: Vec<String> = Vec::new();
            a.push(String::from_str("/C"));
            a.push(command.clone());
            assert(texts(a@) =~= seq!["/C"@, command@]);
            Ok(
                Launch::Spawn {
                    program: String::from_str("cmd"),
                    args: a,
                    in_program_folder: false,
                    failure: String::from_str("could not run command"),
                },
            )
        },
    }
}

/// The shell's "open" verb returns a code greater than 32 on success.
pub open spec fn shell_succeeded(code: usize) -> bool {
    code > 32
}

/// Turn the code the shell's "open" verb returned into the result of opening
/// `target`: success above 32, otherwise "could not open <target>".
pub fn shell_open_result(code: usize, target: &str) -> (r: Result<(), String>)
    ensures
        shell_succeeded(code) <==> r is Ok,
        r matches Err(e) ==> e@ == "could not open "@ + target@,
{
    if code > 32 {
        Ok(())
    } else {
        let mut e = String::from_str("could not open ");
        e.append(target);
        Err(e)
    }
}

/// A URL is opened exactly when it begins with "http://" or "https://";
/// every other URL (another scheme, a bare path, a different case) is
/// refused.
pub proof fn law_only_http_and_https_urls_are_opened(url: Seq<char>)
    ensures
        is_web_url(url) <==> (
        (url.len() >= 7 && url.subrange(0, 7) == seq!['h', 't', 't', 'p', ':', '/', '/'])
        || (url.len() >= 8 && url.subrange(0, 8) == seq!['h', 't', 't', 'p', 's', ':', '/', '/'])),
{
    reveal_strlit("http://");
    reveal_strlit("https://");
    assert("http://"@ =~= seq!['h', 't', 't', 'p', ':', '/', '/']);
    assert("https://"@ =~= seq!['h', 't', 't', 'p', 's', ':', '/', '/']);
}

/// White space includes the space, tab, line feed, carriage return, vertical
/// tab and form feed; no letter, digit or double quote is white space.
pub proof fn law_whitespace_basics(c: char)
    ensures
        (c == ' ' || c == '\t' || c == '\n' || c == '\r' || c == '\u{b}' || c == '\u{c}') ==> is_whitespace_spec(c),
        ('a' <= c <= 'z' || 'A' <= c <= 'Z' || '0' <= c <= '9' || c == '"') ==> !is_whitespace_spec(c),
{
}

proof fn lemma_quoted_run(s: Seq<char>, t: Seq<char>)
    requires
        split_scan(s).in_quotes,
        !t.contains('"'),
    ensures
        split_scan(s + t) == (SplitScan {
            done: split_scan(s).done,
            current: split_scan(s).current + t,
            in_quotes: true,
        }),
    decreases t.len(),
{
    if t.len() == 0 {
        assert(s + t =~= s);
        assert(split_scan(s).current + t =~= split_scan(s).current);
    } else {
        let t0 = t.drop_last();
        assert forall|k: int| 0 <= k < t0.len() implies t0[k] != '"' by {
            assert(t[k] == t0[k]);
        }
        assert(t.last() == t[t.len() - 1]);
        lemma_quoted_run(s, t0);
        assert((s + t).drop_last() =~= s + t0);
        assert((s + t).last() == t.last());
        assert(split_scan(s).current + t =~= (split_scan(s).current + t0).push(t.last()));
    }
}

/// Double quotes group: text between a pair of quotes is one argument,
/// white space and all.
pub proof fn law_quoted_text_is_one_argument(t: Seq<char>)
    requires
        !t.contains('"'),
        t.len() > 0,
    ensures
        split_args_spec(Seq::<char>::empty().push('"') + t + Seq::<char>::empty().push('"')) == seq![t],
{
    let q = Seq::<char>::empty().push('"');
    assert(q.last() == '"');
    assert(q.drop_last() =~= Seq::<char>::empty());
    assert(split_scan(q.drop_last()).in_quotes == false);
    assert(split_scan(q.drop_last()).current.len() == 0);
    assert(split_scan(q).in_quotes);
    assert(split_scan(q).current =~= Seq::<char>::empty());
    lemma_quoted_run(q, t);
    let s = q + t + q;
    assert(s.drop_last() =~= q + t);
    assert(s.last() == '"');
    assert(split_scan(q + t).current =~= t);
    assert(split_scan(s).current =~= t);
    assert(split_scan(s).done =~= Seq::<Seq<char>>::empty());
    assert(split_args_spec(s) =~= seq![t]);
}

/// The shell reports success with a code above 32 and failure with 32 or
/// less.
pub proof fn law_shell_success_is_above_32(code: usize)
    ensures
        shell_succeeded(code) <==> code >= 33,
{
}

} // verus!
