//! Suggestions for the app picker: Start Menu shortcuts, in alphabetical order
//! and with no name listed twice.
use vstd::prelude::*;

use crate::text::push_char;

verus! {

/// A shortcut offered in the app picker.
#[derive(Clone, Debug)]
pub struct AppSuggestion {
    pub name: String,
    pub path: String,
}

/// What `str::to_lowercase` returns for a string: its Unicode lowercase
/// mapping, which depends on the string alone.
pub uninterp spec fn lowercase(s: Seq<char>) -> Seq<char>;

/// `str::to_lowercase`. The contract claims only that the result is the
/// lowercase mapping of the argument, taken as a function of the argument's
/// characters; the Unicode mapping itself is left unsaid.
#[verifier::external_body]
fn to_lowercase(s: &str) -> (r: String)
    ensures
        r@ == lowercase(s@),
{
    s.to_lowercase()
}

/// ASCII letters folded to lower case; every other character as it is.
pub open spec fn ascii_lower(c: char) -> char {
    if 'A' <= c <= 'Z' {
        ((c as u32) + 32) as char
    } else {
        c
    }
}

/// Equal up to the case of ASCII letters.
pub open spec fn eq_ignore_ascii_case(a: Seq<char>, b: Seq<char>) -> bool {
    &&& a.len() == b.len()
    &&& forall|i: int| 0 <= i < a.len() ==> ascii_lower(#[trigger] a[i]) == ascii_lower(b[i])
}

/// `t` occurs somewhere in `s`.
pub open spec fn contains_seq(s: Seq<char>, t: Seq<char>) -> bool {
    exists|i: int| 0 <= i && i + t.len() <= s.len() && #[trigger] s.subrange(i, i + t.len()) == t
}

fn ascii_lower_char(c: char) -> (r: char)
    ensures
        r == ascii_lower(c),
{
    if 'A' <= c && c <= 'Z' {
        let u: u32 = c as u32 + 32;
        let b: u8 = u as u8;
        b as char
    } else {
        c
    }
}

fn chars_of(s: &str) -> (r: Vec<char>)
    ensures
        r@ == s@,
{
    let mut r: Vec<char> = Vec::new();
    for c in it: s.chars()
        invariant
            it.seq() == s@,
            r@ == s@.take(it.index() as int),
    {
        r.push(c);
        proof {
            assert(s@.take(it.index() + 1) =~= s@.take(it.index() as int).push(c));
        }
    }
    proof {
        assert(s@.take(s@.len() as int) =~= s@);
    }
    r
}

/// Whether two strings are equal up to the case of ASCII letters.
pub fn eq_ignore_case(a: &str, b: &str) -> (r: bool)
    ensures
        r == eq_ignore_ascii_case(a@, b@),
{
    let x = chars_of(a);
    let y = chars_of(b);
    if x.len() != y.len() {
        return false;
    }
    let mut i: usize = 0;
    while i < x.len()
        invariant
            x@ == a@,
            y@ == b@,
            x@.len() == y@.len(),
            i <= x@.len(),
            forall|k: int| 0 <= k < i ==> ascii_lower(#[trigger] x@[k]) == ascii_lower(y@[k]),
        decreases x@.len() - i,
    {
        if ascii_lower_char(x[i]) != ascii_lower_char(y[i]) {
            return false;
        }
        i = i + 1;
    }
    true
}

fn contains_chars(s: &Vec<char>, t: &Vec<char>) -> (r: bool)
    ensures
        r == contains_seq(s@, t@),
{
    if t.len() > s.len() {
        return false;
    }
    let n = s.len();
    let last = n - t.len();
    let mut i: usize = 0;
    while i <= last
        invariant
            n == s@.len(),
            last == s@.len() - t@.len(),
            t@.len() <= s@.len(),
            forall|k: int| 0 <= k < i ==> #[trigger] s@.subrange(k, k + t@.len()) != t@,
        decreases last + 1 - i,
    {
        let mut j: usize = 0;
        let mut same = true;
        while j < t.len()
            invariant
                i <= last,
                n == s@.len(),
                last == s@.len() - t@.len(),
                t@.len() <= s@.len(),
                j <= t@.len(),
                same == forall|k: int| 0 <= k < j ==> s@[i + k] == t@[k],
            decreases t@.len() - j,
        {
            if s[i + j] != t[j] {
                same = false;
            }
            j = j + 1;
        }
        if same {
            assert(s@.subrange(i as int, i + t@.len()) =~= t@);
            return true;
        }
        proof {
            let k = choose|k: int| 0 <= k < t@.len() && s@[i + k] != t@[k];
            assert(s@.subrange(i as int, i + t@.len())[k] != t@[k]);
        }
        if i == last {
            proof {
                assert forall|k: int| 0 <= k && k + t@.len() <= s@.len() implies #[trigger] s@.subrange(k, k + t@.len()) != t@ by {
                    assert(k <= i);
                }
            }
            return false;
        }
        i = i + 1;
    }
    false
}

/// The file extension of a shortcut, matched as the system does: ignoring
/// ASCII case.
pub open spec fn is_shortcut_extension_spec(ext: Seq<char>) -> bool {
    eq_ignore_ascii_case(ext, "lnk"@)
}

/// Whether a file with this extension is a shortcut.
pub fn is_shortcut_extension(ext: &str) -> (r: bool)
    ensures
        r == is_shortcut_extension_spec(ext@),
{
    eq_ignore_case(ext, "lnk")
}

/// Uninstallers are not offered: a shortcut whose lowercased name contains
/// "uninstall".
pub open spec fn is_uninstaller_spec(name: Seq<char>) -> bool {
    contains_seq(lowercase(name), "uninstall"@)
}

/// Whether a shortcut with this name is an uninstaller.
pub fn is_uninstaller(name: &str) -> (r: bool)
    ensures
        r == is_uninstaller_spec(name@),
{
    let lower = to_lowercase(name);
    let l = chars_of(lower.as_str());
    let t = chars_of("uninstall");
    contains_chars(&l, &t)
}

/// The search of the Start Menu stops below four levels of folders or once
/// more than five hundred shortcuts were found.
pub open spec fn keep_searching_spec(depth: nat, found: nat) -> bool {
    depth <= 4 && found <= 500
}

/// Whether the search goes into a folder at this depth, with this many
/// shortcuts found so far.
pub fn keep_searching(depth: usize, found: usize) -> (r: bool)
    ensures
        r == keep_searching_spec(depth as nat, found as nat),
{
    !(depth > 4 || found > 500)
}

/// What the search of the Start Menu does with one directory entry.
#[derive(Clone, Copy, Debug, PartialEq, Eq, Structural)]
pub enum EntryChoice {
    /// A folder: search it, one level deeper.
    Descend,
    /// A shortcut that is not an uninstaller: offer it, named by its file
    /// stem.
    Offer,
    /// Anything else.
    Skip,
}

/// The text of an optional string.
pub open spec fn opt_text(s: Option<&str>) -> Option<Seq<char>> {
    match s {
        Some(t) => Some(t@),
        None => None,
    }
}

/// Folders are searched; a file is offered when its extension is a
/// shortcut's, it has a file stem, and that stem does not name an
/// uninstaller; everything else is skipped.
pub open spec fn entry_choice(is_dir: bool, extension: Option<Seq<char>>, stem: Option<Seq<char>>) -> EntryChoice {
    if is_dir {
        EntryChoice::Descend
    } else if extension is Some && is_shortcut_extension_spec(extension->0) && stem is Some
        && !is_uninstaller_spec(stem->0) {
        EntryChoice::Offer
    } else {
        EntryChoice::Skip
    }
}

/// Decide what to do with a directory entry: whether it is a folder, its
/// extension and its file stem (if it has them).
pub fn classify_entry(is_dir: bool, extension: Option<&str>, stem: Option<&str>) -> (r: EntryChoice)
    ensures
        r == entry_choice(is_dir, opt_text(extension), opt_text(stem)),
{
    if is_dir {
        return EntryChoice::Descend;
    }
    match extension {
        Some(ext) => {
            if !is_shortcut_extension(ext) {
                return EntryChoice::Skip;
            }
        },
        None => {
            return EntryChoice::Skip;
        },
    }
    match stem {
        Some(name) => {
            if is_uninstaller(name) {
                EntryChoice::Skip
            } else {
                EntryChoice::Offer
            }
        },
        None => EntryChoice::Skip,
    }
}

/// Strictly before in lexicographic order of code points, which is the order
/// of `String` (UTF-8 keeps code-point order byte for byte).
pub open spec fn lex_lt(a: Seq<char>, b: Seq<char>) -> bool
    decreases a.len(),
{
    if b.len() == 0 {
        false
    } else if a.len() == 0 {
        true
    } else if a[0] != b[0] {
        (a[0] as u32) < (b[0] as u32)
    } else {
        lex_lt(a.drop_first(), b.drop_first())
    }
}

/// The key suggestions are ordered by: the lowercased name.
pub open spec fn sort_key(a: AppSuggestion) -> Seq<char> {
    lowercase(a.name@)
}

/// Where an item with key `k` goes in `sorted`: after the last item whose
/// key is not after `k`, so that items with equal keys keep their order.
pub open spec fn insert_pos(sorted: Seq<AppSuggestion>, k: Seq<char>) -> nat
    decreases sorted.len(),
{
    if sorted.len() == 0 {
        0
    } else if lex_lt(k, sort_key(sorted.last())) {
        insert_pos(sorted.drop_last(), k)
    } else {
        sorted.len()
    }
}

/// `s` stably sorted by lowercased name.
pub open spec fn sort_by_name(s: Seq<AppSuggestion>) -> Seq<AppSuggestion>
    decreases s.len(),
{
    if s.len() == 0 {
        Seq::empty()
    } else {
        let r = sort_by_name(s.drop_last());
        r.insert(insert_pos(r, sort_key(s.last())) as int, s.last())
    }
}

/// `s` with each item dropped whose name equals, up to ASCII case, that of
/// the last item kept before it.
pub open spec fn dedup_names(s: Seq<AppSuggestion>) -> Seq<AppSuggestion>
    decreases s.len(),
{
    if s.len() == 0 {
        Seq::empty()
    } else {
        let d = dedup_names(s.drop_last());
        if d.len() > 0 && eq_ignore_ascii_case(s.last().name@, d.last().name@) {
            d
        } else {
            d.push(s.last())
        }
    }
}

proof fn lemma_lex_lt_skip(a: Seq<char>, b: Seq<char>, i: int)
    requires
        0 <= i <= a.len(),
        i <= b.len(),
        a.take(i) == b.take(i),
    ensures
        lex_lt(a, b) == lex_lt(a.skip(i), b.skip(i)),
    decreases i,
{
    if i > 0 {
        assert(a[0] == a.take(i)[0]);
        assert(b[0] == b.take(i)[0]);
        assert(a.drop_first().take(i - 1) =~= a.take(i).drop_first());
        assert(b.drop_first().take(i - 1) =~= b.take(i).drop_first());
        lemma_lex_lt_skip(a.drop_first(), b.drop_first(), i - 1);
        assert(a.drop_first().skip(i - 1) =~= a.skip(i));
        assert(b.drop_first().skip(i - 1) =~= b.skip(i));
    } else {
        assert(a.skip(0) =~= a);
        assert(b.skip(0) =~= b);
    }
}

fn lex_less(a: &Vec<char>, b: &Vec<char>) -> (r: bool)
    ensures
        r == lex_lt(a@, b@),
{
    let mut i: usize = 0;
    while i < a.len() && i < b.len() && a[i] == b[i]
        invariant
            i <= a@.len(),
            i <= b@.len(),
            a@.take(i as int) == b@.take(i as int),
        decreases a@.len() - i,
    {
        proof {
            assert(a@.take(i + 1) =~= a@.take(i as int).push(a@[i as int]));
            assert(b@.take(i + 1) =~= b@.take(i as int).push(b@[i as int]));
        }
        i = i + 1;
    }
    proof {
        lemma_lex_lt_skip(a@, b@, i as int);
    }
    if i == b.len() {
        false
    } else if i == a.len() {
        true
    } else {
        (a[i] as u32) < (b[i] as u32)
    }
}

/// Order the collected suggestions by name, ignoring case as the user reads
/// it, and list each name only once (names equal up to ASCII case count as
/// one; the first in order stays).
pub fn order_suggestions(v: Vec<AppSuggestion>) -> (r: Vec<AppSuggestion>)
    ensures
        r@ == dedup_names(sort_by_name(v@)),
{
    let ghost orig = v@;
    let mut sorted: Vec<AppSuggestion> = Vec::new();
    let mut keys: Vec<Vec<char>> = Vec::new();
    for x in it: v.into_iter()
        invariant
            it.seq() == orig,
            sorted@ == sort_by_name(orig.take(it.index() as int)),
            keys@.len() == sorted@.len(),
            forall|j: int| 0 <= j < keys@.len() ==> (#[trigger] keys@[j])@ == sort_key(sorted@[j]),
    {
        let lower = to_lowercase(x.name.as_str());
        let k = chars_of(lower.as_str());
        let mut p = sorted.len();
        assert(sorted@.take(p as int) =~= sorted@);
        while p > 0 && lex_less(&k, &keys[p - 1])
            invariant
                p <= sorted@.len(),
                keys@.len() == sorted@.len(),
                forall|j: int| 0 <= j < keys@.len() ==> (#[trigger] keys@[j])@ == sort_key(sorted@[j]),
                insert_pos(sorted@, k@) == insert_pos(sorted@.take(p as int), k@),
            decreases p,
        {
            proof {
                let t = sorted@.take(p as int);
                assert(t.drop_last() =~= sorted@.take(p - 1));
                assert(t.last() == sorted@[p - 1]);
            }
            p = p - 1;
        }
        proof {
            if p > 0 {
                let t = sorted@.take(p as int);
                assert(t.last() == sorted@[p - 1]);
            } else {
                assert(sorted@.take(0) =~= Seq::<AppSuggestion>::empty());
            }
            let pre = orig.take(it.index() as int);
            let next = orig.take(it.index() + 1);
            assert(next.drop_last() =~= pre);
            assert(next.last() == x);
        }
        let ghost before_keys = keys@;
        let ghost before_sorted = sorted@;
        sorted.insert(p, x);
        keys.insert(p, k);
        proof {
            assert forall|j: int| 0 <= j < keys@.len() implies (#[trigger] keys@[j])@ == sort_key(sorted@[j]) by {
                if j < p {
                    assert(keys@[j] == before_keys[j]);
                    assert(sorted@[j] == before_sorted[j]);
                } else if j > p {
                    assert(keys@[j] == before_keys[j - 1]);
                    assert(sorted@[j] == before_sorted[j - 1]);
                }
            }
        }
    }
    proof {
        assert(orig.take(orig.len() as int) =~= orig);
    }
    let ghost all = sorted@;
    let mut out: Vec<AppSuggestion> = Vec::new();
    for x in it: sorted.into_iter()
        invariant
            it.seq() == all,
            out@ == dedup_names(all.take(it.index() as int)),
    {
        proof {
            let next = all.take(it.index() + 1);
            assert(next.drop_last() =~= all.take(it.index() as int));
            assert(next.last() == x);
        }
        let dup = out.len() > 0 && eq_ignore_case(x.name.as_str(), out[out.len() - 1].name.as_str());
        if !dup {
            out.push(x);
        }
    }
    proof {
        assert(all.take(all.len() as int) =~= all);
    }
    out
}

/// `a` is not after `b`.
pub open spec fn lex_le(a: Seq<char>, b: Seq<char>) -> bool {
    !lex_lt(b, a)
}

/// Sorted by `sort_key`, ties in any order.
pub open spec fn sorted_by_key(s: Seq<AppSuggestion>) -> bool {
    forall|i: int, j: int| 0 <= i < j < s.len() ==> lex_le(sort_key(#[trigger] s[i]), sort_key(#[trigger] s[j]))
}

proof fn lemma_lex_lt_asymmetric(a: Seq<char>, b: Seq<char>)
    ensures
        lex_lt(a, b) ==> !lex_lt(b, a),
    decreases a.len(),
{
    if a.len() > 0 && b.len() > 0 && a[0] == b[0] {
        lemma_lex_lt_asymmetric(a.drop_first(), b.drop_first());
    }
}

proof fn lemma_lex_lt_irreflexive(a: Seq<char>)
    ensures
        !lex_lt(a, a),
    decreases a.len(),
{
    if a.len() > 0 {
        lemma_lex_lt_irreflexive(a.drop_first());
    }
}

proof fn lemma_lex_le_transitive(a: Seq<char>, b: Seq<char>, c: Seq<char>)
    ensures
        lex_le(a, b) && lex_le(b, c) ==> lex_le(a, c),
    decreases a.len(),
{
    if a.len() > 0 && b.len() > 0 && c.len() > 0 {
        let (a0, b0, c0) = (a[0] as u32, b[0] as u32, c[0] as u32);
        vstd::utf8::char_u32_cast(a[0], a0);
        vstd::utf8::char_u32_cast(b[0], b0);
        vstd::utf8::char_u32_cast(c[0], c0);
        if a0 == b0 && b0 == c0 {
            lemma_lex_le_transitive(a.drop_first(), b.drop_first(), c.drop_first());
        }
    }
}

proof fn lemma_insert_pos(sorted: Seq<AppSuggestion>, k: Seq<char>)
    ensures
        insert_pos(sorted, k) <= sorted.len(),
        forall|i: int| insert_pos(sorted, k) <= i < sorted.len() ==> lex_lt(k, sort_key(#[trigger] sorted[i])),
        insert_pos(sorted, k) > 0 ==> !lex_lt(k, sort_key(sorted[insert_pos(sorted, k) - 1])),
    decreases sorted.len(),
{
    if sorted.len() > 0 && lex_lt(k, sort_key(sorted.last())) {
        let r = sorted.drop_last();
        lemma_insert_pos(r, k);
        assert forall|i: int| insert_pos(sorted, k) <= i < sorted.len() implies lex_lt(k, sort_key(#[trigger] sorted[i])) by {
            if i < r.len() {
                assert(sorted[i] == r[i]);
            }
        }
        if insert_pos(sorted, k) > 0 {
            assert(sorted[insert_pos(sorted, k) - 1] == r[insert_pos(r, k) - 1]);
        }
    }
}

proof fn lemma_sort_by_name(s: Seq<AppSuggestion>)
    ensures
        sorted_by_key(sort_by_name(s)),
        sort_by_name(s).len() == s.len(),
        forall|i: int| 0 <= i < s.len() ==> sort_by_name(s).contains(#[trigger] s[i]),
        forall|j: int| 0 <= j < sort_by_name(s).len() ==> s.contains(#[trigger] sort_by_name(s)[j]),
    decreases s.len(),
{
    if s.len() > 0 {
        let p0 = s.drop_last();
        lemma_sort_by_name(p0);
        let r = sort_by_name(p0);
        let x = s.last();
        let k = sort_key(x);
        let p = insert_pos(r, k) as int;
        lemma_insert_pos(r, k);
        let out = r.insert(p, x);
        assert(out == sort_by_name(s));
        assert forall|i: int, j: int| 0 <= i < j < out.len() implies lex_le(sort_key(#[trigger] out[i]), sort_key(#[trigger] out[j])) by {
            if j < p {
                assert(out[i] == r[i] && out[j] == r[j]);
            } else if j == p {
                assert(out[i] == r[i]);
                assert(lex_le(sort_key(r[i]), sort_key(r[p - 1]))) by {
                    if i == p - 1 {
                        lemma_lex_lt_irreflexive(sort_key(r[i]));
                    }
                }
                lemma_lex_le_transitive(sort_key(r[i]), sort_key(r[p - 1]), k);
            } else if i == p {
                assert(out[j] == r[j - 1]);
                lemma_lex_lt_asymmetric(k, sort_key(r[j - 1]));
            } else if i < p {
                assert(out[i] == r[i] && out[j] == r[j - 1]);
            } else {
                assert(out[i] == r[i - 1] && out[j] == r[j - 1]);
            }
        }
        assert forall|i: int| 0 <= i < s.len() implies out.contains(#[trigger] s[i]) by {
            if i < s.len() - 1 {
                assert(p0[i] == s[i]);
                assert(r.contains(p0[i]));
                let m = choose|m: int| 0 <= m < r.len() && r[m] == p0[i];
                if m < p {
                    assert(out[m] == r[m]);
                } else {
                    assert(out[m + 1] == r[m]);
                }
            } else {
                assert(out[p] == x);
            }
        }
        assert forall|j: int| 0 <= j < out.len() implies s.contains(#[trigger] out[j]) by {
            if j == p {
                assert(s[s.len() - 1] == x);
            } else {
                let m = if j < p { j } else { j - 1 };
                assert(out[j] == r[m]);
                assert(p0.contains(r[m]));
                let q = choose|q: int| 0 <= q < p0.len() && p0[q] == r[m];
                assert(s[q] == p0[q]);
            }
        }
    }
}

proof fn lemma_dedup_origin(s: Seq<AppSuggestion>)
    ensures
        forall|j: int| 0 <= j < dedup_names(s).len() ==> exists|i: int|
            j <= i < s.len() && #[trigger] dedup_names(s)[j] == s[i],
    decreases s.len(),
{
    if s.len() > 0 {
        let p0 = s.drop_last();
        lemma_dedup_origin(p0);
        let d = dedup_names(p0);
        let out = dedup_names(s);
        assert forall|j: int| 0 <= j < out.len() implies exists|i: int| j <= i < s.len() && #[trigger] out[j] == s[i] by {
            if j < d.len() {
                assert(out[j] == d[j]);
                let i = choose|i: int| j <= i < p0.len() && #[trigger] d[j] == p0[i];
                assert(s[i] == p0[i]);
            } else {
                assert(out[j] == s[s.len() - 1]);
            }
        }
    }
}

proof fn lemma_dedup_covers(s: Seq<AppSuggestion>)
    ensures
        forall|i: int| #![trigger s[i]] 0 <= i < s.len() ==> exists|j: int|
            0 <= j < dedup_names(s).len() && eq_ignore_ascii_case(s[i].name@, #[trigger] dedup_names(s)[j].name@),
    decreases s.len(),
{
    if s.len() > 0 {
        let p0 = s.drop_last();
        lemma_dedup_covers(p0);
        let d = dedup_names(p0);
        let x = s.last();
        let out = dedup_names(s);
        assert forall|i: int| #![trigger s[i]] 0 <= i < s.len() implies exists|j: int|
            0 <= j < out.len() && eq_ignore_ascii_case(s[i].name@, #[trigger] out[j].name@) by {
            if i < s.len() - 1 {
                assert(s[i] == p0[i]);
                let j = choose|j: int| 0 <= j < d.len() && eq_ignore_ascii_case(p0[i].name@, #[trigger] d[j].name@);
                assert(out[j] == d[j]);
            } else if d.len() > 0 && eq_ignore_ascii_case(x.name@, d.last().name@) {
                assert(out[d.len() - 1] == d.last());
            } else {
                assert(out[d.len() as int] == x);
                assert(eq_ignore_ascii_case(x.name@, x.name@));
            }
        }
    }
}

proof fn lemma_dedup_neighbours(s: Seq<AppSuggestion>)
    ensures
        forall|j: int| 0 <= j < dedup_names(s).len() - 1 ==> !eq_ignore_ascii_case(
            (#[trigger] dedup_names(s)[j]).name@,
            dedup_names(s)[j + 1].name@,
        ),
    decreases s.len(),
{
    if s.len() > 0 {
        let p0 = s.drop_last();
        lemma_dedup_neighbours(p0);
        let d = dedup_names(p0);
        let x = s.last();
        let out = dedup_names(s);
        assert forall|j: int| 0 <= j < out.len() - 1 implies !eq_ignore_ascii_case(
            (#[trigger] out[j]).name@,
            out[j + 1].name@,
        ) by {
            if j + 1 < d.len() {
                assert(out[j] == d[j] && out[j + 1] == d[j + 1]);
            } else {
                assert(out[j] == d.last());
                assert(out[j + 1] == x);
                if eq_ignore_ascii_case(d.last().name@, x.name@) {
                    assert(eq_ignore_ascii_case(x.name@, d.last().name@));
                }
            }
        }
    }
}

proof fn lemma_dedup_sorted(s: Seq<AppSuggestion>)
    requires
        sorted_by_key(s),
    ensures
        sorted_by_key(dedup_names(s)),
    decreases s.len(),
{
    if s.len() > 0 {
        let p0 = s.drop_last();
        assert(sorted_by_key(p0)) by {
            assert forall|i: int, j: int| 0 <= i < j < p0.len() implies lex_le(sort_key(#[trigger] p0[i]), sort_key(#[trigger] p0[j])) by {
                assert(p0[i] == s[i] && p0[j] == s[j]);
            }
        }
        lemma_dedup_sorted(p0);
        lemma_dedup_origin(p0);
        let d = dedup_names(p0);
        let x = s.last();
        let out = dedup_names(s);
        assert forall|i: int, j: int| 0 <= i < j < out.len() implies lex_le(sort_key(#[trigger] out[i]), sort_key(#[trigger] out[j])) by {
            if j < d.len() {
                assert(out[i] == d[i] && out[j] == d[j]);
            } else {
                assert(out[i] == d[i]);
                assert(out[j] == x);
                let q = choose|q: int| i <= q < p0.len() && #[trigger] d[i] == p0[q];
                assert(s[q] == p0[q]);
                assert(lex_le(sort_key(s[q]), sort_key(s[s.len() - 1])));
            }
        }
    }
}

/// The suggestions come out in order of their lowercased names.
pub proof fn law_suggestions_are_in_name_order(v: Seq<AppSuggestion>)
    ensures
        sorted_by_key(dedup_names(sort_by_name(v))),
        forall|i: int, j: int|
            0 <= i < j < dedup_names(sort_by_name(v)).len() ==> !lex_lt(
                lowercase((#[trigger] dedup_names(sort_by_name(v))[j]).name@),
                lowercase((#[trigger] dedup_names(sort_by_name(v))[i]).name@),
            ),
{
    lemma_sort_by_name(v);
    lemma_dedup_sorted(sort_by_name(v));
    let r = dedup_names(sort_by_name(v));
    assert forall|i: int, j: int| 0 <= i < j < r.len() implies !lex_lt(
        lowercase((#[trigger] r[j]).name@),
        lowercase((#[trigger] r[i]).name@),
    ) by {
        assert(lex_le(sort_key(r[i]), sort_key(r[j])));
    }
}

/// No name follows itself: neighbouring suggestions never have names equal
/// up to ASCII case.
pub proof fn law_no_name_repeats(v: Seq<AppSuggestion>)
    ensures
        forall|j: int| 0 <= j < dedup_names(sort_by_name(v)).len() - 1 ==> !eq_ignore_ascii_case(
            (#[trigger] dedup_names(sort_by_name(v))[j]).name@,
            dedup_names(sort_by_name(v))[j + 1].name@,
        ),
{
    lemma_dedup_neighbours(sort_by_name(v));
}

/// Ordering loses no name and invents nothing: every collected shortcut is
/// offered, or one whose name equals its name up to ASCII case; and every
/// suggestion offered is one that was collected.
pub proof fn law_every_name_is_offered(v: Seq<AppSuggestion>)
    ensures
        forall|i: int| #![trigger v[i]] 0 <= i < v.len() ==> exists|j: int|
            0 <= j < dedup_names(sort_by_name(v)).len() && eq_ignore_ascii_case(
                v[i].name@,
                #[trigger] dedup_names(sort_by_name(v))[j].name@,
            ),
        forall|j: int| 0 <= j < dedup_names(sort_by_name(v)).len() ==> v.contains(
            #[trigger] dedup_names(sort_by_name(v))[j],
        ),
{
    lemma_every_name_is_offered(v);
    lemma_only_collected_names_are_offered(v);
}

proof fn lemma_every_name_is_offered(v: Seq<AppSuggestion>)
    ensures
        forall|i: int| #![trigger v[i]] 0 <= i < v.len() ==> exists|j: int|
            0 <= j < dedup_names(sort_by_name(v)).len() && eq_ignore_ascii_case(
                v[i].name@,
                #[trigger] dedup_names(sort_by_name(v))[j].name@,
            ),
{
    let r = sort_by_name(v);
    let out = dedup_names(r);
    lemma_sort_by_name(v);
    lemma_dedup_covers(r);
    assert forall|i: int| #![trigger v[i]] 0 <= i < v.len() implies exists|j: int|
        0 <= j < out.len() && eq_ignore_ascii_case(v[i].name@, #[trigger] out[j].name@) by {
        assert(r.contains(v[i]));
        let m = choose|m: int| 0 <= m < r.len() && r[m] == v[i];
        assert(exists|j: int| 0 <= j < out.len() && eq_ignore_ascii_case(r[m].name@, #[trigger] out[j].name@));
    }
}

proof fn lemma_only_collected_names_are_offered(v: Seq<AppSuggestion>)
    ensures
        forall|j: int| 0 <= j < dedup_names(sort_by_name(v)).len() ==> v.contains(
            #[trigger] dedup_names(sort_by_name(v))[j],
        ),
{
    let r = sort_by_name(v);
    let out = dedup_names(r);
    lemma_sort_by_name(v);
    lemma_dedup_origin(r);
    assert forall|j: int| 0 <= j < out.len() implies v.contains(#[trigger] out[j]) by {
        let i = choose|i: int| j <= i < r.len() && #[trigger] out[j] == r[i];
        assert(v.contains(r[i]));
    }
}

/// Strictly-before in name order is lexicographic order by code point: at
/// the first position where the two differ, the smaller character comes
/// first, and a proper prefix comes before the longer text.
pub proof fn law_lex_order_is_by_code_point(a: Seq<char>, b: Seq<char>)
    ensures
        lex_lt(a, b) <==> exists|k: int|
            0 <= k <= a.len() && k <= b.len() && #[trigger] a.take(k) == b.take(k) && (
                (k == a.len() && k < b.len()) || (k < a.len() && k < b.len() && (a[k] as u32) < (b[k] as u32))),
    decreases a.len(),
{
    if a.len() == 0 || b.len() == 0 {
        if lex_lt(a, b) {
            assert(a.take(0) =~= b.take(0));
        } else {
            assert forall|k: int| 0 <= k <= a.len() && k <= b.len() && #[trigger] a.take(k) == b.take(k) implies !(
                (k == a.len() && k < b.len()) || (k < a.len() && k < b.len() && (a[k] as u32) < (b[k] as u32))) by {
            }
        }
    } else if a[0] != b[0] {
        vstd::utf8::char_u32_cast(a[0], a[0] as u32);
        vstd::utf8::char_u32_cast(b[0], b[0] as u32);
        if lex_lt(a, b) {
            assert(a.take(0) =~= b.take(0));
        } else {
            assert forall|k: int| 0 <= k <= a.len() && k <= b.len() && #[trigger] a.take(k) == b.take(k) implies !(
                (k == a.len() && k < b.len()) || (k < a.len() && k < b.len() && (a[k] as u32) < (b[k] as u32))) by {
                if k > 0 {
                    assert(a.take(k)[0] == b.take(k)[0]);
                }
            }
        }
    } else {
        let a1 = a.drop_first();
        let b1 = b.drop_first();
        law_lex_order_is_by_code_point(a1, b1);
        if lex_lt(a, b) {
            let k = choose|k: int|
                0 <= k <= a1.len() && k <= b1.len() && #[trigger] a1.take(k) == b1.take(k) && (
                    (k == a1.len() && k < b1.len()) || (k < a1.len() && k < b1.len() && (a1[k] as u32) < (b1[k] as u32)));
            assert(a.take(k + 1) =~= seq![a[0]] + a1.take(k));
            assert(b.take(k + 1) =~= seq![b[0]] + b1.take(k));
            assert(a.take(k + 1) == b.take(k + 1));
        } else {
            assert forall|k: int| 0 <= k <= a.len() && k <= b.len() && #[trigger] a.take(k) == b.take(k) implies !(
                (k == a.len() && k < b.len()) || (k < a.len() && k < b.len() && (a[k] as u32) < (b[k] as u32))) by {
                if k > 0 {
                    assert(a1.take(k - 1) =~= a.take(k).drop_first());
                    assert(b1.take(k - 1) =~= b.take(k).drop_first());
                    if k < a.len() {
                        assert(a1[k - 1] == a[k]);
                    }
                    if k < b.len() {
                        assert(b1[k - 1] == b[k]);
                    }
                }
            }
        }
    }
}

/// ASCII case folding lowers exactly the letters A to Z, by 32 code points,
/// and leaves every other character alone.
pub proof fn law_ascii_lower_folds_only_letters(c: char)
    ensures
        ('A' <= c <= 'Z') ==> ascii_lower(c) as u32 == c as u32 + 32,
        !('A' <= c <= 'Z') ==> ascii_lower(c) == c,
{
}

/// A shortcut is skipped as an uninstaller exactly when its lowercased name
/// contains "uninstall".
pub proof fn law_uninstallers_contain_uninstall(name: Seq<char>)
    ensures
        is_uninstaller_spec(name) <==> exists|i: int|
            0 <= i && i + 9 <= lowercase(name).len() && #[trigger] lowercase(name).subrange(i, i + 9)
                == seq!['u', 'n', 'i', 'n', 's', 't', 'a', 'l', 'l'],
{
    reveal_strlit("uninstall");
    assert("uninstall"@ =~= seq!['u', 'n', 'i', 'n', 's', 't', 'a', 'l', 'l']);
}

/// A file extension is a shortcut's exactly when it is "lnk" in any mix of
/// ASCII case.
pub proof fn law_shortcut_extension_is_lnk(ext: Seq<char>)
    ensures
        is_shortcut_extension_spec(ext) <==> (ext.len() == 3 && (ext[0] == 'l' || ext[0] == 'L') && (ext[1] == 'n'
            || ext[1] == 'N') && (ext[2] == 'k' || ext[2] == 'K')),
{
    reveal_strlit("lnk");
    assert("lnk"@ =~= seq!['l', 'n', 'k']);
    if ext.len() == 3 {
        assert(ascii_lower(ext[0]) == 'l' <==> (ext[0] == 'l' || ext[0] == 'L'));
        assert(ascii_lower(ext[1]) == 'n' <==> (ext[1] == 'n' || ext[1] == 'N'));
        assert(ascii_lower(ext[2]) == 'k' <==> (ext[2] == 'k' || ext[2] == 'K'));
        if (ext[0] == 'l' || ext[0] == 'L') && (ext[1] == 'n' || ext[1] == 'N') && (ext[2] == 'k' || ext[2] == 'K') {
            assert forall|i: int| 0 <= i < ext.len() implies ascii_lower(#[trigger] ext[i]) == ascii_lower("lnk"@[i]) by {
            }
        }
    }
}

/// What the Start Menu search does with an entry: folders are searched,
/// and a file is offered exactly when its extension is "lnk" (any ASCII case),
/// it has a stem, and the stem's lowercase form does not contain
/// "uninstall"; everything else is skipped.
pub proof fn law_entries_offered_are_shortcuts_that_uninstall_nothing(
    is_dir: bool,
    extension: Option<Seq<char>>,
    stem: Option<Seq<char>>,
)
    ensures
        (entry_choice(is_dir, extension, stem) == EntryChoice::Descend) <==> is_dir,
        (entry_choice(is_dir, extension, stem) == EntryChoice::Offer) <==> {
            &&& !is_dir
            &&& extension is Some
            &&& is_shortcut_extension_spec(extension->0)
            &&& stem is Some
            &&& !exists|i: int|
                0 <= i && i + 9 <= lowercase(stem->0).len() && #[trigger] lowercase(stem->0).subrange(i, i + 9)
                    == seq!['u', 'n', 'i', 'n', 's', 't', 'a', 'l', 'l']
        },
{
    if stem is Some {
        law_uninstallers_contain_uninstall(stem->0);
    }
}

/// Two names are equal up to ASCII case exactly when they have the same
/// length and, position by position, the same character or the same ASCII
/// letter in the other case.
pub proof fn law_ascii_case_equality(a: Seq<char>, b: Seq<char>)
    ensures
        eq_ignore_ascii_case(a, b) <==> (a.len() == b.len() && forall|i: int|
            0 <= i < a.len() ==> (#[trigger] a[i] == b[i] || ('A' <= a[i] <= 'Z' && b[i] as u32 == a[i] as u32 + 32)
                || ('A' <= b[i] <= 'Z' && a[i] as u32 == b[i] as u32 + 32))),
{
    assert forall|i: int| 0 <= i < a.len() && a.len() == b.len() implies (ascii_lower(a[i]) == ascii_lower(b[i]) <==> (
        a[i] == b[i] || ('A' <= a[i] <= 'Z' && b[i] as u32 == a[i] as u32 + 32) || ('A' <= b[i] <= 'Z' && a[i] as u32
            == b[i] as u32 + 32))) by {
        vstd::utf8::char_u32_cast(a[i], a[i] as u32);
        vstd::utf8::char_u32_cast(b[i], b[i] as u32);
        vstd::utf8::char_u32_cast(ascii_lower(a[i]), ascii_lower(a[i]) as u32);
        vstd::utf8::char_u32_cast(ascii_lower(b[i]), ascii_lower(b[i]) as u32);
    }
}

/// Sorting keeps what is already in order: a list sorted by lowercased name
/// (equal names in any order) comes back unchanged, so names that compare
/// equal keep their original order.
pub proof fn law_sorted_input_is_kept(v: Seq<AppSuggestion>)
    requires
        forall|i: int, j: int|
            0 <= i < j < v.len() ==> !lex_lt(lowercase((#[trigger] v[j]).name@), lowercase((#[trigger] v[i]).name@)),
    ensures
        sort_by_name(v) == v,
    decreases v.len(),
{
    if v.len() > 0 {
        let p = v.drop_last();
        assert forall|i: int, j: int|
            0 <= i < j < p.len() implies !lex_lt(lowercase((#[trigger] p[j]).name@), lowercase((#[trigger] p[i]).name@)) by {
            assert(p[i] == v[i] && p[j] == v[j]);
        }
        law_sorted_input_is_kept(p);
        let k = sort_key(v.last());
        if p.len() > 0 {
            assert(p.last() == v[v.len() - 2]);
            assert(!lex_lt(k, sort_key(p.last())));
        }
        assert(insert_pos(p, k) == p.len());
        assert(p.insert(p.len() as int, v.last()) =~= v);
    }
}

/// Of neighbours whose names are equal up to ASCII case, the first is kept:
/// the first suggestion in name order always survives.
pub proof fn law_first_of_equal_names_is_kept(s: Seq<AppSuggestion>)
    requires
        s.len() > 0,
    ensures
        dedup_names(s).len() > 0,
        dedup_names(s)[0] == s[0],
    decreases s.len(),
{
    if s.len() > 1 {
        law_first_of_equal_names_is_kept(s.drop_last());
        let d = dedup_names(s.drop_last());
        assert(s.drop_last()[0] == s[0]);
        if !(d.len() > 0 && eq_ignore_ascii_case(s.last().name@, d.last().name@)) {
            assert(d.push(s.last())[0] == d[0]);
            assert(dedup_names(s) == d.push(s.last()));
        } else {
            assert(dedup_names(s) == d);
        }
    } else {
        assert(s.drop_last() =~= Seq::<AppSuggestion>::empty());
        assert(dedup_names(s.drop_last()) =~= Seq::<AppSuggestion>::empty());
        assert(s.last() == s[0]);
        assert(dedup_names(s) =~= Seq::<AppSuggestion>::empty().push(s[0]));
    }
}

/// The search stops below four levels of folders or past five hundred
/// shortcuts.
pub proof fn law_search_limits(depth: nat, found: nat)
    ensures
        keep_searching_spec(depth, found) <==> (depth <= 4 && found <= 500),
        !keep_searching_spec(5, 0),
        !keep_searching_spec(0, 501),
{
}

} // verus!
