use gatedkey::suggest::{
    classify_entry, EntryChoice, eq_ignore_case, is_shortcut_extension, is_uninstaller, keep_searching, order_suggestions,
    AppSuggestion,
};

fn s(name: &str) -> AppSuggestion {
    AppSuggestion { name: name.into(), path: format!("C:\\{name}.lnk") }
}

fn names(v: &[AppSuggestion]) -> Vec<String> {
    v.iter().map(|a| a.name.clone()).collect()
}

#[test]
fn suggestions_are_sorted_ignoring_case() {
    let out = order_suggestions(vec![s("zed"), s("Alpha"), s("beta"), s("alpha2")]);
    assert_eq!(names(&out), vec!["Alpha", "alpha2", "beta", "zed"]);
}

#[test]
fn names_equal_up_to_case_are_listed_once() {
    let out = order_suggestions(vec![s("Notepad"), s("calc"), s("notepad"), s("NOTEPAD")]);
    assert_eq!(names(&out), vec!["calc", "Notepad"]);
    // the first one in input order stays, with its own path
    assert_eq!(out[1].path, "C:\\Notepad.lnk");
}

#[test]
fn nothing_in_nothing_out() {
    assert!(order_suggestions(Vec::new()).is_empty());
}

#[test]
fn sort_is_stable_for_equal_keys() {
    let out = order_suggestions(vec![s("b"), s("\u{212A}"), s("k"), s("a")]);
    // KELVIN SIGN lowercases to 'k': it and "k" share a key and keep their order
    assert_eq!(names(&out), vec!["a", "b", "\u{212A}", "k"]);
}

#[test]
fn shortcut_extension_ignores_ascii_case() {
    assert!(is_shortcut_extension("lnk"));
    assert!(is_shortcut_extension("LNK"));
    assert!(is_shortcut_extension("LnK"));
    assert!(!is_shortcut_extension("exe"));
    assert!(!is_shortcut_extension("lnkx"));
    assert!(!is_shortcut_extension(""));
}

#[test]
fn uninstallers_are_recognised() {
    assert!(is_uninstaller("Uninstall Foo"));
    assert!(is_uninstaller("Foo UNINSTALLER"));
    assert!(!is_uninstaller("Foo"));
    assert!(!is_uninstaller("Uninstal"));
    assert!(!is_uninstaller(""));
}

#[test]
fn ascii_case_comparison() {
    assert!(eq_ignore_case("Hello", "hELLO"));
    assert!(!eq_ignore_case("Hello", "Hell"));
    assert!(!eq_ignore_case("é", "É"));
    assert!(eq_ignore_case("é", "é"));
}

#[test]
fn search_limits() {
    assert!(keep_searching(0, 0));
    assert!(keep_searching(4, 500));
    assert!(!keep_searching(5, 0));
    assert!(!keep_searching(0, 501));
}

#[test]
fn directory_entries_are_classified() {
    assert_eq!(classify_entry(true, Some("lnk"), Some("Folder")), EntryChoice::Descend);
    assert_eq!(classify_entry(true, None, None), EntryChoice::Descend);
    assert_eq!(classify_entry(false, Some("LNK"), Some("Notepad")), EntryChoice::Offer);
    assert_eq!(classify_entry(false, Some("lnk"), Some("Uninstall Foo")), EntryChoice::Skip);
    assert_eq!(classify_entry(false, Some("lnk"), None), EntryChoice::Skip);
    assert_eq!(classify_entry(false, Some("exe"), Some("Foo")), EntryChoice::Skip);
    assert_eq!(classify_entry(false, None, Some("Foo")), EntryChoice::Skip);
}
