use gatedkey::actions::{is_whitespace, plan, shell_open_result, split_args, Launch};
use gatedkey::config::Action;

#[test]
fn splits_plain_arguments() {
    assert_eq!(split_args("one two three"), vec!["one", "two", "three"]);
}

#[test]
fn keeps_quoted_paths_together() {
    assert_eq!(
        split_args(r#"--file "C:\Program Files\thing.txt" --flag"#),
        vec![r"--file", r"C:\Program Files\thing.txt", "--flag"]
    );
}

#[test]
fn empty_string_yields_no_arguments() {
    assert!(split_args("").is_empty());
    assert!(split_args("   ").is_empty());
}

#[test]
fn non_web_urls_are_refused() {
    let err = plan(&Action::OpenUrl {
        url: "file:///C:/Windows".into(),
    })
    .unwrap_err();
    assert!(err.contains("http"));
}

#[test]
fn quotes_group_and_vanish() {
    assert_eq!(split_args(r#"a"b c"d"#), vec!["ab cd"]);
    assert_eq!(split_args("\"\" x"), vec!["x"]);
    assert_eq!(split_args("tab\tand\nnewline"), vec!["tab", "and", "newline"]);
    assert_eq!(split_args("wide\u{3000}space"), vec!["wide", "space"]);
}

#[test]
fn whitespace_is_the_unicode_set() {
    assert!(is_whitespace(' '));
    assert!(is_whitespace('\u{85}'));
    assert!(is_whitespace('\u{2028}'));
    assert!(!is_whitespace('a'));
    assert!(!is_whitespace('\u{200B}'));
    for c in ['\t', '\n', '\u{b}', '\u{c}', '\r', '\u{a0}', '\u{1680}', '\u{2005}', '\u{202f}', '\u{205f}'] {
        assert_eq!(is_whitespace(c), c.is_whitespace());
    }
}

#[test]
fn web_urls_go_to_the_shell() {
    match plan(&Action::OpenUrl { url: "https://example.com".into() }) {
        Ok(Launch::ShellOpen { target }) => assert_eq!(target, "https://example.com"),
        other => panic!("unexpected {other:?}"),
    }
    match plan(&Action::OpenUrl { url: "http://x".into() }) {
        Ok(Launch::ShellOpen { target }) => assert_eq!(target, "http://x"),
        other => panic!("unexpected {other:?}"),
    }
    assert_eq!(
        plan(&Action::OpenUrl { url: "http:/x".into() }).unwrap_err(),
        "only http and https URLs are allowed"
    );
    assert!(plan(&Action::OpenUrl { url: "HTTP://x".into() }).is_err());
}

#[test]
fn apps_without_arguments_go_to_the_shell() {
    match plan(&Action::LaunchApp { path: "C:\\a.lnk".into(), args: "  \t".into() }) {
        Ok(Launch::ShellOpen { target }) => assert_eq!(target, "C:\\a.lnk"),
        other => panic!("unexpected {other:?}"),
    }
}

#[test]
fn apps_with_arguments_are_started_directly() {
    match plan(&Action::LaunchApp { path: "C:\\x\\a.exe".into(), args: "-v \"b c\"".into() }) {
        Ok(Launch::Spawn { program, args, in_program_folder, failure }) => {
            assert_eq!(program, "C:\\x\\a.exe");
            assert_eq!(args, vec!["-v", "b c"]);
            assert!(in_program_folder);
            assert_eq!(failure, "could not launch C:\\x\\a.exe");
        }
        other => panic!("unexpected {other:?}"),
    }
}

#[test]
fn folders_and_commands() {
    match plan(&Action::OpenFolder { path: "D:\\docs".into() }) {
        Ok(Launch::ShellOpen { target }) => assert_eq!(target, "D:\\docs"),
        other => panic!("unexpected {other:?}"),
    }
    match plan(&Action::RunCommand { command: "echo hi".into() }) {
        Ok(Launch::Spawn { program, args, in_program_folder, failure }) => {
            assert_eq!(program, "cmd");
            assert_eq!(args, vec!["/C", "echo hi"]);
            assert!(!in_program_folder);
            assert_eq!(failure, "could not run command");
        }
        other => panic!("unexpected {other:?}"),
    }
}

#[test]
fn shell_codes_above_32_mean_success() {
    assert!(shell_open_result(33, "x").is_ok());
    assert_eq!(shell_open_result(32, "C:\\t").unwrap_err(), "could not open C:\\t");
    assert!(shell_open_result(0, "x").is_err());
}

#[test]
fn without_quotes_splitting_is_splitting_at_whitespace() {
    for raw in ["", "   ", "a", "  a  b\tc\n", "one two three", "x\u{3000}y\u{85}z", "trailing   "] {
        let expected: Vec<String> = raw.split_whitespace().map(String::from).collect();
        assert_eq!(split_args(raw), expected);
    }
}
