use gatedkey::config::Config;
use gatedkey::startup::{launched_at_login, prepare_first_run, start_hidden};

#[test]
fn login_flag_is_recognised() {
    assert!(launched_at_login(&vec!["app.exe".to_string(), "--autostart".to_string()]));
    assert!(!launched_at_login(&vec!["app.exe".to_string()]));
    assert!(!launched_at_login(&vec!["--autostart=1".to_string()]));
    assert!(!launched_at_login(&Vec::new()));
}

#[test]
fn hidden_only_when_minimised_and_at_login() {
    let mut cfg = Config::default();
    assert!(start_hidden(&cfg, true));
    assert!(!start_hidden(&cfg, false));
    cfg.start_minimised = false;
    assert!(!start_hidden(&cfg, true));
}

#[test]
fn first_run_turns_autostart_on() {
    let mut cfg = Config::default();
    cfg.start_with_windows = false;
    assert!(!prepare_first_run(&mut cfg, false));
    assert!(!cfg.start_with_windows);
    assert!(prepare_first_run(&mut cfg, true));
    assert!(cfg.start_with_windows);
}
