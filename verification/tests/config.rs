use gatedkey::config::{default_true, strip_bom, Config};

#[test]
fn missing_config_defaults() {
    let cfg = Config::default();
    assert!(cfg.bindings.is_empty());
    assert!(cfg.enabled);
    assert!(cfg.start_with_windows);
    assert!(cfg.start_minimised);
    assert!(default_true());
}

#[test]
fn a_byte_order_mark_is_taken_off() {
    assert_eq!(strip_bom("\u{feff}{\"enabled\":true}"), "{\"enabled\":true}");
    assert_eq!(strip_bom("{}"), "{}");
    assert_eq!(strip_bom(""), "");
    assert_eq!(strip_bom("\u{feff}"), "");
    assert_eq!(strip_bom("\u{feff}\u{feff}x"), "\u{feff}x");
    assert_eq!(strip_bom("a\u{feff}"), "a\u{feff}");
}
