use distill::ui::warning;

#[test]
fn warnings_are_indented_with_a_sign() {
    assert_eq!(warning("careful", false, false).as_deref(), Some("  \u{26a0} careful"));
}

#[test]
fn colour_terminals_get_a_yellow_sign() {
    assert_eq!(
        warning("careful", true, false).as_deref(),
        Some("  \x1b[33m\u{26a0}\x1b[39m careful")
    );
}

#[test]
fn quiet_mode_shows_no_warning() {
    assert_eq!(warning("careful", true, true), None);
    assert_eq!(warning("careful", false, true), None);
}
