use portfolio::theme::{initial_theme, nav_toggle, next_theme, refresh_delay, reveal_delay};

#[test]
fn theme_toggles_between_two() {
    assert_eq!(next_theme("mocha"), "latte");
    assert_eq!(next_theme("latte"), "mocha");
    assert_eq!(next_theme(""), "mocha");
    assert_eq!(next_theme(next_theme("latte")), "latte");
    assert_eq!(next_theme(next_theme("mocha")), "mocha");
}

#[test]
fn starting_theme() {
    assert_eq!(initial_theme(Some("latte".into()), false), "latte");
    assert_eq!(initial_theme(None, true), "latte");
    assert_eq!(initial_theme(None, false), "mocha");
}

#[test]
fn reveal_delays() {
    assert_eq!(reveal_delay(0), 0);
    assert_eq!(reveal_delay(3), 300);
    assert_eq!(refresh_delay(4), 200);
}

#[test]
fn nav_toggle_flips() {
    let open = nav_toggle(false);
    assert!(open.open);
    assert_eq!(open.aria_expanded, "true");
    let closed = nav_toggle(open.open);
    assert!(!closed.open);
    assert_eq!(closed.aria_expanded, "false");
}
