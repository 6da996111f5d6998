use portfolio::css::{combine, with_base, BASE, HOME, PROJECTS};

#[test]
fn with_base_puts_base_first() {
    assert_eq!(with_base("p{}"), format!("{}\n{}", BASE, "p{}"));
}

#[test]
fn combine_appends_each_file() {
    assert_eq!(combine(&[HOME, PROJECTS]), format!("{}\n{}\n{}", BASE, HOME, PROJECTS));
    assert_eq!(combine(&[]), BASE);
}

#[test]
fn combine_of_one_is_with_base() {
    assert_eq!(combine(&["a{}"]), with_base("a{}"));
}
