use sim_core::instrument::{sanitize, timestamp_label};

#[test]
fn timestamp_label_formats_utc_minutes() {
    assert_eq!(timestamp_label(0), "Jan01_00_00");
    assert_eq!(timestamp_label(1770408780), "Feb06_20_13");
    assert_eq!(timestamp_label(951782400), "Feb29_00_00");
    assert_eq!(timestamp_label(1709251199), "Feb29_23_59");
    assert_eq!(timestamp_label(4102444799), "Dec31_23_59");
}

#[test]
fn sanitize_replaces_and_truncates() {
    assert_eq!(sanitize("basic convergence!"), "basic_convergence_");
    assert_eq!(sanitize("h\u{e9}llo-2"), "h_llo_2");
    let long = "a".repeat(70);
    assert_eq!(sanitize(&long), "a".repeat(60));
    assert_eq!(sanitize(""), "");
}

#[test]
fn sanitizing_twice_changes_nothing() {
    for name in ["run #1: grain/fish", "already_clean_42", "\u{e9}\u{e9}\u{e9}"] {
        let once = sanitize(name);
        assert_eq!(sanitize(&once), once);
        assert!(once.chars().all(|c| c.is_ascii_alphanumeric() || c == '_'));
    }
}
