use test_generator::deps::{rerun_directive, rerun_directives_from, rerun_if_changed_paths, Error};
use test_generator::globfs::PathEntry;

#[test]
fn directive_line_for_one_path() {
    assert_eq!(rerun_directive("data/set1"), "cargo:rerun-if-changed=data/set1");
    assert_eq!(rerun_directive(""), "cargo:rerun-if-changed=");
}

#[test]
fn directives_follow_the_entries_in_order() {
    let entries = vec![
        PathEntry::Found("a".to_string()),
        PathEntry::Found("b/c".to_string()),
    ];
    assert_eq!(
        rerun_directives_from(&entries),
        Ok(vec![
            "cargo:rerun-if-changed=a".to_string(),
            "cargo:rerun-if-changed=b/c".to_string(),
        ])
    );
}

#[test]
fn directives_stop_at_the_first_unreadable_entry() {
    let entries = vec![
        PathEntry::Found("a".to_string()),
        PathEntry::ReadFailure("io trouble".to_string()),
    ];
    assert_eq!(
        rerun_directives_from(&entries),
        Err(Error::InvalidGlobPattern("io trouble".to_string()))
    );
}

#[test]
fn a_lossy_name_still_gets_its_directive() {
    let entries = vec![
        PathEntry::Found("a".to_string()),
        PathEntry::NotUtf8("b\u{fffd}c".to_string()),
    ];
    assert_eq!(
        rerun_directives_from(&entries),
        Ok(vec![
            "cargo:rerun-if-changed=a".to_string(),
            "cargo:rerun-if-changed=b\u{fffd}c".to_string(),
        ])
    );
}

#[test]
fn expanding_a_real_pattern_yields_its_directive() {
    assert_eq!(
        rerun_if_changed_paths("/"),
        Ok(vec!["cargo:rerun-if-changed=/".to_string()])
    );
}

#[test]
fn expanding_nothing_yields_no_directive() {
    assert_eq!(rerun_if_changed_paths("no_such_dir_0q9z/*"), Ok(Vec::new()));
}

#[test]
fn an_invalid_pattern_is_reported() {
    assert!(matches!(
        rerun_if_changed_paths("data/["),
        Err(Error::InvalidGlobPattern(_))
    ));
}
