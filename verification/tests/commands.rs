use oxidize::commands::{
    is_confirmation, list_entries, remove_check, sort_names, update_failure, update_targets,
    RemoveError, UpdateNotFound,
};

#[test]
fn confirmations() {
    for yes in ["y", "Y", "yes", " YES\n", "Yes"] {
        assert!(is_confirmation(yes), "{yes:?}");
    }
    for no in ["", "n", "no", "ye", "yess", "y e s", "oui"] {
        assert!(!is_confirmation(no), "{no:?}");
    }
}

#[test]
fn removal_rules() {
    assert_eq!(remove_check("a", false, None, true), Err(RemoveError::NotFound));
    assert_eq!(remove_check("a", true, Some("a\n"), false), Err(RemoveError::IsCurrent));
    assert_eq!(remove_check("a", true, Some("a\n"), true), Ok(()));
    assert_eq!(remove_check("a", true, Some("b"), false), Ok(()));
    assert_eq!(remove_check("a", true, None, false), Ok(()));
}

#[test]
fn update_target_selection() {
    let installed = vec![("a".to_owned(), true), ("b".to_owned(), false), ("c".to_owned(), true)];
    assert_eq!(update_targets(None, false, &installed), Ok(vec!["a".to_owned(), "c".to_owned()]));
    assert_eq!(update_targets(Some("b"), true, &installed), Ok(vec!["b".to_owned()]));
    assert_eq!(update_targets(Some("z"), false, &installed), Err(UpdateNotFound));
    assert_eq!(update_targets(None, false, &[]), Ok(vec![]));
}

#[test]
fn update_failure_message() {
    assert_eq!(update_failure(&[]), None);
    assert_eq!(update_failure(&["a".to_owned()]).unwrap(), "1 theme(s) failed to update: a");
    assert_eq!(
        update_failure(&["a".to_owned(), "b".to_owned(), "c".to_owned()]).unwrap(),
        "3 theme(s) failed to update: a, b, c"
    );
}

#[test]
fn names_sort_like_strings() {
    let names: Vec<String> = ["rose", "Nord", "ab", "a", "b", "é", "rose"].iter().map(|s| s.to_string()).collect();
    let mut expected = names.clone();
    expected.sort();
    assert_eq!(sort_names(names), expected);
    assert_eq!(sort_names(vec![]), Vec::<String>::new());
}

#[test]
fn list_marks_the_current_theme() {
    let names = vec!["tokyo".to_owned(), "nord".to_owned(), "day".to_owned()];
    let (sorted, marks) = list_entries(names, Some(" nord\n"));
    assert_eq!(sorted, vec!["day", "nord", "tokyo"]);
    assert_eq!(marks, vec![false, true, false]);
    let (_, marks) = list_entries(vec!["x".to_owned()], None);
    assert_eq!(marks, vec![false]);
}
