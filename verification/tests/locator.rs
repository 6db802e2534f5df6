use passwatch::locator::password_base;

#[test]
fn root_is_below_home_when_nothing_is_named() {
    let root = password_base(None, false, Some("/home/alice".to_string()));
    assert_eq!(root, Some("/home/alice/.password-store".to_string()));
}

#[test]
fn root_is_the_named_directory_when_it_exists() {
    let root = password_base(
        Some("/srv/secrets".to_string()),
        true,
        Some("/home/alice".to_string()),
    );
    assert_eq!(root, Some("/srv/secrets".to_string()));
}

#[test]
fn named_directory_that_exists_needs_no_home() {
    let root = password_base(Some("/srv/secrets".to_string()), true, None);
    assert_eq!(root, Some("/srv/secrets".to_string()));
}

#[test]
fn named_directory_is_kept_as_it_was_written() {
    let root = password_base(Some("relative/dir/".to_string()), true, None);
    assert_eq!(root, Some("relative/dir/".to_string()));
}

#[test]
fn named_directory_that_is_missing_falls_back_to_home() {
    let root = password_base(
        Some("/srv/secrets".to_string()),
        false,
        Some("/home/alice".to_string()),
    );
    assert_eq!(root, Some("/home/alice/.password-store".to_string()));
}

#[test]
fn existence_without_a_name_means_nothing() {
    let root = password_base(None, true, Some("/home/alice".to_string()));
    assert_eq!(root, Some("/home/alice/.password-store".to_string()));
}

#[test]
fn home_that_ends_in_a_separator_gets_no_second_one() {
    let root = password_base(None, false, Some("/".to_string()));
    assert_eq!(root, Some("/.password-store".to_string()));
}

#[test]
fn no_root_without_home_and_without_a_named_directory() {
    assert_eq!(password_base(None, false, None), None);
    assert_eq!(password_base(None, true, None), None);
}

#[test]
fn no_root_without_home_when_the_named_directory_is_missing() {
    assert_eq!(password_base(Some("/srv/secrets".to_string()), false, None), None);
}
