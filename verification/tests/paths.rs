use passwatch::path::{has_file_name, join_paths};

#[test]
fn ordinary_paths_have_a_file_name() {
    assert!(has_file_name("/store/foo.gpg"));
    assert!(has_file_name("foo"));
    assert!(has_file_name("./foo"));
    assert!(has_file_name("a/b/"));
    assert!(has_file_name("a/."));
    assert!(has_file_name(".hidden"));
    assert!(has_file_name("..."));
    assert!(has_file_name("a/..b"));
}

#[test]
fn paths_without_a_last_name_have_none() {
    assert!(!has_file_name(""));
    assert!(!has_file_name("/"));
    assert!(!has_file_name("//"));
    assert!(!has_file_name("."));
    assert!(!has_file_name("./"));
    assert!(!has_file_name("/."));
    assert!(!has_file_name(".."));
    assert!(!has_file_name("a/.."));
    assert!(!has_file_name("a/../"));
    assert!(!has_file_name("/.."));
    assert!(!has_file_name("././."));
}

#[test]
fn join_puts_one_separator_between() {
    assert_eq!(join_paths("/home/u", ".password-store"), "/home/u/.password-store");
    assert_eq!(join_paths("a", "b/c"), "a/b/c");
}

#[test]
fn join_adds_no_separator_after_one() {
    assert_eq!(join_paths("/home/u/", ".password-store"), "/home/u/.password-store");
    assert_eq!(join_paths("/", "x"), "/x");
}

#[test]
fn join_to_the_empty_path_is_the_rest() {
    assert_eq!(join_paths("", "**/*.gpg"), "**/*.gpg");
}

#[test]
fn join_of_an_absolute_rest_replaces_the_base() {
    assert_eq!(join_paths("/home/u", "/etc"), "/etc");
    assert_eq!(join_paths("", "/etc"), "/etc");
}

#[test]
fn join_with_an_empty_rest_ends_in_a_separator() {
    assert_eq!(join_paths("/home/u", ""), "/home/u/");
    assert_eq!(join_paths("/home/u/", ""), "/home/u/");
    assert_eq!(join_paths("", ""), "");
}

#[test]
fn join_counts_characters_not_bytes() {
    assert_eq!(join_paths("/hö", "ä"), "/hö/ä");
    assert_eq!(join_paths("/hö/", "ä"), "/hö/ä");
}
