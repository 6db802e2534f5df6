use passwatch::entry::{to_name, to_password, Password};

#[test]
fn name_is_file_name_without_suffix() {
    assert_eq!(to_name("/home/u/.password-store/mail/foo.gpg"), "foo");
}

#[test]
fn name_of_a_bare_file_name() {
    assert_eq!(to_name("foo.gpg"), "foo");
}

#[test]
fn name_without_suffix_is_kept() {
    assert_eq!(to_name("/store/notes.txt"), "notes.txt");
    assert_eq!(to_name("/store/plain"), "plain");
}

#[test]
fn only_the_one_suffix_at_the_end_is_taken_away() {
    assert_eq!(to_name("/store/a.gpg.gpg"), "a.gpg");
    assert_eq!(to_name("/store/a.gpg.gpg.gpg"), "a.gpg.gpg");
    assert_eq!(to_name("/s/a.gpg.gpg"), "a.gpg");
}

#[test]
fn name_and_suffix_make_the_file_name() {
    let files = vec!["a.gpg", "a.gpg.gpg", ".gpg", ".gpg.gpg", "x.y.gpg", "日本語.gpg"];
    for file in files {
        let path = format!("/store/dir/{}", file);
        let name = to_name(&path);
        assert_eq!(format!("{}.gpg", name), file);
        assert_eq!(name.chars().count() + 4, file.chars().count());
    }
}

#[test]
fn suffix_in_the_middle_stays() {
    assert_eq!(to_name("/store/a.gpg.bak"), "a.gpg.bak");
    assert_eq!(to_name("/store/a.gpgx.gpg"), "a.gpgx");
}

#[test]
fn suffix_alone_gives_the_empty_name() {
    assert_eq!(to_name("/store/.gpg"), "");
    assert_eq!(to_name(".gpg.gpg"), ".gpg");
}

#[test]
fn short_names_are_kept() {
    assert_eq!(to_name("/store/gpg"), "gpg");
    assert_eq!(to_name("/store/a"), "a");
    assert_eq!(to_name("/store/..."), "...");
}

#[test]
fn suffix_of_a_directory_above_does_not_count() {
    assert_eq!(to_name("/store/dir.gpg/file"), "file");
}

#[test]
fn separators_at_the_end_are_passed_over() {
    assert_eq!(to_name("/store/foo.gpg/"), "foo");
    assert_eq!(to_name("/store/foo.gpg//"), "foo");
    assert_eq!(to_name("/store/foo.gpg/."), "foo");
    assert_eq!(to_name("/store/foo.gpg/./"), "foo");
}

#[test]
fn name_counts_characters_not_bytes() {
    assert_eq!(to_name("/störe/münze/naïve.gpg"), "naïve");
    assert_eq!(to_name("/store/日本語.gpg"), "日本語");
    assert_eq!(to_name("/store/日本語.gpg.gpg"), "日本語.gpg");
}

#[test]
fn entry_keeps_the_path() {
    let entry = to_password("/store/web/site.gpg".to_string());
    assert_eq!(entry.name, "site");
    assert_eq!(entry.meta, "");
    assert_eq!(entry.filename, "/store/web/site.gpg");
}

#[test]
fn entry_of_a_relative_path() {
    let entry = to_password("web/site.gpg".to_string());
    assert_eq!(
        entry,
        Password {
            name: "site".to_string(),
            meta: String::new(),
            filename: "web/site.gpg".to_string(),
        }
    );
}

#[test]
fn entry_of_a_file_without_suffix() {
    let entry = to_password("/store/README".to_string());
    assert_eq!(entry.name, "README");
    assert_eq!(entry.meta, "");
    assert_eq!(entry.filename, "/store/README");
}

#[test]
fn clone_of_an_entry_is_equal() {
    let entry = to_password("/store/a/b.gpg".to_string());
    let copy = entry.clone();
    assert_eq!(copy, entry);
    assert_eq!(copy.name, "b");
    assert_eq!(copy.filename, "/store/a/b.gpg");
}
