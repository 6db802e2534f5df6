use passwatch::entry::to_name;
use passwatch::path::{has_file_name, join_paths};
use std::path::Path;

fn sample_paths() -> Vec<&'static str> {
    vec![
        "",
        "/",
        "//",
        ".",
        "..",
        "./",
        "../",
        "/.",
        "/..",
        "./.",
        "./..",
        "././.",
        "a",
        "a/",
        "a//",
        "a/.",
        "a/./",
        "a/..",
        "a/../",
        "a/b",
        "a//b",
        "a/./b",
        "/a/b/",
        "./a",
        "./.a",
        ".a",
        "..a",
        "a..",
        "...",
        "a/...",
        ".gpg",
        "a.gpg",
        "a.gpg.gpg",
        "/store/a.gpg",
        "/store/a.gpg/",
        "/store/a.gpg/.",
        "/store/.gpg",
        "/store/x.gpg.gpg.gpg",
        "/store/x.gpgg",
        "/store/gpg",
        "/store/pg",
        "/store/a.GPG",
        "/store/dir.gpg/file.txt",
        "/store/ä/ö.gpg",
        "/store/日本語.gpg",
        "relative/dir/entry.gpg",
        "/home/u/.password-store/mail/work.gpg",
    ]
}

#[test]
fn file_names_are_where_std_sees_them() {
    for path in sample_paths() {
        let expected = Path::new(path).file_name().is_some();
        assert_eq!(has_file_name(path), expected, "path {:?}", path);
    }
}

#[test]
fn names_are_what_std_gives() {
    for path in sample_paths() {
        if let Some(file_name) = Path::new(path).file_name() {
            let base = file_name.to_string_lossy().into_owned();
            let expected = match base.strip_suffix(".gpg") {
                Some(stem) => stem.to_string(),
                None => base.clone(),
            };
            assert_eq!(to_name(path), expected, "path {:?}", path);
        }
    }
}

#[test]
fn joins_are_what_std_gives() {
    let bases = vec!["", "/", "a", "a/", "/a/b", "/a/b/", "/home/u", "ä/ö", "."];
    let rests = vec!["", "x", "x/y", "/x", "/", "**/*.gpg", ".password-store", "ü"];
    for base in &bases {
        for rest in &rests {
            let expected = Path::new(base).join(rest).to_string_lossy().into_owned();
            assert_eq!(join_paths(base, rest), expected, "base {:?}, rest {:?}", base, rest);
        }
    }
}
