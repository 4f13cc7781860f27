use filer::command::{append, delete, filter, prepend, replace};
use filer::path::FilePath;

fn paths(names: &[&str]) -> Vec<FilePath> {
    names.iter().map(|n| FilePath::new(n)).collect()
}

#[test]
fn command_append_paths() {
    let paths = vec![FilePath::new("./foo.txt"), FilePath::new("./bar.txt")];

    assert_eq!(
        vec![FilePath::new("./foobaz.txt"), FilePath::new("./barbaz.txt")],
        append("baz", &paths)
    );
}

#[test]
fn command_prepend_paths() {
    let paths = vec![FilePath::new("./foo.txt"), FilePath::new("./bar.txt")];

    assert_eq!(
        vec![FilePath::new("./bazfoo.txt"), FilePath::new("./bazbar.txt")],
        prepend("baz", &paths)
    );
}

#[test]
fn replace_match() {
    let paths = vec![
        FilePath::new("./a foo.txt"),
        FilePath::new("./a bar.txt"),
        FilePath::new("temp/a bar.foo"),
        FilePath::new("foo/a foo.txt"),
    ];

    assert_eq!(
        vec![
            FilePath::new("./a oof.txt"),
            FilePath::new("./a bar.txt"),
            FilePath::new("temp/a bar.oof"),
            FilePath::new("foo/a oof.txt"),
        ],
        replace("foo", "oof", paths)
    );
}

#[test]
fn delete_match() {
    let paths = vec![
        FilePath::new("./a foo.txt"),
        FilePath::new("./a bar.txt"),
        FilePath::new("temp/a bar.foo"),
        FilePath::new("foo/a foo.txt"),
    ];

    assert_eq!(
        vec![
            FilePath::new("./a .txt"),
            FilePath::new("./a bar.txt"),
            FilePath::new("temp/a bar."),
            FilePath::new("foo/a .txt"),
        ],
        delete("foo", paths)
    );
}

#[test]
fn command_filter_by_extensions_paths() {
    let paths = vec![
        FilePath::new("./foo.txt"),
        FilePath::new("./bar.txt"),
        FilePath::new("./baz.txt"),
    ];

    assert_eq!(
        vec![
            FilePath::new("./foo.txt"),
            FilePath::new("./bar.txt"),
            FilePath::new("./baz.txt")
        ],
        filter(vec!["txt".to_owned()], paths)
    );
}

#[test]
fn append_without_extension_adds_no_separator() {
    assert_eq!(paths(&["dir/foobaz"]), append("baz", &paths(&["dir/foo"])));
    assert_eq!(paths(&[".bashrc_v2"]), append("_v2", &paths(&[".bashrc"])));
}

#[test]
fn append_goes_before_the_last_extension() {
    assert_eq!(paths(&["a.tar_v2.gz"]), append("_v2", &paths(&["a.tar.gz"])));
    assert_eq!(paths(&["./foo_v2.txt"]), append("_v2", &paths(&["./foo.txt"])));
}

#[test]
fn prepend_shifts_whole_name() {
    assert_eq!(paths(&["./bazfoo.txt"]), prepend("baz", &paths(&["./foo.txt"])));
    assert_eq!(paths(&["bazfoo"]), prepend("baz", &paths(&["foo"])));
}

#[test]
fn replace_touches_every_occurrence_and_the_extension() {
    assert_eq!(paths(&["x/oof.oof"]), replace("foo", "oof", paths(&["x/foo.foo"])));
    assert_eq!(paths(&["aXaXa"]), replace("b", "X", paths(&["ababa"])));
}

#[test]
fn replace_leaves_the_directory_alone() {
    assert_eq!(paths(&["foo/bar"]), replace("foo", "bar", paths(&["foo/foo"])));
}

#[test]
fn replace_with_empty_pattern_goes_between_characters() {
    assert_eq!(paths(&["d/-a-b-"]), replace("", "-", paths(&["d/ab"])));
}

#[test]
fn replace_drops_paths_without_file_name() {
    assert_eq!(
        paths(&["a/y", "b/y.md"]),
        replace("x", "y", paths(&["a/x", "dir/", "b/x.md", "..", "c/."]))
    );
}

#[test]
fn delete_is_replace_with_empty_target() {
    let input = paths(&["./a foo.txt", "temp/a bar.foo", "foofoo"]);
    assert_eq!(replace("foo", "", input.clone()), delete("foo", input));
    assert_eq!(paths(&[""]).len(), 1);
    assert_eq!(paths(&["d/"]), delete("foofoo", paths(&["d/foofoo"])));
}

#[test]
fn filter_keeps_exact_matches_in_order() {
    assert_eq!(
        paths(&["foo.txt", "baz.txt"]),
        filter(vec!["txt".to_owned()], paths(&["foo.txt", "bar.md", "baz.txt"]))
    );
}

#[test]
fn filter_is_case_sensitive_and_uses_last_extension() {
    assert_eq!(
        paths(&["c.md", "d.tar.gz"]),
        filter(
            vec!["gz".to_owned(), "md".to_owned()],
            paths(&["a.TXT", "b.txt", "c.md", "d.tar.gz", "e.gz.txt"])
        )
    );
}

#[test]
fn filter_with_no_extension_keeps_nothing() {
    assert_eq!(Vec::<FilePath>::new(), filter(vec![], paths(&["a.txt", "b"])));
}

#[test]
fn filter_twice_changes_nothing() {
    let exts = vec!["txt".to_owned()];
    let once = filter(exts.clone(), paths(&["foo.txt", "bar.md", "baz.txt", "q"]));
    let twice = filter(exts, once.clone());
    assert_eq!(once, twice);
}
