use dirge::{NormPath, NormPathBuf, ToNormPathBuf};

fn norm(p: &str) -> String {
    NormPathBuf::new(p).unwrap().as_path().to_string()
}

#[test]
fn norm_basic() {
    let norm = NormPathBuf::new("path/to/file.txt").unwrap();
    let _: NormPath = norm.as_norm_path();
    let _: &str = norm.as_path();
}

#[test]
fn deref_to_norm_path() {
    let norm = NormPathBuf::new("path/to/file.txt").unwrap();
    let norm_path: NormPath = norm.as_norm_path();
    assert_eq!(norm_path.as_path(), "path/to/file.txt");
}

#[test]
fn norm_deref_methods() {
    let norm = NormPathBuf::new("path/to/file.txt").unwrap();
    let _parent = norm.as_norm_path().parent();
    let _file_name = norm.as_norm_path().file_name();
    let _extension = norm.as_norm_path().extension();
}

#[test]
fn norm_no_overhead() {
    assert_eq!(
        std::mem::size_of::<NormPathBuf>(),
        std::mem::size_of::<std::path::PathBuf>()
    );
}

#[test]
fn normalizes_current_dir() {
    let norm = NormPathBuf::new("path/./to/file.txt").unwrap();
    assert_eq!(norm.as_path(), "path/to/file.txt");
}

#[test]
fn normalizes_parent_dir() {
    let norm = NormPathBuf::new("path/to/../file.txt").unwrap();
    assert_eq!(norm.as_path(), "path/file.txt");
}

#[test]
fn normalizes_complex_path() {
    let norm = NormPathBuf::new("path/./to/../other/./file.txt").unwrap();
    assert_eq!(norm.as_path(), "path/other/file.txt");
}

#[test]
fn handles_multiple_parent_dirs() {
    let norm = NormPathBuf::new("path/to/deep/../../file.txt").unwrap();
    assert_eq!(norm.as_path(), "path/file.txt");
}

#[test]
fn preserves_leading_parent_dirs() {
    let norm = NormPathBuf::new("../path/to/file.txt").unwrap();
    assert_eq!(norm.as_path(), "../path/to/file.txt");
}

#[test]
fn handles_empty_becoming_current() {
    let norm = NormPathBuf::new("./").unwrap();
    assert_eq!(norm.as_path(), ".");
}

#[test]
fn handles_current_dir_only() {
    let norm = NormPathBuf::new(".").unwrap();
    assert_eq!(norm.as_path(), ".");
}

#[test]
fn preserves_absolute_paths() {
    let norm = NormPathBuf::new("/path/./to/../file.txt").unwrap();
    assert_eq!(norm.as_path(), "/path/file.txt");
}

#[test]
fn unresolvable_parents_stay_in_order() {
    assert_eq!(norm("../../../etc/passwd"), "../../../etc/passwd");
    assert_eq!(norm("safe/../../etc/passwd"), "../etc/passwd");
    assert_eq!(norm("a/../../b/../.."), "../..");
}

#[test]
fn root_absorbs_parents() {
    assert_eq!(norm("/.."), "/");
    assert_eq!(norm("/../../etc"), "/etc");
    assert_eq!(norm("/a/../.."), "/");
}

#[test]
fn empty_and_vanishing_paths() {
    assert_eq!(norm(""), "");
    assert_eq!(norm("a/.."), ".");
    assert_eq!(norm("./."), ".");
}

#[test]
fn separators_are_collapsed() {
    assert_eq!(norm("a//b///c/"), "a/b/c");
    assert_eq!(norm("//a"), "/a");
}

#[test]
fn normalizing_twice_changes_nothing() {
    for p in [
        "path/./to/../file.txt",
        "../../x/./y/..",
        "/a/b/../../..",
        "./",
        "",
        "a/..",
        "...//.../..",
    ] {
        let once = norm(p);
        assert_eq!(norm(&once), once);
    }
}

#[test]
fn conversion_trait_matches_new() {
    let a = "path/./to/../file.txt".to_norm_path_buf().unwrap();
    let b = "path/./to/../file.txt".to_string().to_norm_path_buf().unwrap();
    assert_eq!(a, b);
    assert_eq!(a.as_path(), "path/file.txt");
    assert_eq!(a.as_norm_path().to_path_buf(), a);
    assert!(a.capacity() >= 13);
}

#[test]
fn new_unchecked_keeps_normal_text() {
    let b = NormPathBuf::new_unchecked("path/file.txt".to_string());
    assert_eq!(b, NormPathBuf::new("path/file.txt").unwrap());
}

#[test]
fn norm_view_new_unchecked() {
    let v = NormPath::new_unchecked("a/b");
    assert_eq!(v.to_path_buf().as_path(), "a/b");
    assert_eq!(v.parent(), Some("a".to_string()));
    assert_eq!(
        NormPathBuf::new("/x/./y").unwrap().as_norm_path().components().len(),
        3
    );
}

#[test]
fn norm_starts_with_compares_segments() {
    let n = NormPathBuf::new("safe/./dir/../file").unwrap();
    assert!(n.as_norm_path().starts_with("safe"));
    assert!(!n.as_norm_path().starts_with("safe/dir"));
}

#[test]
fn norm_join_normalizes_the_result() {
    let base = NormPathBuf::new("safe/dir").unwrap();
    assert_eq!(base.as_norm_path().join("../other/./f").as_path(), "safe/other/f");
    assert_eq!(base.as_norm_path().join("../../..").as_path(), "..");
    assert_eq!(base.as_norm_path().join("").as_path(), "safe/dir");
}
