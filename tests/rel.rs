use dirge::{Component, PathError, RelPath, RelPathBuf, ToRelPathBuf};

#[test]
fn rel_basic() {
    let rel = RelPathBuf::new("src/main.rs").unwrap();
    let _: RelPath = rel.as_rel_path();
    let _: &str = rel.as_path();
}

#[test]
fn deref_to_rel_path() {
    let rel = RelPathBuf::new("src/main.rs").unwrap();
    let rel_path: RelPath = rel.as_rel_path();
    assert_eq!(rel_path.as_path(), "src/main.rs");
}

#[test]
fn rel_deref_methods() {
    let rel = RelPathBuf::new("src/main.rs").unwrap();
    let _parent = rel.as_rel_path().parent();
    let _file_name = rel.as_rel_path().file_name();
    let _extension = rel.as_rel_path().extension();
}

#[test]
fn rel_no_overhead() {
    assert_eq!(
        std::mem::size_of::<RelPathBuf>(),
        std::mem::size_of::<std::path::PathBuf>()
    );
}

#[test]
fn rejects_absolute_paths() {
    assert!(RelPathBuf::new("/absolute/path").is_err());
}

#[test]
fn accepts_relative_paths() {
    assert!(RelPathBuf::new("relative/path").is_ok());
    assert!(RelPathBuf::new("./relative/path").is_ok());
    assert!(RelPathBuf::new("../relative/path").is_ok());
    assert!(RelPathBuf::new("file.txt").is_ok());
}

#[test]
fn make_relative_reports_not_relative() {
    assert_eq!(
        RelPathBuf::new("/absolute/path").unwrap_err(),
        PathError::NotRelative
    );
    let rel = RelPathBuf::new("relative/path").unwrap();
    assert_eq!(rel.as_path(), "relative/path");
    assert_eq!(
        "/x".to_string().to_rel_path_buf().unwrap_err(),
        PathError::NotRelative
    );
    assert_eq!("".to_rel_path_buf().unwrap().as_path(), "");
}

#[test]
fn rel_view_round_trip() {
    let b = RelPathBuf::new("relative/path.txt").unwrap();
    let c = b.as_rel_path().to_path_buf();
    assert_eq!(b, c);
    assert_eq!(RelPath::new("/x").unwrap_err(), PathError::NotRelative);
}

#[test]
fn rel_queries() {
    let v = RelPath::new("src/main.rs").unwrap();
    assert_eq!(v.parent(), Some("src".to_string()));
    assert_eq!(v.file_name(), Some("main.rs".to_string()));
    assert_eq!(v.extension(), Some("rs".to_string()));
    let dot = RelPath::new(".bashrc").unwrap();
    assert_eq!(dot.extension(), None);
    let up = RelPath::new("a/..").unwrap();
    assert_eq!(up.file_name(), None);
    assert_eq!(
        RelPath::new("./a//b/.").unwrap().components(),
        vec![
            Component::CurDir,
            Component::Normal("a".to_string()),
            Component::Normal("b".to_string()),
        ]
    );
}

#[test]
fn rel_new_unchecked() {
    let b = RelPathBuf::new_unchecked("x/y".to_string());
    assert_eq!(b.as_path(), "x/y");
    assert!(b.capacity() >= 3);
}

#[test]
fn rel_view_new_unchecked() {
    let v = RelPath::new_unchecked("src");
    assert_eq!(v.to_path_buf().as_path(), "src");
}

#[test]
fn rel_from_checked_follows_the_judgement() {
    assert_eq!(
        RelPathBuf::from_checked("C:\\absolute\\path", true).unwrap_err(),
        PathError::NotRelative
    );
    assert_eq!(
        RelPathBuf::from_checked("relative/path", false).unwrap().as_path(),
        "relative/path"
    );
}

#[test]
fn rel_starts_with_compares_segments() {
    let v = RelPath::new("./src/main.rs").unwrap();
    assert!(v.starts_with("./src"));
    assert!(!v.starts_with("src"));
    assert!(RelPath::new("src/main.rs").unwrap().starts_with("src/"));
    assert!(RelPath::new("a").unwrap().starts_with(""));
}

#[test]
fn rel_join_stays_relative() {
    let a = RelPath::new("src").unwrap();
    let b = RelPath::new("main.rs").unwrap();
    assert_eq!(a.join(b).unwrap().as_path(), "src/main.rs");
    let dir = RelPath::new("src/").unwrap();
    assert_eq!(dir.join(b).unwrap().as_path(), "src/main.rs");
    assert_eq!(RelPath::new("").unwrap().join(b).unwrap().as_path(), "main.rs");
}
