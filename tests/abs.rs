use dirge::{AbsPath, AbsPathBuf, Component, NormPathBuf, PathError, RelPath, ToAbsPathBuf};

#[test]
fn abs_no_overhead() {
    assert_eq!(
        std::mem::size_of::<AbsPathBuf>(),
        std::mem::size_of::<std::path::PathBuf>()
    );
    let dn1 = AbsPathBuf::new("/dev/null").unwrap();
    let comps = dn1.as_abs_path().components();
    assert_eq!(
        comps,
        vec![
            Component::RootDir,
            Component::Normal("dev".to_string()),
            Component::Normal("null".to_string()),
        ]
    );
}

#[test]
fn abs_basic() -> Result<(), PathError> {
    let c1 = "Cargo.toml".to_abs_path_buf()?;
    let c2 = AbsPathBuf::new("Cargo.toml")?;

    assert_eq!(c1, c2);

    Ok(())
}

#[test]
fn deref_to_abs_path() {
    let c1 = "Cargo.toml".to_abs_path_buf().unwrap();

    let _x: AbsPath = c1.as_abs_path();
}

#[test]
fn abs_deref_methods() {
    let c1 = "Cargo.toml".to_abs_path_buf().unwrap();

    assert!(c1.capacity() > 0);
}

#[test]
fn absolute_input_is_kept_as_is() {
    let p = AbsPathBuf::new("/opt/app").unwrap();
    assert_eq!(p.as_path(), "/opt/app");
    let q = AbsPathBuf::new("/opt/./app/../x").unwrap();
    assert_eq!(q.as_path(), "/opt/./app/../x");
}

#[test]
fn relative_input_is_resolved() {
    let p = AbsPathBuf::new("Cargo.toml").unwrap();
    assert!(p.as_path().starts_with('/'));
    assert!(p.as_path().ends_with("Cargo.toml"));
    assert_ne!(p.as_path(), "Cargo.toml");
}

#[test]
fn from_absolute_checks_the_category() {
    let p = AbsPathBuf::from_absolute("/home/user/file.txt").unwrap();
    assert_eq!(p.as_path(), "/home/user/file.txt");
    assert_eq!(
        AbsPathBuf::from_absolute("relative/path").unwrap_err(),
        PathError::NotAbsolute
    );
    assert_eq!(AbsPath::new("").unwrap_err(), PathError::NotAbsolute);
    assert_eq!(AbsPath::new("/a").unwrap().as_path(), "/a");
}

#[test]
fn from_resolution_uses_the_resolution_only_for_relative_paths() {
    let kept =
        AbsPathBuf::from_resolution("/etc", true, Some(("/elsewhere".to_string(), true))).unwrap();
    assert_eq!(kept.as_path(), "/etc");
    let resolved =
        AbsPathBuf::from_resolution("etc", false, Some(("/root/etc".to_string(), true))).unwrap();
    assert_eq!(resolved.as_path(), "/root/etc");
    assert_eq!(
        AbsPathBuf::from_resolution("etc", false, Some(("etc".to_string(), false))).unwrap_err(),
        PathError::NotAbsolute
    );
    assert_eq!(
        AbsPathBuf::from_resolution("etc", false, None).unwrap_err(),
        PathError::Io
    );
}

#[test]
fn empty_path_cannot_be_made_absolute() {
    assert_eq!(AbsPathBuf::new("").unwrap_err(), PathError::Io);
}

#[test]
fn abs_starts_with_compares_segments() {
    let root = AbsPathBuf::new("/srv/app").unwrap();
    let inside = NormPathBuf::new("/srv/app/data/../logs/x.log").unwrap();
    let escaped = NormPathBuf::new("/srv/app/../../etc/passwd").unwrap();
    let v = AbsPath::new(inside.as_path()).unwrap();
    assert!(v.starts_with(root.as_path()));
    assert!(!AbsPath::new(escaped.as_path()).unwrap().starts_with(root.as_path()));
    assert!(!AbsPath::new("/srv/application").unwrap().starts_with("/srv/app"));
    assert!(AbsPath::new("/srv//app/").unwrap().starts_with("/srv/app"));
}

#[test]
fn new_unchecked_keeps_the_text() {
    let p = AbsPathBuf::new_unchecked("/srv".to_string());
    assert_eq!(p.as_path(), "/srv");
}

#[test]
fn join_appends_with_one_separator() {
    let base = AbsPathBuf::new("/opt/app").unwrap();
    let rel = RelPath::new("config/app.toml").unwrap();
    let joined = base.as_abs_path().join(rel);
    assert_eq!(joined.as_path(), "/opt/app/config/app.toml");

    let root = AbsPathBuf::new("/").unwrap();
    assert_eq!(root.as_abs_path().join(rel).as_path(), "/config/app.toml");

    let empty = RelPath::new("").unwrap();
    assert_eq!(base.as_abs_path().join(empty).as_path(), "/opt/app");
}

#[test]
fn push_keeps_the_path_absolute() {
    let mut p = AbsPathBuf::new("/var/").unwrap();
    p.push(RelPath::new("log").unwrap());
    assert_eq!(p.as_path(), "/var/log");
    p.push(RelPath::new("../tmp").unwrap());
    assert_eq!(p.as_path(), "/var/log/../tmp");
}

#[test]
fn view_round_trip_gives_an_equal_path() {
    let b = AbsPathBuf::new("/home/user/file.txt").unwrap();
    let c = b.as_abs_path().to_path_buf();
    assert_eq!(b, c);
    assert_eq!(b.clone(), b);
}

#[test]
fn abs_queries() {
    let p = AbsPathBuf::new("/home/user/file.tar.gz").unwrap();
    let v = p.as_abs_path();
    assert_eq!(v.file_name(), Some("file.tar.gz".to_string()));
    assert_eq!(v.extension(), Some("gz".to_string()));
    assert_eq!(v.parent(), Some("/home/user".to_string()));
    let root = AbsPathBuf::new("/").unwrap();
    assert_eq!(root.as_abs_path().parent(), None);
    assert_eq!(root.as_abs_path().file_name(), None);
}

#[test]
fn abs_view_new_unchecked() {
    let v = AbsPath::new_unchecked("/opt");
    assert_eq!(v.to_path_buf().as_path(), "/opt");
}
