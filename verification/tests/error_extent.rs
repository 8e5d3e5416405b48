use gli_rs::{Error, ErrorKind, Extent1d, Extent2d, Extent3d};

#[test]
fn error_kinds_print() {
    assert_eq!(
        ErrorKind::LoadTexture("Failed to load.".to_string()).message(),
        "Load texture error: Failed to load."
    );
    assert_eq!(
        ErrorKind::SaveTexture("Invalid file path.".to_string()).message(),
        "Save texture error: Invalid file path."
    );
    assert_eq!(ErrorKind::Path("a/b.ktx".to_string()).message(), "a/b.ktx");
    assert_eq!(
        ErrorKind::Bug("oops".to_string()).message(),
        "Bug: oops\nPlease report this bug with a backtrace for this repository"
    );
    assert_eq!(ErrorKind::Io.message(), "I/O error");
}

#[test]
fn errors_keep_their_kind() {
    assert!(matches!(Error::load_texture("x").kind(), ErrorKind::LoadTexture(m) if m == "x"));
    assert!(matches!(Error::save_texture("y").kind(), ErrorKind::SaveTexture(m) if m == "y"));
    assert!(matches!(Error::bug("z").kind(), ErrorKind::Bug(m) if m == "z"));
    assert!(matches!(ErrorKind::path("p/q"), ErrorKind::Path(p) if p == "p/q"));
    let e = Error::from(ErrorKind::Io);
    assert!(matches!(e.kind(), ErrorKind::Io));
    assert_eq!(e.message(), "I/O error");
    assert_eq!(Error::bug("b").message(), ErrorKind::Bug("b".to_string()).message());
}

#[test]
fn extents_convert() {
    assert_eq!(u32::from(Extent1d { width: 7 }), 7);
    assert_eq!(Extent1d::from(7u32), Extent1d { width: 7 });
    assert_eq!(Extent1d::from([7u32, 8]), Extent1d { width: 7 });
    assert_eq!(Extent1d::from([7u32, 8, 9]), Extent1d { width: 7 });
    assert_eq!(<[u32; 2]>::from(Extent2d { width: 7, height: 8 }), [7, 8]);
    assert_eq!(Extent2d::from([7u32, 8]), Extent2d { width: 7, height: 8 });
    assert_eq!(Extent2d::from([7u32, 8, 9]), Extent2d { width: 7, height: 8 });
    assert_eq!(<[u32; 3]>::from(Extent3d { width: 7, height: 8, depth: 9 }), [7, 8, 9]);
    assert_eq!(Extent3d::from([7u32, 8, 9]), Extent3d { width: 7, height: 8, depth: 9 });
    let e: Extent2d = [1, 2].into();
    assert_eq!(e, Extent2d { width: 1, height: 2 });
}

#[test]
fn default_extents_are_zero() {
    assert_eq!(Extent1d::default(), Extent1d { width: 0 });
    assert_eq!(Extent2d::default(), Extent2d { width: 0, height: 0 });
    assert_eq!(Extent3d::default(), Extent3d { width: 0, height: 0, depth: 0 });
}
