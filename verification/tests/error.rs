use cmd_lib::dir::{enter_dir, DirProbe};
use cmd_lib::error::{CmdError, ErrorKind};

#[test]
fn error_holds_kind_and_text() {
    let e = CmdError::new(ErrorKind::Spawn, "no such program");
    assert_eq!(e.kind(), ErrorKind::Spawn);
    assert_eq!(e.message(), "no such program");
    assert_eq!(e.kind, ErrorKind::Spawn);
    assert_eq!(e.message, "no such program");
}

#[test]
fn duplicate_is_equal() {
    for kind in [ErrorKind::Build, ErrorKind::Spawn, ErrorKind::Runtime, ErrorKind::DirectoryChange] {
        let e = CmdError::new(kind, "text");
        let copy = e.duplicate();
        assert_eq!(copy.kind(), kind);
        assert_eq!(copy.message(), "text");
    }
}

#[test]
fn entering_a_directory_that_is_there() {
    assert_eq!(enter_dir("/tmp/x".to_string(), DirProbe::Accessible).unwrap(), "/tmp/x");
}

#[test]
fn entering_a_directory_that_is_missing() {
    let e = enter_dir("/tmp/x".to_string(), DirProbe::Missing).unwrap_err();
    assert_eq!(e.kind, ErrorKind::DirectoryChange);
    assert_eq!(e.message, "cd /tmp/x: No such file or directory");
}

#[test]
fn entering_a_directory_that_is_closed() {
    let e = enter_dir("/root".to_string(), DirProbe::Denied("Permission denied".to_string()))
        .unwrap_err();
    assert_eq!(e.kind, ErrorKind::DirectoryChange);
    assert_eq!(e.message, "Permission denied");
}
