use mountinfo::LineError;
use mountinfo::MountEntry;
use mountinfo::ParseError;

#[test]
fn parse_error_prefixes_its_detail() {
    let e = ParseError::new("something odd".to_owned());
    assert_eq!(e.description(), "Mount parsing: something odd");
}

#[test]
fn parse_error_wraps_a_read_failure() {
    let io = std::io::Error::new(std::io::ErrorKind::PermissionDenied, "locked");
    let e = ParseError::from_io_error(io);
    assert!(e
        .description()
        .starts_with("Mount parsing: Failed to read the mounts file: "));
}

#[test]
fn messages_name_field_number_and_field() {
    assert_eq!(
        LineError::MissingMountId.message(),
        "Line parsing: Missing field #1 (mount id)"
    );
    assert_eq!(
        LineError::MissingParentId.message(),
        "Line parsing: Missing field #2 (parent id)"
    );
    assert_eq!(
        LineError::MissingDevId.message(),
        "Line parsing: Missing field #3 (dev id)"
    );
    assert_eq!(
        LineError::InvalidDevId("98".to_owned()).message(),
        "Line parsing: Invalid field #3 (dev id): 98"
    );
    assert_eq!(
        LineError::MissingRoot.message(),
        "Line parsing: Missing field #4 (root)"
    );
    assert_eq!(
        LineError::MissingMountPoint.message(),
        "Line parsing: Missing field #5 (mount point)"
    );
    assert_eq!(
        LineError::MissingMountOpts.message(),
        "Line parsing: Missing field #6 (mount opts)"
    );
    assert_eq!(
        LineError::InvalidTag(":x".to_owned()).message(),
        "Line parsing: Invalid field #7 (mount opts): :x"
    );
    assert_eq!(
        LineError::MissingSeparator.message(),
        "Line parsing: Missing field #8 (separator)"
    );
    assert_eq!(
        LineError::MissingFileSystem.message(),
        "Line parsing: Missing field #9 (filesystem)"
    );
    assert_eq!(
        LineError::MissingMountSource.message(),
        "Line parsing: Missing field #10 (mount source)"
    );
    assert_eq!(
        LineError::MissingSuperOpts.message(),
        "Line parsing: Missing field #11 (super opts)"
    );
    assert_eq!(
        LineError::MissingSpec.message(),
        "Line parsing: Missing field #1 (spec)"
    );
    assert_eq!(
        LineError::InvalidFreq("9".to_owned()).message(),
        "Line parsing: Bad field #5 (dump) value: 9"
    );
}

#[test]
fn wrapped_payload_messages_keep_their_prefix() {
    assert!(LineError::IoError(std::io::ErrorKind::TimedOut)
        .message()
        .starts_with("Line parsing: read line failed, "));
    let int_err = match MountEntry::from_str("x 35 98:0 / /mnt rw - ext3 none rw") {
        Err(LineError::ParseIntError(e)) => e,
        other => panic!("expected an integer conversion failure, got {:?}", other),
    };
    assert!(LineError::ParseIntError(int_err)
        .message()
        .starts_with("Line parsing: Invalid integer, "));
}

#[test]
fn failures_compare_and_clone() {
    let a = LineError::InvalidDevId("98".to_owned());
    let b = a.clone();
    assert_eq!(a, b);
    assert_ne!(a, LineError::InvalidDevId("99".to_owned()));
    assert_ne!(a, LineError::MissingDevId);
}
