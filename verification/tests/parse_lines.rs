use mnt::MntOps;
use mountinfo::LineError;
use mountinfo::MountEntry;

#[test]
fn well_formed_line_round_trips_every_field() {
    let entry =
        MountEntry::from_str("36 35 98:0 /mnt1 /mnt2 rw,noatime master:1 - ext3 /dev/root rw,errors=continue")
            .unwrap();
    assert_eq!(entry.mount_id, 36);
    assert_eq!(entry.parent_id, 35);
    assert_eq!(entry.dev_major, 98);
    assert_eq!(entry.dev_minor, 0);
    assert_eq!(entry.root, "/mnt1");
    assert_eq!(entry.mount_point, "/mnt2");
    assert_eq!(
        entry.mount_opts,
        vec![MntOps::Write(true), MntOps::Atime(false)]
    );
    assert_eq!(entry.tags, vec![("master".to_owned(), Some("1".to_owned()))]);
    assert_eq!(entry.filesystem, "ext3");
    assert_eq!(entry.mount_source, "/dev/root");
    assert_eq!(
        entry.super_opts,
        vec![
            MntOps::Write(true),
            MntOps::Extra("errors=continue".to_owned())
        ]
    );
}

#[test]
fn parsing_twice_gives_equal_results() {
    let line = "36 35 98:0 /mnt1 /mnt2 rw,noatime master:1 - ext3 /dev/root rw";
    assert_eq!(MountEntry::from_str(line), MountEntry::from_str(line));
    let bad = "36 35 98:0:7 /mnt1 /mnt2 rw - ext3 /dev/root rw";
    assert_eq!(MountEntry::from_str(bad), MountEntry::from_str(bad));
    let non_numeric = "x 35 98:0 /mnt1 /mnt2 rw - ext3 /dev/root rw";
    assert_eq!(
        MountEntry::from_str(non_numeric),
        MountEntry::from_str(non_numeric)
    );
}

#[test]
fn trailing_tokens_after_super_opts_are_ignored() {
    let short = MountEntry::from_str("36 35 98:0 / /mnt rw - ext3 none rw").unwrap();
    let long =
        MountEntry::from_str("36 35 98:0 / /mnt rw - ext3 none rw forward compat fields").unwrap();
    assert_eq!(short, long);
}

#[test]
fn missing_separator_wins_over_exhaustion() {
    assert_eq!(
        MountEntry::from_str("36 35 98:0 /mnt1 /mnt2 rw,noatime master:1 ext3"),
        Err(LineError::MissingSeparator)
    );
    assert_eq!(
        MountEntry::from_str("36 35 98:0 / /mnt rw"),
        Err(LineError::MissingSeparator)
    );
}

#[test]
fn device_field_part_counts() {
    assert_eq!(
        MountEntry::from_str("36 35 98 / /mnt rw - ext3 none rw"),
        Err(LineError::InvalidDevId("98".to_owned()))
    );
    assert_eq!(
        MountEntry::from_str("36 35 98:0:1 / /mnt rw - ext3 none rw"),
        Err(LineError::InvalidDevId("98:0:1".to_owned()))
    );
    assert_eq!(
        MountEntry::from_str("36 35 98:0: / /mnt rw - ext3 none rw"),
        Err(LineError::InvalidDevId("98:0:".to_owned()))
    );
    assert_eq!(
        MountEntry::from_str("36 35 : / /mnt rw - ext3 none rw"),
        Err(LineError::InvalidDevId(":".to_owned()))
    );
    assert_eq!(
        MountEntry::from_str("36 35 a:b / /mnt rw - ext3 none rw"),
        Err(LineError::InvalidDevId("a:b".to_owned()))
    );
}

#[test]
fn tag_without_colon_and_tag_with_empty_value() {
    let entry = MountEntry::from_str("36 35 98:0 / /mnt rw noexec shared: - ext3 none rw").unwrap();
    assert_eq!(
        entry.tags,
        vec![
            ("noexec".to_owned(), None),
            ("shared".to_owned(), Some("".to_owned()))
        ]
    );
}

#[test]
fn tag_value_keeps_later_colons() {
    let entry = MountEntry::from_str("36 35 98:0 / /mnt rw master:1:2 - ext3 none rw").unwrap();
    assert_eq!(entry.tags, vec![("master".to_owned(), Some("1:2".to_owned()))]);
}

#[test]
fn each_missing_field_is_named() {
    assert_eq!(MountEntry::from_str(""), Err(LineError::MissingMountId));
    assert_eq!(MountEntry::from_str("   "), Err(LineError::MissingMountId));
    assert_eq!(MountEntry::from_str("36"), Err(LineError::MissingParentId));
    assert_eq!(MountEntry::from_str("36 35"), Err(LineError::MissingDevId));
    assert_eq!(
        MountEntry::from_str("36 35 98:0"),
        Err(LineError::MissingRoot)
    );
    assert_eq!(
        MountEntry::from_str("36 35 98:0 /"),
        Err(LineError::MissingMountPoint)
    );
    assert_eq!(
        MountEntry::from_str("36 35 98:0 / /mnt"),
        Err(LineError::MissingMountOpts)
    );
    assert_eq!(
        MountEntry::from_str("36 35 98:0 / /mnt rw -"),
        Err(LineError::MissingFileSystem)
    );
    assert_eq!(
        MountEntry::from_str("36 35 98:0 / /mnt rw - ext3"),
        Err(LineError::MissingMountSource)
    );
    assert_eq!(
        MountEntry::from_str("36 35 98:0 / /mnt rw - ext3 none"),
        Err(LineError::MissingSuperOpts)
    );
}

#[test]
fn non_numeric_ids_are_integer_conversion_failures() {
    assert!(matches!(
        MountEntry::from_str("x 35 98:0 / /mnt rw - ext3 none rw"),
        Err(LineError::ParseIntError(_))
    ));
    assert!(matches!(
        MountEntry::from_str("36 y 98:0 / /mnt rw - ext3 none rw"),
        Err(LineError::ParseIntError(_))
    ));
}

#[test]
fn empty_tag_name_is_invalid() {
    assert_eq!(
        MountEntry::from_str("36 35 98:0 / /mnt rw :bad - ext3 none rw"),
        Err(LineError::InvalidTag(":bad".to_owned()))
    );
}

#[test]
fn whitespace_is_a_pure_delimiter() {
    let spaced = MountEntry::from_str("  36\t 35  98:0 /  /mnt \t rw - ext3 none rw  ").unwrap();
    let plain = MountEntry::from_str("36 35 98:0 / /mnt rw - ext3 none rw").unwrap();
    assert_eq!(spaced, plain);
}

#[test]
fn plus_signed_ids_parse() {
    let entry = MountEntry::from_str("+36 35 98:0 / /mnt rw - ext3 none rw").unwrap();
    assert_eq!(entry.mount_id, 36);
}

#[test]
fn option_fields_split_on_every_comma() {
    let entry = MountEntry::from_str("36 35 98:0 / /mnt rw,,ro - ext3 none rw,").unwrap();
    assert_eq!(
        entry.mount_opts,
        vec![
            MntOps::Write(true),
            MntOps::Extra("".to_owned()),
            MntOps::Write(false)
        ]
    );
    assert_eq!(entry.super_opts, vec![MntOps::Write(true)]);
}

#[test]
fn empty_tag_list_is_fine() {
    let entry = MountEntry::from_str("36 35 98:0 / /mnt rw - ext3 none rw").unwrap();
    assert_eq!(entry.tags, vec![]);
}
