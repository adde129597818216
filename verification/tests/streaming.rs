use mnt::MntOps;
use mountinfo::parse_mountinfo;
use mountinfo::LineError;
use mountinfo::MountEntry;

#[test]
fn test_parse_mountinfo() {
    let s = b"21 26 0:20 / /sys rw,nosuid,nodev,noexec,relatime shared:7 - sysfs sysfs rw
26 0 8:2 / / rw,relatime - ext4 /dev/sda2 rw,data=ordered";

    let mut entries = parse_mountinfo(s.to_vec());

    assert_eq!(
        MountEntry {
            mount_id: 21,
            parent_id: 26,
            dev_major: 0,
            dev_minor: 20,
            root: "/".to_owned(),
            mount_point: "/sys".to_owned(),
            mount_opts: vec![
                MntOps::Write(true),
                MntOps::Suid(false),
                MntOps::Dev(false),
                MntOps::Exec(false),
                MntOps::RelAtime(true),
            ],
            tags: vec![("shared".to_owned(), Some("7".to_owned()))],
            filesystem: "sysfs".to_owned(),
            mount_source: "sysfs".to_owned(),
            super_opts: vec![MntOps::Write(true)],
        },
        entries.next_entry().unwrap().unwrap()
    );
    assert_eq!(
        MountEntry {
            mount_id: 26,
            parent_id: 0,
            dev_major: 8,
            dev_minor: 2,
            root: "/".to_owned(),
            mount_point: "/".to_owned(),
            mount_opts: vec![MntOps::Write(true), MntOps::RelAtime(true)],
            tags: vec![],
            filesystem: "ext4".to_owned(),
            mount_source: "/dev/sda2".to_owned(),
            super_opts: vec![
                MntOps::Write(true),
                MntOps::Extra("data=ordered".to_owned()),
            ],
        },
        entries.next_entry().unwrap().unwrap()
    );

    assert!(entries.next_entry().is_none());
}

#[test]
fn stream_success_then_failure_yields_two_items() {
    let s = b"36 35 98:0 /mnt1 /mnt2 rw master:1 - ext3 /dev/root rw\n36 35 98 / /mnt rw - ext3 none rw";
    let mut entries = parse_mountinfo(s.to_vec());
    let first = entries.next_entry().unwrap();
    assert!(first.is_ok());
    let second = entries.next_entry().unwrap();
    assert_eq!(second, Err(LineError::InvalidDevId("98".to_owned())));
    assert!(entries.next_entry().is_none());
}

#[test]
fn stream_strips_carriage_returns() {
    let s = b"21 26 0:20 / /sys rw - sysfs sysfs rw\r\n26 0 8:2 / / rw - ext4 /dev/sda2 rw\r\n";
    let mut entries = parse_mountinfo(s.to_vec());
    let first = entries.next_entry().unwrap().unwrap();
    assert_eq!(first.super_opts, vec![MntOps::Write(true)]);
    let second = entries.next_entry().unwrap().unwrap();
    assert_eq!(second.mount_id, 26);
    assert!(entries.next_entry().is_none());
}

#[test]
fn stream_bad_utf8_line_is_a_read_failure() {
    let s = vec![0xffu8, 0xfe, b'\n', b'2', b'6', b' ', b'0', b' ', b'8', b':', b'2', b' ', b'/',
        b' ', b'/', b' ', b'r', b'w', b' ', b'-', b' ', b'e', b'x', b't', b'4', b' ', b'n', b'o',
        b'n', b'e', b' ', b'r', b'w'];
    let mut entries = parse_mountinfo(s);
    let first = entries.next_entry().unwrap();
    assert_eq!(
        first,
        Err(LineError::IoError(std::io::ErrorKind::InvalidData))
    );
    let second = entries.next_entry().unwrap().unwrap();
    assert_eq!(second.mount_id, 26);
    assert!(entries.next_entry().is_none());
}

#[test]
fn stream_empty_input_yields_nothing() {
    let mut entries = parse_mountinfo(Vec::new());
    assert!(entries.next_entry().is_none());
}

#[test]
fn stream_blank_line_is_a_missing_mount_id() {
    let s = b"\n26 0 8:2 / / rw - ext4 none rw";
    let mut entries = parse_mountinfo(s.to_vec());
    assert_eq!(entries.next_entry().unwrap(), Err(LineError::MissingMountId));
    assert!(entries.next_entry().unwrap().is_ok());
    assert!(entries.next_entry().is_none());
}
