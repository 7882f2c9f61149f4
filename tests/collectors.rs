use telemetry_agent::filesys::{disk_info, is_physical_filesys, native_mount_entry, parse_mount_line, scaled_space, select_physical_mounts, FsStats};
use telemetry_agent::iostats::{parse_diskstats, parse_iostat_line, CounterUnit};
use telemetry_agent::sessions::{get_utmp, session_users, ut_tv, utmp_layout, utmpx_layout};
use telemetry_agent::text::{parse_decimal, split_fields};

fn lines(v: &[&str]) -> Vec<String> {
    v.iter().map(|s| s.to_string()).collect()
}

#[test]
fn allowlist_accepts_physical_types() {
    for t in ["ext2", "ext3", "ext4", "vfat", "ntfs", "zfs", "hfs", "hfsplus", "reiserfs", "reiser4",
        "exfat", "f2fs", "jfs", "btrfs", "minix", "nilfs", "xfs", "apfs", "fuseblk"] {
        assert!(is_physical_filesys(t), "{}", t);
    }
    for t in ["proc", "tmpfs", "sysfs", "overlay", "", "ext", "ext44", "EXT4"] {
        assert!(!is_physical_filesys(t), "{}", t);
    }
}

#[test]
fn mount_table_keeps_only_physical_entries() {
    let table = lines(&[
        "/dev/sda1 / ext4 rw,relatime 0 0",
        "proc /proc proc rw,nosuid 0 0",
        "tmpfs /run tmpfs rw,nosuid 0 0",
        "/dev/sdb1 /data xfs rw 0 0",
    ]);
    let r = select_physical_mounts(&table);
    assert_eq!(r.len(), 2);
    assert_eq!(r[0].device, "/dev/sda1");
    assert_eq!(r[0].mount_point, "/");
    assert_eq!(r[0].fs_type, "ext4");
    assert_eq!(r[1].device, "/dev/sdb1");
    assert_eq!(r[1].mount_point, "/data");
    assert_eq!(r[1].fs_type, "xfs");
}

#[test]
fn mount_point_escapes_are_decoded() {
    let e = parse_mount_line("/dev/sdc1 /mnt/my\\040disk ext4 rw 0 0").unwrap();
    assert_eq!(e.mount_point, "/mnt/my disk");
}

#[test]
fn short_mount_lines_are_skipped() {
    assert!(parse_mount_line("/dev/sda1 /").is_none());
    assert!(parse_mount_line("").is_none());
    let r = select_physical_mounts(&lines(&["/dev/sda1 /", "/dev/sda2 /home ext4 rw 0 0"]));
    assert_eq!(r.len(), 1);
    assert_eq!(r[0].mount_point, "/home");
}

#[test]
fn space_is_scaled_to_units() {
    assert_eq!(scaled_space(1000, 4096), 40);
    assert_eq!(scaled_space(0, 4096), 0);
    assert_eq!(scaled_space(u64::MAX, u64::MAX), u64::MAX);
    let e = parse_mount_line("/dev/sda1 / ext4 rw 0 0").unwrap();
    let d = disk_info(e, Some(FsStats { blocks: 2_000_000, blocks_available: 500_000, fragment_size: 4096 }));
    assert_eq!(d.name, "/dev/sda1");
    assert_eq!(d.total_space, 81920);
    assert_eq!(d.avail_space, 20480);
}

#[test]
fn failed_usage_query_gives_zero_space() {
    let e = parse_mount_line("/dev/sda1 / ext4 rw 0 0").unwrap();
    let d = disk_info(e, None);
    assert_eq!(d.mount_point, "/");
    assert_eq!((d.total_space, d.avail_space), (0, 0));
}

#[test]
fn fields_split_on_any_whitespace() {
    assert_eq!(split_fields("  a\tbb  c \n"), vec!["a", "bb", "c"]);
    assert!(split_fields("   ").is_empty());
}

#[test]
fn decimal_parsing() {
    assert_eq!(parse_decimal("0"), Some(0));
    assert_eq!(parse_decimal("18446744073709551615"), Some(u64::MAX));
    assert_eq!(parse_decimal("18446744073709551616"), None);
    assert_eq!(parse_decimal(""), None);
    assert_eq!(parse_decimal("12a"), None);
    assert_eq!(parse_decimal("-1"), None);
}

#[test]
fn iostat_line_with_thirteen_fields_is_skipped() {
    assert!(parse_iostat_line("8 0 sda 1 2 3 4 5 6 7 8 9 10").is_none());
}

#[test]
fn iostat_line_with_fourteen_fields_gives_counters() {
    let c = parse_iostat_line("   8       0 sda 100 20 3000 40 50 60 7000 80 90 100 110").unwrap();
    assert_eq!(c.device_name, "sda");
    assert_eq!(c.sectors_read, 3000);
    assert_eq!(c.sectors_written, 7000);
    assert_eq!(c.unit, CounterUnit::Sectors);
    let c = parse_iostat_line("8 1 sda1 1 2 33 4 5 6 77 8 9 10 11 12 13 14 15 16 17").unwrap();
    assert_eq!((c.sectors_read, c.sectors_written), (33, 77));
}

#[test]
fn iostat_table_skips_malformed_lines() {
    let r = parse_diskstats(&lines(&[
        "8 0 sda 100 20 3000 40 50 60 7000 80 90 100 110",
        "short line",
        "8 16 sdb 1 2 x 4 5 6 7 8 9 10 11",
        "8 32 sdc 1 2 5 4 5 6 9 8 9 10 11",
    ]));
    assert_eq!(r.len(), 2);
    assert_eq!(r[0].device_name, "sda");
    assert_eq!(r[1].device_name, "sdc");
    assert_eq!((r[1].sectors_read, r[1].sectors_written), (5, 9));
}

fn utmp_record(kind: i16, user: &[u8]) -> Vec<u8> {
    let mut rec = vec![0u8; 384];
    rec[0..2].copy_from_slice(&kind.to_le_bytes());
    rec[44..44 + user.len()].copy_from_slice(user);
    rec
}

#[test]
fn user_process_records_are_listed() {
    let mut data = Vec::new();
    data.extend(utmp_record(7, b"alice"));
    data.extend(utmp_record(1, b"bob"));
    data.extend(utmp_record(7, b""));
    data.extend(utmp_record(7, b"carol"));
    data.extend(utmp_record(8, b"dave"));
    assert_eq!(get_utmp(&data), vec!["alice", "carol"]);
}

#[test]
fn invalid_username_reads_as_unknown() {
    let mut data = utmp_record(7, &[0xff, 0xfe, 0x41]);
    data.extend(utmp_record(7, b"eve"));
    assert_eq!(get_utmp(&data), vec!["unknown", "eve"]);
}

#[test]
fn username_stops_at_first_nul_and_full_width_is_kept() {
    let name32 = [b'x'; 32];
    let mut data = utmp_record(7, &name32);
    data.extend(utmp_record(7, b"ab\0cd"));
    let r = get_utmp(&data);
    assert_eq!(r[0], "x".repeat(32));
    assert_eq!(r[1], "ab");
}

#[test]
fn partial_trailing_record_and_empty_store() {
    assert!(get_utmp(&Vec::new()).is_empty());
    let mut data = utmp_record(7, b"alice");
    data.extend(&utmp_record(7, b"bob")[..200]);
    assert_eq!(get_utmp(&data), vec!["alice"]);
}

#[test]
fn utmpx_records_are_deduplicated_when_asked() {
    let lay = utmpx_layout();
    let rec = |kind: i16, user: &[u8]| {
        let mut r = vec![0u8; 592];
        r[296..298].copy_from_slice(&kind.to_le_bytes());
        r[0..user.len()].copy_from_slice(user);
        r
    };
    let mut data = Vec::new();
    data.extend(rec(7, b"alice"));
    data.extend(rec(7, b"bob"));
    data.extend(rec(7, b"alice"));
    data.extend(rec(2, b"reboot"));
    assert_eq!(session_users(&data, &lay, true), vec!["alice", "bob"]);
    assert_eq!(session_users(&data, &lay, false), vec!["alice", "bob", "alice"]);
    let l = utmp_layout();
    assert_eq!((l.record_size, l.type_offset, l.user_offset, l.user_len), (384, 0, 44, 32));
}

#[test]
fn login_timestamp_defaults_to_zero() {
    let t = ut_tv::default();
    assert_eq!((t.tv_sec, t.tv_usec), (0, 0));
}

fn padded(text: &[u8], width: usize) -> Vec<u8> {
    let mut v = vec![0u8; width];
    v[..text.len()].copy_from_slice(text);
    v
}

#[test]
fn native_mount_records_are_trimmed_and_filtered() {
    let e = native_mount_entry(&padded(b"/dev/disk1s1", 90), &padded(b"/System/Volumes/Data", 90), &padded(b"apfs", 16)).unwrap();
    assert_eq!(e.device, "/dev/disk1s1");
    assert_eq!(e.mount_point, "/System/Volumes/Data");
    assert_eq!(e.fs_type, "apfs");
    assert!(native_mount_entry(&padded(b"devfs", 90), &padded(b"/dev", 90), &padded(b"devfs", 16)).is_none());
    assert!(native_mount_entry(&padded(&[0xff, 0xfe], 90), &padded(b"/x", 90), &padded(b"hfs", 16)).is_none());
    let full = native_mount_entry(&padded(b"d", 1), &padded(b"/m", 2), &padded(b"zfs", 3)).unwrap();
    assert_eq!((full.device.as_str(), full.mount_point.as_str(), full.fs_type.as_str()), ("d", "/m", "zfs"));
}
