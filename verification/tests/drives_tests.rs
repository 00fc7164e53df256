use diskrush::drives::{
    detect_drives, is_listed_volume, is_real_writable, name_or_path, path_display_name, Drive, SizeUnit,
    MNT_DONTBROWSE, MNT_RDONLY,
};

const MOUNTS: &str = "sysfs /sys sysfs rw,nosuid 0 0\n\
/dev/nvme0n1p2 / ext4 rw,relatime 0 0\n\
/dev/nvme0n1p1 /boot/efi vfat rw 0 0\n\
/dev/loop3 /snap/core/123 squashfs ro 0 0\n\
/dev/sdb1 /mnt/data xfs rw 0 0\r\n\
tmpfs /tmp tmpfs rw 0 0\n\
/dev/sdc1   /media/usb\texfat rw 0 0\n\
/dev/sdd1 /short\n\
/dev/sde1 /mnt/other zfs rw 0 0\n";

#[test]
fn mount_table_lists_real_disks() {
    let drives = detect_drives(MOUNTS, "/home/me");
    let names: Vec<(&str, &str, &str)> =
        drives.iter().map(|d| (d.name.as_str(), d.mount.as_str(), d.test_path.as_str())).collect();
    assert_eq!(
        names,
        vec![
            ("Root", "/", "/home/me"),
            ("data", "/mnt/data", "/mnt/data"),
            ("usb", "/media/usb", "/media/usb"),
        ]
    );
    assert!(drives.iter().all(|d| d.size.is_none()));
}

#[test]
fn empty_mount_table_lists_nothing() {
    assert!(detect_drives("", "/home/me").is_empty());
    assert!(detect_drives("\n\n", "/home/me").is_empty());
}

#[test]
fn last_line_without_newline_is_read() {
    let drives = detect_drives("/dev/sda1 /srv/disk btrfs rw", "/h");
    assert_eq!(drives.len(), 1);
    assert_eq!(drives[0].name, "disk");
}

fn sized(size: Option<u64>) -> Drive {
    Drive { name: String::new(), mount: String::new(), test_path: String::new(), size }
}

#[test]
fn size_units_follow_the_magnitude() {
    assert_eq!(sized(None).size_unit(), None);
    assert_eq!(sized(Some(999_999_999)).size_unit(), Some(SizeUnit::MB));
    assert_eq!(sized(Some(1_000_000_000)).size_unit(), Some(SizeUnit::GB));
    assert_eq!(sized(Some(999_999_999_999)).size_unit(), Some(SizeUnit::GB));
    assert_eq!(sized(Some(1_000_000_000_000)).size_unit(), Some(SizeUnit::TB));
}

#[test]
fn system_and_hidden_volumes_are_not_listed() {
    assert!(is_listed_volume("USB Stick"));
    assert!(is_listed_volume(""));
    assert!(!is_listed_volume("Macintosh HD"));
    assert!(!is_listed_volume("Macintosh HD - Data"));
    assert!(!is_listed_volume("My Macintosh HD"));
    assert!(!is_listed_volume(".timemachine"));
    assert!(is_listed_volume("Macintosh"));
}

#[test]
fn mount_names_follow_path_rules() {
    let table = "/dev/sda1 /mnt/a/.. ext4 rw 0 0\n/dev/sda2 /mnt/b/. ext4 rw 0 0\n/dev/sda3 /srv//c ext4 rw 0 0\n";
    let drives = detect_drives(table, "/h");
    let names: Vec<&str> = drives.iter().map(|d| d.name.as_str()).collect();
    assert_eq!(names, vec!["/mnt/a/..", "b", "c"]);
}

#[test]
fn display_names_fall_back_to_the_path() {
    assert_eq!(path_display_name("/mnt/data"), "data");
    assert_eq!(path_display_name("/"), "/");
    assert_eq!(path_display_name("relative/dir/"), "dir");
    assert_eq!(path_display_name(".."), "..");
    assert_eq!(name_or_path(Some("x".to_string()), "/a/b"), "x");
    assert_eq!(name_or_path(None, "/a/b"), "/a/b");
}

#[test]
fn real_writable_volumes() {
    assert!(is_real_writable("apfs", 0));
    assert!(is_real_writable("exfat", 0x1000));
    assert!(!is_real_writable("apfs", MNT_RDONLY));
    assert!(!is_real_writable("hfs", MNT_DONTBROWSE));
    assert!(!is_real_writable("nfs", 0));
    assert!(!is_real_writable("", 0));
}
