use vault::filesystem::disks::{uuid_link_device_path, uuid_of_link_path, AvailableDisk, CurrentDisks, DiskKind, DiskUuid, SystemDisk};

fn system_disk(fs: &str, name: &str, mount: &str, total: u64, available: u64) -> SystemDisk {
    SystemDisk {
        file_system: fs.as_bytes().to_vec(),
        name: Some(name.to_string()),
        mount_point: Some(mount.to_string()),
        kind: DiskKind::SSD,
        total_space: total,
        available_space: available,
    }
}

/// A machine with a root disk, a data disk, and disks that cannot take files.
fn machine() -> CurrentDisks {
    let disks = vec![
        system_disk("ext4", "/dev/sda1", "/", 500_000_000_000, 100_000_000_000),
        system_disk("vfat", "/dev/sda2", "/boot/efi", 500_000_000, 400_000_000),
        system_disk("ext4", "/dev/sdb1", "/mnt/data", 1_000_000_000_000, 600_000_000_000),
        system_disk("ext4", "/dev/loop0", "/snap/core", 0, 0),
    ];
    let uuids = vec![
        DiskUuid { device_name: "/dev/sda1".to_string(), uuid: "0f3e2a51-aaaa".to_string() },
        DiskUuid { device_name: "/dev/sda2".to_string(), uuid: "7C1D-22F0".to_string() },
        DiskUuid { device_name: "/dev/sdb1".to_string(), uuid: "9b8c7d6e-bbbb".to_string() },
    ];
    CurrentDisks::new(disks, uuids)
}

#[test]
fn get_disks_test() {
    let disks: Vec<AvailableDisk> = machine().get_disks();

    assert_ne!(disks.len(), 0);
    for disk in disks {
        assert_ne!(disk.available_space, 0);
        assert_ne!(disk.total_space, 0);
        assert_ne!(disk.uid, String::new());
        assert_ne!(disk.device_name, String::new());
    }
}

#[test]
fn get_compatible_disks_test() {
    let disks: Vec<AvailableDisk> = machine().get_compatible_disks();

    assert_ne!(disks.len(), 0);
    for disk in disks {
        assert_ne!(disk.available_space, 0);
        assert_ne!(disk.total_space, 0);
        assert_eq!(disk.uid, String::new());
        assert_ne!(disk.device_name, String::new());
    }
}

#[test]
fn select_disk_for_file_test() {
    let file_sizes: [u64; 7] = [2, 10, 100, 1000, 10000, 100000, 1000000];
    let current = machine();

    for file_size in file_sizes {
        match current.select_disk_for_file(file_size) {
            Ok(disk) => {
                assert_ne!(disk.available_space, 0);
                assert_ne!(disk.total_space, 0);
                assert_ne!(disk.uid, String::new());
                assert_ne!(disk.device_name, String::new());
            }
            Err(r) => {
                panic!("Error: {}", r.to_string());
            }
        }
    }
}

#[test]
fn select_disk_for_file_too_big_returns_error_test() {
    let file_size: u64 = u64::MAX;

    match machine().select_disk_for_file(file_size) {
        Ok(_) => {
            assert!(false);
        }
        Err(r) => {
            assert_eq!(r.to_string(), "Could not find disk with sufficient size");
        }
    }
}

#[test]
fn compatible_disks_keep_only_ext4_disks_with_space() {
    let disks = machine().get_compatible_disks();
    let names: Vec<&str> = disks.iter().map(|d| d.device_name.as_str()).collect();
    assert_eq!(names, vec!["/dev/sda1", "/dev/sdb1"]);
    assert_eq!(disks[1].mount_point, "/mnt/data");
}

#[test]
fn root_mount_replaces_other_mount_of_same_device() {
    let current = CurrentDisks::new(
        vec![
            system_disk("ext4", "/dev/sda1", "/var/lib/docker", 100, 50),
            system_disk("ext4", "/dev/sda1", "/", 100, 50),
            system_disk("ext4", "/dev/sda1", "/home", 100, 50),
        ],
        vec![],
    );
    let mounts: Vec<String> = current.get_compatible_disks().into_iter().map(|d| d.mount_point).collect();
    assert_eq!(mounts, vec!["/".to_string(), "/home".to_string()]);
}

#[test]
fn unnamed_disks_are_skipped() {
    let mut d = system_disk("ext4", "x", "/", 10, 10);
    d.name = None;
    let current = CurrentDisks::new(vec![d], vec![]);
    assert!(current.get_compatible_disks().is_empty());
}

#[test]
fn disks_get_the_uuid_of_their_device() {
    let disks = machine().get_disks();
    assert_eq!(disks[0].uid, "0f3e2a51-aaaa");
    assert_eq!(disks[1].uid, "9b8c7d6e-bbbb");
}

#[test]
fn selected_disk_has_most_space() {
    let disk = machine().select_disk_for_file(10).unwrap();
    assert_eq!(disk.device_name, "/dev/sdb1");
    // A file as big as the free space of the biggest disk fits on no disk.
    let err = machine().select_disk_for_file(600_000_000_000).unwrap_err();
    assert_eq!(err.to_string(), "Could not find disk with sufficient size");
    let disk = machine().select_disk_for_file(599_999_999_999).unwrap();
    assert_eq!(disk.device_name, "/dev/sdb1");
}

#[test]
fn first_of_equal_disks_is_selected() {
    let current = CurrentDisks::new(
        vec![
            system_disk("ext4", "/dev/a", "/a", 100, 70),
            system_disk("ext4", "/dev/b", "/b", 100, 70),
        ],
        vec![],
    );
    assert_eq!(current.select_disk_for_file(1).unwrap().device_name, "/dev/a");
    assert!(current.select_disk_for_file(70).is_err());
}

#[test]
fn uuid_links() {
    assert_eq!(uuid_link_device_path("../../sda1"), "/dev/disk/by-uuid/../../sda1");
    assert_eq!(uuid_of_link_path("/dev/disk/by-uuid/0f3e2a51").unwrap(), "0f3e2a51");
    assert_eq!(uuid_of_link_path("/").unwrap_err().to_string(), "Could not get uuid from device disk path");
}
