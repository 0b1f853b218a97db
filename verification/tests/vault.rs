use vault::filesystem::disks::{CurrentDisks, DiskKind, SystemDisk};
use vault::filesystem::encryption::FileEncryption;
use vault::filesystem::error::MyError;
use vault::filesystem::plan::{FsOp, Step};
use vault::filesystem::vault::VaultFS;
use vault::filesystem::UserDiskFilesystem;

const FILE_IDS: [&str; 3] = ["fedcba000000000000000000", "fedcba111111111111111111", "fedcba222222222222222222"];
const USER_ID: &str = "cafe00000000000000000000";
const DISK_ID: &str = "beef00000000000000000000";

fn vault_fs() -> VaultFS {
    VaultFS::new(CurrentDisks::new(vec![], vec![]))
}

fn writes(steps: &[Step], path: &str) -> bool {
    steps.iter().any(|s| matches!(&s.op, FsOp::WriteFile(p) if p == path))
}

fn removes(steps: &[Step], path: &str) -> bool {
    steps.iter().any(|s| match &s.op {
        FsOp::RemoveFile(p) => p == path,
        FsOp::RemoveDirAll(d) => path == d || path.starts_with(&(d.clone() + "/")),
        _ => false,
    })
}

#[test]
fn _01_create_file_test() {
    let fs = vault_fs();
    let content: Vec<u8> = vec![1, 2, 3, 4, 5];
    let disk = fs.disk_for_file(content.len() as u64);
    assert!(fs.mount_filepath(&disk, FILE_IDS[0]).is_none());
    let filepath = fs.get_default_filepath(FILE_IDS[0]);
    let steps = fs.create_file_plan(FILE_IDS[0], USER_ID, DISK_ID, &filepath);
    let file_exists = writes(&steps, &fs.get_default_filepath(FILE_IDS[0]));
    assert!(file_exists);
}

#[test]
fn _09_remove_file_test() {
    let fs = vault_fs();
    let disk = fs.symlink_target(&fs.get_disk_filepath(DISK_ID, ""), &fs.get_disk_link_path(FILE_IDS[0]), Some(true), false);
    let user = fs.symlink_target(&fs.get_user_filepath(USER_ID, ""), &fs.get_user_link_path(FILE_IDS[0]), Some(true), false);
    let steps = fs.remove_file_plan(FILE_IDS[0], Ok(disk), Ok(user)).unwrap();
    assert!(removes(&steps, &fs.get_default_filepath(FILE_IDS[0])));
}

#[test]
fn _02_get_file_content_test() {
    // The content is kept encrypted with the user's key and read back with it.
    let expected_content: Vec<u8> = vec![1, 2, 3, 4, 5];
    let key = [0u8; 32];
    let stored = FileEncryption::encrypt(&expected_content, &key).unwrap();
    match FileEncryption::try_decrypt(&stored, &key) {
        Some(Ok(content)) => assert_eq!(content, expected_content),
        Some(Err(err)) => panic!("\nError when fetching file content : {}", err.to_string()),
        None => panic!("\nContent fetched from file is different than when created"),
    }
}

#[test]
fn _10_remove_non_existing_user() {
    let fs = vault_fs();
    let non_existing_user_id = "000000000000000000000000";
    assert_eq!(fs.get_user_filepath(non_existing_user_id, ""), "user/000000000000000000000000/");
    // The directory of the user cannot be read: removing the user fails.
    let listing = fs.get_user_files(non_existing_user_id, &None);
    let removal = fs.remove_user(non_existing_user_id, listing);
    assert_eq!(removal.unwrap_err().to_string(), "Could not get user files, user '000000000000000000000000' may not exist yet");
}

#[test]
fn _11_remove_user() {
    let fs = vault_fs();
    let entries = vec![(fs.get_user_filepath(USER_ID, FILE_IDS[0]), Ok(vec![1u8, 2, 3, 4, 5]))];
    let listing = fs.get_user_files(USER_ID, &Some(entries));
    match fs.remove_user(USER_ID, listing) {
        Ok((ids, user_dir)) => {
            assert_eq!(ids, vec![FILE_IDS[0].to_string()]);
            // The user's directory is removed last.
            assert_eq!(user_dir, fs.get_user_filepath(USER_ID, ""));
            assert_eq!(user_dir, "user/cafe00000000000000000000/");
        }
        Err(err) => panic!("\nError when removing user : {}", err.to_string()),
    }
}

#[test]
fn vault__12_remove_already_removed_user_test() {
    let fs = vault_fs();
    // Once removed, the user's directory cannot be read: removing again fails.
    let listing = fs.get_user_files(USER_ID, &None);
    assert!(fs.remove_user(USER_ID, listing).is_err());
}

#[test]
fn vault_files_disks() {
    let fs = vault_fs();
    let content: Vec<u8> = vec![1, 2, 3, 4, 5];
    let disk_dir = fs.get_disk_filepath(DISK_ID, "");
    let disk_entries = vec![(fs.get_disk_filepath(DISK_ID, FILE_IDS[0]), Ok(content.clone()))];
    let files_disks = fs.get_files_disks(&Some(vec![(disk_dir, Some(disk_entries))])).unwrap();
    let disk = files_disks.get(DISK_ID).unwrap();
    assert_eq!(disk.get(FILE_IDS[0]).unwrap(), &content);
    assert!(fs.get_files_disks(&Some(vec![])).unwrap().is_empty());
    assert_eq!(fs.get_files_disks(&None).unwrap_err().to_string(), "Could not read dir : 'disk/'");
}

#[test]
fn vault_writes_on_other_disk_then_links() {
    let disks = CurrentDisks::new(
        vec![SystemDisk {
            file_system: b"ext4".to_vec(),
            name: Some("/dev/sdb1".to_string()),
            mount_point: Some("/mnt/data/".to_string()),
            kind: DiskKind::HDD,
            total_space: 1000,
            available_space: 900,
        }],
        vec![],
    );
    let fs = VaultFS::new(disks);
    let disk = fs.disk_for_file(5);
    assert_eq!(disk.mount_point, "/mnt/data/");
    let actual = fs.mount_filepath(&disk, "f1").unwrap();
    assert_eq!(actual, "/mnt/data/file/f1/file");
    let steps = fs.create_file_plan("f1", "u1", "d1", &actual);
    let ops: Vec<String> = steps.iter().take(2).map(|s| format!("{:?}", s.op)).collect();
    assert_eq!(ops, vec!["CreateDir(\"file/f1\")", "HardLink { original: \"/mnt/data/file/f1/file\", link: \"file/f1/file\" }"]);
    let too_big = fs.disk_for_file(900);
    assert_eq!(too_big.mount_point, "/");
    let mount_ops: Vec<String> = fs.mount_dirs_plan().iter().map(|s| format!("{:?} {}", s.op, s.abort_on_error)).collect();
    assert_eq!(mount_ops, vec!["CreateDir(\"/mnt/data/file/\") false"]);
}

#[test]
fn vault_has_no_storage_queues() {
    let fs = vault_fs();
    assert_eq!(fs.get_home_dir(), "vault_fs");
    assert_eq!(fs.get_all_files_store_types().unwrap_err().to_string(), "Could not get file store types : method not implemented for vault");
    assert_eq!(fs.get_file_store_types("f").unwrap_err().to_string(), "Could not get file store type : method not implemented for vault");
}

#[test]
fn vault_remove_reports_link_errors() {
    let fs = vault_fs();
    let r = fs.remove_file_plan("f1", Ok("../../disk/d1/".to_string()), Err(MyError::new("no user link")));
    assert_eq!(r.unwrap_err().to_string(), "no user link");
}
