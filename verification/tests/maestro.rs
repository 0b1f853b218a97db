use vault::filesystem::disks::CurrentDisks;
use vault::filesystem::encryption::FileEncryption;
use vault::filesystem::Filesystem;
use vault::filesystem::error::MyError;
use vault::filesystem::strmap::StrMap;
use vault::maestro::{all_disk_file_ids, common_file_ids, file_meta_info, files_meta_info, filter_common_entries, i32_to_storage_type, meta_info_candidates, storage_type_to_i32, store_type_codes, MaestroVault};
use vault::maestro_direct;
use vault::maestro_syscalls_old_version;
use vault::models::object_id::parse_object_id;
use vault::models::users_disks::{DiskAction, PeriodInfo};
use vault::stats::users_disks::{action_code, disk_log_records};
use vault::storage_type::StorageType;

fn strings(v: &[&str]) -> Vec<String> {
    v.iter().map(|s| s.to_string()).collect()
}

#[test]
fn storage_type_codes() {
    assert_eq!(i32_to_storage_type(Some(0)), StorageType::NoQueue);
    assert_eq!(i32_to_storage_type(Some(1)), StorageType::UploadQueue);
    assert_eq!(i32_to_storage_type(Some(2)), StorageType::DownloadQueue);
    assert_eq!(i32_to_storage_type(Some(3)), StorageType::RemoveQueue);
    assert_eq!(i32_to_storage_type(Some(4)), StorageType::RequestQueue);
    assert_eq!(i32_to_storage_type(Some(5)), StorageType::NoQueue);
    assert_eq!(i32_to_storage_type(Some(-1)), StorageType::NoQueue);
    assert_eq!(i32_to_storage_type(None), StorageType::NoQueue);
    assert_eq!(storage_type_to_i32(Some(StorageType::RequestQueue)), 4);
    assert_eq!(storage_type_to_i32(None), 0);
    for n in 0..5 {
        assert_eq!(storage_type_to_i32(Some(i32_to_storage_type(Some(n)))), n);
    }
    assert_eq!(store_type_codes(&vec![StorageType::DownloadQueue, StorageType::UploadQueue]), vec![2, 1]);
}

#[test]
fn common_entries_keep_first_order() {
    let a = strings(&["f3", "f1", "f2", "f1"]);
    let b = strings(&["f1", "f3"]);
    assert_eq!(filter_common_entries(&a, &b), strings(&["f3", "f1", "f1"]));
    let files = vec![a, b, strings(&["f1"])];
    assert_eq!(common_file_ids(&files), strings(&["f1", "f1"]));
    assert_eq!(common_file_ids(&vec![strings(&["x", "y"])]), strings(&["x", "y"]));
}

#[test]
fn maestro_vault_selects_its_filesystem() {
    let v = MaestroVault::new("vault-cache", CurrentDisks::new(vec![], vec![]));
    assert!(matches!(v.filesystem, Filesystem::Cache(_)));
    let v = MaestroVault::new("vault", CurrentDisks::new(vec![], vec![]));
    assert!(matches!(v.filesystem, Filesystem::Vault(_)));
}

#[test]
fn log_records_of_an_action() {
    let v = MaestroVault::new("vault", CurrentDisks::new(vec![], vec![]));
    let (update, info) = v.update_logs(
        "655ceb05ee2884fd5e168721",
        "655ceb05ee2884fd5e16872a",
        "655ceb05ee2884fd5e16872B",
        DiskAction::CREATE,
    );
    assert_eq!(update.file_id, [0x65, 0x5c, 0xeb, 0x05, 0xee, 0x28, 0x84, 0xfd, 0x5e, 0x16, 0x87, 0x21]);
    assert_eq!(update.disk_id.unwrap()[11], 0x2b);
    assert_eq!(info.user_id.unwrap()[11], 0x2a);
    assert_eq!(update.action, DiskAction::CREATE);
    assert!(disk_log_records(None, None, "not an id", DiskAction::READ).is_none());
    let (u, i) = disk_log_records(None, Some("655ceb05ee2884fd5e16872a"), "655ceb05ee2884fd5e168721", DiskAction::READ).unwrap();
    assert!(u.disk_id.is_none());
    assert!(i.user_id.is_some());
}

#[test]
fn object_ids() {
    assert!(parse_object_id("655ceb05ee2884fd5e16872").is_none());
    assert!(parse_object_id("655ceb05ee2884fd5e16872g").is_none());
    assert_eq!(parse_object_id("000000000000000000000001"), Some([0, 0, 0, 0, 0, 0, 0, 0, 0, 0, 0, 1]));
}

#[test]
fn action_codes() {
    assert_eq!(action_code(DiskAction::READ), "r");
    assert_eq!(action_code(DiskAction::WRITE), "w");
    assert_eq!(action_code(DiskAction::CREATE), "c");
    assert_eq!(action_code(DiskAction::DELETE), "d");
}

#[test]
fn period_info() {
    assert_eq!(PeriodInfo::new(42).get_consumption(), 42);
}

#[test]
fn direct_and_old_services() {
    let v = maestro_direct::MaestroVault::new();
    assert_eq!(v.user_file_path("u1", "f1"), "u1/f1");
    let old = maestro_syscalls_old_version::MaestroVault::default();
    assert_eq!(old.fake_item, "");
}

#[test]
fn encryption_round_trip() {
    let key = [7u8; 32];
    let encrypted = FileEncryption::encrypt(b"hello", &key).unwrap();
    assert!(encrypted.starts_with(b"age-encryption.org/v1"));
    assert_ne!(encrypted, b"hello".to_vec());
    // What was encrypted with a key is read back with the same key.
    let decrypted = FileEncryption::try_decrypt(&encrypted, &key);
    assert_eq!(decrypted.unwrap().unwrap(), b"hello".to_vec());
    assert_eq!(FileEncryption::decrypt(&encrypted, &key).unwrap(), b"hello".to_vec());
    // Another key is no recipient of the file.
    let other = FileEncryption::try_decrypt(&encrypted, &[8u8; 32]);
    assert!(matches!(other, Some(Err(_))));
    assert!(FileEncryption::try_decrypt(b"not an age file", &key).is_none());
}

#[test]
fn encryption_of_empty_content() {
    let key = [0u8; 32];
    let encrypted = FileEncryption::encrypt(b"", &key).unwrap();
    assert_eq!(FileEncryption::decrypt(&encrypted, &key).unwrap(), Vec::<u8>::new());
}

fn listed(ids: &[&str]) -> Result<Vec<String>, MyError> {
    Ok(strings(ids))
}

#[test]
fn meta_info_candidates_of_listings() {
    let lists = vec![listed(&["a", "b", "c"]), listed(&["c", "a"]), listed(&["a", "c", "d"])];
    assert_eq!(meta_info_candidates(&lists, &None).unwrap(), strings(&["a", "c"]));
    let lists = vec![listed(&["a"]), Err(MyError::new("Could not read dir : 'user/u/'")), Err(MyError::new("second"))];
    assert_eq!(meta_info_candidates(&lists, &None).unwrap_err().to_string(), "Could not read dir : 'user/u/'");
}

#[test]
fn meta_info_candidates_without_filter() {
    let mut disk1: StrMap<Vec<u8>> = StrMap::new();
    disk1.insert("f1".to_string(), vec![1]);
    disk1.insert("f2".to_string(), vec![2]);
    let mut disk2: StrMap<Vec<u8>> = StrMap::new();
    disk2.insert("f3".to_string(), vec![3]);
    disk2.insert("f1".to_string(), vec![1]);
    let mut disks: StrMap<StrMap<Vec<u8>>> = StrMap::new();
    disks.insert("d1".to_string(), disk1);
    disks.insert("d2".to_string(), disk2);
    let ids = meta_info_candidates(&vec![], &Some(Ok(disks))).unwrap();
    assert_eq!(ids, strings(&["f1", "f2", "f3"]));
    let none = meta_info_candidates(&vec![], &Some(Ok(StrMap::new()))).unwrap();
    assert!(none.is_empty());
    let failed = meta_info_candidates(&vec![], &Some(Err(MyError::new("Could not read dir : 'disk/'"))));
    assert_eq!(failed.unwrap_err().to_string(), "Could not read dir : 'disk/'");
}

#[test]
fn all_disk_file_ids_once_each() {
    let mut disk: StrMap<Vec<u8>> = StrMap::new();
    disk.insert("x".to_string(), vec![]);
    disk.insert("x".to_string(), vec![1]);
    let mut disks: StrMap<StrMap<Vec<u8>>> = StrMap::new();
    disks.insert("d".to_string(), disk);
    assert_eq!(all_disk_file_ids(&disks), strings(&["x"]));
}

#[test]
fn files_meta_info_skips_failed_lookups() {
    let ids = strings(&["f1", "f2", "f3"]);
    let lookups = vec![
        Ok(("u1".to_string(), "d1".to_string(), vec![StorageType::UploadQueue])),
        Err(MyError::new("no user link")),
        Ok(("u3".to_string(), "d3".to_string(), vec![])),
    ];
    let metas = files_meta_info(&ids, &lookups);
    assert_eq!(metas.len(), 2);
    assert_eq!(metas[0], ("f1".to_string(), "u1".to_string(), "d1".to_string(), vec![storage_type_to_i32(Some(StorageType::UploadQueue))]));
    assert_eq!(metas[1], ("f3".to_string(), "u3".to_string(), "d3".to_string(), vec![]));
}

#[test]
fn file_meta_info_first_failed_lookup() {
    let ok = |s: &str| -> Result<String, MyError> { Ok(s.to_string()) };
    let meta = file_meta_info("f1", ok("d1"), ok("u1"), Ok(vec![StorageType::UploadQueue])).unwrap();
    assert_eq!(meta, ("f1".to_string(), "u1".to_string(), "d1".to_string(), vec![storage_type_to_i32(Some(StorageType::UploadQueue))]));
    let err = file_meta_info("f1", Err(MyError::new("no disk link")), Err(MyError::new("no user link")), Ok(vec![]));
    assert_eq!(err.unwrap_err().to_string(), "no disk link");
    let err = file_meta_info("f1", ok("d1"), Err(MyError::new("no user link")), Err(MyError::new("no queues")));
    assert_eq!(err.unwrap_err().to_string(), "no user link");
    let err = file_meta_info("f1", ok("d1"), ok("u1"), Err(MyError::new("no queues")));
    assert_eq!(err.unwrap_err().to_string(), "no queues");
}

#[test]
fn encryption_with_another_key_fails() {
    let encrypted = FileEncryption::encrypt(&[1, 2, 3], &[1u8; 32]).unwrap();
    assert!(FileEncryption::decrypt(&encrypted, &[2u8; 32]).is_err());
    assert_eq!(FileEncryption::decrypt(&encrypted, &[1u8; 32]).unwrap(), vec![1, 2, 3]);
}
