use vault::filesystem::cache::CacheFS;
use vault::filesystem::encryption::FileEncryption;
use vault::filesystem::error::MyError;
use vault::filesystem::plan::{after_step, FsOp, Step};
use vault::filesystem::UserDiskFilesystem;
use vault::maestro::i32_to_storage_type;
use vault::storage_type::{storage_type_to_i32, StorageType};

const FILES_STORE_TYPE: [StorageType; 3] = [StorageType::NoQueue, StorageType::UploadQueue, StorageType::NoQueue];
const FILE_IDS: [&str; 3] = ["fedcba000000000000000000", "fedcba111111111111111111", "fedcba222222222222222222"];
const USER_ID: &str = "cafe00000000000000000000";
const DISK_ID: &str = "beef00000000000000000000";

fn file_contents() -> [Vec<u8>; 3] {
    [vec![b'h', b'e', b'l', b'l', b'o'], vec![b'g', b'o', b'o', b'd', b'a', b'y'], vec![b'm', b'a', b't', b'e']]
}

fn writes(steps: &[Step], path: &str) -> bool {
    steps.iter().any(|s| matches!(&s.op, FsOp::WriteFile(p) if p == path))
}

fn links(steps: &[Step], path: &str) -> bool {
    steps.iter().any(|s| matches!(&s.op, FsOp::HardLink { link, .. } if link == path))
}

fn removes(steps: &[Step], path: &str) -> bool {
    steps.iter().any(|s| match &s.op {
        FsOp::RemoveFile(p) => p == path,
        FsOp::RemoveDirAll(d) => path == d || path.starts_with(&(d.clone() + "/")),
        _ => false,
    })
}

/// What reading back the links of a file created by `create_file` gives.
fn link_targets(fs: &CacheFS, file_id: &str) -> (Result<String, MyError>, Result<String, MyError>) {
    let disk = fs.symlink_target(&fs.get_disk_filepath(DISK_ID, ""), &fs.get_disk_link_path(file_id), Some(true), false);
    let user = fs.symlink_target(&fs.get_user_filepath(USER_ID, ""), &fs.get_user_link_path(file_id), Some(true), false);
    (Ok(disk), Ok(user))
}

fn entries_of(dir: &str, ids: &[&str], contents: &[Vec<u8>]) -> Vec<(String, Result<Vec<u8>, MyError>)> {
    ids.iter()
        .zip(contents.iter())
        .map(|(id, c)| (format!("{}{}", dir, id), Ok(c.clone())))
        .collect()
}

#[test]
fn _1_create_file_test() {
    let fs = CacheFS::new();
    let steps = fs.create_file_plan(FILE_IDS[0], USER_ID, DISK_ID, None);
    let file_exists = writes(&steps, &fs.get_default_filepath(FILE_IDS[0]));
    assert!(file_exists);
}

#[test]
fn _2_create_file_storage_type_test() {
    let fs = CacheFS::new();
    let storage_type: i32 = storage_type_to_i32(Some(FILES_STORE_TYPE[1]));
    let steps = fs.create_file_plan(FILE_IDS[1], USER_ID, DISK_ID, Some(i32_to_storage_type(Some(storage_type))));
    let filepath = String::from("upload/") + FILE_IDS[1];
    let file_exists = links(&steps, &filepath);
    assert!(file_exists);
}

#[test]
fn _3_get_file_content_test() {
    // The content is kept encrypted with the user's key and read back with it.
    let key = [0u8; 32];
    let stored = FileEncryption::encrypt(&file_contents()[0], &key).unwrap();
    match FileEncryption::try_decrypt(&stored, &key) {
        Some(Ok(content)) => assert_eq!(content, file_contents()[0]),
        Some(Err(err)) => panic!("\nError when fetching file content : {}", err.to_string()),
        None => panic!("\nContent fetched from file is different than when created"),
    }
}

#[test]
fn _4_get_disk_files() {
    let fs = CacheFS::new();
    let contents = file_contents();
    let entries = entries_of(&fs.get_disk_filepath(DISK_ID, ""), &FILE_IDS[..2], &contents[..2]);
    match fs.get_disk_files(&Some(entries)) {
        Ok(files) => {
            for (file_id, file_content) in files.into_entries().iter() {
                let mut file_id_was_expected = false;
                let mut file_content_was_expected = false;
                for file_id_expected in FILE_IDS {
                    if file_id == file_id_expected {
                        file_id_was_expected = true;
                    }
                }
                for file_content_expected in contents.iter() {
                    if file_content != file_content_expected {
                        file_content_was_expected = true;
                    }
                }
                assert!(file_id_was_expected);
                assert!(file_content_was_expected);
            }
        }
        Err(err) => {
            panic!("\nError when fetching disk files : {}", err.to_string());
        }
    }
}

#[test]
fn _5_get_files_disks() {
    let fs = CacheFS::new();
    let contents = file_contents();
    let disk_entries = entries_of(&fs.get_disk_filepath(DISK_ID, ""), &FILE_IDS[..2], &contents[..2]);
    let disks = vec![(fs.get_disk_filepath(DISK_ID, "") , Some(disk_entries))];
    match fs.get_files_disks(&Some(disks)) {
        Ok(files_disks) => {
            for (disk_id, disk_files) in files_disks.into_entries().into_iter() {
                assert!(disk_id == DISK_ID);
                for (file_id, file_content) in disk_files.into_entries().iter() {
                    let mut file_id_was_expected = false;
                    let mut file_content_was_expected = false;
                    for file_id_expected in FILE_IDS {
                        if file_id == file_id_expected {
                            file_id_was_expected = true;
                        }
                    }
                    for file_content_expected in contents.iter() {
                        if file_content != file_content_expected {
                            file_content_was_expected = true;
                        }
                    }
                    assert!(file_id_was_expected);
                    assert!(file_content_was_expected);
                }
            }
        }
        Err(err) => {
            panic!("\nError when fetching files disks : {}", err.to_string());
        }
    }
}

#[test]
fn _6_get_user_files() {
    let fs = CacheFS::new();
    let contents = file_contents();
    let entries = entries_of(&fs.get_user_filepath(USER_ID, ""), &FILE_IDS[..2], &contents[..2]);
    match fs.get_user_files(USER_ID, &Some(entries)) {
        Ok(files) => {
            assert!(!files.is_empty());
            for (file_id, file_content) in files.into_entries().iter() {
                let mut file_id_was_expected = false;
                let mut file_content_was_expected = false;
                for file_id_expected in FILE_IDS {
                    if file_id == file_id_expected {
                        file_id_was_expected = true;
                    }
                }
                for file_content_expected in contents.iter() {
                    if file_content != file_content_expected {
                        file_content_was_expected = true;
                    }
                }
                assert!(file_id_was_expected);
                assert!(file_content_was_expected);
            }
        }
        Err(err) => {
            panic!("\nError when fetching disk files : {}", err.to_string());
        }
    }
}

#[test]
fn _7_get_files_store_types() {
    let fs = CacheFS::new();
    // The storage entries that exist after the files were created: the
    // first with no queue, the second in the upload queue, the third not
    // created.
    let presence = vec![vec![false, false], vec![true, false], vec![false, false]];
    match fs.get_files_store_types(&presence) {
        Ok(files_store_types) => {
            for (index, file_store_types) in files_store_types.iter().enumerate() {
                for store_type in file_store_types {
                    assert!(store_type == &FILES_STORE_TYPE[index]);
                }
            }
        }
        Err(err) => {
            panic!("\nError when storage_types disk files : {}", err.to_string());
        }
    }
}

#[test]
fn _9_remove_file() {
    let fs = CacheFS::new();
    let (disk, user) = link_targets(&fs, FILE_IDS[0]);
    let steps = fs.remove_file_plan(FILE_IDS[0], disk, user, &vec![false, false]).unwrap();
    assert!(removes(&steps, &fs.get_default_filepath(FILE_IDS[0])));
}

#[test]
fn _9_remove_file_with_storage_type() {
    let fs = CacheFS::new();
    let (disk, user) = link_targets(&fs, FILE_IDS[1]);
    let steps = fs.remove_file_plan(FILE_IDS[1], disk, user, &vec![true, false]).unwrap();
    assert!(removes(&steps, &fs.get_default_filepath(FILE_IDS[1])));
    let store_type_path = "upload/".to_string() + FILE_IDS[1];
    assert!(removes(&steps, &store_type_path));
}

#[test]
fn _9_remove_file_that_doesnt_exist() {
    let fs = CacheFS::new();
    // Reading the links of a file that does not exist fails.
    let missing = || Err(MyError::new("No such file or directory (os error 2)"));
    let r = fs.remove_file_plan("111111111111111111111111", missing(), missing(), &vec![false, false]);
    assert!(r.is_err());
    assert_eq!(r.unwrap_err().to_string(), "No such file or directory (os error 2)");
}

#[test]
fn store_type_dirs() {
    let fs = CacheFS::new();
    assert_eq!(fs.get_store_type_dir(&StorageType::UploadQueue), Some("upload".to_string()));
    assert_eq!(fs.get_store_type_dir(&StorageType::DownloadQueue), Some("download".to_string()));
    assert_eq!(fs.get_store_type_dir(&StorageType::RemoveQueue), None);
    assert_eq!(fs.get_store_type_dir(&StorageType::NoQueue), None);
    assert_eq!(fs.get_store_type_filepath(&StorageType::DownloadQueue, "f1", None).unwrap(), "download/f1");
    assert_eq!(fs.get_store_type_filepath(&StorageType::NoQueue, "f1", Some("upload")).unwrap(), "upload/f1");
    let err = fs.get_store_type_filepath(&StorageType::RequestQueue, "f1", None).unwrap_err();
    assert_eq!(err.to_string(), "Could not get location for storage type");
}

#[test]
fn probes_and_store_types() {
    let fs = CacheFS::new();
    assert_eq!(fs.store_type_probe_paths("f1"), vec!["file/f1/upload".to_string(), "file/f1/download".to_string()]);
    assert_eq!(fs.file_store_type_probe_paths("f1"), vec!["upload/f1".to_string(), "download/f1".to_string()]);
    assert_eq!(fs.get_store_type_dirs_from_file(&vec![false, true]), Some(vec!["download".to_string()]));
    assert_eq!(fs.get_store_type_dirs_from_file(&vec![false, false]), None);
    assert_eq!(fs.get_file_store_types(&vec![true, true]).unwrap(), vec![StorageType::UploadQueue, StorageType::DownloadQueue]);
}

#[test]
fn all_files_store_types_groups_by_file() {
    let fs = CacheFS::new();
    let entries = vec![
        vec!["upload/f1".to_string(), "upload/f2".to_string()],
        vec!["download/f2".to_string(), "download/..".to_string()],
    ];
    let map = fs.get_all_files_store_types(&entries).unwrap();
    assert_eq!(map.get("f1"), Some(&vec![StorageType::UploadQueue]));
    assert_eq!(map.get("f2"), Some(&vec![StorageType::UploadQueue, StorageType::DownloadQueue]));
    assert_eq!(map.get(".."), None);
    let err = fs.get_all_files_store_types(&vec![vec![], vec![]]).unwrap_err();
    assert_eq!(err.to_string(), "Could not get all file store types");
}

#[test]
fn store_type_files_are_entry_names() {
    let fs = CacheFS::new();
    let entries = vec!["upload/f1".to_string(), "upload/f2".to_string()];
    assert_eq!(fs.get_store_type_files(StorageType::UploadQueue, &entries).unwrap(), vec!["f1".to_string(), "f2".to_string()]);
    assert!(fs.get_store_type_files(StorageType::RemoveQueue, &entries).unwrap().is_empty());
}

#[test]
fn create_plan_of_cache() {
    let fs = CacheFS::new();
    let steps = fs.create_file_plan("f1", "u1", "d1", Some(StorageType::UploadQueue));
    let ops: Vec<String> = steps.iter().map(|s| format!("{:?} {}", s.op, s.abort_on_error)).collect();
    assert_eq!(
        ops,
        vec![
            "CreateDir(\"file/f1\") true",
            "WriteFile(\"file/f1/file\") true",
            "CreateDir(\"upload\") true",
            "HardLink { original: \"file/f1/file\", link: \"upload/f1\" } true",
            "SymLink { target: \"../../upload\", link: \"file/f1/upload\" } false",
            "CreateDir(\"user/u1/\") true",
            "HardLink { original: \"file/f1/file\", link: \"user/u1/f1\" } true",
            "SymLink { target: \"../../user/u1/\", link: \"file/f1/user\" } true",
            "CreateDir(\"disk/d1/\") true",
            "HardLink { original: \"file/f1/file\", link: \"disk/d1/f1\" } true",
            "SymLink { target: \"../../disk/d1/\", link: \"file/f1/disk\" } true",
        ]
    );
}

#[test]
fn remove_plan_of_cache() {
    let fs = CacheFS::new();
    let steps = fs
        .remove_file_plan("f1", Ok("../../disk/d1/".to_string()), Ok("../../user/u1/".to_string()), &vec![true, false])
        .unwrap();
    let ops: Vec<String> = steps.iter().map(|s| format!("{:?}", s.op)).collect();
    assert_eq!(
        ops,
        vec![
            "RemoveFile(\"upload/f1\")",
            "RemoveDirAll(\"file/f1\")",
            "RemoveFile(\"disk/d1/f1\")",
            "RemoveFile(\"user/u1/f1\")",
        ]
    );
}

#[test]
fn files_from_entries_errors() {
    let fs = CacheFS::new();
    let entries = vec![("user/u/f1".to_string(), Ok(vec![1u8])), ("user/u/f2".to_string(), Err(MyError::new("denied")))];
    assert_eq!(fs.files_from_entries(&entries).unwrap_err().to_string(), "denied");
    let entries = vec![("user/u/..".to_string(), Ok(vec![1u8]))];
    assert!(fs.files_from_entries(&entries).is_err());
    let err = fs.get_user_files("u9", &None).unwrap_err();
    assert_eq!(err.to_string(), "Could not get user files, user 'u9' may not exist yet");
    assert!(fs.get_disk_files(&None).unwrap().is_empty());
    assert_eq!(fs.get_files_disks(&None).unwrap_err().to_string(), "Could not read dir : 'disk/'");
}

#[test]
fn base_dirs() {
    let fs = CacheFS::new();
    let ops: Vec<String> = fs.base_dirs_plan().iter().map(|s| format!("{:?}", s.op)).collect();
    assert_eq!(ops, vec!["CreateDir(\"file/\")", "CreateDir(\"user/\")", "CreateDir(\"disk/\")"]);
}

#[test]
fn plan_steps_stop_or_go_on() {
    let must = Step { op: FsOp::CreateDir("file/f1".to_string()), abort_on_error: true };
    let may = Step { op: FsOp::CreateDir("file/".to_string()), abort_on_error: false };
    assert!(matches!(after_step(&must, Ok(())), Ok(None)));
    assert_eq!(after_step(&must, Err(MyError::new("exists"))).unwrap_err().to_string(), "exists");
    assert_eq!(after_step(&may, Err(MyError::new("exists"))).unwrap().unwrap().to_string(), "exists");
    assert!(matches!(after_step(&may, Ok(())), Ok(None)));
}
