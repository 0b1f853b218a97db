use vault::filesystem::cache::CacheFS;
use vault::filesystem::UserDiskFilesystem;

#[test]
fn _0_count_directories_0() {
    let fs = CacheFS::new();
    let path = "path/to/file";
    let expected_dir_num = 2;
    let dir_num = fs.count_directories(path, Some(true), false);
    assert!(expected_dir_num == dir_num);
}

#[test]
fn _0_count_directories_1() {
    let fs = CacheFS::new();
    let path = "path/to/dir";
    let expected_dir_num = 3;
    let dir_num = fs.count_directories(path, Some(false), false);
    assert!(expected_dir_num == dir_num);
}

#[test]
fn _0_count_directories_2() {
    let fs = CacheFS::new();
    let path = "dirpath";
    let expected_dir_num = 1;
    let dir_num = fs.count_directories(path, Some(false), false);
    assert!(expected_dir_num == dir_num);
}

#[test]
fn _0_count_directories_3() {
    let fs = CacheFS::new();
    let path = "filepath";
    let expected_dir_num = 0;
    let dir_num = fs.count_directories(path, Some(true), false);
    assert!(expected_dir_num == dir_num);
}

#[test]
fn count_directories_of_an_existing_file() {
    let fs = CacheFS::new();
    assert_eq!(fs.count_directories("path/to/file", None, true), 2);
    assert_eq!(fs.count_directories("path/to/file", None, false), 3);
}

#[test]
fn count_directories_normalizes_the_path() {
    let fs = CacheFS::new();
    assert_eq!(fs.count_directories("./a//b/./c/", Some(false), false), 3);
    assert_eq!(fs.count_directories("/a/../b", Some(false), false), 2);
    assert_eq!(fs.count_directories("", Some(true), false), 0);
}

#[test]
fn symlink_target_climbs_to_home() {
    let fs = CacheFS::new();
    let target = fs.symlink_target("user/cafe00000000000000000000/", "file/fedcba/user", Some(true), false);
    assert_eq!(target, "../../user/cafe00000000000000000000/");
}

#[test]
fn file_id_of_paths() {
    let fs = CacheFS::new();
    assert_eq!(fs.get_fileid_from_path("user/u1/f1").unwrap(), "f1");
    assert_eq!(fs.get_fileid_from_path("disk/d1/f2/").unwrap(), "f2");
    assert_eq!(fs.get_fileid_from_path("a/b/.").unwrap(), "b");
    let err = fs.get_fileid_from_path("a/..").unwrap_err();
    assert_eq!(err.to_string(), "Could not get original filepath from symbolic link path");
    assert!(fs.get_fileid_from_path("/").is_err());
}

#[test]
fn layout_paths() {
    let fs = CacheFS::new();
    assert_eq!(fs.get_default_dirpath("f1"), "file/f1");
    assert_eq!(fs.get_default_filepath("f1"), "file/f1/file");
    assert_eq!(fs.get_disk_filepath("d1", "f1"), "disk/d1/f1");
    assert_eq!(fs.get_disk_filepath("", "f1"), "disk/");
    assert_eq!(fs.get_user_filepath("u1", ""), "user/u1/");
    assert_eq!(fs.get_user_filepath("", ""), "user/");
    assert_eq!(fs.get_disk_link_path("f1"), "file/f1/disk");
    assert_eq!(fs.get_user_link_path("f1"), "file/f1/user");
    assert_eq!(fs.get_home_dir(), "cache_fs");
}

#[test]
fn home_dir_detection() {
    let fs = CacheFS::new();
    assert!(fs.is_home_dir_path("/srv/cache_fs"));
    assert!(fs.is_home_dir_path("/srv/cache_fs/"));
    assert!(!fs.is_home_dir_path("/srv/vault_fs"));
    assert!(!fs.is_home_dir_path("/"));
}

#[test]
fn links_give_the_ids_back() {
    let fs = CacheFS::new();
    let user_target = fs.symlink_target(&fs.get_user_filepath("u7", ""), &fs.get_user_link_path("f7"), Some(true), false);
    let disk_target = fs.symlink_target(&fs.get_disk_filepath("d7", ""), &fs.get_disk_link_path("f7"), Some(true), false);
    assert_eq!(fs.get_file_user_from_link(Ok(user_target)).unwrap(), "u7");
    assert_eq!(fs.get_file_disk_from_link(Ok(disk_target)).unwrap(), "d7");
    let err = fs.get_file_disk_from_link(Ok("..".to_string())).unwrap_err();
    assert_eq!(err.to_string(), "disk path doesn't exist");
    let err = fs.get_file_user_from_link(Ok("/".to_string())).unwrap_err();
    assert_eq!(err.to_string(), "user path doesn't exist");
}
