use vault::filesystem::disks::CurrentDisks;
use vault::filesystem::plan::require_home_dir;
use vault::filesystem::{select_filesystem, Filesystem};

#[test]
fn _0_select_filesystem_default() {
    let fs = select_filesystem("", CurrentDisks::new(vec![], vec![]));
    assert!(matches!(fs, Filesystem::Vault(_)));
}

#[test]
fn _0_select_filesystem_vault() {
    let fs = select_filesystem("vault", CurrentDisks::new(vec![], vec![]));
    assert!(matches!(fs, Filesystem::Vault(_)));
}

#[test]
fn _0_select_filesystem_cache() {
    let fs = select_filesystem("cache", CurrentDisks::new(vec![], vec![]));
    assert!(matches!(fs, Filesystem::Cache(_)));
}

#[test]
fn select_filesystem_vault_cache() {
    let fs = select_filesystem("vault-cache", CurrentDisks::new(vec![], vec![]));
    assert!(matches!(fs, Filesystem::Cache(_)));
}

#[test]
fn files_are_created_from_home_dir_only() {
    assert!(require_home_dir(true).is_ok());
    assert_eq!(
        require_home_dir(false).unwrap_err().to_string(),
        "Current directory should be home directory of the filesystem"
    );
}
