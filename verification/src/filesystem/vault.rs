use vstd::prelude::*;
use crate::filesystem::disks::AvailableDisk;
use crate::filesystem::disks::AvailableDiskView;
use crate::filesystem::disks::CurrentDisks;
use crate::filesystem::disks::DiskKind;
use crate::filesystem::disks::compatible_disks;
use crate::filesystem::disks::has_room;
use crate::filesystem::disks::root_mount;
use crate::filesystem::disks::with_uuids;
use crate::filesystem::error::MyError;
use crate::filesystem::UserDiskFilesystem;
use crate::filesystem::concat_str;
use crate::filesystem::default_dirpath;
use crate::filesystem::default_filepath;
use crate::filesystem::disk_filepath;
use crate::filesystem::disk_link_path;
use crate::filesystem::disk_missing_message;
use crate::filesystem::file_root;
use crate::filesystem::id_of_link;
use crate::filesystem::law_links_give_ids_back;
use crate::filesystem::lemma_owner_removal_covers;
use crate::filesystem::owner_link_steps;
use crate::filesystem::owner_removal_steps;
use crate::filesystem::result_view;
use crate::filesystem::symlink_target_spec;
use crate::filesystem::user_filepath;
use crate::filesystem::user_link_path;
use crate::filesystem::user_missing_message;
use crate::filesystem::path::is_plain_name;
use crate::filesystem::plan::FsOp;
use crate::filesystem::plan::FsOpView;
use crate::filesystem::plan::Step;
use crate::filesystem::plan::StepView;
use crate::filesystem::plan::creates;
use crate::filesystem::plan::lemma_creates_concat;
use crate::filesystem::plan::may;
use crate::filesystem::plan::must;
use crate::filesystem::plan::plan_view;
use crate::filesystem::plan::push_may;
use crate::filesystem::plan::push_must;
use crate::filesystem::plan::removes;
use crate::filesystem::cache::plan_result_view;
use crate::filesystem::strmap::StrMap;
use crate::filesystem::strmap::str_equal;

verus! {

pub open spec fn vault_home_dir() -> Seq<char> {
    "vault_fs"@
}

/// The disk a file goes to when no disk has room for it: the default disk,
/// mounted at `/`.
pub open spec fn default_disk() -> AvailableDiskView {
    AvailableDiskView {
        uid: Seq::empty(),
        type_: DiskKind::Unknown(0),
        device_name: Seq::empty(),
        mount_point: root_mount(),
        total_space: 0,
        available_space: 0,
    }
}

/// Where the content of a file goes on a disk other than the default one:
/// the disk's mount point followed by the file's path.
pub open spec fn mount_filepath_spec(mount_point: Seq<char>, file_id: Seq<char>) -> Option<Seq<char>> {
    if mount_point == root_mount() {
        None
    } else {
        Some(mount_point + default_filepath(file_id))
    }
}

/// What `create_file` of the vault does, the content having been written
/// at `actual_filepath`: the file's directory, its content there (a hard
/// link to `actual_filepath` when it was written elsewhere), and its user
/// and disk entries.
pub open spec fn vault_create_steps(
    file_id: Seq<char>,
    user_id: Seq<char>,
    disk_id: Seq<char>,
    actual_filepath: Seq<char>,
) -> Seq<StepView> {
    let filepath = default_filepath(file_id);
    seq![must(FsOpView::CreateDir(default_dirpath(file_id)))] + (if actual_filepath != filepath {
        seq![must(FsOpView::HardLink(actual_filepath, filepath))]
    } else {
        seq![must(FsOpView::WriteFile(filepath))]
    }) + owner_link_steps(file_id, user_id, disk_id)
}

/// What `remove_file` of the vault does, given what the file's disk and
/// user links read back.
pub open spec fn vault_remove_plan(
    file_id: Seq<char>,
    disk_link: Result<Seq<char>, Seq<char>>,
    user_link: Result<Seq<char>, Seq<char>>,
) -> Result<Seq<StepView>, Seq<char>> {
    match id_of_link(disk_link, disk_missing_message()) {
        Err(e) => Err(e),
        Ok(disk_id) => match id_of_link(user_link, user_missing_message()) {
            Err(e) => Err(e),
            Ok(user_id) => Ok(owner_removal_steps(file_id, disk_id, user_id)),
        },
    }
}

/// The directories of files on the disks other than the default one: one
/// for each disk not mounted at `/`, whose failure is only reported.
pub open spec fn mount_dir_steps(disks: Seq<AvailableDiskView>) -> Seq<StepView>
    decreases disks.len(),
{
    if disks.len() == 0 {
        Seq::empty()
    } else {
        let rest = mount_dir_steps(disks.drop_last());
        let d = disks.last();
        if d.mount_point != root_mount() {
            rest.push(may(FsOpView::CreateDir(d.mount_point + file_root())))
        } else {
            rest
        }
    }
}

pub open spec fn not_implemented_types_message() -> Seq<char> {
    "Could not get file store types : method not implemented for vault"@
}

pub open spec fn not_implemented_type_message() -> Seq<char> {
    "Could not get file store type : method not implemented for vault"@
}

/// The filesystem of a vault: files are spread over the disks of the
/// machine, and reached through their directories in the home directory.
#[derive(Debug)]
pub struct VaultFS {
    disks: CurrentDisks,
}

impl VaultFS {
    pub closed spec fn disks_view(&self) -> Seq<AvailableDiskView> {
        with_uuids(compatible_disks(self.disks.system_disks()), self.disks.uuid_links())
    }

    /// The vault over the disks of the machine. Its home directory and base
    /// directories are set up by running `base_dirs_plan`, then
    /// `mount_dirs_plan`.
    pub fn new(disks: CurrentDisks) -> (fs: VaultFS)
        ensures
            fs.disks_view() == with_uuids(compatible_disks(disks.system_disks()), disks.uuid_links()),
    {
        VaultFS { disks }
    }

    /// The plan that sets up the directory of files on each disk that is
    /// not mounted at `/`; each failure is only reported.
    pub fn mount_dirs_plan(&self) -> (steps: Vec<Step>)
        ensures
            plan_view(steps@) == mount_dir_steps(self.disks_view()),
    {
        let disks = self.disks.get_disks();
        let ghost ds = disks@.map_values(|d: AvailableDisk| d@);
        let mut steps: Vec<Step> = Vec::new();
        let mut k: usize = 0;
        while k < disks.len()
            invariant
                k <= ds.len(),
                ds == disks@.map_values(|d: AvailableDisk| d@),
                plan_view(steps@) == mount_dir_steps(ds.take(k as int)),
            decreases ds.len() - k,
        {
            assert(ds.take(k + 1).drop_last() =~= ds.take(k as int));
            assert(ds.take(k + 1).last() == disks@[k as int]@);
            if !str_equal(disks[k].mount_point.as_str(), "/") {
                let dir = concat_str(disks[k].mount_point.clone(), self.get_default_dirpath("").as_str());
                proof {
                    reveal_strlit("");
                }
                push_may(&mut steps, FsOp::CreateDir(dir));
            }
            k = k + 1;
        }
        assert(ds.take(ds.len() as int) =~= ds);
        steps
    }

    /// The disk a file of `file_size` bytes goes to: the one that
    /// `select_disk_for_file` selects, or the default disk when no disk has
    /// room for it.
    pub fn disk_for_file(&self, file_size: u64) -> (d: AvailableDisk)
        ensures
            (exists|i: int|
                0 <= i < self.disks_view().len() && has_room(
                    #[trigger] self.disks_view()[i],
                    file_size,
                )) ==> exists|i: int|
                0 <= i < self.disks_view().len() && self.disks_view()[i] == d@ && has_room(d@, file_size)
                    && (forall|j: int|
                    0 <= j < self.disks_view().len() && has_room(
                        #[trigger] self.disks_view()[j],
                        file_size,
                    ) ==> self.disks_view()[j].available_space <= d.available_space) && (forall|j: int|
                    0 <= j < i && has_room(#[trigger] self.disks_view()[j], file_size)
                        ==> self.disks_view()[j].available_space < d.available_space),
            !(exists|i: int|
                0 <= i < self.disks_view().len() && has_room(
                    #[trigger] self.disks_view()[i],
                    file_size,
                )) ==> d@ == default_disk(),
    {
        match self.disks.select_disk_for_file(file_size) {
            Ok(available_disk) => available_disk,
            Err(_) => AvailableDisk {
                uid: String::new(),
                type_: DiskKind::Unknown(0),
                device_name: String::new(),
                mount_point: "/".to_owned(),
                total_space: 0,
                available_space: 0,
            },
        }
    }

    /// Where the content of a file goes first on `disk`: nowhere else when
    /// the disk is mounted at `/`, else under its mount point.
    pub fn mount_filepath(&self, disk: &AvailableDisk, file_id: &str) -> (r: Option<String>)
        ensures
            match r {
                Some(p) => mount_filepath_spec(disk.mount_point@, file_id@) == Some(p@),
                None => mount_filepath_spec(disk.mount_point@, file_id@) is None,
            },
    {
        if str_equal(disk.mount_point.as_str(), "/") {
            None
        } else {
            Some(concat_str(disk.mount_point.clone(), self.get_default_filepath(file_id).as_str()))
        }
    }

    /// The plan of `create_file`, once the content has been written at
    /// `actual_filepath` (the path under the disk's mount point when writing
    /// there succeeded, else the file's own path). It is run from the home
    /// directory (see `require_home_dir`).
    pub fn create_file_plan(
        &self,
        file_id: &str,
        user_id: &str,
        disk_id: &str,
        actual_filepath: &str,
    ) -> (steps: Vec<Step>)
        ensures
            plan_view(steps@) == vault_create_steps(file_id@, user_id@, disk_id@, actual_filepath@),
    {
        let dirpath = self.get_default_dirpath(file_id);
        let filepath = self.get_default_filepath(file_id);
        let mut steps: Vec<Step> = Vec::new();
        push_must(&mut steps, FsOp::CreateDir(dirpath));
        if !str_equal(actual_filepath, filepath.as_str()) {
            push_must(
                &mut steps,
                FsOp::HardLink { original: actual_filepath.to_owned(), link: filepath },
            );
        } else {
            push_must(&mut steps, FsOp::WriteFile(filepath));
        }
        self.push_owner_link_steps(&mut steps, file_id, user_id, disk_id);
        assert(plan_view(steps@) =~= vault_create_steps(
            file_id@,
            user_id@,
            disk_id@,
            actual_filepath@,
        ));
        steps
    }

    /// The plan of `remove_file`, given what the file's disk and user links
    /// read back (or the error of reading them): its directory, then its
    /// disk and user entries; an error when a link gives no id.
    pub fn remove_file_plan(
        &self,
        file_id: &str,
        disk_link: Result<String, MyError>,
        user_link: Result<String, MyError>,
    ) -> (r: Result<Vec<Step>, MyError>)
        ensures
            plan_result_view(r) == vault_remove_plan(
                file_id@,
                result_view(disk_link),
                result_view(user_link),
            ),
    {
        let disk_id = match self.get_file_disk_from_link(disk_link) {
            Err(e) => {
                return Err(e);
            },
            Ok(d) => d,
        };
        let user_id = match self.get_file_user_from_link(user_link) {
            Err(e) => {
                return Err(e);
            },
            Ok(u) => u,
        };
        let mut steps: Vec<Step> = Vec::new();
        push_must(&mut steps, FsOp::RemoveDirAll(self.get_default_dirpath(file_id)));
        push_must(&mut steps, FsOp::RemoveFile(self.get_disk_filepath(disk_id.as_str(), file_id)));
        push_must(&mut steps, FsOp::RemoveFile(self.get_user_filepath(user_id.as_str(), file_id)));
        assert(plan_view(steps@) =~= owner_removal_steps(file_id@, disk_id@, user_id@));
        Ok(steps)
    }

    /// Storage queues are a matter of the cache: an error.
    pub fn get_all_files_store_types(&self) -> (r: Result<StrMap<Vec<crate::storage_type::StorageType>>, MyError>)
        ensures
            r matches Err(e) && e@ == not_implemented_types_message(),
    {
        Err(MyError::new("Could not get file store types : method not implemented for vault"))
    }

    /// Storage queues are a matter of the cache: an error.
    pub fn get_file_store_types(&self, _file_id: &str) -> (r: Result<Vec<crate::storage_type::StorageType>, MyError>)
        ensures
            r matches Err(e) && e@ == not_implemented_type_message(),
    {
        Err(MyError::new("Could not get file store type : method not implemented for vault"))
    }

    /// Storage queues are a matter of the cache: an error.
    pub fn get_files_store_types(&self, _file_ids: &Vec<String>) -> (r: Result<Vec<Vec<crate::storage_type::StorageType>>, MyError>)
        ensures
            r matches Err(e) && e@ == not_implemented_types_message(),
    {
        Err(MyError::new("Could not get file store types : method not implemented for vault"))
    }

    /// Storage queues are a matter of the cache: an error.
    pub fn get_store_type_files(&self, _store_type: crate::storage_type::StorageType) -> (r: Result<Vec<String>, MyError>)
        ensures
            r matches Err(e) && e@ == not_implemented_types_message(),
    {
        Err(MyError::new("Could not get file store types : method not implemented for vault"))
    }
}

impl UserDiskFilesystem for VaultFS {
    open spec fn home_dir(&self) -> Seq<char> {
        vault_home_dir()
    }

    fn get_home_dir(&self) -> (r: String) {
        "vault_fs".to_owned()
    }
}

/// `remove_file` undoes `create_file`: when the links that `create_file`
/// made are read back, the removal is planned, and it removes every file and
/// link that the plan of `create_file` made, for plain ids. (The content
/// written under another disk's mount point before that plan is reached
/// through the hard link in the file's directory.)
pub proof fn law_vault_remove_undoes_create(
    file_id: Seq<char>,
    user_id: Seq<char>,
    disk_id: Seq<char>,
    actual_filepath: Seq<char>,
)
    requires
        is_plain_name(file_id),
        is_plain_name(user_id),
        is_plain_name(disk_id),
    ensures
        vault_remove_plan(
            file_id,
            Ok(
                symlink_target_spec(
                    disk_filepath(disk_id, Seq::empty()),
                    disk_link_path(file_id),
                    Some(true),
                    false,
                ),
            ),
            Ok(
                symlink_target_spec(
                    user_filepath(user_id, Seq::empty()),
                    user_link_path(file_id),
                    Some(true),
                    false,
                ),
            ),
        ) matches Ok(remove) && forall|path: Seq<char>|
            creates(vault_create_steps(file_id, user_id, disk_id, actual_filepath), path)
                ==> removes(remove, path),
{
    law_links_give_ids_back(file_id, user_id, disk_id, false);
    lemma_owner_removal_covers(file_id, user_id, disk_id);
    let own = owner_removal_steps(file_id, disk_id, user_id);
    let filepath = default_filepath(file_id);
    let head = seq![must(FsOpView::CreateDir(default_dirpath(file_id)))] + (if actual_filepath
        != filepath {
        seq![must(FsOpView::HardLink(actual_filepath, filepath))]
    } else {
        seq![must(FsOpView::WriteFile(filepath))]
    });
    let owners = owner_link_steps(file_id, user_id, disk_id);
    assert forall|path: Seq<char>|
        creates(vault_create_steps(file_id, user_id, disk_id, actual_filepath), path) implies removes(
        own,
        path,
    ) by {
        lemma_creates_concat(head, owners, path);
        if !creates(owners, path) {
            let i = choose|i: int|
                0 <= i < head.len() && match #[trigger] head[i].op {
                    FsOpView::WriteFile(p) => p == path,
                    FsOpView::HardLink(_, l) => l == path,
                    FsOpView::SymLink(_, l) => l == path,
                    _ => false,
                };
            assert(i == 1);
            assert(path =~= default_dirpath(file_id) + seq!['/'] + seq!['f', 'i', 'l', 'e']);
        }
    }
}

} // verus!
