use vstd::prelude::*;
use crate::filesystem::error::MyError;
use crate::filesystem::concat_str;
use crate::filesystem::path::file_name;
use crate::filesystem::path::file_name_spec;
use crate::filesystem::strmap::str_equal;

verus! {

/// The kind of a disk, as the system reports it.
#[derive(Clone, Copy, Debug, PartialEq, Eq, Structural)]
pub enum DiskKind {
    HDD,
    SSD,
    Unknown(isize),
}

/// A disk that files can be written to.
#[derive(Debug)]
pub struct AvailableDisk {
    pub uid: String,
    /// type either HDD, SSD or unknown
    pub type_: DiskKind,
    /// device_name as string
    pub device_name: String,
    /// mount_point as dirpath
    pub mount_point: String,
    /// total_space in bytes
    pub total_space: u64,
    /// available_space in bytes
    pub available_space: u64,
}

pub struct AvailableDiskView {
    pub uid: Seq<char>,
    pub type_: DiskKind,
    pub device_name: Seq<char>,
    pub mount_point: Seq<char>,
    pub total_space: u64,
    pub available_space: u64,
}

impl View for AvailableDisk {
    type V = AvailableDiskView;

    open spec fn view(&self) -> AvailableDiskView {
        AvailableDiskView {
            uid: self.uid@,
            type_: self.type_,
            device_name: self.device_name@,
            mount_point: self.mount_point@,
            total_space: self.total_space,
            available_space: self.available_space,
        }
    }
}

impl AvailableDisk {
    /// A copy of the disk.
    pub fn duplicate(&self) -> (d: AvailableDisk)
        ensures
            d@ == self@,
    {
        AvailableDisk {
            uid: self.uid.clone(),
            type_: self.type_,
            device_name: self.device_name.clone(),
            mount_point: self.mount_point.clone(),
            total_space: self.total_space,
            available_space: self.available_space,
        }
    }
}

/// A disk as the system reports it: the name of its filesystem, its device
/// name and mount point (absent when they are not valid UTF-8), its kind and
/// its space in bytes.
#[derive(Debug)]
pub struct SystemDisk {
    pub file_system: Vec<u8>,
    pub name: Option<String>,
    pub mount_point: Option<String>,
    pub kind: DiskKind,
    pub total_space: u64,
    pub available_space: u64,
}

/// A link of `/dev/disk/by-uuid/`: a disk's uuid and the device it names.
#[derive(Debug)]
pub struct DiskUuid {
    pub device_name: String,
    pub uuid: String,
}

pub open spec fn root_mount() -> Seq<char> {
    "/"@
}

pub open spec fn ext4() -> Seq<u8> {
    seq![0x65u8, 0x78u8, 0x74u8, 0x34u8]
}

/// Whether files can be written to a disk: an ext4 filesystem, some total
/// and some available space, and a device name and mount point that are
/// valid text.
pub open spec fn is_compatible(d: SystemDisk) -> bool {
    &&& d.file_system@ == ext4()
    &&& d.total_space > 0
    &&& d.available_space > 0
    &&& d.name is Some
    &&& d.mount_point is Some
}

/// The available disk that a compatible system disk stands for.
pub open spec fn available_of(d: SystemDisk) -> AvailableDiskView {
    AvailableDiskView {
        uid: Seq::empty(),
        type_: d.kind,
        device_name: d.name->Some_0@,
        mount_point: d.mount_point->Some_0@,
        total_space: d.total_space,
        available_space: d.available_space,
    }
}

/// Whether a disk already listed gives way to a new one with the same
/// device: the new one is mounted at `/` and the listed one is not.
pub open spec fn gives_way(listed: AvailableDiskView, name: Seq<char>, mount: Seq<char>) -> bool {
    listed.device_name == name && listed.mount_point != root_mount() && mount == root_mount()
}

/// The last of the first `n` listed disks that gives way, or -1.
pub open spec fn last_giving_way(
    listed: Seq<AvailableDiskView>,
    name: Seq<char>,
    mount: Seq<char>,
    n: nat,
) -> int
    decreases n,
{
    if n == 0 {
        -1
    } else if gives_way(listed[n - 1], name, mount) {
        n - 1
    } else {
        last_giving_way(listed, name, mount, (n - 1) as nat)
    }
}

/// The compatible disks listed from the system's disks, in order: each
/// compatible disk is appended, and replaces the last listed disk of the
/// same device that gives way to it.
pub open spec fn compatible_disks(ds: Seq<SystemDisk>) -> Seq<AvailableDiskView>
    decreases ds.len(),
{
    if ds.len() == 0 {
        Seq::empty()
    } else {
        let listed = compatible_disks(ds.drop_last());
        let d = ds.last();
        if !is_compatible(d) {
            listed
        } else {
            let a = available_of(d);
            let i = last_giving_way(listed, a.device_name, a.mount_point, listed.len());
            let kept = if i >= 0 {
                listed.remove(i)
            } else {
                listed
            };
            kept.push(a)
        }
    }
}

proof fn lemma_last_giving_way_bound(listed: Seq<AvailableDiskView>, name: Seq<char>, mount: Seq<char>, n: nat)
    requires
        n <= listed.len(),
    ensures
        -1 <= last_giving_way(listed, name, mount, n) < n,
    decreases n,
{
    if n > 0 {
        lemma_last_giving_way_bound(listed, name, mount, (n - 1) as nat);
    }
}

/// Whether a listed disk stands for a system disk with an ext4 file
/// system: the same device, mount point, kind and space.
pub open spec fn from_ext4_disk(a: AvailableDiskView, d: SystemDisk) -> bool {
    &&& d.file_system@ == seq![0x65u8, 0x78u8, 0x74u8, 0x34u8]
    &&& d.name matches Some(n) && n@ == a.device_name
    &&& d.mount_point matches Some(m) && m@ == a.mount_point
    &&& d.kind == a.type_
    &&& d.total_space == a.total_space
    &&& d.available_space == a.available_space
}

proof fn lemma_compatible_from_ext4(ds: Seq<SystemDisk>)
    ensures
        forall|j: int|
            0 <= j < compatible_disks(ds).len() ==> exists|i: int|
                0 <= i < ds.len() && from_ext4_disk(#[trigger] compatible_disks(ds)[j], ds[i]),
    decreases ds.len(),
{
    if ds.len() > 0 {
        let front = ds.drop_last();
        lemma_compatible_from_ext4(front);
        let listed = compatible_disks(front);
        let cd = compatible_disks(ds);
        let d = ds.last();
        assert forall|j: int| 0 <= j < cd.len() implies exists|i: int|
            0 <= i < ds.len() && from_ext4_disk(#[trigger] cd[j], ds[i]) by {
            if !is_compatible(d) {
                let i = choose|i: int| 0 <= i < front.len() && from_ext4_disk(listed[j], front[i]);
                assert(front[i] == ds[i]);
            } else {
                let a = available_of(d);
                let g = last_giving_way(listed, a.device_name, a.mount_point, listed.len());
                lemma_last_giving_way_bound(listed, a.device_name, a.mount_point, listed.len());
                let kept = if g >= 0 {
                    listed.remove(g)
                } else {
                    listed
                };
                if j == kept.len() {
                    assert(cd[j] == a);
                    assert(from_ext4_disk(a, ds[ds.len() - 1]));
                } else {
                    let src = if g >= 0 && j >= g {
                        j + 1
                    } else {
                        j
                    };
                    assert(cd[j] == kept[j]);
                    assert(kept[j] == listed[src]);
                    let i = choose|i: int| 0 <= i < front.len() && from_ext4_disk(listed[src], front[i]);
                    assert(front[i] == ds[i]);
                }
            }
        }
    }
}

proof fn lemma_with_uuids_keeps(disks: Seq<AvailableDiskView>, links: Seq<DiskUuid>)
    ensures
        with_uuids(disks, links).len() == disks.len(),
        forall|j: int|
            0 <= j < disks.len() ==> {
                let w = #[trigger] with_uuids(disks, links)[j];
                &&& w.device_name == disks[j].device_name
                &&& w.mount_point == disks[j].mount_point
                &&& w.type_ == disks[j].type_
                &&& w.total_space == disks[j].total_space
                &&& w.available_space == disks[j].available_space
            },
    decreases links.len(),
{
    if links.len() > 0 {
        lemma_with_uuids_keeps(disks, links.drop_last());
    }
}

/// Every disk that `get_disks` lists, and so every disk that
/// `select_disk_for_file` can pick, stands for a system disk whose file
/// system is ext4 (the bytes `ext4`): the same device, mount point, kind
/// and space.
pub proof fn law_listed_disks_are_ext4(ds: Seq<SystemDisk>, links: Seq<DiskUuid>)
    ensures
        forall|j: int|
            0 <= j < with_uuids(compatible_disks(ds), links).len() ==> exists|i: int|
                0 <= i < ds.len() && from_ext4_disk(
                    #[trigger] with_uuids(compatible_disks(ds), links)[j],
                    ds[i],
                ),
{
    lemma_compatible_from_ext4(ds);
    lemma_with_uuids_keeps(compatible_disks(ds), links);
    assert forall|j: int| 0 <= j < with_uuids(compatible_disks(ds), links).len() implies exists|i: int|
        0 <= i < ds.len() && from_ext4_disk(#[trigger] with_uuids(compatible_disks(ds), links)[j], ds[i]) by {
        let cd = compatible_disks(ds);
        let i = choose|i: int| 0 <= i < ds.len() && from_ext4_disk(cd[j], ds[i]);
        let w = with_uuids(cd, links)[j];
        assert(from_ext4_disk(w, ds[i]));
    }
}

/// The disks with their uuids: each link sets the uuid of every disk of its
/// device, later links overriding earlier ones.
pub open spec fn with_uuids(disks: Seq<AvailableDiskView>, links: Seq<DiskUuid>) -> Seq<AvailableDiskView>
    decreases links.len(),
{
    if links.len() == 0 {
        disks
    } else {
        assign_uuid(with_uuids(disks, links.drop_last()), links.last().device_name@, links.last().uuid@)
    }
}

/// The disks of a device given a uuid.
pub open spec fn assign_uuid(disks: Seq<AvailableDiskView>, device_name: Seq<char>, uuid: Seq<char>) -> Seq<
    AvailableDiskView,
> {
    disks.map_values(
        |d: AvailableDiskView|
            if d.device_name == device_name {
                AvailableDiskView { uid: uuid, ..d }
            } else {
                d
            },
    )
}

/// Whether a disk has room for a file: more available space than its size.
pub open spec fn has_room(d: AvailableDiskView, file_size: u64) -> bool {
    file_size < d.available_space
}

pub open spec fn no_disk_message() -> Seq<char> {
    "Could not find disk with sufficient size"@
}

/// The disks of the machine: what the system reports of its disks, and the
/// uuid links of its devices.
#[derive(Debug)]
pub struct CurrentDisks {
    system_disks: Vec<SystemDisk>,
    uuids: Vec<DiskUuid>,
}

impl CurrentDisks {
    pub closed spec fn system_disks(&self) -> Seq<SystemDisk> {
        self.system_disks@
    }

    pub closed spec fn uuid_links(&self) -> Seq<DiskUuid> {
        self.uuids@
    }

    /// The disks of the machine, from a reading of the system's disks and
    /// of its uuid links.
    pub fn new(system_disks: Vec<SystemDisk>, uuids: Vec<DiskUuid>) -> (c: CurrentDisks)
        ensures
            c.system_disks() == system_disks@,
            c.uuid_links() == uuids@,
    {
        CurrentDisks { system_disks, uuids }
    }

    /// The compatible disks, without uuids.
    pub fn get_compatible_disks(&self) -> (r: Vec<AvailableDisk>)
        ensures
            r@.map_values(|d: AvailableDisk| d@) == compatible_disks(self.system_disks()),
            forall|i: int|
                0 <= i < r@.len() ==> {
                    &&& (#[trigger] r@[i]).total_space > 0
                    &&& r@[i].available_space > 0
                    &&& r@[i].uid@.len() == 0
                },
    {
        let mut compatible: Vec<AvailableDisk> = Vec::new();
        let ghost ds = self.system_disks@;
        let mut k: usize = 0;
        while k < self.system_disks.len()
            invariant
                k <= ds.len(),
                ds == self.system_disks@,
                compatible@.map_values(|d: AvailableDisk| d@) == compatible_disks(ds.take(k as int)),
                forall|i: int|
                    0 <= i < compatible@.len() ==> {
                        &&& (#[trigger] compatible@[i]).total_space > 0
                        &&& compatible@[i].available_space > 0
                        &&& compatible@[i].uid@.len() == 0
                    },
            decreases ds.len() - k,
        {
            assert(ds.take(k + 1).drop_last() =~= ds.take(k as int));
            assert(ds.take(k + 1).last() == ds[k as int]);
            let disk = &self.system_disks[k];
            k = k + 1;
            if !bytes_are_ext4(&disk.file_system) {
                continue;
            }
            if disk.total_space <= 0 {
                continue;
            }
            if disk.available_space <= 0 {
                continue;
            }
            let device_name = match &disk.name {
                Some(s) => s.clone(),
                None => {
                    continue;
                },
            };
            let mount_point = match &disk.mount_point {
                Some(s) => s.clone(),
                None => {
                    continue;
                },
            };
            let ghost listed = compatible@.map_values(|d: AvailableDisk| d@);
            let mount_is_root = is_root_mount(mount_point.as_str());
            let mut index_to_replace: Option<usize> = None;
            let mut counter: usize = 0;
            while counter < compatible.len()
                invariant
                    counter <= compatible@.len(),
                    listed == compatible@.map_values(|d: AvailableDisk| d@),
                    mount_is_root == (mount_point@ == root_mount()),
                    match index_to_replace {
                        Some(i) => i as int == last_giving_way(
                            listed,
                            device_name@,
                            mount_point@,
                            counter as nat,
                        ) && i < counter,
                        None => last_giving_way(listed, device_name@, mount_point@, counter as nat)
                            == -1,
                    },
                decreases compatible.len() - counter,
            {
                assert(listed[counter as int] == compatible@[counter as int]@);
                if compatible[counter].device_name == device_name {
                    if is_root_mount(compatible[counter].mount_point.as_str()) {
                    } else if mount_is_root {
                        index_to_replace = Some(counter);
                    }
                }
                counter = counter + 1;
            }
            let new_disk = AvailableDisk {
                uid: String::new(),
                type_: disk.kind,
                device_name: device_name,
                mount_point: mount_point,
                total_space: disk.total_space,
                available_space: disk.available_space,
            };
            let ghost before = compatible@;
            if let Some(index) = index_to_replace {
                compatible.remove(index);
                assert(compatible@.map_values(|d: AvailableDisk| d@) =~= listed.remove(index as int));
            }
            compatible.push(new_disk);
            assert(compatible@.map_values(|d: AvailableDisk| d@) =~= compatible_disks(
                ds.take(k as int),
            ));
            assert forall|i: int| 0 <= i < compatible@.len() implies {
                &&& (#[trigger] compatible@[i]).total_space > 0
                &&& compatible@[i].available_space > 0
                &&& compatible@[i].uid@.len() == 0
            } by {
                if i < compatible@.len() - 1 {
                    match index_to_replace {
                        Some(index) => {
                            if i < index {
                                assert(compatible@[i] == before[i]);
                            } else {
                                assert(compatible@[i] == before[i + 1]);
                            }
                        },
                        None => {
                            assert(compatible@[i] == before[i]);
                        },
                    }
                }
            }
        }
        assert(ds.take(ds.len() as int) =~= ds);
        compatible
    }

    /// Gives every listed disk of a device the uuid of a link to it.
    pub fn assign_uuid_to_corresponding_disk(
        &self,
        disks: &mut Vec<AvailableDisk>,
        device_name: &str,
        uuid: &str,
    )
        ensures
            final(disks)@.map_values(|d: AvailableDisk| d@) == assign_uuid(
                old(disks)@.map_values(|d: AvailableDisk| d@),
                device_name@,
                uuid@,
            ),
    {
        let ghost before = old(disks)@.map_values(|d: AvailableDisk| d@);
        let mut i: usize = 0;
        while i < disks.len()
            invariant
                i <= disks@.len(),
                disks@.len() == before.len(),
                forall|j: int|
                    0 <= j < i ==> (#[trigger] disks@[j])@ == assign_uuid(
                        before,
                        device_name@,
                        uuid@,
                    )[j],
                forall|j: int| i <= j < disks@.len() ==> (#[trigger] disks@[j])@ == before[j],
            decreases disks.len() - i,
        {
            if str_equal(device_name, disks[i].device_name.as_str()) {
                let mut d = disks[i].duplicate();
                d.uid = uuid.to_owned();
                disks.set(i, d);
            }
            i = i + 1;
        }
        assert(disks@.map_values(|d: AvailableDisk| d@) =~= assign_uuid(before, device_name@, uuid@));
    }

    /// The compatible disks, each with the uuid that the links give its
    /// device.
    pub fn get_disks(&self) -> (r: Vec<AvailableDisk>)
        ensures
            r@.map_values(|d: AvailableDisk| d@) == with_uuids(
                compatible_disks(self.system_disks()),
                self.uuid_links(),
            ),
    {
        let mut compatible_disks = self.get_compatible_disks();
        let mut k: usize = 0;
        while k < self.uuids.len()
            invariant
                k <= self.uuids@.len(),
                compatible_disks@.map_values(|d: AvailableDisk| d@) == with_uuids(
                    crate::filesystem::disks::compatible_disks(self.system_disks@),
                    self.uuids@.take(k as int),
                ),
            decreases self.uuids.len() - k,
        {
            assert(self.uuids@.take(k + 1).drop_last() =~= self.uuids@.take(k as int));
            assert(self.uuids@.take(k + 1).last() == self.uuids@[k as int]);
            self.assign_uuid_to_corresponding_disk(
                &mut compatible_disks,
                self.uuids[k].device_name.as_str(),
                self.uuids[k].uuid.as_str(),
            );
            k = k + 1;
        }
        assert(self.uuids@.take(self.uuids@.len() as int) =~= self.uuids@);
        compatible_disks
    }

    /// The disk with the most available space among those with room for a
    /// file of `file_size` bytes (the first such when several tie); an
    /// error when no disk has room.
    pub fn select_disk_for_file(&self, file_size: u64) -> (r: Result<AvailableDisk, MyError>)
        ensures
            ({
                let disks = with_uuids(compatible_disks(self.system_disks()), self.uuid_links());
                &&& r is Ok <==> exists|i: int| 0 <= i < disks.len() && has_room(#[trigger] disks[i], file_size)
                &&& r matches Ok(d) ==> exists|i: int|
                    0 <= i < disks.len() && disks[i] == d@ && has_room(d@, file_size) && (forall|j: int|
                        0 <= j < disks.len() && has_room(#[trigger] disks[j], file_size) ==> disks[j].available_space
                            <= d.available_space) && (forall|j: int|
                        0 <= j < i && has_room(#[trigger] disks[j], file_size) ==> disks[j].available_space
                            < d.available_space)
                &&& r matches Err(e) ==> e@ == no_disk_message()
            }),
    {
        let disks = self.get_disks();
        select_disk_for_file_from(&disks, file_size)
    }
}

/// The choice of `select_disk_for_file` among listed disks.
pub fn select_disk_for_file_from(disks: &Vec<AvailableDisk>, file_size: u64) -> (r: Result<AvailableDisk, MyError>)
    ensures
        ({
            let ds = disks@.map_values(|d: AvailableDisk| d@);
            &&& r is Ok <==> exists|i: int| 0 <= i < ds.len() && has_room(#[trigger] ds[i], file_size)
            &&& r matches Ok(d) ==> exists|i: int|
                0 <= i < ds.len() && ds[i] == d@ && has_room(d@, file_size) && (forall|j: int|
                    0 <= j < ds.len() && has_room(#[trigger] ds[j], file_size) ==> ds[j].available_space
                        <= d.available_space) && (forall|j: int|
                    0 <= j < i && has_room(#[trigger] ds[j], file_size) ==> ds[j].available_space
                        < d.available_space)
            &&& r matches Err(e) ==> e@ == no_disk_message()
        }),
{
    let ghost ds = disks@.map_values(|d: AvailableDisk| d@);
    let mut best = AvailableDisk {
        uid: String::new(),
        type_: DiskKind::Unknown(0),
        device_name: String::new(),
        mount_point: String::new(),
        total_space: 0,
        available_space: 0,
    };
    let ghost mut best_index: int = -1;
    let mut k: usize = 0;
    while k < disks.len()
        invariant
            k <= ds.len(),
            ds == disks@.map_values(|d: AvailableDisk| d@),
            -1 <= best_index < k,
            best_index == -1 ==> best.available_space == 0 && forall|j: int|
                0 <= j < k ==> !has_room(#[trigger] ds[j], file_size),
            best_index >= 0 ==> ds[best_index] == best@ && has_room(best@, file_size),
            forall|j: int|
                0 <= j < k && has_room(#[trigger] ds[j], file_size) ==> ds[j].available_space
                    <= best.available_space,
            forall|j: int|
                0 <= j < best_index && has_room(#[trigger] ds[j], file_size) ==> ds[j].available_space
                    < best.available_space,
        decreases ds.len() - k,
    {
        let disk = &disks[k];
        assert(ds[k as int] == disk@);
        if file_size < disk.available_space {
            if disk.available_space > best.available_space {
                best = disk.duplicate();
                proof {
                    best_index = k as int;
                }
            }
        }
        k = k + 1;
    }
    if best.available_space > 0 {
        assert(best_index >= 0);
        return Ok(best);
    }
    assert(best_index == -1) by {
        if best_index >= 0 {
            assert(has_room(ds[best_index], file_size));
        }
    }
    Err(MyError::new("Could not find disk with sufficient size"))
}

/// Whether a filesystem name is `ext4`.
fn bytes_are_ext4(fs: &Vec<u8>) -> (b: bool)
    ensures
        b == (fs@ == ext4()),
{
    if fs.len() != 4 {
        return false;
    }
    let r = fs[0] == 0x65u8 && fs[1] == 0x78u8 && fs[2] == 0x74u8 && fs[3] == 0x34u8;
    if r {
        assert(fs@ =~= ext4());
    }
    r
}

/// Whether a mount point is `/`.
fn is_root_mount(mount: &str) -> (b: bool)
    ensures
        b == (mount@ == root_mount()),
{
    str_equal(mount, "/")
}

pub open spec fn uuid_dir() -> Seq<char> {
    "/dev/disk/by-uuid/"@
}

/// The device path that a relative uuid link target stands for: the target
/// read from the directory of uuid links.
pub fn uuid_link_device_path(target: &str) -> (r: String)
    requires
        !(target@.len() > 0 && target@[0] == '/'),
    ensures
        r@ == uuid_dir() + target@,
{
    concat_str("/dev/disk/by-uuid/".to_owned(), target)
}

pub open spec fn no_uuid_message() -> Seq<char> {
    "Could not get uuid from device disk path"@
}

/// The uuid that a link of `/dev/disk/by-uuid/` is named by.
pub fn uuid_of_link_path(entry_path: &str) -> (r: Result<String, MyError>)
    ensures
        match r {
            Ok(u) => file_name_spec(entry_path@) == Some(u@),
            Err(e) => file_name_spec(entry_path@) is None && e@ == no_uuid_message(),
        },
{
    match file_name(entry_path) {
        Some(u) => Ok(u),
        None => Err(MyError::new("Could not get uuid from device disk path")),
    }
}

} // verus!
