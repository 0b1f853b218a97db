use vstd::prelude::*;

pub use crate::filesystem::disks::AvailableDisk;

verus! {

/// What a user did with a file on a disk.
#[derive(Debug, Clone, Copy, PartialEq, Eq, Structural)]
pub enum DiskAction {
    READ,
    WRITE,
    CREATE,
    DELETE,
}

/// The consumption of a disk over a period.
#[derive(Debug)]
pub struct PeriodInfo {
    consumption: i32,
}

impl PeriodInfo {
    pub fn new(consumption: i32) -> (p: PeriodInfo)
        ensures
            p.consumption() == consumption,
    {
        PeriodInfo { consumption }
    }

    pub closed spec fn consumption(&self) -> i32 {
        self.consumption
    }

    pub fn get_consumption(&self) -> (c: i32)
        ensures
            c == self.consumption(),
    {
        self.consumption
    }
}

/// The bytes of an object id.
pub type ObjectIdBytes = [u8; 12];

/// What a disk update log records before its time is set: the disk, the
/// user, the file and what was done.
#[derive(Debug)]
pub struct ApproxUserDiskUpdate {
    pub disk_id: Option<ObjectIdBytes>,
    pub user_id: Option<ObjectIdBytes>,
    pub file_id: ObjectIdBytes,
    pub action: DiskAction,
}

/// The disk and user whose used memory is logged.
#[derive(Debug)]
pub struct ApproxUserDiskInfo {
    pub disk_id: Option<ObjectIdBytes>,
    pub user_id: Option<ObjectIdBytes>,
}

} // verus!
