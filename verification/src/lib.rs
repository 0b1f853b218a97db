//! Verified core of the vault storage service: the on-disk layout of the
//! files kept for users and disks, the plans of filesystem operations that
//! create and remove them, disk selection, storage-type bookkeeping and the
//! helpers of the gRPC handlers.

pub mod filesystem;
pub mod maestro;
pub mod maestro_direct;
pub mod maestro_syscalls_old_version;
pub mod models;
pub mod stats;
pub mod storage_type;
