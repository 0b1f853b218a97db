pub mod users_disks;
