pub mod object_id;
pub mod users_disks;
