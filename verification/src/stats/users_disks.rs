use vstd::prelude::*;
use crate::models::object_id::is_object_id_text;
use crate::models::object_id::object_id_bytes;
use crate::models::object_id::parse_object_id;
use crate::models::users_disks::ApproxUserDiskInfo;
use crate::models::users_disks::ApproxUserDiskUpdate;
use crate::models::users_disks::DiskAction;
use crate::models::users_disks::ObjectIdBytes;

verus! {

/// The code of an action in the log of disk updates.
pub open spec fn action_code_spec(action: DiskAction) -> Seq<char> {
    match action {
        DiskAction::READ => "r"@,
        DiskAction::WRITE => "w"@,
        DiskAction::CREATE => "c"@,
        DiskAction::DELETE => "d"@,
    }
}

/// The code of an action in the log of disk updates: `r`, `w`, `c` or `d`.
pub fn action_code(action: DiskAction) -> (s: String)
    ensures
        s@ == action_code_spec(action),
{
    match action {
        DiskAction::READ => "r".to_owned(),
        DiskAction::WRITE => "w".to_owned(),
        DiskAction::CREATE => "c".to_owned(),
        DiskAction::DELETE => "d".to_owned(),
    }
}

/// Whether an optional id is absent or an object id in hexadecimal.
pub open spec fn valid_opt_id(id: Option<&str>) -> bool {
    match id {
        Some(s) => is_object_id_text(s@),
        None => true,
    }
}

/// The bytes of an optional id.
pub open spec fn opt_id_bytes(id: Option<&str>) -> Option<Seq<u8>> {
    match id {
        Some(s) => Some(object_id_bytes(s@)),
        None => None,
    }
}

pub open spec fn opt_bytes_view(b: Option<ObjectIdBytes>) -> Option<Seq<u8>> {
    match b {
        Some(a) => Some(a@),
        None => None,
    }
}

fn parse_opt_id(id: Option<&str>) -> (r: Option<ObjectIdBytes>)
    requires
        valid_opt_id(id),
    ensures
        opt_bytes_view(r) == opt_id_bytes(id),
{
    match id {
        Some(s) => match parse_object_id(s) {
            Some(b) => Some(b),
            None => None,
        },
        None => None,
    }
}

/// The records that log an action on a file: the update and the disk and
/// user whose used memory is then logged. Absent when the file id is not an
/// object id (nothing is logged); the disk and user ids, when given, must be
/// object ids.
pub fn disk_log_records(
    disk_id: Option<&str>,
    user_id: Option<&str>,
    file_id: &str,
    action: DiskAction,
) -> (r: Option<(ApproxUserDiskUpdate, ApproxUserDiskInfo)>)
    requires
        valid_opt_id(disk_id),
        valid_opt_id(user_id),
    ensures
        r is Some <==> is_object_id_text(file_id@),
        r matches Some((update, info)) ==> {
            &&& opt_bytes_view(update.disk_id) == opt_id_bytes(disk_id)
            &&& opt_bytes_view(update.user_id) == opt_id_bytes(user_id)
            &&& update.file_id@ == object_id_bytes(file_id@)
            &&& update.action == action
            &&& opt_bytes_view(info.disk_id) == opt_id_bytes(disk_id)
            &&& opt_bytes_view(info.user_id) == opt_id_bytes(user_id)
        },
{
    let my_file_id = match parse_object_id(file_id) {
        Some(id) => id,
        None => {
            return None;
        },
    };
    let update = ApproxUserDiskUpdate {
        disk_id: parse_opt_id(disk_id),
        user_id: parse_opt_id(user_id),
        file_id: my_file_id,
        action,
    };
    let info = ApproxUserDiskInfo { disk_id: parse_opt_id(disk_id), user_id: parse_opt_id(user_id) };
    Some((update, info))
}

} // verus!
