use vstd::prelude::*;

verus! {

/// Where a cached file waits: the storage queues of the service.
#[derive(Clone, Copy, Debug, PartialEq, Eq, Structural, Hash)]
pub enum StorageType {
    NoQueue,
    UploadQueue,
    DownloadQueue,
    RemoveQueue,
    RequestQueue,
}

/// The storage type that a wire code stands for; unknown codes and a
/// missing code stand for `NoQueue`.
pub open spec fn storage_type_of_code(code: Option<i32>) -> StorageType {
    match code {
        Some(n) => if n == 1 {
            StorageType::UploadQueue
        } else if n == 2 {
            StorageType::DownloadQueue
        } else if n == 3 {
            StorageType::RemoveQueue
        } else if n == 4 {
            StorageType::RequestQueue
        } else {
            StorageType::NoQueue
        },
        None => StorageType::NoQueue,
    }
}

/// The wire code of a storage type; a missing type has code 0.
pub open spec fn code_of_storage_type(store: Option<StorageType>) -> i32 {
    match store {
        Some(StorageType::NoQueue) => 0,
        Some(StorageType::UploadQueue) => 1,
        Some(StorageType::DownloadQueue) => 2,
        Some(StorageType::RemoveQueue) => 3,
        Some(StorageType::RequestQueue) => 4,
        None => 0,
    }
}

pub fn i32_to_storage_type(enum_num: Option<i32>) -> (s: StorageType)
    ensures
        s == storage_type_of_code(enum_num),
{
    match enum_num {
        Some(enum_num) => {
            match enum_num {
                0 => StorageType::NoQueue,
                1 => StorageType::UploadQueue,
                2 => StorageType::DownloadQueue,
                3 => StorageType::RemoveQueue,
                4 => StorageType::RequestQueue,
                _ => StorageType::NoQueue,
            }
        },
        None => StorageType::NoQueue,
    }
}

pub fn storage_type_to_i32(enum_num: Option<StorageType>) -> (n: i32)
    ensures
        n == code_of_storage_type(enum_num),
        0 <= n <= 4,
{
    match enum_num {
        Some(enum_num) => {
            match enum_num {
                StorageType::NoQueue => 0,
                StorageType::UploadQueue => 1,
                StorageType::DownloadQueue => 2,
                StorageType::RemoveQueue => 3,
                StorageType::RequestQueue => 4,
            }
        },
        None => 0,
    }
}

/// Decoding the code of a storage type gives that storage type back.
pub proof fn law_code_decodes_to_storage_type(s: StorageType)
    ensures
        storage_type_of_code(Some(code_of_storage_type(Some(s)))) == s,
{
}

/// Encoding the storage type of a known code (0 to 4) gives that code back;
/// every other code, and a missing one, decodes to `NoQueue`.
pub proof fn law_storage_type_encodes_to_code(n: i32)
    ensures
        0 <= n <= 4 ==> code_of_storage_type(Some(storage_type_of_code(Some(n)))) == n,
        !(0 <= n <= 4) ==> storage_type_of_code(Some(n)) == StorageType::NoQueue,
        storage_type_of_code(None) == StorageType::NoQueue,
{
}

} // verus!
