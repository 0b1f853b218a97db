use vstd::prelude::*;
use crate::filesystem::concat_str;

verus! {

/// The first version of the gRPC service: each user's files are kept in a
/// directory named by the user id, each file named by its id.
#[derive(Debug)]
pub struct MaestroVault {}

impl MaestroVault {
    pub fn new() -> (v: MaestroVault) {
        MaestroVault {}
    }

    /// Where a user's file is kept: `user_id/file_id`.
    pub fn user_file_path(&self, user_id: &str, file_id: &str) -> (p: String)
        ensures
            p@ == user_id@ + seq!['/'] + file_id@,
    {
        proof {
            reveal_strlit("/");
        }
        concat_str(concat_str(user_id.to_owned(), "/"), file_id)
    }
}

} // verus!
