use vstd::prelude::*;
use crate::filesystem::disks::CurrentDisks;
use crate::filesystem::disks::compatible_disks;
use crate::filesystem::disks::with_uuids;
use crate::filesystem::cache::cache_store_paths;
use crate::filesystem::Filesystem;
use crate::filesystem::select_filesystem;
use crate::filesystem::selects_cache;
use crate::filesystem::strmap::contains_text;
use crate::filesystem::strmap::StrMap;
use crate::filesystem::error::MyError;
use crate::models::users_disks::ApproxUserDiskInfo;
use crate::models::users_disks::ApproxUserDiskUpdate;
use crate::models::users_disks::DiskAction;
use crate::stats::users_disks::disk_log_records;
use crate::models::object_id::is_object_id_text;
use crate::models::object_id::object_id_bytes;
use crate::storage_type::StorageType;
use crate::storage_type::code_of_storage_type;

pub use crate::storage_type::i32_to_storage_type;
pub use crate::storage_type::storage_type_to_i32;

verus! {

/// The gRPC service of the vault: it serves the files of its filesystem to
/// the maestro.
#[derive(Debug)]
pub struct MaestroVault {
    pub filesystem: Filesystem,
}

impl MaestroVault {
    /// The service over the filesystem that the execution type selects.
    pub fn new(exec_type: &str, disks: CurrentDisks) -> (v: MaestroVault)
        ensures
            selects_cache(exec_type@) <==> v.filesystem is Cache,
            v.filesystem matches Filesystem::Vault(fs) ==> fs.disks_view() == with_uuids(
                compatible_disks(disks.system_disks()),
                disks.uuid_links(),
            ),
            v.filesystem matches Filesystem::Cache(fs) ==> fs.store_paths_view() == cache_store_paths(),
    {
        MaestroVault { filesystem: select_filesystem(exec_type, disks) }
    }

    /// The records that log an action of a user on a file of a disk; the
    /// three ids must be object ids.
    pub fn update_logs(
        &self,
        file_id: &str,
        user_id: &str,
        disk_id: &str,
        action: DiskAction,
    ) -> (r: (ApproxUserDiskUpdate, ApproxUserDiskInfo))
        requires
            is_object_id_text(file_id@),
            is_object_id_text(user_id@),
            is_object_id_text(disk_id@),
        ensures
            r.0.disk_id matches Some(d) && d@ == object_id_bytes(disk_id@),
            r.0.user_id matches Some(u) && u@ == object_id_bytes(user_id@),
            r.0.file_id@ == object_id_bytes(file_id@),
            r.0.action == action,
            r.1.disk_id matches Some(d) && d@ == object_id_bytes(disk_id@),
            r.1.user_id matches Some(u) && u@ == object_id_bytes(user_id@),
    {
        match disk_log_records(Some(disk_id), Some(user_id), file_id, action) {
            Some(records) => records,
            None => {
                proof {
                    assert(false);
                }
                (
                    ApproxUserDiskUpdate { disk_id: None, user_id: None, file_id: [0u8; 12], action },
                    ApproxUserDiskInfo { disk_id: None, user_id: None },
                )
            },
        }
    }
}

/// The values of `vec1` (in its order) that `vec2` holds.
pub open spec fn common_entries(vec1: Seq<Seq<char>>, vec2: Seq<Seq<char>>) -> Seq<Seq<char>>
    decreases vec1.len(),
{
    if vec1.len() == 0 {
        Seq::empty()
    } else {
        let r = common_entries(vec1.drop_last(), vec2);
        if vec2.contains(vec1.last()) {
            r.push(vec1.last())
        } else {
            r
        }
    }
}

/// The file ids common to every list, in the order of the first: each list
/// in turn keeps the ids of the previous result that it holds.
pub open spec fn common_to_all(files: Seq<Seq<Seq<char>>>, n: nat) -> Seq<Seq<char>>
    decreases n,
{
    if n <= 1 {
        files[0]
    } else {
        common_entries(common_to_all(files, (n - 1) as nat), files[n - 1])
    }
}

/// The values of `vec1` (in its order) that `vec2` holds.
pub fn filter_common_entries(vec1: &Vec<String>, vec2: &Vec<String>) -> (r: Vec<String>)
    ensures
        r@.map_values(|s: String| s@) == common_entries(
            vec1@.map_values(|s: String| s@),
            vec2@.map_values(|s: String| s@),
        ),
{
    let ghost v1 = vec1@.map_values(|s: String| s@);
    let ghost v2 = vec2@.map_values(|s: String| s@);
    let mut result: Vec<String> = Vec::new();
    let mut i: usize = 0;
    while i < vec1.len()
        invariant
            i <= vec1@.len(),
            v1 == vec1@.map_values(|s: String| s@),
            v2 == vec2@.map_values(|s: String| s@),
            result@.map_values(|s: String| s@) == common_entries(v1.take(i as int), v2),
        decreases vec1.len() - i,
    {
        assert(v1.take(i + 1).drop_last() =~= v1.take(i as int));
        assert(v1.take(i + 1).last() == vec1@[i as int]@);
        if contains_text(vec2, vec1[i].as_str()) {
            result.push(vec1[i].clone());
        }
        assert(result@.map_values(|s: String| s@) =~= common_entries(v1.take(i + 1), v2));
        i = i + 1;
    }
    assert(v1.take(v1.len() as int) =~= v1);
    result
}

/// The ids common to every list of file ids (those of a user, of a disk,
/// of a storage queue, as the request asks), in the order of the first.
pub fn common_file_ids(files: &Vec<Vec<String>>) -> (r: Vec<String>)
    requires
        files@.len() > 0,
    ensures
        ({
            let fs = files@.map_values(|v: Vec<String>| v@.map_values(|s: String| s@));
            r@.map_values(|s: String| s@) == common_to_all(fs, fs.len())
        }),
{
    let ghost fs = files@.map_values(|v: Vec<String>| v@.map_values(|s: String| s@));
    let mut current: Vec<String> = clone_strings(&files[0]);
    let mut index: usize = 1;
    while index < files.len()
        invariant
            1 <= index <= files@.len(),
            fs == files@.map_values(|v: Vec<String>| v@.map_values(|s: String| s@)),
            current@.map_values(|s: String| s@) == common_to_all(fs, index as nat),
        decreases files.len() - index,
    {
        current = filter_common_entries(&current, &files[index]);
        index = index + 1;
    }
    current
}

/// A copy of a list of texts.
pub fn clone_strings(v: &Vec<String>) -> (r: Vec<String>)
    ensures
        r@.map_values(|s: String| s@) == v@.map_values(|s: String| s@),
{
    let mut r: Vec<String> = Vec::new();
    let mut i: usize = 0;
    while i < v.len()
        invariant
            i <= v@.len(),
            r@.len() == i,
            forall|j: int| 0 <= j < i ==> (#[trigger] r@[j])@ == v@[j]@,
        decreases v.len() - i,
    {
        r.push(v[i].clone());
        i = i + 1;
    }
    assert(r@.map_values(|s: String| s@) =~= v@.map_values(|s: String| s@));
    r
}

/// The wire codes of storage types, in order.
pub fn store_type_codes(types: &Vec<StorageType>) -> (r: Vec<i32>)
    ensures
        r@.len() == types@.len(),
        forall|i: int| 0 <= i < r@.len() ==> #[trigger] r@[i] == code_of_storage_type(Some(types@[i])),
{
    let mut r: Vec<i32> = Vec::new();
    let mut i: usize = 0;
    while i < types.len()
        invariant
            i <= types@.len(),
            r@.len() == i,
            forall|j: int| 0 <= j < i ==> #[trigger] r@[j] == code_of_storage_type(Some(types@[j])),
        decreases types.len() - i,
    {
        r.push(storage_type_to_i32(Some(types[i])));
        i = i + 1;
    }
    r
}

/// A listing of file ids, or the message of its failure.
pub open spec fn listing_view(l: Result<Vec<String>, MyError>) -> Result<Seq<Seq<char>>, Seq<char>> {
    match l {
        Ok(v) => Ok(v@.map_values(|s: String| s@)),
        Err(e) => Err(e@),
    }
}

/// The message of the first listing that failed, if one did.
pub open spec fn first_failure(ls: Seq<Result<Seq<Seq<char>>, Seq<char>>>) -> Option<Seq<char>>
    decreases ls.len(),
{
    if ls.len() == 0 {
        None
    } else {
        match first_failure(ls.drop_last()) {
            Some(e) => Some(e),
            None => match ls.last() {
                Err(e) => Some(e),
                Ok(_) => None,
            },
        }
    }
}

/// The ids that each listing holds (none for a failed one).
pub open spec fn listed_ids(ls: Seq<Result<Seq<Seq<char>>, Seq<char>>>) -> Seq<Seq<Seq<char>>> {
    ls.map_values(
        |l: Result<Seq<Seq<char>>, Seq<char>>|
            match l {
                Ok(v) => v,
                Err(_) => Seq::empty(),
            },
    )
}

/// The ids of the files of every disk.
pub open spec fn files_of_every_disk(m: Map<Seq<char>, StrMap<Vec<u8>>>) -> Set<Seq<char>> {
    Set::new(|k: Seq<char>| exists|d: Seq<char>| m.contains_key(d) && #[trigger] m[d]@.contains_key(k))
}

/// The ids of the files of the named disks.
pub open spec fn files_of_named_disks(
    m: Map<Seq<char>, StrMap<Vec<u8>>>,
    names: Seq<Seq<char>>,
) -> Set<Seq<char>>
    decreases names.len(),
{
    if names.len() == 0 {
        Set::empty()
    } else {
        files_of_named_disks(m, names.drop_last()).union(m[names.last()]@.dom())
    }
}

proof fn lemma_files_of_named_disks(
    m: Map<Seq<char>, StrMap<Vec<u8>>>,
    names: Seq<Seq<char>>,
    k: Seq<char>,
)
    ensures
        files_of_named_disks(m, names).contains(k) <==> exists|i: int|
            0 <= i < names.len() && #[trigger] m[names[i]]@.contains_key(k),
    decreases names.len(),
{
    if names.len() > 0 {
        let front = names.drop_last();
        lemma_files_of_named_disks(m, front, k);
        if files_of_named_disks(m, front).contains(k) {
            let i = choose|i: int| 0 <= i < front.len() && #[trigger] m[front[i]]@.contains_key(k);
            assert(names[i] == front[i]);
        }
        if exists|i: int| 0 <= i < names.len() && #[trigger] m[names[i]]@.contains_key(k) {
            let i = choose|i: int| 0 <= i < names.len() && #[trigger] m[names[i]]@.contains_key(k);
            if i < front.len() {
                assert(front[i] == names[i]);
            }
        }
    }
}

/// Adds to `ids` each of `more` that it does not hold yet.
fn add_new_ids(ids: &mut Vec<String>, more: &Vec<String>)
    requires
        old(ids)@.map_values(|s: String| s@).no_duplicates(),
    ensures
        final(ids)@.map_values(|s: String| s@).no_duplicates(),
        final(ids)@.map_values(|s: String| s@).to_set() == old(ids)@.map_values(|s: String| s@).to_set().union(
            more@.map_values(|s: String| s@).to_set(),
        ),
{
    let ghost start = ids@.map_values(|s: String| s@).to_set();
    let ghost ms = more@.map_values(|s: String| s@);
    let mut i: usize = 0;
    while i < more.len()
        invariant
            i <= more@.len(),
            ms == more@.map_values(|s: String| s@),
            ids@.map_values(|s: String| s@).no_duplicates(),
            ids@.map_values(|s: String| s@).to_set() == start.union(ms.take(i as int).to_set()),
        decreases more.len() - i,
    {
        let ghost before = ids@.map_values(|s: String| s@);
        let ghost k = ms[i as int];
        assert(ms.take(i + 1) =~= ms.take(i as int).push(k));
        proof {
            ms.take(i as int).lemma_push_to_set_commute(k);
        }
        if !contains_text(ids, more[i].as_str()) {
            ids.push(more[i].clone());
            assert(ids@.map_values(|s: String| s@) =~= before.push(k));
            proof {
                before.lemma_push_to_set_commute(k);
            }
            assert(ids@.map_values(|s: String| s@).to_set() =~= start.union(ms.take(i + 1).to_set()));
        } else {
            assert(before.to_set().contains(k));
            assert(ids@.map_values(|s: String| s@).to_set() =~= start.union(ms.take(i + 1).to_set()));
        }
        i = i + 1;
    }
    assert(ms.take(more@.len() as int) =~= ms);
}

/// The ids of the files of every disk, each once.
pub fn all_disk_file_ids(disks: &StrMap<StrMap<Vec<u8>>>) -> (r: Vec<String>)
    ensures
        r@.map_values(|s: String| s@).to_set() == files_of_every_disk(disks@),
        r@.map_values(|s: String| s@).no_duplicates(),
{
    let names = disks.keys();
    let ghost ns = names@.map_values(|s: String| s@);
    let mut ids: Vec<String> = Vec::new();
    assert(ids@.map_values(|s: String| s@).to_set() =~= Set::<Seq<char>>::empty());
    let mut j: usize = 0;
    while j < names.len()
        invariant
            j <= names@.len(),
            ns == names@.map_values(|s: String| s@),
            ns.to_set() == disks@.dom(),
            ids@.map_values(|s: String| s@).no_duplicates(),
            ids@.map_values(|s: String| s@).to_set() == files_of_named_disks(disks@, ns.take(j as int)),
        decreases names.len() - j,
    {
        assert(ns.take(j + 1).drop_last() =~= ns.take(j as int));
        assert(ns.to_set().contains(ns[j as int]));
        match disks.get(names[j].as_str()) {
            Some(files) => {
                let more = files.keys();
                add_new_ids(&mut ids, &more);
            },
            None => {
                assert(false);
            },
        }
        j = j + 1;
    }
    assert(ns.take(names@.len() as int) =~= ns);
    assert forall|k: Seq<char>|
        files_of_named_disks(disks@, ns).contains(k) <==> files_of_every_disk(disks@).contains(k) by {
        lemma_files_of_named_disks(disks@, ns, k);
        if files_of_named_disks(disks@, ns).contains(k) {
            let i = choose|i: int| 0 <= i < ns.len() && #[trigger] disks@[ns[i]]@.contains_key(k);
            assert(ns.to_set().contains(ns[i]));
        }
        if files_of_every_disk(disks@).contains(k) {
            let d = choose|d: Seq<char>| disks@.contains_key(d) && #[trigger] disks@[d]@.contains_key(k);
            assert(ns.to_set().contains(d));
            let i = choose|i: int| 0 <= i < ns.len() && ns[i] == d;
            assert(disks@[ns[i]]@.contains_key(k));
        }
    }
    assert(files_of_named_disks(disks@, ns) =~= files_of_every_disk(disks@));
    ids
}

/// The files that a request for meta information selects: the ids common
/// to the listings it asked for (of a user's files, of a disk's files, of
/// a storage queue's files, in that order); with none of them, the files of
/// every disk (`every_disk`, the outcome of `get_files_disks`). The first
/// failure among them ends it, with its message.
pub fn meta_info_candidates(
    lists: &Vec<Result<Vec<String>, MyError>>,
    every_disk: &Option<Result<StrMap<StrMap<Vec<u8>>>, MyError>>,
) -> (r: Result<Vec<String>, MyError>)
    requires
        lists@.len() == 0 ==> every_disk is Some,
    ensures
        ({
            let ls = lists@.map_values(|l: Result<Vec<String>, MyError>| listing_view(l));
            match first_failure(ls) {
                Some(e) => r matches Err(x) && x@ == e,
                None => if ls.len() == 0 {
                    match *every_disk {
                        Some(Err(e)) => r matches Err(x) && x@ == e@,
                        Some(Ok(m)) => r matches Ok(ids) && ids@.map_values(|s: String| s@).to_set()
                            == files_of_every_disk(m@) && ids@.map_values(|s: String| s@).no_duplicates(),
                        None => false,
                    }
                } else {
                    r matches Ok(ids) && ids@.map_values(|s: String| s@) == common_to_all(
                        listed_ids(ls),
                        ls.len(),
                    )
                },
            }
        }),
{
    let ghost ls = lists@.map_values(|l: Result<Vec<String>, MyError>| listing_view(l));
    let mut files: Vec<Vec<String>> = Vec::new();
    let mut i: usize = 0;
    while i < lists.len()
        invariant
            i <= lists@.len(),
            ls == lists@.map_values(|l: Result<Vec<String>, MyError>| listing_view(l)),
            first_failure(ls.take(i as int)) is None,
            files@.len() == i,
            forall|j: int| 0 <= j < i ==> (#[trigger] files@[j])@.map_values(|s: String| s@) == listed_ids(ls)[j],
        decreases lists.len() - i,
    {
        assert(ls.take(i + 1).drop_last() =~= ls.take(i as int));
        match &lists[i] {
            Ok(v) => {
                files.push(clone_strings(v));
            },
            Err(e) => {
                proof {
                    lemma_failure_persists(ls, i + 1);
                }
                return Err(MyError::from_string(e.to_string()));
            },
        }
        i = i + 1;
    }
    assert(ls.take(ls.len() as int) =~= ls);
    if files.len() == 0 {
        match every_disk {
            Some(Ok(m)) => Ok(all_disk_file_ids(m)),
            Some(Err(e)) => Err(MyError::from_string(e.to_string())),
            None => {
                assert(false);
                Err(MyError::new("no listing selects files"))
            },
        }
    } else {
        let ghost fs = files@.map_values(|v: Vec<String>| v@.map_values(|s: String| s@));
        assert(fs =~= listed_ids(ls));
        Ok(common_file_ids(&files))
    }
}

proof fn lemma_failure_persists(ls: Seq<Result<Seq<Seq<char>>, Seq<char>>>, n: int)
    requires
        0 <= n <= ls.len(),
        first_failure(ls.take(n)) is Some,
    ensures
        first_failure(ls) == first_failure(ls.take(n)),
    decreases ls.len() - n,
{
    if n < ls.len() {
        assert(ls.take(n + 1).drop_last() =~= ls.take(n));
        lemma_failure_persists(ls, n + 1);
    } else {
        assert(ls.take(n) =~= ls);
    }
}

/// What the lookup of a file's user, disk and storage queues found.
pub open spec fn lookup_view(l: Result<(String, String, Vec<StorageType>), MyError>) -> Option<
    (Seq<char>, Seq<char>, Seq<StorageType>),
> {
    match l {
        Ok((u, d, t)) => Some((u@, d@, t@)),
        Err(_) => None,
    }
}

/// The meta information of the first `n` files whose lookup succeeded, in
/// order: id, user, disk and the codes of the storage queues.
pub open spec fn found_meta_info(
    ids: Seq<Seq<char>>,
    lookups: Seq<Option<(Seq<char>, Seq<char>, Seq<StorageType>)>>,
    n: nat,
) -> Seq<(Seq<char>, Seq<char>, Seq<char>, Seq<i32>)>
    decreases n,
{
    if n == 0 {
        Seq::empty()
    } else {
        let r = found_meta_info(ids, lookups, (n - 1) as nat);
        match lookups[n - 1] {
            Some((u, d, t)) => r.push(
                (ids[n - 1], u, d, t.map_values(|s: StorageType| code_of_storage_type(Some(s)))),
            ),
            None => r,
        }
    }
}

/// The answer to a request for meta information holds an entry for a
/// selected file exactly when the lookup of that file succeeded, and the
/// entry carries what the lookup found.
pub proof fn law_found_meta_info(
    ids: Seq<Seq<char>>,
    lookups: Seq<Option<(Seq<char>, Seq<char>, Seq<StorageType>)>>,
    n: nat,
    entry: (Seq<char>, Seq<char>, Seq<char>, Seq<i32>),
)
    requires
        n <= ids.len(),
        n <= lookups.len(),
    ensures
        found_meta_info(ids, lookups, n).contains(entry) <==> exists|i: int|
            0 <= i < n && ids[i] == entry.0 && (#[trigger] lookups[i] matches Some((u, d, t)) && u == entry.1
                && d == entry.2 && t.map_values(|s: StorageType| code_of_storage_type(Some(s))) == entry.3),
    decreases n,
{
    if n > 0 {
        law_found_meta_info(ids, lookups, (n - 1) as nat, entry);
        let r = found_meta_info(ids, lookups, (n - 1) as nat);
        match lookups[n - 1] {
            Some((u, d, t)) => {
                let e = (ids[n - 1], u, d, t.map_values(|s: StorageType| code_of_storage_type(Some(s))));
                assert(r.push(e)[r.len() as int] == e);
                if r.push(e).contains(entry) {
                    let j = choose|j: int| 0 <= j < r.push(e).len() && r.push(e)[j] == entry;
                    if j < r.len() {
                        assert(r[j] == entry);
                    }
                }
                if r.contains(entry) {
                    let j = choose|j: int| 0 <= j < r.len() && r[j] == entry;
                    assert(r.push(e)[j] == entry);
                }
            },
            None => {},
        }
    }
}

/// The answer to a request for meta information that names listings, none
/// of which failed: an entry stands in it exactly when some selected file
/// (one that every listing holds) was looked up with success, and it
/// carries that file's id and what the lookup found.
pub proof fn law_meta_info_answer(
    ls: Seq<Result<Seq<Seq<char>>, Seq<char>>>,
    lookups: Seq<Option<(Seq<char>, Seq<char>, Seq<StorageType>)>>,
    entry: (Seq<char>, Seq<char>, Seq<char>, Seq<i32>),
)
    requires
        ls.len() > 0,
        first_failure(ls) is None,
        lookups.len() == common_to_all(listed_ids(ls), ls.len()).len(),
    ensures
        ({
            let cands = common_to_all(listed_ids(ls), ls.len());
            &&& found_meta_info(cands, lookups, cands.len()).contains(entry) <==> exists|i: int|
                0 <= i < cands.len() && cands[i] == entry.0 && (#[trigger] lookups[i] matches Some(
                    (u, d, t),
                ) && u == entry.1 && d == entry.2 && t.map_values(
                    |s: StorageType| code_of_storage_type(Some(s)),
                ) == entry.3)
            &&& found_meta_info(cands, lookups, cands.len()).contains(entry) ==> forall|j: int|
                0 <= j < ls.len() ==> (#[trigger] listed_ids(ls)[j]).contains(entry.0)
        }),
{
    let files = listed_ids(ls);
    let cands = common_to_all(files, ls.len());
    law_found_meta_info(cands, lookups, cands.len(), entry);
    law_common_file_ids(files, ls.len(), entry.0);
    if found_meta_info(cands, lookups, cands.len()).contains(entry) {
        let i = choose|i: int|
            0 <= i < cands.len() && cands[i] == entry.0 && (#[trigger] lookups[i] matches Some(
                (u, d, t),
            ) && u == entry.1 && d == entry.2 && t.map_values(
                |s: StorageType| code_of_storage_type(Some(s)),
            ) == entry.3);
        assert(cands.contains(entry.0));
    }
}

/// The meta information of one file from the lookups of its disk, its
/// user and its storage queues: the first failed lookup, in that order,
/// gives its error; otherwise the file's id, user, disk and the codes of its
/// storage queues.
pub fn file_meta_info(
    file_id: &str,
    disk: Result<String, MyError>,
    user: Result<String, MyError>,
    types: Result<Vec<StorageType>, MyError>,
) -> (r: Result<(String, String, String, Vec<i32>), MyError>)
    ensures
        match (disk, user, types) {
            (Err(e), _, _) => r matches Err(x) && x@ == e@,
            (Ok(_), Err(e), _) => r matches Err(x) && x@ == e@,
            (Ok(_), Ok(_), Err(e)) => r matches Err(x) && x@ == e@,
            (Ok(d), Ok(u), Ok(t)) => r matches Ok(m) && m.0@ == file_id@ && m.1@ == u@ && m.2@ == d@
                && m.3@ == t@.map_values(|s: StorageType| code_of_storage_type(Some(s))),
        },
{
    let disk_id = match disk {
        Ok(d) => d,
        Err(e) => return Err(e),
    };
    let user_id = match user {
        Ok(u) => u,
        Err(e) => return Err(e),
    };
    let store_types = match types {
        Ok(t) => t,
        Err(e) => return Err(e),
    };
    let codes = store_type_codes(&store_types);
    assert(codes@ =~= store_types@.map_values(|s: StorageType| code_of_storage_type(Some(s))));
    Ok((file_id.to_owned(), user_id, disk_id, codes))
}

/// The meta information of the selected files (`ids`), from the lookup of
/// each one's user, disk and storage queues (`lookups`, in the same order):
/// a file whose lookup failed is left out.
pub fn files_meta_info(
    ids: &Vec<String>,
    lookups: &Vec<Result<(String, String, Vec<StorageType>), MyError>>,
) -> (r: Vec<(String, String, String, Vec<i32>)>)
    requires
        ids@.len() == lookups@.len(),
    ensures
        r@.map_values(|x: (String, String, String, Vec<i32>)| (x.0@, x.1@, x.2@, x.3@)) == found_meta_info(
            ids@.map_values(|s: String| s@),
            lookups@.map_values(|l: Result<(String, String, Vec<StorageType>), MyError>| lookup_view(l)),
            ids@.len(),
        ),
{
    let ghost iv = ids@.map_values(|s: String| s@);
    let ghost lv = lookups@.map_values(|l: Result<(String, String, Vec<StorageType>), MyError>| lookup_view(l));
    let mut r: Vec<(String, String, String, Vec<i32>)> = Vec::new();
    let mut i: usize = 0;
    while i < ids.len()
        invariant
            i <= ids@.len(),
            ids@.len() == lookups@.len(),
            iv == ids@.map_values(|s: String| s@),
            lv == lookups@.map_values(|l: Result<(String, String, Vec<StorageType>), MyError>| lookup_view(l)),
            r@.map_values(|x: (String, String, String, Vec<i32>)| (x.0@, x.1@, x.2@, x.3@)) == found_meta_info(iv, lv, i as nat),
        decreases ids.len() - i,
    {
        let ghost before = r@.map_values(|x: (String, String, String, Vec<i32>)| (x.0@, x.1@, x.2@, x.3@));
        match &lookups[i] {
            Ok((u, d, t)) => {
                let codes = store_type_codes(t);
                assert(codes@ =~= t@.map_values(|s: StorageType| code_of_storage_type(Some(s))));
                r.push((ids[i].clone(), u.clone(), d.clone(), codes));
                assert(r@.map_values(|x: (String, String, String, Vec<i32>)| (x.0@, x.1@, x.2@, x.3@)) =~= before.push(
                    (iv[i as int], u@, d@, t@.map_values(|s: StorageType| code_of_storage_type(Some(s)))),
                ));
            },
            Err(_) => {},
        }
        i = i + 1;
    }
    r
}

/// An id is in the ids common to every list exactly when the first list
/// holds it and every other list holds it too.
pub proof fn law_common_file_ids(files: Seq<Seq<Seq<char>>>, n: nat, id: Seq<char>)
    requires
        1 <= n <= files.len(),
    ensures
        common_to_all(files, n).contains(id) <==> forall|i: int|
            0 <= i < n ==> (#[trigger] files[i]).contains(id),
    decreases n,
{
    if n > 1 {
        law_common_file_ids(files, (n - 1) as nat, id);
        lemma_common_entries_contains(common_to_all(files, (n - 1) as nat), files[n - 1], id);
        if common_to_all(files, n).contains(id) {
            assert forall|i: int| 0 <= i < n implies (#[trigger] files[i]).contains(id) by {
                if i < n - 1 {
                }
            }
        }
    }
}

/// A value is in the common entries of two lists when both hold it.
pub proof fn lemma_common_entries_contains(vec1: Seq<Seq<char>>, vec2: Seq<Seq<char>>, id: Seq<char>)
    ensures
        common_entries(vec1, vec2).contains(id) <==> vec1.contains(id) && vec2.contains(id),
    decreases vec1.len(),
{
    if vec1.len() > 0 {
        let v0 = vec1.drop_last();
        lemma_common_entries_contains(v0, vec2, id);
        let r = common_entries(v0, vec2);
        if vec1.contains(id) && vec2.contains(id) {
            let k = choose|k: int| 0 <= k < vec1.len() && vec1[k] == id;
            if k < vec1.len() - 1 {
                assert(v0[k] == id);
                if vec2.contains(vec1.last()) {
                    let j = choose|j: int| 0 <= j < r.len() && r[j] == id;
                    assert(r.push(vec1.last())[j] == id);
                }
            } else {
                assert(r.push(vec1.last())[r.len() as int] == id);
            }
        }
        if common_entries(vec1, vec2).contains(id) {
            if vec2.contains(vec1.last()) && !r.contains(id) {
                let j = choose|j: int| 0 <= j < r.len() + 1 && r.push(vec1.last())[j] == id;
                if j < r.len() {
                    assert(r[j] == id);
                }
                assert(vec1[vec1.len() - 1] == id);
            } else if r.contains(id) {
                let k = choose|k: int| 0 <= k < v0.len() && v0[k] == id;
                assert(vec1[k] == id);
            }
        }
    }
}

} // verus!
