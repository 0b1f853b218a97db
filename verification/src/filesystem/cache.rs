use vstd::prelude::*;
use crate::filesystem::error::MyError;
use crate::filesystem::UserDiskFilesystem;
use crate::filesystem::concat_str;
use crate::filesystem::default_dirpath;
use crate::filesystem::default_filepath;
use crate::filesystem::disk_filepath;
use crate::filesystem::user_filepath;
use crate::filesystem::disk_missing_message;
use crate::filesystem::user_missing_message;
use crate::filesystem::id_of_link;
use crate::filesystem::owner_link_steps;
use crate::filesystem::owner_removal_steps;
use crate::filesystem::disk_link_path;
use crate::filesystem::user_link_path;
use crate::filesystem::law_links_give_ids_back;
use crate::filesystem::lemma_owner_removal_covers;
use crate::filesystem::path::is_plain_name;
use crate::filesystem::path::lemma_file_name_of_join;
use crate::filesystem::path::no_separators;
use crate::filesystem::path::join_names;
use crate::filesystem::plan::creates;
use crate::filesystem::plan::removes;
use crate::filesystem::plan::lemma_creates_concat;
use crate::filesystem::plan::lemma_removes_part;
use crate::filesystem::result_view;
use crate::filesystem::symlink_target_spec;
use crate::filesystem::path::file_name;
use crate::filesystem::path::file_name_spec;
use crate::filesystem::path::opt_view;
use crate::filesystem::plan::FsOp;
use crate::filesystem::plan::FsOpView;
use crate::filesystem::plan::Step;
use crate::filesystem::plan::StepView;
use crate::filesystem::plan::may;
use crate::filesystem::plan::must;
use crate::filesystem::plan::plan_view;
use crate::filesystem::plan::push_may;
use crate::filesystem::plan::push_must;
use crate::storage_type::StorageType;
use crate::filesystem::strmap::StrMap;
use crate::filesystem::copy_vec;
use crate::filesystem::entry_view;
use crate::filesystem::files_of_entries;

verus! {

pub open spec fn upload_dir() -> Seq<char> {
    "upload"@
}

pub open spec fn download_dir() -> Seq<char> {
    "download"@
}

/// The storage directories of the cache, each with the queue it holds, in
/// the order the cache walks them.
pub open spec fn cache_store_paths() -> Seq<(StorageType, Seq<char>)> {
    seq![(StorageType::UploadQueue, upload_dir()), (StorageType::DownloadQueue, download_dir())]
}

/// The directory of a storage queue, if the cache keeps one for it.
pub open spec fn store_dir_of(store: StorageType) -> Option<Seq<char>> {
    match store {
        StorageType::UploadQueue => Some(upload_dir()),
        StorageType::DownloadQueue => Some(download_dir()),
        _ => None,
    }
}

pub open spec fn no_store_location_message() -> Seq<char> {
    "Could not get location for storage type"@
}

/// The view of a plan or of the error that stands in its place.
pub open spec fn plan_result_view(r: Result<Vec<Step>, MyError>) -> Result<Seq<StepView>, Seq<char>> {
    match r {
        Ok(steps) => Ok(plan_view(steps@)),
        Err(e) => Err(e@),
    }
}

pub open spec fn opt_str_view(o: Option<&str>) -> Option<Seq<char>> {
    match o {
        Some(s) => Some(s@),
        None => None,
    }
}

/// Where a file's entry for a storage queue is: in the given directory, or
/// else in the queue's directory.
pub open spec fn store_type_filepath_spec(
    store: StorageType,
    file_id: Seq<char>,
    dir: Option<Seq<char>>,
) -> Result<Seq<char>, Seq<char>> {
    match dir {
        Some(d) => Ok(d + seq!['/'] + file_id),
        None => match store_dir_of(store) {
            Some(d) => Ok(d + seq!['/'] + file_id),
            None => Err(no_store_location_message()),
        },
    }
}

/// The entries of `items` whose flag is set.
pub open spec fn selected<T>(items: Seq<T>, flags: Seq<bool>) -> Seq<T>
    decreases items.len(),
{
    if items.len() == 0 {
        Seq::empty()
    } else {
        let r = selected(items.drop_last(), flags.drop_last());
        if flags.last() {
            r.push(items.last())
        } else {
            r
        }
    }
}

pub open spec fn store_dirs() -> Seq<Seq<char>> {
    seq![upload_dir(), download_dir()]
}

pub open spec fn store_types() -> Seq<StorageType> {
    seq![StorageType::UploadQueue, StorageType::DownloadQueue]
}

/// The storage directories whose link in a file's directory is present.
pub open spec fn dirs_from_presence(present: Seq<bool>) -> Option<Seq<Seq<char>>> {
    let dirs = selected(store_dirs(), present);
    if dirs.len() == 0 {
        None
    } else {
        Some(dirs)
    }
}

/// The steps that put a file in the directory of its storage queue: the
/// directory, a hard link to the content in it, and a symbolic link from the
/// file's directory (whose failure is only reported).
pub open spec fn store_steps(file_id: Seq<char>, store: Option<StorageType>) -> Seq<StepView> {
    match store {
        Some(s) => match store_dir_of(s) {
            Some(d) => {
                let link = default_dirpath(file_id) + seq!['/'] + d;
                seq![
                    must(FsOpView::CreateDir(d)),
                    must(FsOpView::HardLink(default_filepath(file_id), d + seq!['/'] + file_id)),
                    may(FsOpView::SymLink(symlink_target_spec(d, link, Some(true), false), link)),
                ]
            },
            None => Seq::empty(),
        },
        None => Seq::empty(),
    }
}

/// What `create_file` of the cache does: the file's directory and content,
/// its storage queue entry, and its user and disk entries.
pub open spec fn cache_create_steps(
    file_id: Seq<char>,
    user_id: Seq<char>,
    disk_id: Seq<char>,
    store: Option<StorageType>,
) -> Seq<StepView> {
    seq![
        must(FsOpView::CreateDir(default_dirpath(file_id))),
        must(FsOpView::WriteFile(default_filepath(file_id))),
    ] + store_steps(file_id, store) + owner_link_steps(file_id, user_id, disk_id)
}

/// The steps that remove each of the given storage entries of a file.
pub open spec fn store_removal_steps(dirs: Seq<Seq<char>>, file_id: Seq<char>) -> Seq<StepView>
    decreases dirs.len(),
{
    if dirs.len() == 0 {
        Seq::empty()
    } else {
        store_removal_steps(dirs.drop_last(), file_id).push(
            must(FsOpView::RemoveFile(dirs.last() + seq!['/'] + file_id)),
        )
    }
}

/// What `remove_file` of the cache does, given what its disk and user links
/// read back and which storage links of the file are present: first its
/// storage entries, then its directory, then its disk and user entries.
pub open spec fn cache_remove_plan(
    file_id: Seq<char>,
    disk_link: Result<Seq<char>, Seq<char>>,
    user_link: Result<Seq<char>, Seq<char>>,
    present: Seq<bool>,
) -> Result<Seq<StepView>, Seq<char>> {
    match id_of_link(disk_link, disk_missing_message()) {
        Err(e) => Err(e),
        Ok(disk_id) => match id_of_link(user_link, user_missing_message()) {
            Err(e) => Err(e),
            Ok(user_id) => Ok(
                store_removal_steps(selected(store_dirs(), present), file_id) + owner_removal_steps(
                    file_id,
                    disk_id,
                    user_id,
                ),
            ),
        },
    }
}

/// Which storage probe paths of a file exist once `create_file` with
/// `store` has run all its steps: the link to the directory of its queue.
pub open spec fn store_links_after_create(store: Option<StorageType>) -> Seq<bool> {
    seq![store == Some(StorageType::UploadQueue), store == Some(StorageType::DownloadQueue)]
}

/// `remove_file` undoes `create_file`: when the links that `create_file`
/// made are read back, the removal is planned, and it removes every file and
/// link that `create_file` made (its content, its storage entry, its user
/// and disk entries, and the links in its directory), for plain ids.
pub proof fn law_cache_remove_undoes_create(
    file_id: Seq<char>,
    user_id: Seq<char>,
    disk_id: Seq<char>,
    store: Option<StorageType>,
)
    requires
        is_plain_name(file_id),
        is_plain_name(user_id),
        is_plain_name(disk_id),
    ensures
        cache_remove_plan(
            file_id,
            Ok(
                symlink_target_spec(
                    disk_filepath(disk_id, Seq::empty()),
                    disk_link_path(file_id),
                    Some(true),
                    false,
                ),
            ),
            Ok(
                symlink_target_spec(
                    user_filepath(user_id, Seq::empty()),
                    user_link_path(file_id),
                    Some(true),
                    false,
                ),
            ),
            store_links_after_create(store),
        ) matches Ok(remove) && forall|path: Seq<char>|
            creates(cache_create_steps(file_id, user_id, disk_id, store), path) ==> removes(
                remove,
                path,
            ),
{
    law_links_give_ids_back(file_id, user_id, disk_id, false);
    lemma_owner_removal_covers(file_id, user_id, disk_id);
    reveal_with_fuel(selected, 3);
    reveal_with_fuel(store_removal_steps, 2);
    let presence = store_links_after_create(store);
    let sel = selected(store_dirs(), presence);
    let own = owner_removal_steps(file_id, disk_id, user_id);
    let remove = store_removal_steps(sel, file_id) + own;
    let k = store_removal_steps(sel, file_id).len() as int;
    assert(remove.subrange(k, k + own.len()) =~= own);
    let dirpath = default_dirpath(file_id);
    let head = seq![
        must(FsOpView::CreateDir(default_dirpath(file_id))),
        must(FsOpView::WriteFile(default_filepath(file_id))),
    ];
    let st = store_steps(file_id, store);
    let owners = owner_link_steps(file_id, user_id, disk_id);
    assert forall|path: Seq<char>|
        creates(cache_create_steps(file_id, user_id, disk_id, store), path) implies removes(
        remove,
        path,
    ) by {
        lemma_creates_concat(head + st, owners, path);
        if creates(owners, path) {
            lemma_removes_part(remove, k, own, path);
        } else {
            lemma_creates_concat(head, st, path);
            if creates(head, path) {
                let i = choose|i: int|
                    0 <= i < head.len() && match #[trigger] head[i].op {
                        FsOpView::WriteFile(p) => p == path,
                        FsOpView::HardLink(_, l) => l == path,
                        FsOpView::SymLink(_, l) => l == path,
                        _ => false,
                    };
                assert(i == 1);
                assert(path =~= dirpath + seq!['/'] + seq!['f', 'i', 'l', 'e']);
                assert(removes(own, dirpath + seq!['/'] + seq!['f', 'i', 'l', 'e']));
                lemma_removes_part(remove, k, own, path);
            } else {
                let i = choose|i: int|
                    0 <= i < st.len() && match #[trigger] st[i].op {
                        FsOpView::WriteFile(p) => p == path,
                        FsOpView::HardLink(_, l) => l == path,
                        FsOpView::SymLink(_, l) => l == path,
                        _ => false,
                    };
                let s = store->Some_0;
                let d = store_dir_of(s)->Some_0;
                assert(sel =~= seq![d]) by {
                    reveal_strlit("upload");
                    reveal_strlit("download");
                    assert(store_dirs().drop_last() =~= seq![upload_dir()]);
                    assert(presence.drop_last() =~= seq![presence[0]]);
                    assert(seq![upload_dir()].drop_last() =~= Seq::<Seq<char>>::empty());
                }
                if i == 1 {
                    assert(remove[0].op == FsOpView::RemoveFile(d + seq!['/'] + file_id));
                } else {
                    assert(i == 2);
                    assert(removes(own, dirpath + seq!['/'] + d));
                    lemma_removes_part(remove, k, own, path);
                }
            }
        }
    }
}

/// A file's entry in a storage directory adds the directory's queue to the
/// file's queues.
pub open spec fn add_store_type(
    m: Map<Seq<char>, Seq<StorageType>>,
    id: Seq<char>,
    store: StorageType,
) -> Map<Seq<char>, Seq<StorageType>> {
    m.insert(
        id,
        if m.contains_key(id) {
            m[id].push(store)
        } else {
            seq![store]
        },
    )
}

/// The queues of files after the entries of the storage directory of
/// `store`: each entry whose path names a file id adds `store` to it.
pub open spec fn group_entries(
    m: Map<Seq<char>, Seq<StorageType>>,
    store: StorageType,
    paths: Seq<Seq<char>>,
) -> Map<Seq<char>, Seq<StorageType>>
    decreases paths.len(),
{
    if paths.len() == 0 {
        m
    } else {
        let m1 = group_entries(m, store, paths.drop_last());
        match file_name_spec(paths.last()) {
            Some(id) => add_store_type(m1, id, store),
            None => m1,
        }
    }
}

/// The queues of files after the entries of the first `n` storage
/// directories.
pub open spec fn group_stores(entries: Seq<Seq<Seq<char>>>, n: nat) -> Map<Seq<char>, Seq<StorageType>>
    decreases n,
{
    if n == 0 {
        Map::empty()
    } else {
        group_entries(group_stores(entries, (n - 1) as nat), store_types()[n - 1], entries[n - 1])
    }
}

pub open spec fn no_store_types_message() -> Seq<char> {
    "Could not get all file store types"@
}

/// The names of the entries whose paths have one.
pub open spec fn entry_names(paths: Seq<Seq<char>>) -> Seq<Seq<char>>
    decreases paths.len(),
{
    if paths.len() == 0 {
        Seq::empty()
    } else {
        let r = entry_names(paths.drop_last());
        match file_name_spec(paths.last()) {
            Some(n) => r.push(n),
            None => r,
        }
    }
}


/// The names of entries are the final names of their paths (what
/// `Path::file_name` gives), whatever directory they are in: exactly those
/// of the paths that have one, in the order of the paths.
pub proof fn law_entry_names_are_file_names(paths: Seq<Seq<char>>)
    ensures
        entry_names(paths) == paths.filter(|p: Seq<char>| file_name_spec(p) is Some).map_values(
            |p: Seq<char>| file_name_spec(p)->Some_0,
        ),
    decreases paths.len(),
{
    reveal(Seq::filter);
    if paths.len() > 0 {
        law_entry_names_are_file_names(paths.drop_last());
        let pred = |p: Seq<char>| file_name_spec(p) is Some;
        let f = |p: Seq<char>| file_name_spec(p)->Some_0;
        let sub = paths.drop_last().filter(pred);
        if pred(paths.last()) {
            assert(sub.push(paths.last()).map_values(f) =~= sub.map_values(f).push(f(paths.last())));
        }
    }
}

/// The entries `<dir>/<id>` of a storage directory, for plain names, give
/// back their ids, in order.
pub proof fn law_store_entries_give_ids(dir: Seq<char>, ids: Seq<Seq<char>>)
    requires
        is_plain_name(dir),
        forall|i: int| 0 <= i < ids.len() ==> is_plain_name(#[trigger] ids[i]),
    ensures
        entry_names(ids.map_values(|id: Seq<char>| dir + seq!['/'] + id)) == ids,
    decreases ids.len(),
{
    let paths = ids.map_values(|id: Seq<char>| dir + seq!['/'] + id);
    if ids.len() > 0 {
        let front = ids.drop_last();
        law_store_entries_give_ids(dir, front);
        assert(paths.drop_last() =~= front.map_values(|id: Seq<char>| dir + seq!['/'] + id));
        let id = ids.last();
        assert(is_plain_name(ids[ids.len() - 1]));
        let ns = seq![dir, id];
        assert(ns.drop_last() =~= seq![dir]);
        assert(join_names(seq![dir]) == dir);
        assert(ns.last() == id);
        assert(join_names(ns) == dir + seq!['/'] + id);
        assert(no_separators(ns));
        lemma_file_name_of_join(ns);
        assert(paths.last() == dir + seq!['/'] + id);
        assert(ids =~= front.push(id));
    } else {
        assert(ids =~= Seq::<Seq<char>>::empty());
    }
}

/// Adding the queues of entries keeps every queue a file had.
proof fn lemma_group_entries_keeps(
    m: Map<Seq<char>, Seq<StorageType>>,
    store: StorageType,
    paths: Seq<Seq<char>>,
    id: Seq<char>,
    q: StorageType,
)
    requires
        m.contains_key(id),
        m[id].contains(q),
    ensures
        group_entries(m, store, paths).contains_key(id),
        group_entries(m, store, paths)[id].contains(q),
    decreases paths.len(),
{
    if paths.len() > 0 {
        lemma_group_entries_keeps(m, store, paths.drop_last(), id, q);
        let m1 = group_entries(m, store, paths.drop_last());
        if let Some(k) = file_name_spec(paths.last()) {
            if k == id {
                let j = choose|j: int| 0 <= j < m1[id].len() && m1[id][j] == q;
                assert(m1[id].push(store)[j] == q);
            }
        }
    }
}

/// Every entry that names a file puts the queue of its directory among
/// that file's queues; and a file has queues only when it had some or an
/// entry names it.
proof fn lemma_group_entries_adds(
    m: Map<Seq<char>, Seq<StorageType>>,
    store: StorageType,
    paths: Seq<Seq<char>>,
)
    ensures
        forall|i: int|
            0 <= i < paths.len() && (#[trigger] file_name_spec(paths[i])) is Some ==> group_entries(
                m,
                store,
                paths,
            ).contains_key(file_name_spec(paths[i])->Some_0) && group_entries(m, store, paths)[file_name_spec(
                paths[i],
            )->Some_0].contains(store),
        forall|k: Seq<char>|
            #[trigger] group_entries(m, store, paths).contains_key(k) ==> m.contains_key(k) || exists|i: int|
                0 <= i < paths.len() && file_name_spec(paths[i]) == Some(k),
    decreases paths.len(),
{
    if paths.len() > 0 {
        let front = paths.drop_last();
        lemma_group_entries_adds(m, store, front);
        let m1 = group_entries(m, store, front);
        let r = group_entries(m, store, paths);
        assert forall|i: int|
            0 <= i < paths.len() && (#[trigger] file_name_spec(paths[i])) is Some implies r.contains_key(
                file_name_spec(paths[i])->Some_0,
            ) && r[file_name_spec(paths[i])->Some_0].contains(store) by {
            let k = file_name_spec(paths[i])->Some_0;
            if i == paths.len() - 1 {
                let v = if m1.contains_key(k) {
                    m1[k].push(store)
                } else {
                    seq![store]
                };
                assert(v[v.len() - 1] == store);
            } else {
                assert(front[i] == paths[i]);
                assert(m1.contains_key(k) && m1[k].contains(store));
                if file_name_spec(paths.last()) == Some(k) {
                    let v = m1[k].push(store);
                    assert(v[v.len() - 1] == store);
                }
            }
        }
        assert forall|k: Seq<char>| #[trigger] r.contains_key(k) implies m.contains_key(k) || exists|i: int|
            0 <= i < paths.len() && file_name_spec(paths[i]) == Some(k) by {
            if m1.contains_key(k) && !m.contains_key(k) {
                let i = choose|i: int| 0 <= i < front.len() && file_name_spec(front[i]) == Some(k);
                assert(front[i] == paths[i]);
            }
            if !m1.contains_key(k) {
                assert(file_name_spec(paths[paths.len() - 1]) == Some(k));
            }
        }
    }
}

/// The queues of files read from the storage directories (the entries of
/// `upload`, then of `download`): every entry that names a file puts the
/// queue of its directory among that file's queues, and only the files that
/// some entry names have queues.
pub proof fn law_grouped_store_types(entries: Seq<Seq<Seq<char>>>)
    requires
        entries.len() == 2,
    ensures
        forall|i: int|
            0 <= i < entries[0].len() && (#[trigger] file_name_spec(entries[0][i])) is Some ==> group_stores(
                entries,
                2,
            ).contains_key(file_name_spec(entries[0][i])->Some_0) && group_stores(entries, 2)[file_name_spec(
                entries[0][i],
            )->Some_0].contains(StorageType::UploadQueue),
        forall|i: int|
            0 <= i < entries[1].len() && (#[trigger] file_name_spec(entries[1][i])) is Some ==> group_stores(
                entries,
                2,
            ).contains_key(file_name_spec(entries[1][i])->Some_0) && group_stores(entries, 2)[file_name_spec(
                entries[1][i],
            )->Some_0].contains(StorageType::DownloadQueue),
        forall|k: Seq<char>|
            #[trigger] group_stores(entries, 2).contains_key(k) ==> exists|d: int, i: int|
                0 <= d < 2 && 0 <= i < entries[d].len() && file_name_spec(entries[d][i]) == Some(k),
{
    let m0 = Map::<Seq<char>, Seq<StorageType>>::empty();
    let m1 = group_stores(entries, 1);
    let m2 = group_stores(entries, 2);
    assert(group_stores(entries, 0) == m0);
    assert(m1 == group_entries(m0, StorageType::UploadQueue, entries[0]));
    assert(m2 == group_entries(m1, StorageType::DownloadQueue, entries[1]));
    lemma_group_entries_adds(m0, StorageType::UploadQueue, entries[0]);
    lemma_group_entries_adds(m1, StorageType::DownloadQueue, entries[1]);
    assert forall|i: int|
        0 <= i < entries[0].len() && (#[trigger] file_name_spec(entries[0][i])) is Some implies m2.contains_key(
            file_name_spec(entries[0][i])->Some_0,
        ) && m2[file_name_spec(entries[0][i])->Some_0].contains(StorageType::UploadQueue) by {
        let k = file_name_spec(entries[0][i])->Some_0;
        lemma_group_entries_keeps(m1, StorageType::DownloadQueue, entries[1], k, StorageType::UploadQueue);
    }
    assert forall|k: Seq<char>| #[trigger] m2.contains_key(k) implies exists|d: int, i: int|
        0 <= d < 2 && 0 <= i < entries[d].len() && file_name_spec(entries[d][i]) == Some(k) by {
        if exists|i: int| 0 <= i < entries[1].len() && file_name_spec(entries[1][i]) == Some(k) {
            let i = choose|i: int| 0 <= i < entries[1].len() && file_name_spec(entries[1][i]) == Some(k);
            assert(0 <= 1int < 2 && 0 <= i < entries[1].len() && file_name_spec(entries[1][i]) == Some(k));
        } else {
            assert(m1.contains_key(k));
            let i = choose|i: int| 0 <= i < entries[0].len() && file_name_spec(entries[0][i]) == Some(k);
            assert(0 <= 0int < 2 && 0 <= i < entries[0].len() && file_name_spec(entries[0][i]) == Some(k));
        }
    }
}

/// A file created with a storage queue that the cache keeps a directory
/// for gets its entry in that directory, and the queues read back for it
/// (from which of its storage entries exist) are that queue alone; created
/// with another queue or none, it is in no queue.
pub proof fn law_store_types_after_create(
    file_id: Seq<char>,
    user_id: Seq<char>,
    disk_id: Seq<char>,
    store: Option<StorageType>,
)
    ensures
        store is Some && store_dir_of(store->Some_0) is Some ==> creates(
            cache_create_steps(file_id, user_id, disk_id, store),
            store_dir_of(store->Some_0)->Some_0 + seq!['/'] + file_id,
        ),
        selected(store_types(), store_links_after_create(store)) == match store {
            Some(s) => if store_dir_of(s) is Some {
                seq![s]
            } else {
                Seq::<StorageType>::empty()
            },
            None => Seq::<StorageType>::empty(),
        },
{
    reveal_with_fuel(selected, 3);
    let presence = store_links_after_create(store);
    assert(store_types().drop_last() =~= seq![StorageType::UploadQueue]);
    assert(presence.drop_last() =~= seq![presence[0]]);
    assert(seq![StorageType::UploadQueue].drop_last() =~= Seq::<StorageType>::empty());
    if store is Some && store_dir_of(store->Some_0) is Some {
        let d = store_dir_of(store->Some_0)->Some_0;
        let steps = cache_create_steps(file_id, user_id, disk_id, store);
        assert(steps.len() > 3);
        assert(steps[3].op == FsOpView::HardLink(default_filepath(file_id), d + seq!['/'] + file_id));
        assert(creates(steps, d + seq!['/'] + file_id));
    }
}

/// The filesystem of a vault that caches files in storage queues before
/// they are sent on.
#[derive(Debug)]
pub struct CacheFS {
    store_paths: Vec<(StorageType, String)>,
}

impl CacheFS {
    #[verifier::type_invariant]
    spec fn inv(self) -> bool {
        &&& self.store_paths@.len() == 2
        &&& self.store_paths@[0].0 == StorageType::UploadQueue
        &&& self.store_paths@[0].1@ == upload_dir()
        &&& self.store_paths@[1].0 == StorageType::DownloadQueue
        &&& self.store_paths@[1].1@ == download_dir()
    }

    /// The storage directories of the cache, each with the queue it holds,
    /// in the order the cache walks them.
    pub closed spec fn store_paths_view(&self) -> Seq<(StorageType, Seq<char>)> {
        self.store_paths@.map_values(|p: (StorageType, String)| (p.0, p.1@))
    }

    /// The cache with its storage directories: `upload` for the upload
    /// queue, `download` for the download queue. Its home directory and base
    /// directories are set up by running `base_dirs_plan`.
    pub fn new() -> (fs: CacheFS)
        ensures
            fs.store_paths_view() == cache_store_paths(),
    {
        let mut map: Vec<(StorageType, String)> = Vec::new();
        map.push((StorageType::UploadQueue, "upload".to_owned()));
        map.push((StorageType::DownloadQueue, "download".to_owned()));
        let fs = CacheFS { store_paths: map };
        assert(fs.store_paths_view() =~= cache_store_paths());
        fs
    }

    /// The directory of a storage queue, if the cache keeps one for it.
    pub fn get_store_type_dir(&self, store: &StorageType) -> (r: Option<String>)
        ensures
            opt_view(r) == store_dir_of(*store),
    {
        proof {
            use_type_invariant(self);
            reveal_strlit("upload");
            reveal_strlit("download");
        }
        if let StorageType::NoQueue = store {
            return None;
        }
        let mut i: usize = 0;
        while i < self.store_paths.len()
            invariant
                i <= self.store_paths@.len(),
                self.store_paths@.len() == 2,
                self.store_paths@[0].0 == StorageType::UploadQueue,
                self.store_paths@[0].1@ == upload_dir(),
                self.store_paths@[1].0 == StorageType::DownloadQueue,
                self.store_paths@[1].1@ == download_dir(),
                forall|j: int| 0 <= j < i ==> self.store_paths@[j].0 != *store,
            decreases self.store_paths.len() - i,
        {
            if self.store_paths[i].0 == *store {
                return Some(self.store_paths[i].1.clone());
            }
            i = i + 1;
        }
        None
    }

    /// Where a file's entry for a storage queue is: in `store_type_dir` when
    /// given, else in the queue's directory.
    pub fn get_store_type_filepath(
        &self,
        store: &StorageType,
        file_id: &str,
        store_type_dir: Option<&str>,
    ) -> (r: Result<String, MyError>)
        ensures
            result_view(r) == store_type_filepath_spec(*store, file_id@, opt_str_view(store_type_dir)),
    {
        let storage_dir: String = match store_type_dir {
            Some(dir) => dir.to_owned(),
            None => match self.get_store_type_dir(store) {
                Some(dir) => dir,
                None => {
                    return Err(MyError::new("Could not get location for storage type"));
                },
            },
        };
        proof {
            reveal_strlit("/");
        }
        assert(match opt_str_view(store_type_dir) {
            Some(d) => storage_dir@ == d,
            None => store_dir_of(*store) == Some(storage_dir@),
        });
        let path = concat_str(concat_str(storage_dir, "/"), file_id);
        assert("/"@ == seq!['/']);
        assert(result_view(Ok(path)) == store_type_filepath_spec(*store, file_id@, opt_str_view(store_type_dir)));
        Ok(path)
    }

    /// The paths whose existence tells which storage queues a file's
    /// directory links to (one for each storage directory, in order).
    pub fn store_type_probe_paths(&self, file_id: &str) -> (r: Vec<String>)
        ensures
            r@.len() == 2,
            r@[0]@ == default_dirpath(file_id@) + seq!['/'] + upload_dir(),
            r@[1]@ == default_dirpath(file_id@) + seq!['/'] + download_dir(),
    {
        proof {
            use_type_invariant(self);
            reveal_strlit("/");
        }
        let dirpath = self.get_default_dirpath(file_id);
        let mut r: Vec<String> = Vec::new();
        r.push(concat_str(concat_str(dirpath.clone(), "/"), self.store_paths[0].1.as_str()));
        r.push(concat_str(concat_str(dirpath, "/"), self.store_paths[1].1.as_str()));
        r
    }

    /// The storage directories of a file, from which of its probe paths
    /// exist: `None` when none does.
    pub fn get_store_type_dirs_from_file(&self, present: &Vec<bool>) -> (r: Option<Vec<String>>)
        requires
            present@.len() == 2,
        ensures
            match r {
                Some(v) => dirs_from_presence(present@) == Some(v@.map_values(|s: String| s@)),
                None => dirs_from_presence(present@) is None,
            },
    {
        proof {
            use_type_invariant(self);
        }
        let mut store_type_dirs: Vec<String> = Vec::new();
        let ghost items = store_dirs();
        let mut i: usize = 0;
        while i < 2
            invariant
                i <= 2,
                present@.len() == 2,
                self.store_paths@.len() == 2,
                self.store_paths@[0].1@ == upload_dir(),
                self.store_paths@[1].1@ == download_dir(),
                items == store_dirs(),
                store_type_dirs@.map_values(|s: String| s@) == selected(
                    items.take(i as int),
                    present@.take(i as int),
                ),
            decreases 2 - i,
        {
            assert(items.take(i + 1).drop_last() =~= items.take(i as int));
            assert(present@.take(i + 1).drop_last() =~= present@.take(i as int));
            if present[i] {
                store_type_dirs.push(self.store_paths[i].1.clone());
            }
            assert(store_type_dirs@.map_values(|s: String| s@) =~= selected(
                items.take(i + 1),
                present@.take(i + 1),
            ));
            i = i + 1;
        }
        assert(items.take(2) =~= items);
        assert(present@.take(2) =~= present@);
        if store_type_dirs.len() == 0 {
            None
        } else {
            Some(store_type_dirs)
        }
    }

    /// The paths whose existence tells in which storage queues a file is
    /// (its entry in each storage directory, in order).
    pub fn file_store_type_probe_paths(&self, file_id: &str) -> (r: Vec<String>)
        ensures
            r@.len() == 2,
            r@[0]@ == upload_dir() + seq!['/'] + file_id@,
            r@[1]@ == download_dir() + seq!['/'] + file_id@,
    {
        proof {
            use_type_invariant(self);
            reveal_strlit("/");
        }
        let mut r: Vec<String> = Vec::new();
        r.push(concat_str(concat_str(self.store_paths[0].1.clone(), "/"), file_id));
        r.push(concat_str(concat_str(self.store_paths[1].1.clone(), "/"), file_id));
        r
    }

    /// The storage queues of a file, from which of its storage entries
    /// exist (its probe paths).
    pub fn get_file_store_types(&self, present: &Vec<bool>) -> (r: Result<Vec<StorageType>, MyError>)
        requires
            present@.len() == 2,
        ensures
            r matches Ok(v) && v@ == selected(store_types(), present@),
            r is Ok,
    {
        proof {
            use_type_invariant(self);
        }
        let mut store_types_found: Vec<StorageType> = Vec::new();
        let ghost items = store_types();
        let mut i: usize = 0;
        while i < 2
            invariant
                i <= 2,
                present@.len() == 2,
                self.store_paths@.len() == 2,
                self.store_paths@[0].0 == StorageType::UploadQueue,
                self.store_paths@[1].0 == StorageType::DownloadQueue,
                items == store_types(),
                store_types_found@ == selected(items.take(i as int), present@.take(i as int)),
            decreases 2 - i,
        {
            assert(items.take(i + 1).drop_last() =~= items.take(i as int));
            assert(present@.take(i + 1).drop_last() =~= present@.take(i as int));
            if present[i] {
                store_types_found.push(self.store_paths[i].0);
            }
            assert(store_types_found@ =~= selected(items.take(i + 1), present@.take(i + 1)));
            i = i + 1;
        }
        assert(items.take(2) =~= items);
        assert(present@.take(2) =~= present@);
        Ok(store_types_found)
    }

    /// The storage queues of several files, from which of each file's
    /// storage entries exist.
    pub fn get_files_store_types(&self, presence: &Vec<Vec<bool>>) -> (r: Result<
        Vec<Vec<StorageType>>,
        MyError,
    >)
        requires
            forall|i: int| 0 <= i < presence@.len() ==> (#[trigger] presence@[i])@.len() == 2,
        ensures
            r matches Ok(v) && v@.len() == presence@.len() && forall|i: int|
                0 <= i < v@.len() ==> (#[trigger] v@[i])@ == selected(store_types(), presence@[i]@),
    {
        let mut store_types_of: Vec<Vec<StorageType>> = Vec::new();
        let mut k: usize = 0;
        while k < presence.len()
            invariant
                k <= presence@.len(),
                forall|i: int| 0 <= i < presence@.len() ==> (#[trigger] presence@[i])@.len() == 2,
                store_types_of@.len() == k,
                forall|i: int|
                    0 <= i < k ==> (#[trigger] store_types_of@[i])@ == selected(
                        store_types(),
                        presence@[i]@,
                    ),
            decreases presence.len() - k,
        {
            match self.get_file_store_types(&presence[k]) {
                Ok(types) => store_types_of.push(types),
                Err(_) => {
                    let mut none: Vec<StorageType> = Vec::new();
                    none.push(StorageType::NoQueue);
                    store_types_of.push(none);
                },
            }
            k = k + 1;
        }
        Ok(store_types_of)
    }

    /// The storage queues of every file, from the entries of each storage
    /// directory (its entries' paths, in order; none when it cannot be read);
    /// an error when no file is in any queue.
    pub fn get_all_files_store_types(&self, entries: &Vec<Vec<String>>) -> (r: Result<
        StrMap<Vec<StorageType>>,
        MyError,
    >)
        requires
            entries@.len() == 2,
        ensures
            ({
                let es = entries@.map_values(|v: Vec<String>| v@.map_values(|p: String| p@));
                let m = group_stores(es, 2);
                &&& r matches Ok(map) ==> map@.map_values(|v: Vec<StorageType>| v@) == m && m
                    != Map::<Seq<char>, Seq<StorageType>>::empty()
                &&& r matches Err(e) ==> m == Map::<Seq<char>, Seq<StorageType>>::empty() && e@
                    == no_store_types_message()
            }),
    {
        proof {
            use_type_invariant(self);
        }
        let ghost es = entries@.map_values(|v: Vec<String>| v@.map_values(|p: String| p@));
        let mut store_types_map: StrMap<Vec<StorageType>> = StrMap::new();
        assert(store_types_map@.map_values(|v: Vec<StorageType>| v@) =~= Map::<
            Seq<char>,
            Seq<StorageType>,
        >::empty());
        let mut i: usize = 0;
        while i < 2
            invariant
                i <= 2,
                entries@.len() == 2,
                es == entries@.map_values(|v: Vec<String>| v@.map_values(|p: String| p@)),
                self.store_paths@.len() == 2,
                self.store_paths@[0].0 == StorageType::UploadQueue,
                self.store_paths@[1].0 == StorageType::DownloadQueue,
                store_types_map@.map_values(|v: Vec<StorageType>| v@) == group_stores(es, i as nat),
            decreases 2 - i,
        {
            let store_type = self.store_paths[i].0;
            let paths = &entries[i];
            let ghost ps = es[i as int];
            let ghost start = group_stores(es, i as nat);
            assert(ps == paths@.map_values(|p: String| p@));
            let mut j: usize = 0;
            while j < paths.len()
                invariant
                    j <= paths@.len(),
                    ps == paths@.map_values(|p: String| p@),
                    store_types_map@.map_values(|v: Vec<StorageType>| v@) == group_entries(
                        start,
                        store_type,
                        ps.take(j as int),
                    ),
                decreases paths.len() - j,
            {
                assert(ps.take(j + 1).drop_last() =~= ps.take(j as int));
                assert(ps.take(j + 1).last() == paths@[j as int]@);
                match self.get_fileid_from_path(paths[j].as_str()) {
                    Ok(file_id) => {
                        let ghost before = store_types_map@.map_values(|v: Vec<StorageType>| v@);
                        let mut types = match store_types_map.get(file_id.as_str()) {
                            Some(v) => copy_vec(v),
                            None => Vec::new(),
                        };
                        types.push(store_type);
                        let ghost key = file_id@;
                        let ghost value = types@;
                        store_types_map.insert(file_id, types);
                        assert(store_types_map@.map_values(|v: Vec<StorageType>| v@) =~= add_store_type(
                            before,
                            key,
                            store_type,
                        ));
                    },
                    Err(_) => {},
                }
                j = j + 1;
            }
            assert(ps.take(ps.len() as int) =~= ps);
            i = i + 1;
        }
        if store_types_map.is_empty() {
            assert(store_types_map@.map_values(|v: Vec<StorageType>| v@) =~= Map::<
                Seq<char>,
                Seq<StorageType>,
            >::empty());
            return Err(MyError::new("Could not get all file store types"));
        }
        proof {
            if group_stores(es, 2) == Map::<Seq<char>, Seq<StorageType>>::empty() {
                assert(store_types_map@.dom() =~= store_types_map@.map_values(
                    |v: Vec<StorageType>| v@,
                ).dom());
            }
        }
        Ok(store_types_map)
    }

    /// The files in the directory of a storage queue, from the paths of its
    /// entries: their names; none when the cache keeps no directory for the
    /// queue.
    pub fn get_store_type_files(&self, store_type: StorageType, entries: &Vec<String>) -> (r: Result<
        Vec<String>,
        MyError,
    >)
        ensures
            r matches Ok(v) && v@.map_values(|s: String| s@) == if store_dir_of(store_type) is Some {
                entry_names(entries@.map_values(|p: String| p@))
            } else {
                Seq::<Seq<char>>::empty()
            },
    {
        let mut store_type_files: Vec<String> = Vec::new();
        if let Some(_store_type_dir) = self.get_store_type_dir(&store_type) {
            let ghost ps = entries@.map_values(|p: String| p@);
            let mut j: usize = 0;
            while j < entries.len()
                invariant
                    j <= entries@.len(),
                    ps == entries@.map_values(|p: String| p@),
                    store_type_files@.map_values(|s: String| s@) == entry_names(ps.take(j as int)),
                decreases entries.len() - j,
            {
                assert(ps.take(j + 1).drop_last() =~= ps.take(j as int));
                assert(ps.take(j + 1).last() == entries@[j as int]@);
                if let Some(filename) = file_name(entries[j].as_str()) {
                    store_type_files.push(filename);
                }
                assert(store_type_files@.map_values(|s: String| s@) =~= entry_names(
                    ps.take(j + 1),
                ));
                j = j + 1;
            }
            assert(ps.take(ps.len() as int) =~= ps);
        } else {
            assert(store_type_files@.map_values(|s: String| s@) =~= Seq::<Seq<char>>::empty());
        }
        Ok(store_type_files)
    }

    /// The plan of `create_file`: the file's directory and content, its
    /// entry in the directory of its storage queue (when the cache keeps
    /// one for it), and its entries under its user's and disk's directories.
    /// It is run from the home directory (see `require_home_dir`).
    pub fn create_file_plan(
        &self,
        file_id: &str,
        user_id: &str,
        disk_id: &str,
        storage_type: Option<StorageType>,
    ) -> (steps: Vec<Step>)
        ensures
            plan_view(steps@) == cache_create_steps(file_id@, user_id@, disk_id@, storage_type),
    {
        let dirpath = self.get_default_dirpath(file_id);
        let filepath = self.get_default_filepath(file_id);
        let mut steps: Vec<Step> = Vec::new();
        push_must(&mut steps, FsOp::CreateDir(dirpath.clone()));
        push_must(&mut steps, FsOp::WriteFile(filepath.clone()));
        let ghost before_store = plan_view(steps@);
        if let Some(store_type) = storage_type {
            if let Some(store_type_dir) = self.get_store_type_dir(&store_type) {
                push_must(&mut steps, FsOp::CreateDir(store_type_dir.clone()));
                match self.get_store_type_filepath(
                    &store_type,
                    file_id,
                    Some(store_type_dir.as_str()),
                ) {
                    Ok(store_type_filepath) => {
                        push_must(
                            &mut steps,
                            FsOp::HardLink { original: filepath, link: store_type_filepath },
                        );
                        proof {
                            reveal_strlit("/");
                        }
                        let link = concat_str(concat_str(dirpath, "/"), store_type_dir.as_str());
                        let target = self.symlink_target(
                            store_type_dir.as_str(),
                            link.as_str(),
                            Some(true),
                            false,
                        );
                        let ghost d = store_type_dir@;
                        assert(store_dir_of(store_type) == Some(d));
                        assert(link@ == default_dirpath(file_id@) + seq!['/'] + d);
                        assert(store_type_filepath_spec(store_type, file_id@, Some(d)) == Ok::<Seq<char>, Seq<char>>(d + seq!['/'] + file_id@));
                        push_may(&mut steps, FsOp::SymLink { target, link });
                        assert(store_steps(file_id@, storage_type) =~= seq![
                            must(FsOpView::CreateDir(d)),
                            must(FsOpView::HardLink(default_filepath(file_id@), d + seq!['/'] + file_id@)),
                            may(FsOpView::SymLink(symlink_target_spec(d, link@, Some(true), false), link@)),
                        ]);
                        assert(plan_view(steps@) =~= before_store + store_steps(
                            file_id@,
                            storage_type,
                        ));
                    },
                    Err(_) => {
                        assert(false);
                    },
                }
            } else {
                assert(plan_view(steps@) =~= before_store + store_steps(file_id@, storage_type));
            }
        } else {
            assert(plan_view(steps@) =~= before_store + store_steps(file_id@, storage_type));
        }
        assert(plan_view(steps@) =~= before_store + store_steps(file_id@, storage_type));
        self.push_owner_link_steps(&mut steps, file_id, user_id, disk_id);
        assert(plan_view(steps@) =~= cache_create_steps(file_id@, user_id@, disk_id@, storage_type));
        steps
    }

    /// The plan of `remove_file`, given what the file's disk and user links
    /// read back (or the error of reading them) and which of its storage
    /// probe paths exist: its storage entries, its directory, then its disk
    /// and user entries; an error when a link gives no id.
    pub fn remove_file_plan(
        &self,
        file_id: &str,
        disk_link: Result<String, MyError>,
        user_link: Result<String, MyError>,
        present: &Vec<bool>,
    ) -> (r: Result<Vec<Step>, MyError>)
        requires
            present@.len() == 2,
        ensures
            plan_result_view(r) == cache_remove_plan(
                file_id@,
                result_view(disk_link),
                result_view(user_link),
                present@,
            ),
    {
        let disk_id = match self.get_file_disk_from_link(disk_link) {
            Err(e) => {
                return Err(e);
            },
            Ok(d) => d,
        };
        let user_id = match self.get_file_user_from_link(user_link) {
            Err(e) => {
                return Err(e);
            },
            Ok(u) => u,
        };
        let mut steps: Vec<Step> = Vec::new();
        let ghost dirs = selected(store_dirs(), present@);
        if let Some(store_type_dirs) = self.get_store_type_dirs_from_file(present) {
            let mut i: usize = 0;
            while i < store_type_dirs.len()
                invariant
                    i <= store_type_dirs@.len(),
                    store_type_dirs@.map_values(|s: String| s@) == dirs,
                    plan_view(steps@) == store_removal_steps(dirs.take(i as int), file_id@),
                decreases store_type_dirs.len() - i,
            {
                assert(dirs.take(i + 1).drop_last() =~= dirs.take(i as int));
                assert(dirs[i as int] == store_type_dirs@[i as int]@);
                match self.get_store_type_filepath(
                    &StorageType::NoQueue,
                    file_id,
                    Some(store_type_dirs[i].as_str()),
                ) {
                    Ok(p) => push_must(&mut steps, FsOp::RemoveFile(p)),
                    Err(e) => {
                        return Err(e);
                    },
                }
                i = i + 1;
            }
            assert(dirs.take(dirs.len() as int) =~= dirs);
        } else {
            assert(steps@.len() == 0);
            assert(plan_view(steps@) =~= store_removal_steps(dirs, file_id@));
        }
        push_must(&mut steps, FsOp::RemoveDirAll(self.get_default_dirpath(file_id)));
        push_must(&mut steps, FsOp::RemoveFile(self.get_disk_filepath(disk_id.as_str(), file_id)));
        push_must(&mut steps, FsOp::RemoveFile(self.get_user_filepath(user_id.as_str(), file_id)));
        assert(plan_view(steps@) =~= store_removal_steps(dirs, file_id@) + owner_removal_steps(
            file_id@,
            disk_id@,
            user_id@,
        ));
        Ok(steps)
    }
}

pub open spec fn cache_home_dir() -> Seq<char> {
    "cache_fs"@
}

impl UserDiskFilesystem for CacheFS {
    open spec fn home_dir(&self) -> Seq<char> {
        cache_home_dir()
    }

    fn get_home_dir(&self) -> (r: String) {
        "cache_fs".to_owned()
    }
}

} // verus!
