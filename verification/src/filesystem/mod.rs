pub mod cache;
pub mod disks;
pub mod encryption;
pub mod error;
pub mod path;
pub mod plan;
pub mod strmap;
pub mod vault;

use vstd::prelude::*;
use crate::filesystem::error::MyError;
use crate::filesystem::plan::FsOp;
use crate::filesystem::plan::FsOpView;
use crate::filesystem::plan::Step;
use crate::filesystem::plan::StepView;
use crate::filesystem::plan::must;
use crate::filesystem::plan::plan_view;
use crate::filesystem::plan::push_must;
use crate::filesystem::strmap::StrMap;
use crate::filesystem::strmap::str_equal;
use crate::filesystem::cache::CacheFS;
use crate::filesystem::vault::VaultFS;
use crate::filesystem::disks::CurrentDisks;
use crate::filesystem::disks::compatible_disks;
use crate::filesystem::disks::with_uuids;
use crate::filesystem::cache::cache_store_paths;
use crate::filesystem::plan::creates;
use crate::filesystem::plan::removes;
use crate::filesystem::plan::lemma_below_is_under;
use crate::filesystem::plan::lemma_creates_concat;
use crate::filesystem::path::file_name;
use crate::filesystem::path::count_normal_components;
use crate::filesystem::path::file_name_spec;
use crate::filesystem::path::normal_count;
use crate::filesystem::path::path_components_spec;
use crate::filesystem::path::is_plain_name;
use crate::filesystem::path::join_names;
use crate::filesystem::path::no_separators;
use crate::filesystem::path::all_plain;
use crate::filesystem::path::dot;
use crate::filesystem::path::lemma_file_name_of_join;
use crate::filesystem::path::lemma_components_of_join;
use crate::filesystem::path::lemma_normal_count_of_plain;

verus! {

/// `file/`: where the directory of each file lives.
pub open spec fn file_root() -> Seq<char> {
    seq!['f', 'i', 'l', 'e', '/']
}

/// `disk/`: where the links of each disk live.
pub open spec fn disk_root() -> Seq<char> {
    seq!['d', 'i', 's', 'k', '/']
}

/// `user/`: where the links of each user live.
pub open spec fn user_root() -> Seq<char> {
    seq!['u', 's', 'e', 'r', '/']
}

/// `/file`: the name of the content inside the directory of a file.
pub open spec fn file_leaf() -> Seq<char> {
    seq!['/', 'f', 'i', 'l', 'e']
}

/// `/disk`: the link, inside the directory of a file, to its disk.
pub open spec fn disk_leaf() -> Seq<char> {
    seq!['/', 'd', 'i', 's', 'k']
}

/// `/user`: the link, inside the directory of a file, to its user.
pub open spec fn user_leaf() -> Seq<char> {
    seq!['/', 'u', 's', 'e', 'r']
}

/// `../`: one step up.
pub open spec fn up_dir() -> Seq<char> {
    seq!['.', '.', '/']
}

/// The directory of a file: `file/<file_id>`.
pub open spec fn default_dirpath(file_id: Seq<char>) -> Seq<char> {
    file_root() + file_id
}

/// The content of a file: `file/<file_id>/file`.
pub open spec fn default_filepath(file_id: Seq<char>) -> Seq<char> {
    default_dirpath(file_id) + file_leaf()
}

/// The path of an entry under a root named by an id: the root alone when
/// the id is empty, else `root + id + "/" + file_id`.
pub open spec fn id_filepath(root: Seq<char>, id: Seq<char>, file_id: Seq<char>) -> Seq<char> {
    if id.len() == 0 {
        root
    } else {
        root + id + seq!['/'] + file_id
    }
}

/// The entry of a file under its disk: `disk/<disk_id>/<file_id>`.
pub open spec fn disk_filepath(disk_id: Seq<char>, file_id: Seq<char>) -> Seq<char> {
    id_filepath(disk_root(), disk_id, file_id)
}

/// The entry of a file under its user: `user/<user_id>/<file_id>`.
pub open spec fn user_filepath(user_id: Seq<char>, file_id: Seq<char>) -> Seq<char> {
    id_filepath(user_root(), user_id, file_id)
}

/// The link in the directory of a file that points to its disk.
pub open spec fn disk_link_path(file_id: Seq<char>) -> Seq<char> {
    default_dirpath(file_id) + disk_leaf()
}

/// The link in the directory of a file that points to its user.
pub open spec fn user_link_path(file_id: Seq<char>) -> Seq<char> {
    default_dirpath(file_id) + user_leaf()
}

/// `n` steps up: `../` repeated `n` times.
pub open spec fn up_dirs(n: nat) -> Seq<char>
    decreases n,
{
    if n == 0 {
        Seq::empty()
    } else {
        up_dirs((n - 1) as nat) + up_dir()
    }
}

/// The number of directories that `path` goes down: its names, less the
/// last one when the path names a file (or is said to end with a file name).
pub open spec fn directory_count(path: Seq<char>, has_filename: Option<bool>, is_file: bool) -> nat {
    let n = normal_count(path_components_spec(path));
    if n > 0 && (is_file || has_filename == Some(true)) {
        (n - 1) as nat
    } else {
        n
    }
}

/// The target of a symbolic link at `link` to `original`, both relative to
/// the home directory: as many steps up as `link` goes down, then `original`.
pub open spec fn symlink_target_spec(
    original: Seq<char>,
    link: Seq<char>,
    has_filename: Option<bool>,
    is_file: bool,
) -> Seq<char> {
    up_dirs(directory_count(link, has_filename, is_file)) + original
}

/// The message of the error for a path without a final name.
pub open spec fn no_file_id_message() -> Seq<char> {
    "Could not get original filepath from symbolic link path"@
}

/// What `get_fileid_from_path` returns: the final name of the path, or the
/// error when the path has none.
pub open spec fn file_id_of_path(path: Seq<char>) -> Result<Seq<char>, Seq<char>> {
    match file_name_spec(path) {
        Some(n) => Ok(n),
        None => Err(no_file_id_message()),
    }
}

/// The view of a result whose error is a `MyError`.
pub open spec fn result_view(r: Result<String, MyError>) -> Result<Seq<char>, Seq<char>> {
    match r {
        Ok(s) => Ok(s@),
        Err(e) => Err(e@),
    }
}

pub open spec fn disk_missing_message() -> Seq<char> {
    "disk path doesn't exist"@
}

pub open spec fn user_missing_message() -> Seq<char> {
    "user path doesn't exist"@
}

/// The id that a link read back stands for (what `get_file_disk` and
/// `get_file_user` return): the final name of its target, the error of the
/// reading passed on, or `missing` when the target has no final name.
pub open spec fn id_of_link(
    link: Result<Seq<char>, Seq<char>>,
    missing: Seq<char>,
) -> Result<Seq<char>, Seq<char>> {
    match link {
        Err(e) => Err(e),
        Ok(target) => match file_name_spec(target) {
            Some(n) => Ok(n),
            None => Err(missing),
        },
    }
}

/// The steps that give a file its entry under a user's or a disk's
/// directory: the directory, a hard link to the content in it, and a
/// symbolic link from the file's directory to it.
pub open spec fn id_link_steps(
    file_id: Seq<char>,
    root: Seq<char>,
    leaf: Seq<char>,
    id: Seq<char>,
) -> Seq<StepView> {
    let dir = id_filepath(root, id, Seq::empty());
    let link = default_dirpath(file_id) + leaf;
    seq![
        must(FsOpView::CreateDir(dir)),
        must(FsOpView::HardLink(default_filepath(file_id), id_filepath(root, id, file_id))),
        must(FsOpView::SymLink(symlink_target_spec(dir, link, Some(true), false), link)),
    ]
}

/// The steps that give a file its entries under its user's and its disk's
/// directories.
pub open spec fn owner_link_steps(file_id: Seq<char>, user_id: Seq<char>, disk_id: Seq<char>) -> Seq<
    StepView,
> {
    id_link_steps(file_id, user_root(), user_leaf(), user_id) + id_link_steps(
        file_id,
        disk_root(),
        disk_leaf(),
        disk_id,
    )
}

/// The directories that a filesystem sets up in its home directory.
pub open spec fn base_dir_steps() -> Seq<StepView> {
    seq![
        must(FsOpView::CreateDir(file_root())),
        must(FsOpView::CreateDir(user_root())),
        must(FsOpView::CreateDir(disk_root())),
    ]
}

/// The steps that remove a file known to be on `disk_id` for `user_id`:
/// its directory, then its disk and user entries.
pub open spec fn owner_removal_steps(file_id: Seq<char>, disk_id: Seq<char>, user_id: Seq<char>) -> Seq<
    StepView,
> {
    seq![
        must(FsOpView::RemoveDirAll(default_dirpath(file_id))),
        must(FsOpView::RemoveFile(disk_filepath(disk_id, file_id))),
        must(FsOpView::RemoveFile(user_filepath(user_id, file_id))),
    ]
}

/// Removing a file's directory and its disk and user entries removes what
/// was created in its directory and its entries under its user's and disk's
/// directories.
pub proof fn lemma_owner_removal_covers(file_id: Seq<char>, user_id: Seq<char>, disk_id: Seq<char>)
    requires
        is_plain_name(file_id),
        is_plain_name(user_id),
        is_plain_name(disk_id),
    ensures
        forall|rest: Seq<char>|
            #![trigger default_dirpath(file_id) + seq!['/'] + rest]
            removes(
                owner_removal_steps(file_id, disk_id, user_id),
                default_dirpath(file_id) + seq!['/'] + rest,
            ),
        forall|path: Seq<char>|
            creates(owner_link_steps(file_id, user_id, disk_id), path) ==> removes(
                owner_removal_steps(file_id, disk_id, user_id),
                path,
            ),
{
    let rm = owner_removal_steps(file_id, disk_id, user_id);
    let dirpath = default_dirpath(file_id);
    assert forall|rest: Seq<char>|
        #![trigger default_dirpath(file_id) + seq!['/'] + rest]
        removes(rm, default_dirpath(file_id) + seq!['/'] + rest) by {
        lemma_below_is_under(dirpath, rest);
        assert(rm[0].op == FsOpView::RemoveDirAll(dirpath));
    }
    let u = id_link_steps(file_id, user_root(), user_leaf(), user_id);
    let d = id_link_steps(file_id, disk_root(), disk_leaf(), disk_id);
    assert forall|path: Seq<char>| creates(owner_link_steps(file_id, user_id, disk_id), path) implies removes(
        rm,
        path,
    ) by {
        lemma_creates_concat(u, d, path);
        if creates(u, path) {
            let i = choose|i: int|
                0 <= i < u.len() && match #[trigger] u[i].op {
                    FsOpView::WriteFile(p) => p == path,
                    FsOpView::HardLink(_, l) => l == path,
                    FsOpView::SymLink(_, l) => l == path,
                    _ => false,
                };
            if i == 1 {
                assert(rm[2].op == FsOpView::RemoveFile(user_filepath(user_id, file_id)));
            } else {
                assert(i == 2);
                assert(path =~= dirpath + seq!['/'] + user_word());
                lemma_below_is_under(dirpath, user_word());
                assert(rm[0].op == FsOpView::RemoveDirAll(dirpath));
            }
        } else {
            let i = choose|i: int|
                0 <= i < d.len() && match #[trigger] d[i].op {
                    FsOpView::WriteFile(p) => p == path,
                    FsOpView::HardLink(_, l) => l == path,
                    FsOpView::SymLink(_, l) => l == path,
                    _ => false,
                };
            if i == 1 {
                assert(rm[1].op == FsOpView::RemoveFile(disk_filepath(disk_id, file_id)));
            } else {
                assert(i == 2);
                assert(path =~= dirpath + seq!['/'] + disk_word());
                lemma_below_is_under(dirpath, disk_word());
                assert(rm[0].op == FsOpView::RemoveDirAll(dirpath));
            }
        }
    }
}

/// A directory entry with the outcome of reading its content.
pub open spec fn entry_view(e: (String, Result<Vec<u8>, MyError>)) -> (Seq<char>, Result<Seq<u8>, Seq<char>>) {
    (
        e.0@,
        match e.1 {
            Ok(c) => Ok(c@),
            Err(err) => Err(err@),
        },
    )
}

/// The files that directory entries hold, each by the id that its path
/// names: the first error (naming the id, then reading the content) in the
/// order of the entries ends it.
pub open spec fn files_of_entries(es: Seq<(Seq<char>, Result<Seq<u8>, Seq<char>>)>) -> Result<
    Map<Seq<char>, Seq<u8>>,
    Seq<char>,
>
    decreases es.len(),
{
    if es.len() == 0 {
        Ok(Map::empty())
    } else {
        match files_of_entries(es.drop_last()) {
            Err(e) => Err(e),
            Ok(m) => match file_id_of_path(es.last().0) {
                Err(e) => Err(e),
                Ok(id) => match es.last().1 {
                    Err(e) => Err(e),
                    Ok(c) => Ok(m.insert(id, c)),
                },
            },
        }
    }
}

/// The view of a map of file contents, or of its error.
pub open spec fn files_result_view(r: Result<StrMap<Vec<u8>>, MyError>) -> Result<
    Map<Seq<char>, Seq<u8>>,
    Seq<char>,
> {
    match r {
        Ok(m) => Ok(m@.map_values(|v: Vec<u8>| v@)),
        Err(e) => Err(e@),
    }
}

/// The error for the files of a user whose directory cannot be read.
pub open spec fn unknown_user_message(user_id: Seq<char>) -> Seq<char> {
    "Could not get user files, user '"@ + user_id + "' may not exist yet"@
}

/// Once reading directory entries has failed, reading more of them fails
/// the same way.
pub proof fn lemma_files_error_persists(es: Seq<(Seq<char>, Result<Seq<u8>, Seq<char>>)>, n: int)
    requires
        0 <= n <= es.len(),
        files_of_entries(es.take(n)) is Err,
    ensures
        files_of_entries(es) == files_of_entries(es.take(n)),
    decreases es.len() - n,
{
    if n < es.len() {
        assert(es.take(n + 1).drop_last() =~= es.take(n));
        lemma_files_error_persists(es, n + 1);
    } else {
        assert(es.take(n) =~= es);
    }
}

/// A copy of a vector of plain values.
pub fn copy_vec<T: Copy>(v: &Vec<T>) -> (r: Vec<T>)
    ensures
        r@ == v@,
{
    let mut r: Vec<T> = Vec::new();
    let mut i: usize = 0;
    while i < v.len()
        invariant
            i <= v@.len(),
            r@ == v@.take(i as int),
        decreases v.len() - i,
    {
        let x = v[i];
        r.push(x);
        assert(r@ =~= v@.take(i + 1));
        i = i + 1;
    }
    assert(v@.take(v@.len() as int) =~= v@);
    r
}

/// The filesystem that a vault serves files from.
#[derive(Debug)]
pub enum Filesystem {
    Vault(VaultFS),
    Cache(CacheFS),
}

/// Whether an execution type selects the cache filesystem: `cache` or
/// `vault-cache`; any other selects the vault.
pub open spec fn selects_cache(exec_type: Seq<char>) -> bool {
    exec_type == "cache"@ || exec_type == "vault-cache"@
}

/// The filesystem for the execution type (the `EXEC_TYPE` setting): the
/// cache for `cache` or `vault-cache`, else the vault over the machine's
/// disks.
pub fn select_filesystem(exec_type: &str, disks: CurrentDisks) -> (fs: Filesystem)
    ensures
        selects_cache(exec_type@) <==> fs is Cache,
        fs matches Filesystem::Vault(v) ==> v.disks_view() == with_uuids(
            compatible_disks(disks.system_disks()),
            disks.uuid_links(),
        ),
        fs matches Filesystem::Cache(c) ==> c.store_paths_view() == cache_store_paths(),
{
    if str_equal(exec_type, "cache") || str_equal(exec_type, "vault-cache") {
        Filesystem::Cache(CacheFS::new())
    } else {
        Filesystem::Vault(VaultFS::new(disks))
    }
}

/// A word of letters is a plain name.
pub proof fn lemma_word_is_plain(s: Seq<char>)
    requires
        s.len() > 0,
        forall|i: int| 0 <= i < s.len() ==> #[trigger] s[i] != '/' && s[i] != '.',
    ensures
        is_plain_name(s),
{
    assert(s != dot()) by {
        assert(dot()[0] == '.');
    }
    assert(s != seq!['.', '.']) by {
        assert(seq!['.', '.'][0] == '.');
    }
}

pub open spec fn file_word() -> Seq<char> {
    seq!['f', 'i', 'l', 'e']
}

pub open spec fn disk_word() -> Seq<char> {
    seq!['d', 'i', 's', 'k']
}

pub open spec fn user_word() -> Seq<char> {
    seq!['u', 's', 'e', 'r']
}

proof fn lemma_words_are_plain()
    ensures
        is_plain_name(file_word()),
        is_plain_name(disk_word()),
        is_plain_name(user_word()),
{
    lemma_word_is_plain(file_word());
    lemma_word_is_plain(disk_word());
    lemma_word_is_plain(user_word());
}

proof fn lemma_three_plain(a: Seq<char>, b: Seq<char>, c: Seq<char>)
    requires
        is_plain_name(a),
        is_plain_name(b),
        is_plain_name(c),
    ensures
        all_plain(seq![a, b, c]),
        no_separators(seq![a, b, c]),
        join_names(seq![a, b, c]) == a + seq!['/'] + b + seq!['/'] + c,
{
    let ns = seq![a, b, c];
    assert(ns.drop_last() =~= seq![a, b]);
    assert(seq![a, b].drop_last() =~= seq![a]);
    assert(join_names(seq![a]) == a);
    assert(join_names(seq![a, b]) == a + seq!['/'] + b);
    assert(join_names(ns) == join_names(seq![a, b]) + seq!['/'] + c);
}

/// The entry of a file in a directory named by an id (a user's or a disk's
/// directory) is named by the file's id: `get_fileid_from_path` on the path
/// of the entry gives the file id back.
pub proof fn law_file_id_of_id_entry(root_word: Seq<char>, id: Seq<char>, file_id: Seq<char>)
    requires
        is_plain_name(root_word),
        is_plain_name(id),
        is_plain_name(file_id),
    ensures
        file_id_of_path(id_filepath(root_word + seq!['/'], id, file_id)) == Ok::<Seq<char>, Seq<char>>(
            file_id,
        ),
{
    lemma_three_plain(root_word, id, file_id);
    let ns = seq![root_word, id, file_id];
    assert(id_filepath(root_word + seq!['/'], id, file_id) =~= join_names(ns));
    lemma_file_name_of_join(ns);
}

/// The entries of user and disk directories, and the directory of a file,
/// are named by the file id.
pub proof fn law_file_id_of_entries(user_id: Seq<char>, disk_id: Seq<char>, file_id: Seq<char>)
    requires
        is_plain_name(user_id),
        is_plain_name(disk_id),
        is_plain_name(file_id),
    ensures
        file_id_of_path(user_filepath(user_id, file_id)) == Ok::<Seq<char>, Seq<char>>(file_id),
        file_id_of_path(disk_filepath(disk_id, file_id)) == Ok::<Seq<char>, Seq<char>>(file_id),
        file_id_of_path(default_dirpath(file_id)) == Ok::<Seq<char>, Seq<char>>(file_id),
{
    lemma_words_are_plain();
    law_file_id_of_id_entry(user_word(), user_id, file_id);
    assert(user_word() + seq!['/'] =~= user_root());
    law_file_id_of_id_entry(disk_word(), disk_id, file_id);
    assert(disk_word() + seq!['/'] =~= disk_root());
    let ns = seq![file_word(), file_id];
    assert(no_separators(ns));
    assert(ns.drop_last() =~= seq![file_word()]);
    assert(join_names(seq![file_word()]) == file_word());
    assert(join_names(ns) == file_word() + seq!['/'] + file_id);
    assert(default_dirpath(file_id) =~= join_names(ns));
    lemma_file_name_of_join(ns);
}

/// A link in the directory of a file, at `file/<file_id>/<leaf_word>`,
/// goes two directories down, and its target to the directory of an id
/// (`<root_word>/<id>/`) ends with that id: reading the link back and
/// taking its final name gives the id.
pub proof fn law_link_to_id_dir(
    file_id: Seq<char>,
    leaf_word: Seq<char>,
    root_word: Seq<char>,
    id: Seq<char>,
    is_file: bool,
)
    requires
        is_plain_name(file_id),
        is_plain_name(leaf_word),
        is_plain_name(root_word),
        is_plain_name(id),
    ensures
        directory_count(file_root() + file_id + seq!['/'] + leaf_word, Some(true), is_file) == 2,
        file_name_spec(
            symlink_target_spec(
                id_filepath(root_word + seq!['/'], id, Seq::empty()),
                file_root() + file_id + seq!['/'] + leaf_word,
                Some(true),
                is_file,
            ),
        ) == Some(id),
{
    lemma_words_are_plain();
    lemma_three_plain(file_word(), file_id, leaf_word);
    let link_names = seq![file_word(), file_id, leaf_word];
    let link = file_root() + file_id + seq!['/'] + leaf_word;
    assert(link =~= join_names(link_names));
    lemma_components_of_join(link_names);
    lemma_normal_count_of_plain(link_names);
    assert(directory_count(link, Some(true), is_file) == 2);
    let dd = seq!['.', '.'];
    let ns = seq![dd, dd, root_word, id];
    assert(no_separators(ns)) by {
        assert forall|i: int| 0 <= i < ns.len() implies !(#[trigger] ns[i]).contains('/') by {
            if i < 2 {
                assert(ns[i] == dd);
                assert(!dd.contains('/')) by {
                    assert(dd[0] != '/' && dd[1] != '/');
                }
            } else if i == 2 {
                assert(ns[i] == root_word);
            } else {
                assert(ns[i] == id);
            }
        }
    }
    assert(ns[0] != dot()) by {
        assert(ns[0].len() != dot().len());
    }
    lemma_file_name_of_join(ns);
    let ms = ns.push(Seq::<char>::empty());
    assert(ms.drop_last() =~= ns);
    assert(ns.drop_last() =~= seq![dd, dd, root_word]);
    assert(seq![dd, dd, root_word].drop_last() =~= seq![dd, dd]);
    assert(seq![dd, dd].drop_last() =~= seq![dd]);
    reveal_with_fuel(up_dirs, 3);
    assert(join_names(seq![dd]) == dd);
    assert(join_names(seq![dd, dd]) == dd + seq!['/'] + dd);
    assert(join_names(seq![dd, dd, root_word]) == dd + seq!['/'] + dd + seq!['/'] + root_word);
    assert(join_names(ns) == join_names(seq![dd, dd, root_word]) + seq!['/'] + id);
    assert(join_names(ms) == join_names(ns) + seq!['/'] + Seq::<char>::empty());
    assert(up_dirs(2) =~= seq!['.', '.', '/', '.', '.', '/']);
    assert(symlink_target_spec(
        id_filepath(root_word + seq!['/'], id, Seq::empty()),
        link,
        Some(true),
        is_file,
    ) =~= join_names(ms));
}

/// The links that `create_file` makes in the directory of a file resolve
/// to the directories of its user and disk, and reading each back gives the
/// user id and the disk id (what `get_file_user` and `get_file_disk`
/// return).
pub proof fn law_links_give_ids_back(
    file_id: Seq<char>,
    user_id: Seq<char>,
    disk_id: Seq<char>,
    is_file: bool,
)
    requires
        is_plain_name(file_id),
        is_plain_name(user_id),
        is_plain_name(disk_id),
    ensures
        file_name_spec(
            symlink_target_spec(
                user_filepath(user_id, Seq::empty()),
                user_link_path(file_id),
                Some(true),
                is_file,
            ),
        ) == Some(user_id),
        file_name_spec(
            symlink_target_spec(
                disk_filepath(disk_id, Seq::empty()),
                disk_link_path(file_id),
                Some(true),
                is_file,
            ),
        ) == Some(disk_id),
{
    lemma_words_are_plain();
    law_link_to_id_dir(file_id, user_word(), user_word(), user_id, is_file);
    law_link_to_id_dir(file_id, disk_word(), disk_word(), disk_id, is_file);
    assert(user_word() + seq!['/'] =~= user_root());
    assert(disk_word() + seq!['/'] =~= disk_root());
    assert(user_link_path(file_id) =~= file_root() + file_id + seq!['/'] + user_word());
    assert(disk_link_path(file_id) =~= file_root() + file_id + seq!['/'] + disk_word());
}

/// Appends `b` to the text `a`.
pub fn concat_str(a: String, b: &str) -> (r: String)
    ensures
        r@ == a@ + b@,
{
    let mut r = a;
    r.append(b);
    r
}

pub open spec fn disks_unreadable_message() -> Seq<char> {
    "Could not read dir : 'disk/'"@
}

/// A disk directory's entry with the entries of that directory, read.
pub open spec fn disk_entry_view(
    e: (String, Option<Vec<(String, Result<Vec<u8>, MyError>)>>),
) -> (Seq<char>, Option<Seq<(Seq<char>, Result<Seq<u8>, Seq<char>>)>>) {
    (
        e.0@,
        match e.1 {
            Some(es) => Some(es@.map_values(|x: (String, Result<Vec<u8>, MyError>)| entry_view(x))),
            None => None,
        },
    )
}

/// The files of each disk, from the entries of the disks' directory: each
/// entry that names a disk contributes the files of its directory (none
/// when that cannot be read); the first error ends it.
pub open spec fn files_of_disks(
    ds: Seq<(Seq<char>, Option<Seq<(Seq<char>, Result<Seq<u8>, Seq<char>>)>>)>,
) -> Result<Map<Seq<char>, Map<Seq<char>, Seq<u8>>>, Seq<char>>
    decreases ds.len(),
{
    if ds.len() == 0 {
        Ok(Map::empty())
    } else {
        match files_of_disks(ds.drop_last()) {
            Err(e) => Err(e),
            Ok(m) => match file_name_spec(ds.last().0) {
                None => Ok(m),
                Some(name) => match ds.last().1 {
                    None => Ok(m.insert(name, Map::empty())),
                    Some(es) => match files_of_entries(es) {
                        Err(e) => Err(e),
                        Ok(files) => Ok(m.insert(name, files)),
                    },
                },
            },
        }
    }
}

pub proof fn lemma_disks_error_persists(
    ds: Seq<(Seq<char>, Option<Seq<(Seq<char>, Result<Seq<u8>, Seq<char>>)>>)>,
    n: int,
)
    requires
        0 <= n <= ds.len(),
        files_of_disks(ds.take(n)) is Err,
    ensures
        files_of_disks(ds) == files_of_disks(ds.take(n)),
    decreases ds.len() - n,
{
    if n < ds.len() {
        assert(ds.take(n + 1).drop_last() =~= ds.take(n));
        lemma_disks_error_persists(ds, n + 1);
    } else {
        assert(ds.take(n) =~= ds);
    }
}

/// The last entry of a directory that names a file gives that file's
/// content, when reading the entries succeeds.
proof fn lemma_last_entry_gives_file(
    es: Seq<(Seq<char>, Result<Seq<u8>, Seq<char>>)>,
    j: int,
    file_id: Seq<char>,
    content: Seq<u8>,
)
    requires
        0 <= j < es.len(),
        file_id_of_path(es[j].0) == Ok::<Seq<char>, Seq<char>>(file_id),
        es[j].1 == Ok::<Seq<u8>, Seq<char>>(content),
        forall|l: int| j < l < es.len() ==> file_id_of_path(#[trigger] es[l].0) != Ok::<
            Seq<char>,
            Seq<char>,
        >(file_id),
        files_of_entries(es) is Ok,
    ensures
        files_of_entries(es) matches Ok(m) && m.contains_key(file_id) && m[file_id] == content,
    decreases es.len(),
{
    let front = es.drop_last();
    if j < es.len() - 1 {
        assert forall|l: int| j < l < front.len() implies file_id_of_path(#[trigger] front[l].0)
            != Ok::<Seq<char>, Seq<char>>(file_id) by {
            assert(front[l] == es[l]);
        }
        assert(front[j] == es[j]);
        assert(file_id_of_path(es[es.len() - 1].0) != Ok::<Seq<char>, Seq<char>>(file_id));
        lemma_last_entry_gives_file(front, j, file_id, content);
    }
}

/// Whether every entry of a directory names a file id and had its content
/// read.
pub open spec fn entries_readable(es: Seq<(Seq<char>, Result<Seq<u8>, Seq<char>>)>) -> bool {
    forall|j: int| 0 <= j < es.len() ==> (#[trigger] file_id_of_path(es[j].0)) is Ok && es[j].1 is Ok
}

/// Directory entries that all name a file id and were all read give the
/// files without error, whatever their contents (empty ones too): a file id
/// is there exactly when some entry names it, and it holds the content of
/// the last entry that names it.
pub proof fn law_readable_entries_give_files(es: Seq<(Seq<char>, Result<Seq<u8>, Seq<char>>)>)
    requires
        entries_readable(es),
    ensures
        files_of_entries(es) is Ok,
        forall|k: Seq<char>|
            #![trigger files_of_entries(es)->Ok_0.contains_key(k)]
            files_of_entries(es)->Ok_0.contains_key(k) <==> exists|j: int|
                0 <= j < es.len() && file_id_of_path(es[j].0) == Ok::<Seq<char>, Seq<char>>(k),
        forall|j: int|
            0 <= j < es.len() && (forall|l: int| j < l < es.len() ==> file_id_of_path(#[trigger] es[l].0)
                != file_id_of_path(es[j].0)) ==> files_of_entries(es)->Ok_0[file_id_of_path(
                #[trigger] es[j].0)->Ok_0] == es[j].1->Ok_0,
    decreases es.len(),
{
    if es.len() > 0 {
        let front = es.drop_last();
        assert forall|j: int| 0 <= j < front.len() implies (#[trigger] file_id_of_path(front[j].0)) is Ok
            && front[j].1 is Ok by {
            assert(front[j] == es[j]);
        }
        law_readable_entries_give_files(front);
        let last = es[es.len() - 1];
        assert(file_id_of_path(last.0) is Ok);
        let m = files_of_entries(es)->Ok_0;
        let m0 = files_of_entries(front)->Ok_0;
        assert forall|k: Seq<char>| #[trigger] m.contains_key(k) <==> exists|j: int|
            0 <= j < es.len() && file_id_of_path(es[j].0) == Ok::<Seq<char>, Seq<char>>(k) by {
            if m.contains_key(k) && file_id_of_path(last.0) != Ok::<Seq<char>, Seq<char>>(k) {
                assert(m0.contains_key(k));
                let j = choose|j: int|
                    0 <= j < front.len() && file_id_of_path(front[j].0) == Ok::<Seq<char>, Seq<char>>(k);
                assert(front[j] == es[j]);
            }
            if exists|j: int| 0 <= j < es.len() && file_id_of_path(es[j].0) == Ok::<Seq<char>, Seq<char>>(k) {
                let j = choose|j: int|
                    0 <= j < es.len() && file_id_of_path(es[j].0) == Ok::<Seq<char>, Seq<char>>(k);
                if j < front.len() {
                    assert(front[j] == es[j]);
                    assert(m0.contains_key(k));
                }
            }
        }
        assert forall|j: int|
            0 <= j < es.len() && (forall|l: int| j < l < es.len() ==> file_id_of_path(#[trigger] es[l].0)
                != file_id_of_path(es[j].0)) implies m[file_id_of_path(#[trigger] es[j].0)->Ok_0]
            == es[j].1->Ok_0 by {
            if j < es.len() - 1 {
                assert(front[j] == es[j]);
                assert forall|l: int| j < l < front.len() implies file_id_of_path(#[trigger] front[l].0)
                    != file_id_of_path(front[j].0) by {
                    assert(front[l] == es[l]);
                }
                assert(file_id_of_path(es[es.len() - 1].0) != file_id_of_path(es[j].0));
            }
        }
    }
}

/// Whether every disk directory that could be read holds readable entries.
pub open spec fn disks_readable(
    ds: Seq<(Seq<char>, Option<Seq<(Seq<char>, Result<Seq<u8>, Seq<char>>)>>)>,
) -> bool {
    forall|i: int| 0 <= i < ds.len() ==> match #[trigger] ds[i].1 {
        Some(es) => entries_readable(es),
        None => true,
    }
}

/// The disks' directory read, with readable entries in every disk
/// directory (an empty one too), gives the files of the disks without
/// error: a disk is there exactly when some entry names it, and it holds
/// the files of the last entry that names it (none when its directory could
/// not be read).
pub proof fn law_readable_disks_give_files(
    ds: Seq<(Seq<char>, Option<Seq<(Seq<char>, Result<Seq<u8>, Seq<char>>)>>)>,
)
    requires
        disks_readable(ds),
    ensures
        files_of_disks(ds) is Ok,
        forall|d: Seq<char>|
            #![trigger files_of_disks(ds)->Ok_0.contains_key(d)]
            files_of_disks(ds)->Ok_0.contains_key(d) <==> exists|i: int|
                0 <= i < ds.len() && file_name_spec(ds[i].0) == Some(d),
        forall|i: int|
            0 <= i < ds.len() && file_name_spec(#[trigger] ds[i].0) is Some && (forall|k: int|
                i < k < ds.len() ==> file_name_spec(#[trigger] ds[k].0) != file_name_spec(ds[i].0))
                ==> files_of_disks(ds)->Ok_0[file_name_spec(ds[i].0)->Some_0] == match ds[i].1 {
                Some(es) => files_of_entries(es)->Ok_0,
                None => Map::<Seq<char>, Seq<u8>>::empty(),
            },
    decreases ds.len(),
{
    if ds.len() > 0 {
        let front = ds.drop_last();
        assert forall|i: int| 0 <= i < front.len() implies match #[trigger] front[i].1 {
            Some(es) => entries_readable(es),
            None => true,
        } by {
            assert(front[i] == ds[i]);
        }
        law_readable_disks_give_files(front);
        let last = ds[ds.len() - 1];
        assert(match last.1 {
            Some(es) => entries_readable(es),
            None => true,
        });
        if let Some(es) = last.1 {
            law_readable_entries_give_files(es);
        }
        let m = files_of_disks(ds)->Ok_0;
        let m0 = files_of_disks(front)->Ok_0;
        assert forall|d: Seq<char>| #[trigger] m.contains_key(d) <==> exists|i: int|
            0 <= i < ds.len() && file_name_spec(ds[i].0) == Some(d) by {
            if m.contains_key(d) && file_name_spec(last.0) != Some(d) {
                assert(m0.contains_key(d));
                let i = choose|i: int| 0 <= i < front.len() && file_name_spec(front[i].0) == Some(d);
                assert(front[i] == ds[i]);
            }
            if exists|i: int| 0 <= i < ds.len() && file_name_spec(ds[i].0) == Some(d) {
                let i = choose|i: int| 0 <= i < ds.len() && file_name_spec(ds[i].0) == Some(d);
                if i < front.len() {
                    assert(front[i] == ds[i]);
                    assert(m0.contains_key(d));
                }
            }
        }
        assert forall|i: int|
            0 <= i < ds.len() && file_name_spec(#[trigger] ds[i].0) is Some && (forall|k: int|
                i < k < ds.len() ==> file_name_spec(#[trigger] ds[k].0) != file_name_spec(ds[i].0))
                implies m[file_name_spec(ds[i].0)->Some_0] == match ds[i].1 {
                Some(es) => files_of_entries(es)->Ok_0,
                None => Map::<Seq<char>, Seq<u8>>::empty(),
            } by {
            if i < ds.len() - 1 {
                assert(front[i] == ds[i]);
                assert forall|k: int| i < k < front.len() implies file_name_spec(#[trigger] front[k].0)
                    != file_name_spec(front[i].0) by {
                    assert(front[k] == ds[k]);
                }
                assert(file_name_spec(ds[ds.len() - 1].0) != file_name_spec(ds[i].0));
            }
        }
    }
}

/// A file that the plan of `create_file` put in a disk's directory (at
/// `disk_filepath`) is among that disk's files when the disks' directory is
/// read: the last entry of the disks' directory that names the disk, and
/// in that disk's directory the last entry that names the file, give them.
pub proof fn law_created_file_in_files_of_disks(
    ds: Seq<(Seq<char>, Option<Seq<(Seq<char>, Result<Seq<u8>, Seq<char>>)>>)>,
    i: int,
    es: Seq<(Seq<char>, Result<Seq<u8>, Seq<char>>)>,
    j: int,
    disk_id: Seq<char>,
    file_id: Seq<char>,
    content: Seq<u8>,
)
    requires
        is_plain_name(disk_id),
        is_plain_name(file_id),
        0 <= i < ds.len(),
        file_name_spec(ds[i].0) == Some(disk_id),
        forall|k: int| i < k < ds.len() ==> file_name_spec(#[trigger] ds[k].0) != Some(disk_id),
        ds[i].1 == Some(es),
        0 <= j < es.len(),
        es[j] == (disk_filepath(disk_id, file_id), Ok::<Seq<u8>, Seq<char>>(content)),
        forall|l: int| j < l < es.len() ==> file_id_of_path(#[trigger] es[l].0) != Ok::<
            Seq<char>,
            Seq<char>,
        >(file_id),
        files_of_disks(ds) is Ok,
    ensures
        files_of_disks(ds) matches Ok(m) && m.contains_key(disk_id) && m[disk_id].contains_key(
            file_id,
        ) && m[disk_id][file_id] == content,
    decreases ds.len(),
{
    let front = ds.drop_last();
    if i < ds.len() - 1 {
        assert forall|k: int| i < k < front.len() implies file_name_spec(#[trigger] front[k].0)
            != Some(disk_id) by {
            assert(front[k] == ds[k]);
        }
        assert(front[i] == ds[i]);
        assert(file_name_spec(ds[ds.len() - 1].0) != Some(disk_id));
        law_created_file_in_files_of_disks(front, i, es, j, disk_id, file_id, content);
    } else {
        law_file_id_of_entries(disk_id, disk_id, file_id);
        lemma_last_entry_gives_file(es, j, file_id, content);
    }
}

/// The layout of the files of a filesystem of the service, relative to its
/// home directory, and the computations on paths that its operations share.
pub trait UserDiskFilesystem {
    /// The name of the home directory of the filesystem.
    spec fn home_dir(&self) -> Seq<char>;

    fn get_home_dir(&self) -> (r: String)
        ensures
            r@ == self.home_dir(),
    ;

    fn get_default_dirpath(&self, file_id: &str) -> (r: String)
        ensures
            r@ == default_dirpath(file_id@),
    {
        proof {
            reveal_strlit("file/");
        }
        concat_str("file/".to_owned(), file_id)
    }

    fn get_default_filepath(&self, file_id: &str) -> (r: String)
        ensures
            r@ == default_filepath(file_id@),
    {
        proof {
            reveal_strlit("/file");
        }
        concat_str(self.get_default_dirpath(file_id), "/file")
    }

    fn get_disk_filepath(&self, disk_id: &str, file_id: &str) -> (r: String)
        ensures
            r@ == disk_filepath(disk_id@, file_id@),
    {
        proof {
            reveal_strlit("disk/");
            reveal_strlit("/");
        }
        let disk_path = "disk/".to_owned();
        if disk_id.is_empty() {
            disk_path
        } else {
            concat_str(concat_str(concat_str(disk_path, disk_id), "/"), file_id)
        }
    }

    fn get_user_filepath(&self, user_id: &str, file_id: &str) -> (r: String)
        ensures
            r@ == user_filepath(user_id@, file_id@),
    {
        proof {
            reveal_strlit("user/");
            reveal_strlit("/");
        }
        let user_path = "user/".to_owned();
        if user_id.is_empty() {
            user_path
        } else {
            concat_str(concat_str(concat_str(user_path, user_id), "/"), file_id)
        }
    }

    /// The link in the directory of a file that points to its disk.
    fn get_disk_link_path(&self, file_id: &str) -> (r: String)
        ensures
            r@ == disk_link_path(file_id@),
    {
        proof {
            reveal_strlit("/disk");
        }
        concat_str(self.get_default_dirpath(file_id), "/disk")
    }

    /// The link in the directory of a file that points to its user.
    fn get_user_link_path(&self, file_id: &str) -> (r: String)
        ensures
            r@ == user_link_path(file_id@),
    {
        proof {
            reveal_strlit("/user");
        }
        concat_str(self.get_default_dirpath(file_id), "/user")
    }

    /// The final name of `path`: the id of the file that an entry of a
    /// user, disk or storage directory stands for.
    fn get_fileid_from_path(&self, path: &str) -> (r: Result<String, MyError>)
        ensures
            result_view(r) == file_id_of_path(path@),
    {
        match file_name(path) {
            Some(id) => Ok(id),
            None => {
                Err(MyError::new("Could not get original filepath from symbolic link path"))
            },
        }
    }

    /// The number of directories that `path` goes down. `has_filename`
    /// says whether the path ends with a file name; `path_is_file` is
    /// whether the path names an existing regular file.
    fn count_directories(&self, path: &str, has_filename: Option<bool>, path_is_file: bool) -> (n:
        usize)
        ensures
            n == directory_count(path@, has_filename, path_is_file),
    {
        let count = count_normal_components(path);
        let ends_with_file = match has_filename {
            Some(b) => b,
            None => false,
        };
        if count > 0 && (path_is_file || ends_with_file) {
            count - 1
        } else {
            count
        }
    }

    /// The target of a symbolic link at `link` to `original` (both relative
    /// to the home directory), such that the link resolves to `original`.
    fn symlink_target(
        &self,
        original: &str,
        link: &str,
        link_has_filename: Option<bool>,
        link_is_file: bool,
    ) -> (r: String)
        ensures
            r@ == symlink_target_spec(original@, link@, link_has_filename, link_is_file),
    {
        let link_dir_num = self.count_directories(link, link_has_filename, link_is_file);
        concat_str(up_dirs_string(link_dir_num), original)
    }

    /// The disk of a file from the target of its disk link, read back (the
    /// reading's error passed on): the final name of the target.
    fn get_file_disk_from_link(&self, link: Result<String, MyError>) -> (r: Result<String, MyError>)
        ensures
            result_view(r) == id_of_link(result_view(link), disk_missing_message()),
    {
        match link {
            Err(e) => Err(e),
            Ok(target) => match file_name(target.as_str()) {
                Some(n) => Ok(n),
                None => Err(MyError::new("disk path doesn't exist")),
            },
        }
    }

    /// The user of a file from the target of its user link, read back (the
    /// reading's error passed on): the final name of the target.
    fn get_file_user_from_link(&self, link: Result<String, MyError>) -> (r: Result<String, MyError>)
        ensures
            result_view(r) == id_of_link(result_view(link), user_missing_message()),
    {
        match link {
            Err(e) => Err(e),
            Ok(target) => match file_name(target.as_str()) {
                Some(n) => Ok(n),
                None => Err(MyError::new("user path doesn't exist")),
            },
        }
    }

    /// Appends the steps that give a file its entries under its user's and
    /// its disk's directories.
    fn push_owner_link_steps(&self, steps: &mut Vec<Step>, file_id: &str, user_id: &str, disk_id: &str)
        ensures
            plan_view(final(steps)@) == plan_view(old(steps)@) + owner_link_steps(
                file_id@,
                user_id@,
                disk_id@,
            ),
    {
        let filepath = self.get_default_filepath(file_id);
        let user_dir = self.get_user_filepath(user_id, "");
        let user_link = self.get_user_link_path(file_id);
        let user_target = self.symlink_target(user_dir.as_str(), user_link.as_str(), Some(true), false);
        push_must(steps, FsOp::CreateDir(user_dir));
        push_must(steps, FsOp::HardLink { original: filepath.clone(), link: self.get_user_filepath(user_id, file_id) });
        push_must(steps, FsOp::SymLink { target: user_target, link: user_link });
        let disk_dir = self.get_disk_filepath(disk_id, "");
        let disk_link = self.get_disk_link_path(file_id);
        let disk_target = self.symlink_target(disk_dir.as_str(), disk_link.as_str(), Some(true), false);
        push_must(steps, FsOp::CreateDir(disk_dir));
        push_must(steps, FsOp::HardLink { original: filepath, link: self.get_disk_filepath(disk_id, file_id) });
        push_must(steps, FsOp::SymLink { target: disk_target, link: disk_link });
        proof {
            reveal_strlit("");
            assert(plan_view(steps@) =~= plan_view(old(steps)@) + owner_link_steps(
                file_id@,
                user_id@,
                disk_id@,
            ));
        }
    }

    /// The plan that sets up the base directories of the filesystem (files,
    /// users, disks), each failure ending it.
    fn base_dirs_plan(&self) -> (steps: Vec<Step>)
        ensures
            plan_view(steps@) == base_dir_steps(),
    {
        let mut steps: Vec<Step> = Vec::new();
        push_must(&mut steps, FsOp::CreateDir(self.get_default_dirpath("")));
        push_must(&mut steps, FsOp::CreateDir(self.get_user_filepath("", "")));
        push_must(&mut steps, FsOp::CreateDir(self.get_disk_filepath("", "")));
        proof {
            reveal_strlit("");
            assert(plan_view(steps@) =~= base_dir_steps());
        }
        steps
    }

    /// The files that the entries of a directory hold (each entry's path
    /// with the outcome of reading it), keyed by the id that each path
    /// names; the first error in the order of the entries is returned.
    fn files_from_entries(&self, entries: &Vec<(String, Result<Vec<u8>, MyError>)>) -> (r: Result<
        StrMap<Vec<u8>>,
        MyError,
    >)
        ensures
            files_result_view(r) == files_of_entries(
                entries@.map_values(|e: (String, Result<Vec<u8>, MyError>)| entry_view(e)),
            ),
    {
        let ghost es = entries@.map_values(|e: (String, Result<Vec<u8>, MyError>)| entry_view(e));
        let mut files: StrMap<Vec<u8>> = StrMap::new();
        assert(files@.map_values(|v: Vec<u8>| v@) =~= Map::<Seq<char>, Seq<u8>>::empty());
        let mut k: usize = 0;
        while k < entries.len()
            invariant
                k <= es.len(),
                es == entries@.map_values(|e: (String, Result<Vec<u8>, MyError>)| entry_view(e)),
                files_of_entries(es.take(k as int)) == Ok::<Map<Seq<char>, Seq<u8>>, Seq<char>>(
                    files@.map_values(|v: Vec<u8>| v@),
                ),
            decreases es.len() - k,
        {
            assert(es.take(k + 1).drop_last() =~= es.take(k as int));
            assert(es.take(k + 1).last() == entry_view(entries@[k as int]));
            match self.get_fileid_from_path(entries[k].0.as_str()) {
                Ok(fileid) => {
                    match &entries[k].1 {
                        Ok(content) => {
                            let ghost before = files@;
                            let ghost key = fileid@;
                            files.insert(fileid, copy_vec(content));
                            assert(files@.map_values(|v: Vec<u8>| v@) =~= before.map_values(
                                |v: Vec<u8>| v@,
                            ).insert(key, content@));
                        },
                        Err(e) => {
                            proof {
                                lemma_files_error_persists(es, k + 1);
                            }
                            return Err(MyError::from_string(e.to_string()));
                        },
                    }
                },
                Err(e) => {
                    proof {
                        lemma_files_error_persists(es, k + 1);
                    }
                    return Err(e);
                },
            }
            k = k + 1;
        }
        assert(es.take(es.len() as int) =~= es);
        Ok(files)
    }

    /// The files of a disk, from the entries of its directory: none when
    /// the directory cannot be read (`entries` is `None`).
    fn get_disk_files(&self, entries: &Option<Vec<(String, Result<Vec<u8>, MyError>)>>) -> (r:
        Result<StrMap<Vec<u8>>, MyError>)
        ensures
            match entries {
                Some(es) => files_result_view(r) == files_of_entries(
                    es@.map_values(|e: (String, Result<Vec<u8>, MyError>)| entry_view(e)),
                ),
                None => files_result_view(r) == Ok::<Map<Seq<char>, Seq<u8>>, Seq<char>>(
                    Map::empty(),
                ),
            },
    {
        match entries {
            Some(es) => self.files_from_entries(es),
            None => {
                let m: StrMap<Vec<u8>> = StrMap::new();
                assert(m@.map_values(|v: Vec<u8>| v@) =~= Map::<Seq<char>, Seq<u8>>::empty());
                Ok(m)
            },
        }
    }

    /// The files of a user, from the entries of its directory: an error
    /// when the directory cannot be read (`entries` is `None`).
    fn get_user_files(&self, user_id: &str, entries: &Option<Vec<(String, Result<Vec<u8>, MyError>)>>) -> (r:
        Result<StrMap<Vec<u8>>, MyError>)
        ensures
            match entries {
                Some(es) => files_result_view(r) == files_of_entries(
                    es@.map_values(|e: (String, Result<Vec<u8>, MyError>)| entry_view(e)),
                ),
                None => files_result_view(r) == Err::<Map<Seq<char>, Seq<u8>>, Seq<char>>(
                    unknown_user_message(user_id@),
                ),
            },
    {
        match entries {
            Some(es) => self.files_from_entries(es),
            None => {
                let msg = concat_str(
                    concat_str("Could not get user files, user '".to_owned(), user_id),
                    "' may not exist yet",
                );
                Err(MyError::from_string(msg))
            },
        }
    }

    /// What removing a user comes to, from the listing of the user's files
    /// (`get_user_files`): the listing's error ends it; otherwise each listed
    /// file is to be removed (with `remove_file_plan`), then the user's
    /// directory, whose path comes second.
    fn remove_user(&self, user_id: &str, listing: Result<StrMap<Vec<u8>>, MyError>) -> (r: Result<
        (Vec<String>, String),
        MyError,
    >)
        ensures
            match listing {
                Err(e) => r matches Err(x) && x@ == e@,
                Ok(m) => r matches Ok((ids, dir)) && ids@.map_values(|s: String| s@).to_set()
                    == m@.dom() && ids@.map_values(|s: String| s@).no_duplicates() && dir@
                    == user_filepath(user_id@, ""@),
            },
    {
        match listing {
            Err(e) => Err(e),
            Ok(m) => Ok((m.keys(), self.get_user_filepath(user_id, ""))),
        }
    }

    /// The files of every disk, from the entries of the disks' directory
    /// (`None` when it cannot be read, an error), each with the entries of
    /// its own directory.
    fn get_files_disks(
        &self,
        disks: &Option<Vec<(String, Option<Vec<(String, Result<Vec<u8>, MyError>)>>)>>,
    ) -> (r: Result<StrMap<StrMap<Vec<u8>>>, MyError>)
        ensures
            match disks {
                None => r matches Err(e) && e@ == disks_unreadable_message(),
                Some(ds) => match r {
                    Ok(m) => files_of_disks(
                        ds@.map_values(
                            |e: (String, Option<Vec<(String, Result<Vec<u8>, MyError>)>>)|
                                disk_entry_view(e),
                        ),
                    ) == Ok::<Map<Seq<char>, Map<Seq<char>, Seq<u8>>>, Seq<char>>(
                        m@.map_values(
                            |f: StrMap<Vec<u8>>| f@.map_values(|v: Vec<u8>| v@),
                        ),
                    ),
                    Err(e) => files_of_disks(
                        ds@.map_values(
                            |e: (String, Option<Vec<(String, Result<Vec<u8>, MyError>)>>)|
                                disk_entry_view(e),
                        ),
                    ) == Err::<Map<Seq<char>, Map<Seq<char>, Seq<u8>>>, Seq<char>>(e@),
                },
            },
    {
        let ds = match disks {
            Some(ds) => ds,
            None => {
                return Err(MyError::new("Could not read dir : 'disk/'"));
            },
        };
        let ghost dv = ds@.map_values(
            |e: (String, Option<Vec<(String, Result<Vec<u8>, MyError>)>>)| disk_entry_view(e),
        );
        let mut files_disks: StrMap<StrMap<Vec<u8>>> = StrMap::new();
        assert(files_disks@.map_values(|f: StrMap<Vec<u8>>| f@.map_values(|v: Vec<u8>| v@)) =~= Map::<
            Seq<char>,
            Map<Seq<char>, Seq<u8>>,
        >::empty());
        let mut k: usize = 0;
        while k < ds.len()
            invariant
                k <= dv.len(),
                *disks == Some(*ds),
                dv == ds@.map_values(
                    |e: (String, Option<Vec<(String, Result<Vec<u8>, MyError>)>>)| disk_entry_view(e),
                ),
                files_of_disks(dv.take(k as int)) == Ok::<
                    Map<Seq<char>, Map<Seq<char>, Seq<u8>>>,
                    Seq<char>,
                >(files_disks@.map_values(|f: StrMap<Vec<u8>>| f@.map_values(|v: Vec<u8>| v@))),
            decreases dv.len() - k,
        {
            assert(dv.take(k + 1).drop_last() =~= dv.take(k as int));
            assert(dv.take(k + 1).last() == disk_entry_view(ds@[k as int]));
            if let Some(diskname) = file_name(ds[k].0.as_str()) {
                match self.get_disk_files(&ds[k].1) {
                    Ok(disk_files) => {
                        let ghost before = files_disks@.map_values(
                            |f: StrMap<Vec<u8>>| f@.map_values(|v: Vec<u8>| v@),
                        );
                        let ghost key = diskname@;
                        let ghost value = disk_files@.map_values(|v: Vec<u8>| v@);
                        files_disks.insert(diskname, disk_files);
                        assert(files_disks@.map_values(
                            |f: StrMap<Vec<u8>>| f@.map_values(|v: Vec<u8>| v@),
                        ) =~= before.insert(key, value));
                    },
                    Err(e) => {
                        proof {
                            lemma_disks_error_persists(dv, k + 1);
                        }
                        return Err(e);
                    },
                }
            }
            k = k + 1;
        }
        assert(dv.take(dv.len() as int) =~= dv);
        Ok(files_disks)
    }

    /// Whether a working directory is the home directory of the filesystem:
    /// whether its final name is the home directory's name.
    fn is_home_dir_path(&self, cwd: &str) -> (b: bool)
        ensures
            b == (file_name_spec(cwd@) == Some(self.home_dir())),
    {
        match file_name(cwd) {
            Some(name) => name == self.get_home_dir(),
            None => false,
        }
    }
}

/// `../` repeated `n` times.
pub fn up_dirs_string(n: usize) -> (r: String)
    ensures
        r@ == up_dirs(n as nat),
{
    let mut r = String::new();
    let mut i: usize = 0;
    while i < n
        invariant
            i <= n,
            r@ == up_dirs(i as nat),
        decreases n - i,
    {
        proof {
            reveal_strlit("../");
        }
        r.append("../");
        i = i + 1;
    }
    r
}

} // verus!
