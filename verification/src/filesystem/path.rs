use std::path::Component;
use std::path::Path;
use vstd::prelude::*;

verus! {

/// One component of a path, as `std::path::Path::components` yields it,
/// with its text as a `String`.
#[derive(Debug)]
pub enum PathComponent {
    Prefix(String),
    RootDir,
    CurDir,
    ParentDir,
    Normal(String),
}

/// The mathematical value of a path component.
pub enum ComponentView {
    Prefix(Seq<char>),
    RootDir,
    CurDir,
    ParentDir,
    Normal(Seq<char>),
}

impl View for PathComponent {
    type V = ComponentView;

    open spec fn view(&self) -> ComponentView {
        match self {
            PathComponent::Prefix(s) => ComponentView::Prefix(s@),
            PathComponent::RootDir => ComponentView::RootDir,
            PathComponent::CurDir => ComponentView::CurDir,
            PathComponent::ParentDir => ComponentView::ParentDir,
            PathComponent::Normal(s) => ComponentView::Normal(s@),
        }
    }
}

/// The pieces of a path between its separators `/` (empty pieces included).
pub open spec fn path_pieces(s: Seq<char>) -> Seq<Seq<char>>
    decreases s.len(),
{
    if s.len() == 0 {
        seq![Seq::<char>::empty()]
    } else {
        let p = path_pieces(s.drop_last());
        if s.last() == '/' {
            p.push(Seq::<char>::empty())
        } else {
            p.update(p.len() - 1, p.last().push(s.last()))
        }
    }
}

pub open spec fn dot() -> Seq<char> {
    seq!['.']
}

pub open spec fn dot_dot() -> Seq<char> {
    seq!['.', '.']
}

/// The components that the pieces of a path stand for: empty pieces and `.`
/// are normalized away, `..` is a parent directory, anything else a name.
pub open spec fn kept_components(pieces: Seq<Seq<char>>) -> Seq<ComponentView>
    decreases pieces.len(),
{
    if pieces.len() == 0 {
        Seq::empty()
    } else {
        let rest = kept_components(pieces.drop_last());
        let p = pieces.last();
        if p.len() == 0 || p == dot() {
            rest
        } else if p == dot_dot() {
            rest.push(ComponentView::ParentDir)
        } else {
            rest.push(ComponentView::Normal(p))
        }
    }
}

/// The components of a Unix path, as the documentation of
/// `Path::components` describes them: a leading `/` is the root directory,
/// a leading `.` piece the current directory, repeated separators, `.`
/// pieces elsewhere and a trailing separator are normalized away.
pub open spec fn path_components_spec(s: Seq<char>) -> Seq<ComponentView> {
    let pieces = path_pieces(s);
    let head = if s.len() > 0 && s[0] == '/' {
        seq![ComponentView::RootDir]
    } else if pieces[0] == dot() {
        seq![ComponentView::CurDir]
    } else {
        Seq::empty()
    };
    head + kept_components(pieces)
}

/// How many of the components are names (`Component::Normal`).
pub open spec fn normal_count(cs: Seq<ComponentView>) -> nat
    decreases cs.len(),
{
    if cs.len() == 0 {
        0
    } else {
        normal_count(cs.drop_last()) + if cs.last() is Normal {
            1nat
        } else {
            0nat
        }
    }
}

/// The final component of a path when it is a name (`Path::file_name`).
pub open spec fn file_name_spec(s: Seq<char>) -> Option<Seq<char>> {
    let cs = path_components_spec(s);
    if cs.len() > 0 && cs.last() is Normal {
        Some(cs.last()->Normal_0)
    } else {
        None
    }
}

/// The view of an optional string.
pub open spec fn opt_view(o: Option<String>) -> Option<Seq<char>> {
    match o {
        Some(s) => Some(s@),
        None => None,
    }
}

/// A name that a path can hold as one component: not empty, without a
/// separator, and neither `.` nor `..`.
pub open spec fn is_plain_name(s: Seq<char>) -> bool {
    &&& s.len() > 0
    &&& !s.contains('/')
    &&& s != dot()
    &&& s != dot_dot()
}

pub proof fn lemma_pieces_nonempty(s: Seq<char>)
    ensures
        path_pieces(s).len() >= 1,
    decreases s.len(),
{
    if s.len() > 0 {
        lemma_pieces_nonempty(s.drop_last());
    }
}

/// A path without separator is one piece.
pub proof fn lemma_pieces_without_separator(s: Seq<char>)
    requires
        !s.contains('/'),
    ensures
        path_pieces(s) == seq![s],
    decreases s.len(),
{
    if s.len() > 0 {
        let t = s.drop_last();
        assert(!t.contains('/')) by {
            if t.contains('/') {
                let i = choose|i: int| 0 <= i < t.len() && t[i] == '/';
                assert(s[i] == '/');
            }
        }
        lemma_pieces_without_separator(t);
        assert(s.last() != '/') by {
            assert(s[s.len() - 1] == s.last());
        }
        assert(t.push(s.last()) =~= s);
        assert(seq![t].update(0, t.push(s.last())) =~= seq![s]);
    } else {
        assert(s =~= Seq::<char>::empty());
    }
}

/// Joining two paths with a separator joins their pieces.
pub proof fn lemma_pieces_join(a: Seq<char>, b: Seq<char>)
    ensures
        path_pieces(a + seq!['/'] + b) == path_pieces(a) + path_pieces(b),
    decreases b.len(),
{
    lemma_pieces_nonempty(a);
    if b.len() == 0 {
        let s = a + seq!['/'];
        assert(s.drop_last() =~= a);
        assert(a + seq!['/'] + b =~= s);
        assert(path_pieces(b) =~= seq![Seq::<char>::empty()]);
        assert(path_pieces(a).push(Seq::<char>::empty()) =~= path_pieces(a) + path_pieces(b));
    } else {
        let b0 = b.drop_last();
        let s = a + seq!['/'] + b;
        lemma_pieces_join(a, b0);
        lemma_pieces_nonempty(b0);
        assert(s.drop_last() =~= a + seq!['/'] + b0);
        assert(s.last() == b.last());
        let pa = path_pieces(a);
        let pb0 = path_pieces(b0);
        if b.last() == '/' {
            assert((pa + pb0).push(Seq::<char>::empty()) =~= pa + pb0.push(Seq::<char>::empty()));
        } else {
            let q = pa + pb0;
            assert(q.last() == pb0.last());
            assert(q.update(q.len() - 1, q.last().push(b.last())) =~= pa + pb0.update(
                pb0.len() - 1,
                pb0.last().push(b.last()),
            ));
        }
    }
}

/// Names joined with separators.
pub open spec fn join_names(ns: Seq<Seq<char>>) -> Seq<char>
    decreases ns.len(),
{
    if ns.len() == 0 {
        Seq::empty()
    } else if ns.len() == 1 {
        ns[0]
    } else {
        join_names(ns.drop_last()) + seq!['/'] + ns.last()
    }
}

/// Every name is free of separators.
pub open spec fn no_separators(ns: Seq<Seq<char>>) -> bool {
    forall|i: int| 0 <= i < ns.len() ==> !(#[trigger] ns[i]).contains('/')
}

/// Every name is plain.
pub open spec fn all_plain(ns: Seq<Seq<char>>) -> bool {
    forall|i: int| 0 <= i < ns.len() ==> is_plain_name(#[trigger] ns[i])
}

/// The pieces of names joined with separators are those names.
pub proof fn lemma_pieces_of_join(ns: Seq<Seq<char>>)
    requires
        ns.len() >= 1,
        no_separators(ns),
    ensures
        path_pieces(join_names(ns)) == ns,
    decreases ns.len(),
{
    if ns.len() == 1 {
        assert(!ns[0].contains('/'));
        lemma_pieces_without_separator(ns[0]);
        assert(seq![ns[0]] =~= ns);
    } else {
        let ns0 = ns.drop_last();
        assert(no_separators(ns0)) by {
            assert forall|i: int| 0 <= i < ns0.len() implies !(#[trigger] ns0[i]).contains('/') by {
                assert(ns0[i] == ns[i]);
            }
        }
        lemma_pieces_of_join(ns0);
        lemma_pieces_join(join_names(ns0), ns.last());
        assert(!ns[ns.len() - 1].contains('/'));
        lemma_pieces_without_separator(ns.last());
        assert(ns0 + seq![ns.last()] =~= ns);
    }
}

/// Names joined with separators start with the first name.
pub proof fn lemma_join_first(ns: Seq<Seq<char>>)
    requires
        ns.len() >= 1,
        ns[0].len() > 0,
    ensures
        join_names(ns).len() > 0,
        join_names(ns)[0] == ns[0][0],
    decreases ns.len(),
{
    if ns.len() > 1 {
        let ns0 = ns.drop_last();
        assert(ns0[0] == ns[0]);
        lemma_join_first(ns0);
    }
}

/// The components of names joined with separators, when the first name is
/// neither empty nor `.`, are the components kept from the names.
pub proof fn lemma_components_of_join(ns: Seq<Seq<char>>)
    requires
        ns.len() >= 1,
        no_separators(ns),
        ns[0].len() > 0,
        ns[0] != dot(),
    ensures
        path_components_spec(join_names(ns)) == kept_components(ns),
{
    lemma_pieces_of_join(ns);
    lemma_join_first(ns);
    assert(!ns[0].contains('/'));
    assert(ns[0][0] != '/') by {
        if ns[0][0] == '/' {
            assert(ns[0].contains('/'));
        }
    }
    assert(Seq::<ComponentView>::empty() + kept_components(ns) =~= kept_components(ns));
}

/// Plain names keep one name component each.
pub proof fn lemma_normal_count_of_plain(ns: Seq<Seq<char>>)
    requires
        all_plain(ns),
    ensures
        normal_count(kept_components(ns)) == ns.len(),
    decreases ns.len(),
{
    if ns.len() > 0 {
        let ns0 = ns.drop_last();
        assert(all_plain(ns0)) by {
            assert forall|i: int| 0 <= i < ns0.len() implies is_plain_name(#[trigger] ns0[i]) by {
                assert(ns0[i] == ns[i]);
            }
        }
        lemma_normal_count_of_plain(ns0);
        assert(is_plain_name(ns[ns.len() - 1]));
        let k = kept_components(ns);
        assert(k == kept_components(ns0).push(ComponentView::Normal(ns.last())));
        assert(k.drop_last() =~= kept_components(ns0));
    }
}

/// The final name of names joined with separators, the first neither empty
/// nor `.`, the last plain: the last name; and so too when one more, empty,
/// name (a trailing separator) follows.
pub proof fn lemma_file_name_of_join(ns: Seq<Seq<char>>)
    requires
        ns.len() >= 1,
        no_separators(ns),
        ns[0].len() > 0,
        ns[0] != dot(),
        is_plain_name(ns.last()),
    ensures
        file_name_spec(join_names(ns)) == Some(ns.last()),
        file_name_spec(join_names(ns.push(Seq::<char>::empty()))) == Some(ns.last()),
{
    lemma_components_of_join(ns);
    let k = kept_components(ns);
    assert(k == kept_components(ns.drop_last()).push(ComponentView::Normal(ns.last())));
    let ms = ns.push(Seq::<char>::empty());
    assert(no_separators(ms)) by {
        assert forall|i: int| 0 <= i < ms.len() implies !(#[trigger] ms[i]).contains('/') by {
            if i < ns.len() {
                assert(ms[i] == ns[i]);
            } else {
                assert(ms[i] =~= Seq::<char>::empty());
            }
        }
    }
    assert(ms[0] == ns[0]);
    lemma_components_of_join(ms);
    assert(ms.drop_last() =~= ns);
    assert(ms.last().len() == 0);
}

/// Calls `std::path::Path::components` on `path` and hands out each
/// component with its text. Claims that the components are those that
/// `path_components_spec` describes, as the documentation of
/// `Path::components` states them for Unix paths.
#[verifier::external_body]
fn components(path: &str) -> (cs: Vec<PathComponent>)
    ensures
        cs@.map_values(|c: PathComponent| c@) == path_components_spec(path@),
{
    Path::new(path).components().map(
        |c| match c {
            Component::Prefix(p) => PathComponent::Prefix(
                p.as_os_str().to_string_lossy().into_owned(),
            ),
            Component::RootDir => PathComponent::RootDir,
            Component::CurDir => PathComponent::CurDir,
            Component::ParentDir => PathComponent::ParentDir,
            Component::Normal(n) => PathComponent::Normal(n.to_string_lossy().into_owned()),
        },
    ).collect()
}

/// The number of names in `path` (the components that are `Normal`).
pub fn count_normal_components(path: &str) -> (n: usize)
    ensures
        n == normal_count(path_components_spec(path@)),
{
    let cs = components(path);
    let ghost vs = cs@.map_values(|c: PathComponent| c@);
    let mut count: usize = 0;
    let mut i: usize = 0;
    while i < cs.len()
        invariant
            i <= cs.len(),
            vs == cs@.map_values(|c: PathComponent| c@),
            count == normal_count(vs.take(i as int)),
            count <= i,
        decreases cs.len() - i,
    {
        assert(vs.take(i + 1).drop_last() =~= vs.take(i as int));
        if let PathComponent::Normal(_) = &cs[i] {
            count = count + 1;
        }
        i = i + 1;
    }
    assert(vs.take(cs.len() as int) =~= vs);
    count
}

/// The final component of `path` when it is a name (`Path::file_name`).
pub fn file_name(path: &str) -> (r: Option<String>)
    ensures
        opt_view(r) == file_name_spec(path@),
{
    let cs = components(path);
    let ghost vs = cs@.map_values(|c: PathComponent| c@);
    let n = cs.len();
    if n == 0 {
        return None;
    }
    assert(vs.last() == cs@[n - 1]@);
    match &cs[n - 1] {
        PathComponent::Normal(s) => Some(s.clone()),
        _ => None,
    }
}

} // verus!
