use vstd::prelude::*;
use crate::filesystem::error::MyError;

verus! {

/// One operation on the filesystem, with paths relative to the home
/// directory of the filesystem.
#[derive(Debug)]
pub enum FsOp {
    /// Create the directory, unless it exists already.
    CreateDir(String),
    /// Create (or truncate) the file and write the file's content in it.
    WriteFile(String),
    /// Make `link` a hard link to `original`; a link that exists already
    /// counts as made.
    HardLink { original: String, link: String },
    /// Make `link` a symbolic link whose target is `target`.
    SymLink { target: String, link: String },
    /// Remove the file.
    RemoveFile(String),
    /// Remove the directory and everything under it.
    RemoveDirAll(String),
}

/// The mathematical value of an operation.
pub enum FsOpView {
    CreateDir(Seq<char>),
    WriteFile(Seq<char>),
    HardLink(Seq<char>, Seq<char>),
    SymLink(Seq<char>, Seq<char>),
    RemoveFile(Seq<char>),
    RemoveDirAll(Seq<char>),
}

impl View for FsOp {
    type V = FsOpView;

    open spec fn view(&self) -> FsOpView {
        match self {
            FsOp::CreateDir(p) => FsOpView::CreateDir(p@),
            FsOp::WriteFile(p) => FsOpView::WriteFile(p@),
            FsOp::HardLink { original, link } => FsOpView::HardLink(original@, link@),
            FsOp::SymLink { target, link } => FsOpView::SymLink(target@, link@),
            FsOp::RemoveFile(p) => FsOpView::RemoveFile(p@),
            FsOp::RemoveDirAll(p) => FsOpView::RemoveDirAll(p@),
        }
    }
}

/// A step of a plan: an operation, and whether its failure ends the plan
/// (its error being the plan's error) or is only reported.
#[derive(Debug)]
pub struct Step {
    pub op: FsOp,
    pub abort_on_error: bool,
}

pub struct StepView {
    pub op: FsOpView,
    pub abort_on_error: bool,
}

impl View for Step {
    type V = StepView;

    open spec fn view(&self) -> StepView {
        StepView { op: self.op@, abort_on_error: self.abort_on_error }
    }
}

/// The mathematical value of a plan.
pub open spec fn plan_view(steps: Seq<Step>) -> Seq<StepView> {
    steps.map_values(|s: Step| s@)
}

/// A step whose failure ends the plan.
pub open spec fn must(op: FsOpView) -> StepView {
    StepView { op, abort_on_error: true }
}

/// A step whose failure is only reported.
pub open spec fn may(op: FsOpView) -> StepView {
    StepView { op, abort_on_error: false }
}

/// Appends to a plan a step whose failure ends it.
pub fn push_must(steps: &mut Vec<Step>, op: FsOp)
    ensures
        plan_view(final(steps)@) == plan_view(old(steps)@).push(must(op@)),
{
    let ghost op_view = op@;
    steps.push(Step { op, abort_on_error: true });
    assert(plan_view(steps@) =~= plan_view(old(steps)@).push(must(op_view)));
}

/// Appends to a plan a step whose failure is only reported.
pub fn push_may(steps: &mut Vec<Step>, op: FsOp)
    ensures
        plan_view(final(steps)@) == plan_view(old(steps)@).push(may(op@)),
{
    let ghost op_view = op@;
    steps.push(Step { op, abort_on_error: false });
    assert(plan_view(steps@) =~= plan_view(old(steps)@).push(may(op_view)));
}

/// What running a plan does with the outcome of one of its steps: the
/// error of a step whose failure ends the plan ends it (`Err`); the error of
/// any other step is to be reported (`Ok(Some(..))`) and the plan goes on,
/// as it does after a step that succeeded (`Ok(None)`).
pub fn after_step(step: &Step, outcome: Result<(), MyError>) -> (r: Result<Option<MyError>, MyError>)
    ensures
        match outcome {
            Ok(()) => r matches Ok(None),
            Err(e) => if step.abort_on_error {
                r matches Err(x) && x@ == e@
            } else {
                r matches Ok(Some(x)) && x@ == e@
            },
        },
{
    match outcome {
        Ok(()) => Ok(None),
        Err(e) => if step.abort_on_error {
            Err(e)
        } else {
            Ok(Some(e))
        },
    }
}

pub open spec fn not_in_home_message() -> Seq<char> {
    "Current directory should be home directory of the filesystem"@
}

/// Files are created only from the home directory of the filesystem:
/// `in_home_dir` is whether the working directory is that directory.
pub fn require_home_dir(in_home_dir: bool) -> (r: Result<(), MyError>)
    ensures
        r is Ok <==> in_home_dir,
        r matches Err(e) ==> e@ == not_in_home_message(),
{
    if in_home_dir {
        Ok(())
    } else {
        Err(MyError::new("Current directory should be home directory of the filesystem"))
    }
}

/// What a path is under: the path itself or anything below it.
pub open spec fn is_under(path: Seq<char>, dir: Seq<char>) -> bool {
    path == dir || (path.len() > dir.len() && path.take(dir.len() as int) == dir && path[dir.len() as int] == '/')
}

/// The paths that a plan creates (files and links, directories aside).
pub open spec fn creates(plan: Seq<StepView>, path: Seq<char>) -> bool {
    exists|i: int|
        0 <= i < plan.len() && match #[trigger] plan[i].op {
            FsOpView::WriteFile(p) => p == path,
            FsOpView::HardLink(_, l) => l == path,
            FsOpView::SymLink(_, l) => l == path,
            _ => false,
        }
}

/// Whether a plan removes a path: removes it or a directory it is under.
pub open spec fn removes(plan: Seq<StepView>, path: Seq<char>) -> bool {
    exists|i: int|
        0 <= i < plan.len() && match #[trigger] plan[i].op {
            FsOpView::RemoveFile(p) => p == path,
            FsOpView::RemoveDirAll(d) => is_under(path, d),
            _ => false,
        }
}

/// A path created by two plans run one after the other is created by one
/// of them.
pub proof fn lemma_creates_concat(a: Seq<StepView>, b: Seq<StepView>, path: Seq<char>)
    requires
        creates(a + b, path),
    ensures
        creates(a, path) || creates(b, path),
{
    let i = choose|i: int|
        0 <= i < (a + b).len() && match #[trigger] (a + b)[i].op {
            FsOpView::WriteFile(p) => p == path,
            FsOpView::HardLink(_, l) => l == path,
            FsOpView::SymLink(_, l) => l == path,
            _ => false,
        };
    if i < a.len() {
        assert((a + b)[i] == a[i]);
    } else {
        assert((a + b)[i] == b[i - a.len()]);
    }
}

/// What a part of a plan removes, the plan removes.
pub proof fn lemma_removes_part(plan: Seq<StepView>, k: int, part: Seq<StepView>, path: Seq<char>)
    requires
        0 <= k,
        k + part.len() <= plan.len(),
        plan.subrange(k, k + part.len()) == part,
        removes(part, path),
    ensures
        removes(plan, path),
{
    let i = choose|i: int|
        0 <= i < part.len() && match #[trigger] part[i].op {
            FsOpView::RemoveFile(p) => p == path,
            FsOpView::RemoveDirAll(d) => is_under(path, d),
            _ => false,
        };
    assert(plan[k + i] == part[i]);
}

/// A path below a directory is under it.
pub proof fn lemma_below_is_under(dir: Seq<char>, rest: Seq<char>)
    ensures
        is_under(dir + seq!['/'] + rest, dir),
{
    let p = dir + seq!['/'] + rest;
    assert(p.take(dir.len() as int) =~= dir);
    assert(p[dir.len() as int] == '/');
}

} // verus!
