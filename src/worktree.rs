//! Where a working tree goes, and creating or removing one step by step.

use vstd::prelude::*;

use crate::error::ForceError;
use crate::text::{push_char, replace_all, replace_str};

verus! {

/// A path that starts at the root.
pub open spec fn is_absolute(p: Seq<char>) -> bool {
    p.len() > 0 && p[0] == '/'
}

/// `rel` appended to `base`: an absolute `rel` replaces `base`; otherwise a separator is put
/// between them unless `base` is empty or already ends with one.
pub open spec fn join_path(base: Seq<char>, rel: Seq<char>) -> Seq<char> {
    if is_absolute(rel) {
        rel
    } else if base.len() > 0 && base.last() != '/' {
        base + seq!['/'] + rel
    } else {
        base + rel
    }
}

/// The placeholder that a path template holds for the feature slug.
pub open spec fn placeholder() -> Seq<char> {
    "$FORCE_FEATURE_SLUG"@
}

/// A path template with every placeholder replaced by the slug.
pub open spec fn expanded(template: Seq<char>, feature_slug: Seq<char>) -> Seq<char> {
    replace_all(template, placeholder(), feature_slug)
}

/// A path taken as it is when absolute, else relative to the project root.
pub open spec fn resolved(project_root: Seq<char>, path: Seq<char>) -> Seq<char> {
    if is_absolute(path) {
        path
    } else {
        join_path(project_root, path)
    }
}

/// Where the working tree of a feature lives.
pub open spec fn worktree_path_of(
    project_root: Seq<char>,
    feature_slug: Seq<char>,
    template: Seq<char>,
) -> Seq<char> {
    resolved(project_root, expanded(template, feature_slug))
}

/// The file whose presence marks a directory as a working tree.
pub open spec fn marker_of(path: Seq<char>) -> Seq<char> {
    join_path(path, ".git"@)
}

/// Appends `rel` to `base` as a path.
pub fn join(base: &str, rel: &str) -> (r: String)
    ensures
        r@ == join_path(base@, rel@),
{
    let b = crate::text::chars_of(base);
    let rv = crate::text::chars_of(rel);
    if rv.len() > 0 && rv[0] == '/' {
        String::from_str(rel)
    } else {
        let mut out = String::from_str(base);
        if b.len() > 0 && b[b.len() - 1] != '/' {
            push_char(&mut out, '/');
        }
        out.append(rel);
        out
    }
}

/// Replaces each placeholder of a path template with the feature slug.
pub fn expand_path_template(template: &str, feature_slug: &str) -> (r: String)
    ensures
        r@ == expanded(template@, feature_slug@),
{
    proof {
        reveal_strlit("$FORCE_FEATURE_SLUG");
    }
    replace_str(template, "$FORCE_FEATURE_SLUG", feature_slug)
}

/// Resolves a path against the project root unless it is absolute.
pub fn resolve_path(project_root: &str, relative_path: &str) -> (r: String)
    ensures
        r@ == resolved(project_root@, relative_path@),
{
    let v = crate::text::chars_of(relative_path);
    if v.len() > 0 && v[0] == '/' {
        String::from_str(relative_path)
    } else {
        join(project_root, relative_path)
    }
}

/// The absolute path of a feature's working tree, whether or not it exists.
pub fn resolve_worktree_path(project_root: &str, feature_slug: &str, path_template: &str) -> (r:
    String)
    ensures
        r@ == worktree_path_of(project_root@, feature_slug@, path_template@),
{
    let worktree_path = expand_path_template(path_template, feature_slug);
    resolve_path(project_root, worktree_path.as_str())
}

/// The marker file of the working tree at `path`.
pub fn worktree_marker(path: &str) -> (r: String)
    ensures
        r@ == marker_of(path@),
{
    join(path, ".git")
}

/// A working tree that is ready for use.
pub struct WorktreeResult {
    pub path: String,
    /// Whether it was made by this call rather than found and reused.
    pub created: bool,
}

/// What came of an action that the caller performed.
pub enum Outcome {
    /// The check held, or the operation succeeded.
    Success,
    /// The check did not hold, or the command exited unsuccessfully, with its diagnostic.
    Failure(String),
    /// The operation could not be carried out at all.
    IoError(String),
}

/// Where a working-tree creation stands.
#[derive(Debug, Clone, Copy, PartialEq, Eq, Structural)]
pub enum CreatePhase {
    CheckPath,
    CheckMarker,
    CreateParents,
    AddNewBranch,
    AddExistingBranch,
    Reused,
    Created,
    Conflict,
    GitFailed,
    IoFailed,
}

/// The phases in which creation is over.
pub open spec fn is_final(p: CreatePhase) -> bool {
    match p {
        CreatePhase::Reused | CreatePhase::Created | CreatePhase::Conflict
        | CreatePhase::GitFailed | CreatePhase::IoFailed => true,
        _ => false,
    }
}

/// The phase that follows `p` once its action has had outcome `o`.
pub open spec fn create_next(p: CreatePhase, o: Outcome) -> CreatePhase {
    match o {
        Outcome::IoError(_) => if is_final(p) {
            p
        } else {
            CreatePhase::IoFailed
        },
        Outcome::Success => match p {
            CreatePhase::CheckPath => CreatePhase::CheckMarker,
            CreatePhase::CheckMarker => CreatePhase::Reused,
            CreatePhase::CreateParents => CreatePhase::AddNewBranch,
            CreatePhase::AddNewBranch => CreatePhase::Created,
            CreatePhase::AddExistingBranch => CreatePhase::Created,
            _ => p,
        },
        Outcome::Failure(_) => match p {
            CreatePhase::CheckPath => CreatePhase::CreateParents,
            CreatePhase::CheckMarker => CreatePhase::Conflict,
            CreatePhase::CreateParents => CreatePhase::IoFailed,
            CreatePhase::AddNewBranch => CreatePhase::AddExistingBranch,
            CreatePhase::AddExistingBranch => CreatePhase::GitFailed,
            _ => p,
        },
    }
}

/// The phases that a creation passes through, from `p`, as the outcomes come in.
pub open spec fn create_trace(p: CreatePhase, outcomes: Seq<Outcome>) -> Seq<CreatePhase>
    decreases outcomes.len(),
{
    if outcomes.len() == 0 {
        seq![p]
    } else {
        seq![p] + create_trace(create_next(p, outcomes[0]), outcomes.drop_first())
    }
}

/// What the caller is asked to do next.
pub enum WorktreeAction {
    /// Report whether this path exists.
    CheckPath(String),
    /// Report whether this marker file exists.
    CheckMarker(String),
    /// Create the missing parent directories of this path.
    CreateParents(String),
    /// Run `git` with these arguments in this directory.
    RunGit { dir: String, args: Vec<String> },
    /// Nothing more: the result is ready.
    Finished,
}

/// The arguments of `git worktree add`, asking for a new branch or using an existing one.
pub open spec fn add_args(path: Seq<char>, branch: Seq<char>, new_branch: bool) -> Seq<
    Seq<char>,
> {
    if new_branch {
        seq!["worktree"@, "add"@, path, "-b"@, branch]
    } else {
        seq!["worktree"@, "add"@, path, branch]
    }
}

/// The creation of a feature's working tree, driven one action at a time.
pub struct WorktreeCreation {
    pub project_root: String,
    pub feature_slug: String,
    pub path: String,
    pub phase: CreatePhase,
    /// The diagnostic of the failure that ended the creation, if any.
    pub detail: String,
}

impl WorktreeCreation {
    /// Starts creating the working tree of a feature at the place its template names.
    pub fn new(project_root: &str, feature_slug: &str, path_template: &str) -> (r: Self)
        ensures
            r.project_root@ == project_root@,
            r.feature_slug@ == feature_slug@,
            r.path@ == worktree_path_of(project_root@, feature_slug@, path_template@),
            r.phase == CreatePhase::CheckPath,
    {
        WorktreeCreation {
            project_root: String::from_str(project_root),
            feature_slug: String::from_str(feature_slug),
            path: resolve_worktree_path(project_root, feature_slug, path_template),
            phase: CreatePhase::CheckPath,
            detail: String::new(),
        }
    }

    /// The action that the current phase calls for.
    pub fn next_action(&self) -> (r: WorktreeAction)
        ensures
            self.phase == CreatePhase::CheckPath <==> (r matches WorktreeAction::CheckPath(p)
                && p@ == self.path@),
            self.phase == CreatePhase::CheckMarker <==> (r matches WorktreeAction::CheckMarker(
                p,
            ) && p@ == marker_of(self.path@)),
            self.phase == CreatePhase::CreateParents <==> (
            r matches WorktreeAction::CreateParents(p) && p@ == self.path@),
            self.phase == CreatePhase::AddNewBranch ==> (r matches WorktreeAction::RunGit {
                dir,
                args,
            } && dir@ == self.project_root@ && crate::text::views(args@) == add_args(
                self.path@,
                self.feature_slug@,
                true,
            )),
            self.phase == CreatePhase::AddExistingBranch ==> (r matches WorktreeAction::RunGit {
                dir,
                args,
            } && dir@ == self.project_root@ && crate::text::views(args@) == add_args(
                self.path@,
                self.feature_slug@,
                false,
            )),
            r is RunGit <==> (self.phase == CreatePhase::AddNewBranch || self.phase
                == CreatePhase::AddExistingBranch),
            r is Finished <==> is_final(self.phase),
    {
        match self.phase {
            CreatePhase::CheckPath => WorktreeAction::CheckPath(self.path.clone()),
            CreatePhase::CheckMarker => WorktreeAction::CheckMarker(
                worktree_marker(self.path.as_str()),
            ),
            CreatePhase::CreateParents => WorktreeAction::CreateParents(self.path.clone()),
            CreatePhase::AddNewBranch => WorktreeAction::RunGit {
                dir: self.project_root.clone(),
                args: self.git_add_args(true),
            },
            CreatePhase::AddExistingBranch => WorktreeAction::RunGit {
                dir: self.project_root.clone(),
                args: self.git_add_args(false),
            },
            _ => WorktreeAction::Finished,
        }
    }

    fn git_add_args(&self, new_branch: bool) -> (r: Vec<String>)
        ensures
            crate::text::views(r@) == add_args(self.path@, self.feature_slug@, new_branch),
    {
        let mut args: Vec<String> = Vec::new();
        args.push(String::from_str("worktree"));
        args.push(String::from_str("add"));
        args.push(self.path.clone());
        if new_branch {
            args.push(String::from_str("-b"));
        }
        args.push(self.feature_slug.clone());
        assert(crate::text::views(args@) == add_args(self.path@, self.feature_slug@, new_branch));
        args
    }

    /// Takes in the outcome of the action that `next_action` asked for.
    pub fn advance(&mut self, outcome: Outcome)
        ensures
            final(self).phase == create_next(old(self).phase, outcome),
            final(self).project_root == old(self).project_root,
            final(self).feature_slug == old(self).feature_slug,
            final(self).path == old(self).path,
            final(self).phase != old(self).phase ==> match outcome {
                Outcome::Success => final(self).detail == old(self).detail,
                Outcome::Failure(d) => final(self).detail == d,
                Outcome::IoError(d) => final(self).detail == d,
            },
            final(self).phase == old(self).phase ==> final(self).detail == old(self).detail,
    {
        let next = match &outcome {
            Outcome::IoError(_) => if self.is_done() {
                self.phase
            } else {
                CreatePhase::IoFailed
            },
            Outcome::Success => match self.phase {
                CreatePhase::CheckPath => CreatePhase::CheckMarker,
                CreatePhase::CheckMarker => CreatePhase::Reused,
                CreatePhase::CreateParents => CreatePhase::AddNewBranch,
                CreatePhase::AddNewBranch => CreatePhase::Created,
                CreatePhase::AddExistingBranch => CreatePhase::Created,
                p => p,
            },
            Outcome::Failure(_) => match self.phase {
                CreatePhase::CheckPath => CreatePhase::CreateParents,
                CreatePhase::CheckMarker => CreatePhase::Conflict,
                CreatePhase::CreateParents => CreatePhase::IoFailed,
                CreatePhase::AddNewBranch => CreatePhase::AddExistingBranch,
                CreatePhase::AddExistingBranch => CreatePhase::GitFailed,
                p => p,
            },
        };
        if next != self.phase {
            match outcome {
                Outcome::Success => {},
                Outcome::Failure(d) => {
                    self.detail = d;
                },
                Outcome::IoError(d) => {
                    self.detail = d;
                },
            }
        }
        self.phase = next;
    }

    /// Whether creation is over.
    pub fn is_done(&self) -> (r: bool)
        ensures
            r == is_final(self.phase),
    {
        match self.phase {
            CreatePhase::Reused | CreatePhase::Created | CreatePhase::Conflict
            | CreatePhase::GitFailed | CreatePhase::IoFailed => true,
            _ => false,
        }
    }

    /// The result, once creation is over.
    pub fn result(self) -> (r: Option<Result<WorktreeResult, ForceError>>)
        ensures
            !is_final(self.phase) <==> r is None,
            self.phase == CreatePhase::Reused ==> (r matches Some(Ok(w)) && w.path == self.path
                && !w.created),
            self.phase == CreatePhase::Created ==> (r matches Some(Ok(w)) && w.path == self.path
                && w.created),
            self.phase == CreatePhase::Conflict ==> r == Some(
                Err::<WorktreeResult, ForceError>(ForceError::WorktreeConflict { path: self.path }),
            ),
            self.phase == CreatePhase::GitFailed ==> r == Some(
                Err::<WorktreeResult, ForceError>(
                    ForceError::WorktreeCreate { branch: self.feature_slug, detail: self.detail },
                ),
            ),
            self.phase == CreatePhase::IoFailed ==> r == Some(
                Err::<WorktreeResult, ForceError>(ForceError::Io { detail: self.detail }),
            ),
    {
        match self.phase {
            CreatePhase::Reused => Some(Ok(WorktreeResult { path: self.path, created: false })),
            CreatePhase::Created => Some(Ok(WorktreeResult { path: self.path, created: true })),
            CreatePhase::Conflict => Some(Err(ForceError::WorktreeConflict { path: self.path })),
            CreatePhase::GitFailed => Some(
                Err(ForceError::WorktreeCreate { branch: self.feature_slug, detail: self.detail }),
            ),
            CreatePhase::IoFailed => Some(Err(ForceError::Io { detail: self.detail })),
            _ => None,
        }
    }
}

/// A final phase stays as it is, whatever comes in after it.
pub proof fn lemma_final_phase_stays(p: CreatePhase, outcomes: Seq<Outcome>)
    requires
        is_final(p),
    ensures
        forall|i: int| 0 <= i < create_trace(p, outcomes).len() ==> #[trigger] create_trace(
            p,
            outcomes,
        )[i] == p,
    decreases outcomes.len(),
{
    if outcomes.len() > 0 {
        lemma_final_phase_stays(create_next(p, outcomes[0]), outcomes.drop_first());
    }
}

/// Where the path already holds a working tree, creation reuses it: it ends in `Reused`
/// and never reaches a phase that runs `git`, so no branch is made. Where the path exists
/// without the marker, creation ends in `Conflict`, again without running `git`.
pub proof fn lemma_existing_path_never_runs_git(first_check: Outcome, outcomes: Seq<Outcome>)
    requires
        first_check is Success,
        outcomes.len() >= 1,
    ensures
        ({
            let trace = create_trace(CreatePhase::CheckPath, seq![first_check] + outcomes);
            &&& forall|i: int|
                0 <= i < trace.len() ==> #[trigger] trace[i] != CreatePhase::AddNewBranch
                    && trace[i] != CreatePhase::AddExistingBranch
            &&& outcomes[0] is Success ==> trace.last() == CreatePhase::Reused
            &&& outcomes[0] is Failure ==> trace.last() == CreatePhase::Conflict
        }),
{
    let all = seq![first_check] + outcomes;
    assert(all.drop_first() == outcomes);
    let after = create_next(CreatePhase::CheckMarker, outcomes[0]);
    assert(is_final(after));
    lemma_final_phase_stays(after, outcomes.drop_first());
    let trace = create_trace(CreatePhase::CheckPath, all);
    let tail = create_trace(after, outcomes.drop_first());
    assert(create_next(CreatePhase::CheckPath, all[0]) == CreatePhase::CheckMarker);
    assert(create_trace(CreatePhase::CheckMarker, outcomes) == seq![CreatePhase::CheckMarker]
        + tail);
    assert(trace == seq![CreatePhase::CheckPath] + create_trace(CreatePhase::CheckMarker, outcomes));
    assert(tail.len() > 0);
    assert(trace.last() == tail.last());
    assert(tail.last() == tail[tail.len() - 1]);
}

/// Where a working-tree removal stands.
#[derive(Debug, Clone, Copy, PartialEq, Eq, Structural)]
pub enum RemovePhase {
    CheckPath,
    Remove,
    Absent,
    Removed,
    RemoveFailed,
    IoFailed,
}

/// The phases in which removal is over.
pub open spec fn is_removal_final(p: RemovePhase) -> bool {
    !(p == RemovePhase::CheckPath || p == RemovePhase::Remove)
}

/// The phase that follows `p` once its action has had outcome `o`.
pub open spec fn remove_next(p: RemovePhase, o: Outcome) -> RemovePhase {
    if is_removal_final(p) {
        p
    } else {
        match o {
            Outcome::IoError(_) => RemovePhase::IoFailed,
            Outcome::Success => if p == RemovePhase::CheckPath {
                RemovePhase::Remove
            } else {
                RemovePhase::Removed
            },
            Outcome::Failure(_) => if p == RemovePhase::CheckPath {
                RemovePhase::Absent
            } else {
                RemovePhase::RemoveFailed
            },
        }
    }
}

/// The arguments of `git worktree remove`, forced.
pub open spec fn remove_args(path: Seq<char>) -> Seq<Seq<char>> {
    seq!["worktree"@, "remove"@, path, "--force"@]
}

/// The removal of a working tree, driven one action at a time; a missing path is no error.
pub struct WorktreeRemoval {
    pub project_root: String,
    pub path: String,
    pub phase: RemovePhase,
    /// The diagnostic of the failure that ended the removal, if any.
    pub detail: String,
}

impl WorktreeRemoval {
    /// Starts removing the working tree at `worktree_path`.
    pub fn new(project_root: &str, worktree_path: &str) -> (r: Self)
        ensures
            r.project_root@ == project_root@,
            r.path@ == worktree_path@,
            r.phase == RemovePhase::CheckPath,
    {
        WorktreeRemoval {
            project_root: String::from_str(project_root),
            path: String::from_str(worktree_path),
            phase: RemovePhase::CheckPath,
            detail: String::new(),
        }
    }

    /// The action that the current phase calls for.
    pub fn next_action(&self) -> (r: WorktreeAction)
        ensures
            self.phase == RemovePhase::CheckPath <==> (r matches WorktreeAction::CheckPath(p)
                && p@ == self.path@),
            self.phase == RemovePhase::Remove <==> (r matches WorktreeAction::RunGit { dir, args }
                && dir@ == self.project_root@ && crate::text::views(args@) == remove_args(
                self.path@,
            )),
            r is Finished <==> is_removal_final(self.phase),
    {
        match self.phase {
            RemovePhase::CheckPath => WorktreeAction::CheckPath(self.path.clone()),
            RemovePhase::Remove => {
                let mut args: Vec<String> = Vec::new();
                args.push(String::from_str("worktree"));
                args.push(String::from_str("remove"));
                args.push(self.path.clone());
                args.push(String::from_str("--force"));
                assert(crate::text::views(args@) == remove_args(self.path@));
                WorktreeAction::RunGit { dir: self.project_root.clone(), args }
            },
            _ => WorktreeAction::Finished,
        }
    }

    /// Takes in the outcome of the action that `next_action` asked for.
    pub fn advance(&mut self, outcome: Outcome)
        ensures
            final(self).phase == remove_next(old(self).phase, outcome),
            final(self).project_root == old(self).project_root,
            final(self).path == old(self).path,
            final(self).phase != old(self).phase ==> match outcome {
                Outcome::Success => final(self).detail == old(self).detail,
                Outcome::Failure(d) => final(self).detail == d,
                Outcome::IoError(d) => final(self).detail == d,
            },
            final(self).phase == old(self).phase ==> final(self).detail == old(self).detail,
    {
        if self.phase == RemovePhase::CheckPath || self.phase == RemovePhase::Remove {
            let at_check = self.phase == RemovePhase::CheckPath;
            match outcome {
                Outcome::IoError(d) => {
                    self.phase = RemovePhase::IoFailed;
                    self.detail = d;
                },
                Outcome::Success => {
                    self.phase = if at_check {
                        RemovePhase::Remove
                    } else {
                        RemovePhase::Removed
                    };
                },
                Outcome::Failure(d) => {
                    self.phase = if at_check {
                        RemovePhase::Absent
                    } else {
                        RemovePhase::RemoveFailed
                    };
                    self.detail = d;
                },
            }
        }
    }

    /// The result, once removal is over.
    pub fn result(self) -> (r: Option<Result<(), ForceError>>)
        ensures
            !is_removal_final(self.phase) <==> r is None,
            (self.phase == RemovePhase::Absent || self.phase == RemovePhase::Removed) ==> r
                == Some(Ok::<(), ForceError>(())),
            self.phase == RemovePhase::RemoveFailed ==> r == Some(
                Err::<(), ForceError>(
                    ForceError::WorktreeRemove { path: self.path, detail: self.detail },
                ),
            ),
            self.phase == RemovePhase::IoFailed ==> r == Some(
                Err::<(), ForceError>(ForceError::Io { detail: self.detail }),
            ),
    {
        match self.phase {
            RemovePhase::Absent | RemovePhase::Removed => Some(Ok(())),
            RemovePhase::RemoveFailed => Some(
                Err(ForceError::WorktreeRemove { path: self.path, detail: self.detail }),
            ),
            RemovePhase::IoFailed => Some(Err(ForceError::Io { detail: self.detail })),
            _ => None,
        }
    }
}

} // verus!
