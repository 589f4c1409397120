//! Ephemeral git worktrees for isolated agents: where one lives, how git is asked
//! to make and remove it, and what a failure says.

use vstd::prelude::*;

use crate::text;

verus! {

/// What is known when an isolated agent is spawned; the worktree itself is made
/// only once the agent may start.
#[derive(Debug)]
pub struct WorktreeSpec {
    /// Repository to fork from (the workflow file's directory).
    pub repo: String,
    /// Directory that holds the run's worktrees.
    pub base: String,
}

/// The repository and the base directory.
#[verifier::ext_equal]
pub struct WorktreeView {
    pub repo: Seq<char>,
    pub base: Seq<char>,
}

impl View for WorktreeSpec {
    type V = WorktreeView;

    open spec fn view(&self) -> WorktreeView {
        WorktreeView { repo: self.repo@, base: self.base@ }
    }
}

impl Clone for WorktreeSpec {
    fn clone(&self) -> (r: Self)
        ensures
            r@ == self@,
    {
        WorktreeSpec { repo: self.repo.clone(), base: self.base.clone() }
    }
}

/// The directory name of an agent's worktree under the base directory.
pub open spec fn dir_name(id: u64) -> Seq<char> {
    "wt-"@ + text::decimal(id as nat)
}

/// The directory name of agent `id`'s worktree.
pub fn worktree_dir(id: u64) -> (r: String)
    ensures
        r@ == dir_name(id),
{
    text::concat2("wt-", text::decimal_text(id as u128).as_str())
}

/// The git arguments that make a detached worktree of `repo` at `path`.
pub fn add_args(repo: &str, path: &str) -> (r: Vec<String>)
    ensures
        text::texts(r@) == seq!["-C"@, repo@, "worktree"@, "add"@, "--detach"@, path@],
{
    let mut r: Vec<String> = Vec::new();
    text::push_copy(&mut r, "-C");
    text::push_copy(&mut r, repo);
    text::push_copy(&mut r, "worktree");
    text::push_copy(&mut r, "add");
    text::push_copy(&mut r, "--detach");
    text::push_copy(&mut r, path);
    assert(text::texts(r@) =~= seq!["-C"@, repo@, "worktree"@, "add"@, "--detach"@, path@]);
    r
}

/// The git arguments that remove the worktree at `path`, directory and
/// bookkeeping both.
pub fn remove_args(repo: &str, path: &str) -> (r: Vec<String>)
    ensures
        text::texts(r@) == seq!["-C"@, repo@, "worktree"@, "remove"@, "--force"@, path@],
{
    let mut r: Vec<String> = Vec::new();
    text::push_copy(&mut r, "-C");
    text::push_copy(&mut r, repo);
    text::push_copy(&mut r, "worktree");
    text::push_copy(&mut r, "remove");
    text::push_copy(&mut r, "--force");
    text::push_copy(&mut r, path);
    assert(text::texts(r@) =~= seq!["-C"@, repo@, "worktree"@, "remove"@, "--force"@, path@]);
    r
}

/// What came of asking git for a worktree.
pub enum GitOutcome {
    /// Git could not be run at all.
    NotRun { error: String },
    /// Git ran and exited.
    Exited { success: bool, stderr: String },
}

/// The error an attempt to add a worktree ends in, if any.
pub open spec fn add_error(repo: Seq<char>, o: GitOutcome) -> Option<Seq<char>> {
    match o {
        GitOutcome::NotRun { error } => Some("isolate: cannot run git: "@ + error@),
        GitOutcome::Exited { success, stderr } => if success {
            None
        } else {
            Some(
                "isolate: git worktree add failed (is "@ + repo + " inside a git repo?): "@
                    + text::trimmed(stderr@),
            )
        },
    }
}

/// Judge git's answer: the worktree exists exactly when git exited successfully.
pub fn check_added(repo: &str, o: GitOutcome) -> (r: Result<(), String>)
    ensures
        match r {
            Ok(_) => add_error(repo@, o) is None,
            Err(e) => add_error(repo@, o) == Some(e@),
        },
{
    match o {
        GitOutcome::NotRun { error } => Err(
            text::concat2("isolate: cannot run git: ", error.as_str()),
        ),
        GitOutcome::Exited { success, stderr } => {
            if success {
                return Ok(());
            }
            let mut e = text::copied("isolate: git worktree add failed (is ");
            e.push_str(repo);
            e.push_str(" inside a git repo?): ");
            e.push_str(text::trim(stderr.as_str()));
            Err(e)
        },
    }
}

// ── Laws ──

/// Agents never share a worktree directory.
pub proof fn law_worktree_dirs_distinct(a: u64, b: u64)
    requires
        dir_name(a) == dir_name(b),
    ensures
        a == b,
{
    let x = text::decimal(a as nat);
    let y = text::decimal(b as nat);
    let p = "wt-"@;
    assert(x =~= (p + x).skip(p.len() as int));
    assert(y =~= (p + y).skip(p.len() as int));
    text::lemma_decimal_value(a as nat);
    text::lemma_decimal_value(b as nat);
}

/// The worktree is there exactly when git ran and succeeded; a failure to run git
/// is told with its reason, and git's own failure with the repository and what git
/// said.
pub proof fn law_only_git_success_is_accepted(repo: Seq<char>, o: GitOutcome)
    ensures
        add_error(repo, o) is None <==> o is Exited && o->success,
        o is NotRun ==> text::ends_with(add_error(repo, o)->0, o->error@),
        o is Exited && !o->success ==> text::contains_text(add_error(repo, o)->0, repo)
            && text::ends_with(add_error(repo, o)->0, text::trimmed(o->stderr@)),
{
    match o {
        GitOutcome::NotRun { error } => {
            text::laws::law_part_is_contained("isolate: cannot run git: "@, error@, error@);
        },
        GitOutcome::Exited { success, stderr } => {
            let lead = "isolate: git worktree add failed (is "@;
            let mid = " inside a git repo?): "@;
            let said = text::trimmed(stderr@);
            text::laws::law_part_is_contained(lead, repo, mid + said);
            assert(lead + repo + mid + said =~= lead + repo + (mid + said));
            text::laws::law_part_is_contained(lead + repo + mid, said, said);
        },
    }
}

/// A worktree's directory is named by its agent.
pub proof fn law_worktree_dir_names_its_agent(id: u64)
    ensures
        text::ends_with(dir_name(id), text::decimal(id as nat)),
{
    text::laws::law_part_is_contained("wt-"@, text::decimal(id as nat), "wt-"@);
}

} // verus!
