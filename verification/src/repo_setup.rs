//! Creating repositories: initializing one with a first commit, and cloning
//! one, as command protocols (see [`crate::process`]).
use crate::process::{
    cat, create_dir_all, create_dir_all_of, git, git_in, own, strs, succeeded, unit_step,
    write_file, write_file_in, Invocation, InvocationView, Next, Outcome, Program, Step,
};
use crate::text::{chars_of, starts, starts_with_str, string_of, trim, trimmed};
use vstd::prelude::*;

verus! {

/// A git command whose failure ends the protocol: the outcome at `k` either
/// could not run (`spawn` + error) or failed (`failed` + standard error).
pub open spec fn checked_phase(outs: Seq<Outcome>, k: int, spawn: Seq<char>, failed: Seq<char>) -> Option<
    Seq<char>,
> {
    match outs[k] {
        Err(e) => Some(spawn + e@),
        Ok(o) => if o.success {
            None
        } else {
            Some(failed + o.stderr@)
        },
    }
}

/// The message of a commit made by [`init_repo`].
pub open spec fn init_commit_message() -> Seq<char> {
    "jean's init vibe commit"@
}

/// After the repository exists (its setup ended at `k`): write `.gitkeep`,
/// stage it, and commit it.
pub open spec fn init_commit_phase(path: Seq<char>, outs: Seq<Outcome>, k: int) -> Next<Result<(), Seq<char>>> {
    if outs.len() <= k {
        Next::Run(write_file(path, ".gitkeep"@, seq![]))
    } else if outs[k] is Err {
        Next::Done(Err("Failed to create .gitkeep: "@ + outs[k]->Err_0@))
    } else if outs.len() <= k + 1 {
        Next::Run(git(path, seq!["add"@, ".gitkeep"@]))
    } else if checked_phase(outs, k + 1, "Failed to run git add: "@, "git add failed: "@) is Some {
        Next::Done(Err(checked_phase(outs, k + 1, "Failed to run git add: "@, "git add failed: "@)->0))
    } else if outs.len() <= k + 2 {
        Next::Run(git(path, seq!["commit"@, "-m"@, init_commit_message()]))
    } else if checked_phase(outs, k + 2, "Failed to run git commit: "@, "git commit failed: "@) is Some {
        Next::Done(
            Err(checked_phase(outs, k + 2, "Failed to run git commit: "@, "git commit failed: "@)->0),
        )
    } else {
        Next::Done(Ok(()))
    }
}

/// The repository setup, once the directory exists (from `k` on): a directory
/// that is already a repository with a commit is refused; one without commits
/// is reused; otherwise `git init`.
pub open spec fn init_repo_phase(path: Seq<char>, has_git: bool, outs: Seq<Outcome>, k: int) -> Next<
    Result<(), Seq<char>>,
> {
    if has_git {
        if outs.len() <= k {
            Next::Run(git(path, seq!["rev-parse"@, "HEAD"@]))
        } else if succeeded(outs[k]) {
            Next::Done(Err("Directory is already a git repository"@))
        } else {
            init_commit_phase(path, outs, k + 1)
        }
    } else if outs.len() <= k {
        Next::Run(git(path, seq!["init"@]))
    } else if checked_phase(outs, k, "Failed to run git init: "@, "git init failed: "@) is Some {
        Next::Done(Err(checked_phase(outs, k, "Failed to run git init: "@, "git init failed: "@)->0))
    } else {
        init_commit_phase(path, outs, k + 1)
    }
}

/// The protocol of [`init_repo`]; `exists` and `has_git` say whether the
/// directory and its `.git` exist.
pub open spec fn init_repo_next(path: Seq<char>, exists: bool, has_git: bool, outs: Seq<Outcome>) -> Next<
    Result<(), Seq<char>>,
> {
    if exists {
        init_repo_phase(path, has_git, outs, 0)
    } else if outs.len() == 0 {
        Next::Run(create_dir_all(path))
    } else if outs[0] is Err {
        Next::Done(Err("Failed to create directory: "@ + outs[0]->Err_0@))
    } else {
        init_repo_phase(path, false, outs, 1)
    }
}

fn checked(o: &Outcome, spawn: &str, failed: &str) -> (r: Option<String>)
    ensures
        crate::process::opt_str(r) == checked_phase(seq![*o], 0, spawn@, failed@),
{
    match o {
        Err(e) => Some(cat(spawn, e.as_str())),
        Ok(out) => if out.success {
            None
        } else {
            Some(cat(failed, out.stderr.as_str()))
        },
    }
}

fn init_commit_step(path: &str, outcomes: &Vec<Outcome>, k: usize) -> (r: Step<Result<(), String>>)
    requires
        k <= outcomes@.len(),
    ensures
        unit_step(r) == init_commit_phase(path@, outcomes@, k as int),
{
    if outcomes.len() == k {
        proof {
            reveal_strlit("");
        }
        assert(""@ =~= Seq::<char>::empty());
        return Step::Run(write_file_in(path, ".gitkeep", ""));
    }
    if let Err(e) = &outcomes[k] {
        return Step::Done(Err(cat("Failed to create .gitkeep: ", e.as_str())));
    }
    if outcomes.len() == k + 1 {
        let args = vec![own("add"), own(".gitkeep")];
        assert(strs(args@) =~= seq!["add"@, ".gitkeep"@]);
        return Step::Run(git_in(path, args));
    }
    assert(seq![outcomes@[k + 1]][0] == outcomes@[k + 1]);
    if let Some(e) = checked(&outcomes[k + 1], "Failed to run git add: ", "git add failed: ") {
        return Step::Done(Err(e));
    }
    if outcomes.len() == k + 2 {
        let args = vec![own("commit"), own("-m"), own("jean's init vibe commit")];
        assert(strs(args@) =~= seq!["commit"@, "-m"@, init_commit_message()]);
        return Step::Run(git_in(path, args));
    }
    assert(seq![outcomes@[k + 2]][0] == outcomes@[k + 2]);
    if let Some(e) = checked(&outcomes[k + 2], "Failed to run git commit: ", "git commit failed: ") {
        return Step::Done(Err(e));
    }
    Step::Done(Ok(()))
}

fn init_repo_step(path: &str, has_git: bool, outcomes: &Vec<Outcome>, k: usize) -> (r: Step<
    Result<(), String>,
>)
    requires
        k <= outcomes@.len(),
    ensures
        unit_step(r) == init_repo_phase(path@, has_git, outcomes@, k as int),
{
    if has_git {
        if outcomes.len() == k {
            let args = vec![own("rev-parse"), own("HEAD")];
            assert(strs(args@) =~= seq!["rev-parse"@, "HEAD"@]);
            return Step::Run(git_in(path, args));
        }
        if crate::process::ok_and_success(&outcomes[k]) {
            return Step::Done(Err(own("Directory is already a git repository")));
        }
        return init_commit_step(path, outcomes, k + 1);
    }
    if outcomes.len() == k {
        let args = vec![own("init")];
        assert(strs(args@) =~= seq!["init"@]);
        return Step::Run(git_in(path, args));
    }
    assert(seq![outcomes@[k as int]][0] == outcomes@[k as int]);
    if let Some(e) = checked(&outcomes[k], "Failed to run git init: ", "git init failed: ") {
        return Step::Done(Err(e));
    }
    init_commit_step(path, outcomes, k + 1)
}

/// Initializes a repository at `path` with a first commit of an empty
/// `.gitkeep`: creates the directory when it does not exist (`exists`),
/// refuses a repository that already has commits, reuses one without
/// commits (`has_git`: the directory holds `.git`), else runs `git init`.
pub fn init_repo(path: &str, exists: bool, has_git: bool, outcomes: &Vec<Outcome>) -> (r: Step<
    Result<(), String>,
>)
    ensures
        unit_step(r) == init_repo_next(path@, exists, has_git, outcomes@),
{
    if exists {
        return init_repo_step(path, has_git, outcomes, 0);
    }
    if outcomes.len() == 0 {
        return Step::Run(create_dir_all_of(path));
    }
    if let Err(e) = &outcomes[0] {
        return Step::Done(Err(cat("Failed to create directory: ", e.as_str())));
    }
    init_repo_step(path, false, outcomes, 1)
}

/// A URL that git can clone over HTTP(S) or SSH.
pub open spec fn clonable_url(url: Seq<char>) -> bool {
    starts(url, "https://"@) || starts(url, "http://"@) || starts(url, "git@"@) || starts(
        url,
        "ssh://"@,
    )
}

/// `git clone <url> <destination>`, run outside any repository.
pub open spec fn clone_command(url: Seq<char>, destination: Seq<char>) -> InvocationView {
    InvocationView {
        program: crate::process::ProgramView::Git,
        dir: None,
        args: seq!["clone"@, url, destination],
        env: seq![],
    }
}

/// The clone itself (from `k` on).
pub open spec fn clone_phase(url: Seq<char>, destination: Seq<char>, outs: Seq<Outcome>, k: int) -> Next<
    Result<(), Seq<char>>,
> {
    if outs.len() <= k {
        Next::Run(clone_command(url, destination))
    } else if checked_phase(outs, k, "Failed to run git clone: "@, "git clone failed: "@) is Some {
        Next::Done(Err(checked_phase(outs, k, "Failed to run git clone: "@, "git clone failed: "@)->0))
    } else {
        Next::Done(Ok(()))
    }
}

/// The protocol of [`clone_repo`]; `destination_exists` says whether the
/// destination exists, `missing_parent` names its parent directory when that
/// does not exist.
pub open spec fn clone_repo_next(
    url: Seq<char>,
    destination: Seq<char>,
    destination_exists: bool,
    missing_parent: Option<Seq<char>>,
    outs: Seq<Outcome>,
) -> Next<Result<(), Seq<char>>> {
    let u = trim(url);
    if !clonable_url(u) {
        Next::Done(Err("Invalid git URL. Use HTTPS (https://...) or SSH (git@...) format."@))
    } else if destination_exists {
        Next::Done(Err("Destination already exists: "@ + destination))
    } else {
        match missing_parent {
            None => clone_phase(u, destination, outs, 0),
            Some(parent) => if outs.len() == 0 {
                Next::Run(create_dir_all(parent))
            } else if outs[0] is Err {
                Next::Done(Err("Failed to create parent directory: "@ + outs[0]->Err_0@))
            } else {
                clone_phase(u, destination, outs, 1)
            },
        }
    }
}

fn clone_step(url: &str, destination: &str, outcomes: &Vec<Outcome>, k: usize) -> (r: Step<
    Result<(), String>,
>)
    requires
        k <= outcomes@.len(),
    ensures
        unit_step(r) == clone_phase(url@, destination@, outcomes@, k as int),
{
    if outcomes.len() == k {
        let args = vec![own("clone"), own(url), own(destination)];
        let inv = Invocation { program: Program::Git, dir: None, args, env: Vec::new() };
        assert(inv@.env =~= Seq::<(Seq<char>, Seq<char>)>::empty());
        assert(inv@.args =~= seq!["clone"@, url@, destination@]);
        return Step::Run(inv);
    }
    assert(seq![outcomes@[k as int]][0] == outcomes@[k as int]);
    if let Some(e) = checked(&outcomes[k], "Failed to run git clone: ", "git clone failed: ") {
        return Step::Done(Err(e));
    }
    Step::Done(Ok(()))
}

/// Clones `url` (trimmed) into `destination`: only HTTP(S) and SSH URLs, and
/// never over an existing destination; a missing parent directory is created
/// first.
pub fn clone_repo(
    url: &str,
    destination: &str,
    destination_exists: bool,
    missing_parent: Option<&str>,
    outcomes: &Vec<Outcome>,
) -> (r: Step<Result<(), String>>)
    ensures
        unit_step(r) == clone_repo_next(
            url@,
            destination@,
            destination_exists,
            match missing_parent {
                Some(p) => Some(p@),
                None => None,
            },
            outcomes@,
        ),
{
    let u = string_of(trimmed(chars_of(url).as_slice()).as_slice());
    let c = chars_of(u.as_str());
    let s = c.as_slice();
    if !(starts_with_str(s, "https://") || starts_with_str(s, "http://") || starts_with_str(s, "git@")
        || starts_with_str(s, "ssh://")) {
        return Step::Done(Err(own("Invalid git URL. Use HTTPS (https://...) or SSH (git@...) format.")));
    }
    if destination_exists {
        return Step::Done(Err(cat("Destination already exists: ", destination)));
    }
    match missing_parent {
        None => clone_step(u.as_str(), destination, outcomes, 0),
        Some(parent) => {
            if outcomes.len() == 0 {
                return Step::Run(create_dir_all_of(parent));
            }
            if let Err(e) = &outcomes[0] {
                return Step::Done(Err(cat("Failed to create parent directory: ", e.as_str())));
            }
            clone_step(u.as_str(), destination, outcomes, 1)
        },
    }
}

} // verus!
