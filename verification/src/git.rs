//! Git and GitHub operations, written as command protocols (see [`crate::process`]).
use crate::process::{
    canonicalize, canonicalize_in, cat, cat3, done_text, git, git_in, own, res_text, runs, strs, Next, Outcome, Step,
};
use crate::text::{
    chars_of, ends, ends_with_str, lemma_split_nonempty, push_all, replace_all, replace_chars,
    lines, slice_chars, split, split_char, split_lines, starts, starts_with, string_of,
    strip_prefix_str, texts, trim, trim_end_matches, trim_end_matches_chars, trimmed,
};
use vstd::prelude::*;

verus! {

// ---------------------------------------------------------------------------
// Repository names and GitHub URLs
// ---------------------------------------------------------------------------

/// Owner and name of a GitHub repository.
#[derive(Clone, Debug)]
pub struct RepoIdentifier {
    pub owner: String,
    pub repo: String,
}

impl RepoIdentifier {
    /// The key used in file names: `{owner}-{repo}`.
    pub fn to_key(&self) -> (key: String)
        ensures
            key@ == self.owner@ + "-"@ + self.repo@,
    {
        cat3(self.owner.as_str(), "-", self.repo.as_str())
    }
}

/// The HTTPS GitHub URL for a remote URL, if it is a GitHub remote: SSH form
/// `git@github.com:` is rewritten to `https://github.com/`, and trailing `.git`
/// suffixes are removed.
pub open spec fn github_url_of(remote_url: Seq<char>) -> Option<Seq<char>> {
    if starts(remote_url, "git@github.com:"@) {
        Some(
            trim_end_matches(
                replace_all(remote_url, "git@github.com:"@, "https://github.com/"@),
                ".git"@,
            ),
        )
    } else if starts(remote_url, "https://github.com/"@) {
        Some(trim_end_matches(remote_url, ".git"@))
    } else {
        None
    }
}

/// Converts a raw remote URL to a GitHub HTTPS URL, if possible.
pub fn normalize_github_url(remote_url: &[char]) -> (r: Option<Vec<char>>)
    ensures
        match r {
            Some(u) => github_url_of(remote_url@) == Some(u@),
            None => github_url_of(remote_url@) is None,
        },
{
    let ssh = chars_of("git@github.com:");
    let https = chars_of("https://github.com/");
    let dot_git = chars_of(".git");
    proof {
        reveal_strlit("git@github.com:");
        reveal_strlit(".git");
    }
    if starts_with(remote_url, ssh.as_slice()) {
        let replaced = replace_chars(remote_url, ssh.as_slice(), https.as_slice());
        Some(trim_end_matches_chars(replaced.as_slice(), dot_git.as_slice()))
    } else if starts_with(remote_url, https.as_slice()) {
        Some(trim_end_matches_chars(remote_url, dot_git.as_slice()))
    } else {
        None
    }
}

/// The result of asking git for a remote's URL.
pub open spec fn github_url_result(o: Outcome) -> Result<Seq<char>, Seq<char>> {
    match o {
        Err(e) => Err("Failed to get remote URL: "@ + e@),
        Ok(out) => if !out.success {
            Err("Failed to get remote URL: "@ + out.stderr@)
        } else {
            match github_url_of(trim(out.stdout@)) {
                Some(u) => Ok(u),
                None => Err("Remote URL is not a GitHub repository: "@ + trim(out.stdout@)),
            }
        },
    }
}

/// The GitHub URL of `remote` in the repository at `repo_path`: runs
/// `git remote get-url <remote>` and normalizes the URL it prints.
pub fn get_github_url_for_remote(repo_path: &str, remote: &str, outcomes: &Vec<Outcome>) -> (r:
    Step<Result<String, String>>)
    ensures
        outcomes@.len() == 0 ==> runs(r, git(repo_path@, seq!["remote"@, "get-url"@, remote@])),
        outcomes@.len() > 0 ==> done_text(r, github_url_result(outcomes@[0])),
{
    if outcomes.len() == 0 {
        let args = vec![own("remote"), own("get-url"), own(remote)];
        let inv = git_in(repo_path, args);
        assert(strs(args@) =~= seq!["remote"@, "get-url"@, remote@]);
        return Step::Run(inv);
    }
    Step::Done(github_url_from(&outcomes[0]))
}

/// Decides the GitHub URL from the outcome of `git remote get-url`.
pub fn github_url_from(o: &Outcome) -> (r: Result<String, String>)
    ensures
        res_text(r) == github_url_result(*o),
{
    match o {
        Err(e) => Err(cat("Failed to get remote URL: ", e.as_str())),
        Ok(out) => {
            if !out.success {
                Err(cat("Failed to get remote URL: ", out.stderr.as_str()))
            } else {
                let stdout = chars_of(out.stdout.as_str());
                let url = trimmed(stdout.as_slice());
                match normalize_github_url(url.as_slice()) {
                    Some(u) => Ok(string_of(u.as_slice())),
                    None => {
                        let mut m = chars_of("Remote URL is not a GitHub repository: ");
                        push_all(&mut m, url.as_slice());
                        Err(string_of(m.as_slice()))
                    },
                }
            }
        },
    }
}

/// The GitHub URL of the `origin` remote.
pub fn get_github_url(repo_path: &str, outcomes: &Vec<Outcome>) -> (r: Step<Result<String, String>>)
    ensures
        outcomes@.len() == 0 ==> runs(r, git(repo_path@, seq!["remote"@, "get-url"@, "origin"@])),
        outcomes@.len() > 0 ==> done_text(r, github_url_result(outcomes@[0])),
{
    get_github_url_for_remote(repo_path, "origin", outcomes)
}

/// Owner and repository parsed from a GitHub HTTPS URL.
pub open spec fn repo_identifier_of(url: Seq<char>) -> Result<(Seq<char>, Seq<char>), Seq<char>> {
    if !starts(url, "https://github.com/"@) {
        Err("Invalid GitHub URL format: "@ + url)
    } else {
        let parts = split(url.skip(19), '/');
        if parts.len() < 2 {
            Err("Could not parse owner/repo from GitHub URL: "@ + url)
        } else {
            Ok((parts[0], parts[1]))
        }
    }
}

/// The character-level form of a parsed identifier.
pub open spec fn id_result(r: Result<RepoIdentifier, String>) -> Result<(Seq<char>, Seq<char>), Seq<char>> {
    match r {
        Ok(id) => Ok((id.owner@, id.repo@)),
        Err(e) => Err(e@),
    }
}

/// Parses owner and repository from a GitHub HTTPS URL.
pub fn repo_identifier_from_url(url: &[char]) -> (r: Result<RepoIdentifier, String>)
    ensures
        id_result(r) == repo_identifier_of(url@),
{
    proof {
        reveal_strlit("https://github.com/");
    }
    match strip_prefix_str(url, "https://github.com/") {
        None => {
            let mut m = chars_of("Invalid GitHub URL format: ");
            push_all(&mut m, url);
            Err(string_of(m.as_slice()))
        },
        Some(rest) => {
            let parts = split_char(rest.as_slice(), '/');
            if parts.len() < 2 {
                let mut m = chars_of("Could not parse owner/repo from GitHub URL: ");
                push_all(&mut m, url);
                Err(string_of(m.as_slice()))
            } else {
                assert(parts@[0]@ == texts(parts@)[0]);
                assert(parts@[1]@ == texts(parts@)[1]);
                Ok(
                    RepoIdentifier {
                        owner: string_of(parts[0].as_slice()),
                        repo: string_of(parts[1].as_slice()),
                    },
                )
            }
        },
    }
}

/// The owner and name of the repository's `origin` GitHub remote.
pub fn get_repo_identifier(repo_path: &str, outcomes: &Vec<Outcome>) -> (r: Step<
    Result<RepoIdentifier, String>,
>)
    ensures
        outcomes@.len() == 0 ==> runs(r, git(repo_path@, seq!["remote"@, "get-url"@, "origin"@])),
        outcomes@.len() > 0 ==> (r matches Step::Done(res) && id_result(res) == match github_url_result(
            outcomes@[0],
        ) {
            Err(e) => Err(e),
            Ok(url) => repo_identifier_of(url),
        }),
{
    match get_github_url(repo_path, outcomes) {
        Step::Run(inv) => Step::Run(inv),
        Step::Done(Err(e)) => Step::Done(Err(e)),
        Step::Done(Ok(url)) => {
            let u = chars_of(url.as_str());
            Step::Done(repo_identifier_from_url(u.as_slice()))
        },
    }
}

/// The last segment of a `/`-separated URL path (after trimming whitespace and
/// trailing slashes), without a `.git` suffix.
pub open spec fn repo_name_of_url(url: Seq<char>) -> Seq<char> {
    let last = split(trim_end_matches(trim(url), "/"@), '/').last();
    if ends(last, ".git"@) {
        last.take(last.len() - 4)
    } else {
        last
    }
}

/// The repository name in a git URL (HTTPS `https://host/user/repo.git` or SSH
/// `git@host:user/repo.git`), without the `.git` suffix.
pub fn extract_repo_name_from_url(url: &str) -> (r: Result<String, String>)
    ensures
        repo_name_of_url(url@).len() > 0 ==> res_text(r) == Ok::<Seq<char>, Seq<char>>(
            repo_name_of_url(url@),
        ),
        repo_name_of_url(url@).len() == 0 ==> res_text(r) == Err::<Seq<char>, Seq<char>>(
            "Could not extract repository name from URL: "@ + url@,
        ),
{
    proof {
        reveal_strlit("/");
        reveal_strlit(".git");
    }
    let u = chars_of(url);
    let t = trimmed(u.as_slice());
    let slash = chars_of("/");
    let t2 = trim_end_matches_chars(t.as_slice(), slash.as_slice());
    let parts = split_char(t2.as_slice(), '/');
    proof {
        lemma_split_nonempty(t2@, '/');
    }
    let last = &parts[parts.len() - 1];
    assert(last@ == texts(parts@).last());
    let name = if ends_with_str(last.as_slice(), ".git") {
        slice_chars(last.as_slice(), 0, last.len() - 4)
    } else {
        slice_chars(last.as_slice(), 0, last.len())
    };
    assert(name@ =~= repo_name_of_url(url@));
    if name.len() == 0 {
        Err(cat("Could not extract repository name from URL: ", url))
    } else {
        Ok(string_of(name.as_slice()))
    }
}

/// The last component of a path that names a file or directory: the last
/// non-empty segment other than `.`.
pub open spec fn last_component(segments: Seq<Seq<char>>) -> Option<Seq<char>>
    decreases segments.len(),
{
    if segments.len() == 0 {
        None
    } else if segments.last().len() > 0 && segments.last() != seq!['.'] {
        Some(segments.last())
    } else {
        last_component(segments.drop_last())
    }
}

/// `Path::file_name` for a `/`-separated path: the final component, unless it
/// is `..` or there is none.
pub open spec fn file_name(path: Seq<char>) -> Option<Seq<char>> {
    match last_component(split(path, '/')) {
        Some(c) => if c == seq!['.', '.'] {
            None
        } else {
            Some(c)
        },
        None => None,
    }
}

/// The repository name for a path: its last component.
pub fn get_repo_name(path: &str) -> (r: Result<String, String>)
    ensures
        match file_name(path@) {
            Some(name) => res_text(r) == Ok::<Seq<char>, Seq<char>>(name),
            None => res_text(r) == Err::<Seq<char>, Seq<char>>(
                "Could not extract repository name from path: "@ + path@,
            ),
        },
{
    let p = chars_of(path);
    let segments = split_char(p.as_slice(), '/');
    let ghost segs = texts(segments@);
    let mut i = segments.len();
    assert(segs.take(segs.len() as int) =~= segs);
    while i > 0 && (segments[i - 1].len() == 0 || (segments[i - 1].len() == 1 && segments[i
        - 1][0] == '.'))
        invariant
            i <= segments@.len(),
            segs == texts(segments@),
            last_component(segs.take(i as int)) == last_component(segs),
        decreases i,
    {
        proof {
            let t = segs.take(i as int);
            assert(t.last() == segments@[i - 1]@);
            if segments@[i - 1]@.len() == 1 {
                assert(segments@[i - 1]@ =~= seq!['.']);
            }
            assert(t.drop_last() =~= segs.take(i - 1));
        }
        i = i - 1;
    }
    proof {
        assert(segs.take(segs.len() as int) =~= segs);
    }
    if i == 0 {
        assert(segs.take(0).len() == 0);
        return Err(cat("Could not extract repository name from path: ", path));
    }
    let last = &segments[i - 1];
    proof {
        let t = segs.take(i as int);
        assert(t.last() == last@);
        if last@.len() == 1 {
            assert(last@ != seq!['.']);
        }
        assert(last_component(t) == Some(last@));
    }
    if last.len() == 2 && last[0] == '.' && last[1] == '.' {
        assert(last@ =~= seq!['.', '.']);
        return Err(cat("Could not extract repository name from path: ", path));
    }
    assert(last@ != seq!['.', '.']);
    Ok(string_of(last.as_slice()))
}

// ---------------------------------------------------------------------------
// Git metadata directories
// ---------------------------------------------------------------------------

/// A step towards a pair of paths, in mathematical form.
pub open spec fn dirs_step(s: Step<Option<(String, String)>>) -> Next<Option<(Seq<char>, Seq<char>)>> {
    match s {
        Step::Run(i) => Next::Run(i@),
        Step::Done(Some((a, b))) => Next::Done(Some((a@, b@))),
        Step::Done(None) => Next::Done(None),
    }
}

/// The protocol of [`resolve_git_dirs`]: `git rev-parse --git-dir
/// --git-common-dir` in the working directory, then the canonical form of each
/// of the two paths it prints (trimmed, taken relative to the working
/// directory); nothing when git fails, prints fewer than two lines, or a path
/// cannot be resolved.
pub open spec fn git_dirs_next(working_dir: Seq<char>, outs: Seq<Outcome>) -> Next<
    Option<(Seq<char>, Seq<char>)>,
> {
    if outs.len() == 0 {
        Next::Run(git(working_dir, seq!["rev-parse"@, "--git-dir"@, "--git-common-dir"@]))
    } else {
        match outs[0] {
            Err(_) => Next::Done(None),
            Ok(o) => {
                let ls = lines(o.stdout@);
                if !o.success || ls.len() < 2 {
                    Next::Done(None)
                } else if outs.len() == 1 {
                    Next::Run(canonicalize(working_dir, trim(ls[0])))
                } else {
                    match outs[1] {
                        Err(_) => Next::Done(None),
                        Ok(first) => if outs.len() == 2 {
                            Next::Run(canonicalize(working_dir, trim(ls[1])))
                        } else {
                            match outs[2] {
                                Err(_) => Next::Done(None),
                                Ok(second) => Next::Done(Some((first.stdout@, second.stdout@))),
                            }
                        },
                    }
                }
            },
        }
    }
}

/// The git metadata directories of a working directory, as canonical
/// absolute paths: the worktree's own (`git_dir`) and the shared one
/// (`git_common_dir`); both are the `.git` directory outside worktrees.
pub fn resolve_git_dirs(working_dir: &str, outcomes: &Vec<Outcome>) -> (r: Step<Option<(String, String)>>)
    ensures
        dirs_step(r) == git_dirs_next(working_dir@, outcomes@),
{
    if outcomes.len() == 0 {
        let args = vec![own("rev-parse"), own("--git-dir"), own("--git-common-dir")];
        assert(strs(args@) =~= seq!["rev-parse"@, "--git-dir"@, "--git-common-dir"@]);
        return Step::Run(git_in(working_dir, args));
    }
    let o = match &outcomes[0] {
        Err(_) => {
            return Step::Done(None);
        },
        Ok(o) => o,
    };
    let ls = split_lines(chars_of(o.stdout.as_str()).as_slice());
    if !o.success || ls.len() < 2 {
        return Step::Done(None);
    }
    assert(texts(ls@)[0] == ls@[0]@ && texts(ls@)[1] == ls@[1]@);
    if outcomes.len() == 1 {
        let path = string_of(trimmed(ls[0].as_slice()).as_slice());
        return Step::Run(canonicalize_in(working_dir, path));
    }
    let first = match &outcomes[1] {
        Err(_) => {
            return Step::Done(None);
        },
        Ok(first) => first,
    };
    if outcomes.len() == 2 {
        let path = string_of(trimmed(ls[1].as_slice()).as_slice());
        return Step::Run(canonicalize_in(working_dir, path));
    }
    match &outcomes[2] {
        Err(_) => Step::Done(None),
        Ok(second) => Step::Done(Some((first.stdout.clone(), second.stdout.clone()))),
    }
}

} // verus!
