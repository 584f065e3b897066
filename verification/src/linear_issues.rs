//! Linear issues as session context: the markdown file written for an issue,
//! what is read back from such files, and the images they embed.
use crate::linear::{
    comments_view, labels_view, user_view, LinearComment, LinearCommentView, LinearIssueDetail,
    LinearIssueState, LinearLabelView, LinearUser, LinearUserView,
};
use crate::process::{opt_str, own, read_file, read_file_in, strs, Next, Outcome, Step};
use crate::text::{
    chars_of, contains_seq, contains_str, ends, ends_with_str, find_from, find_str_from, lines,
    lowercase, parse_u32, parse_u32_chars, split_lines, starts, starts_with_str,
    str_eq, string_of, texts, to_lowercase,
};
use crate::image_refs::{
    html_image_captures, html_image_split, markdown_image_captures, markdown_image_split, quads,
    rejoin,
};
use sha2::Digest;
use vstd::prelude::*;

verus! {

// ---------------------------------------------------------------------------
// Types
// ---------------------------------------------------------------------------

/// The author of a comment.
#[derive(Clone, Debug)]
pub struct GitHubAuthor {
    pub login: String,
}

/// A comment of an issue context.
#[derive(Clone, Debug)]
pub struct GitHubComment {
    pub body: String,
    pub author: GitHubAuthor,
    pub created_at: String,
}

/// The issue a worktree is created for.
#[derive(Clone, Debug)]
pub struct IssueContext {
    pub number: u32,
    pub title: String,
    pub body: Option<String>,
    pub comments: Vec<GitHubComment>,
}

/// A Linear issue saved as context.
#[derive(Clone, Debug)]
pub struct LinearIssueContext {
    pub id: String,
    pub identifier: String,
    pub title: String,
    pub description: Option<String>,
    pub comments: Vec<LinearComment>,
}

/// A Linear issue context loaded into a session.
#[derive(Clone, Debug)]
pub struct LoadedLinearIssueContext {
    pub identifier: String,
    pub title: String,
    pub comment_count: usize,
    pub project_name: String,
    pub url: Option<String>,
}

/// The full text of a loaded Linear issue context.
#[derive(Clone, Debug)]
pub struct LinearIssueContextContent {
    pub identifier: String,
    pub title: String,
    pub content: String,
}

// ---------------------------------------------------------------------------
// Identifiers and conversions
// ---------------------------------------------------------------------------

/// The index of the last `c` in `s`.
pub open spec fn last_index_of(s: Seq<char>, c: char) -> Option<int>
    decreases s.len(),
{
    if s.len() == 0 {
        None
    } else if s.last() == c {
        Some(s.len() - 1)
    } else {
        last_index_of(s.drop_last(), c)
    }
}

/// The number after the last `-` of an identifier (`ENG-123` gives 123); 0
/// when there is none.
pub open spec fn identifier_number(identifier: Seq<char>) -> u32 {
    match last_index_of(identifier, '-') {
        Some(i) => match parse_u32(identifier.skip(i + 1)) {
            Some(n) => n,
            None => 0,
        },
        None => 0,
    }
}

/// The number of a Linear identifier.
pub fn parse_linear_identifier_number(identifier: &str) -> (n: u32)
    ensures
        n == identifier_number(identifier@),
{
    let s = chars_of(identifier);
    let mut i: usize = s.len();
    assert(s@.take(i as int) =~= s@);
    while i > 0
        invariant
            i <= s@.len(),
            s@ == identifier@,
            last_index_of(s@, '-') == last_index_of(s@.take(i as int), '-'),
        decreases i,
    {
        if s[i - 1] == '-' {
            assert(s@.take(i as int).last() == '-');
            assert(last_index_of(s@.take(i as int), '-') == Some(i - 1));
            let rest = crate::text::slice_chars(s.as_slice(), i, s.len());
            assert(rest@ =~= s@.skip(i as int));
            assert(s@.skip((i - 1) + 1) =~= s@.skip(i as int));
            return match parse_u32_chars(rest.as_slice()) {
                Some(n) => n,
                None => 0,
            };
        }
        assert(s@.take(i as int).drop_last() =~= s@.take(i - 1));
        i = i - 1;
    }
    0
}

/// The author shown for a comment: its user's display name, or `Unknown`.
pub open spec fn author_of(user: Option<LinearUserView>) -> Seq<char> {
    match user {
        Some(u) => u.display_name,
        None => "Unknown"@,
    }
}

fn author_name(user: &Option<LinearUser>) -> (r: String)
    ensures
        r@ == author_of(user_view(*user)),
{
    match user {
        Some(u) => u.display_name.clone(),
        None => own("Unknown"),
    }
}

/// The issue context comment made from a Linear comment.
pub open spec fn context_comment(c: LinearCommentView) -> (Seq<char>, Seq<char>, Seq<char>) {
    (c.body, author_of(c.user), c.created_at)
}

/// Issue context comments in mathematical form (body, author, date).
pub open spec fn github_comments_view(v: Seq<GitHubComment>) -> Seq<(Seq<char>, Seq<char>, Seq<char>)> {
    v.map_values(|c: GitHubComment| (c.body@, c.author.login@, c.created_at@))
}

/// The issue context for creating a worktree from a Linear issue: the number
/// of its identifier, its title, description and comments.
pub fn linear_issue_to_issue_context(detail: &LinearIssueDetail) -> (r: IssueContext)
    ensures
        r.number == identifier_number(detail.identifier@),
        r.title@ == detail.title@,
        opt_str(r.body) == opt_str(detail.description),
        github_comments_view(r.comments@) == comments_view(detail.comments@).map_values(
            |c: LinearCommentView| context_comment(c),
        ),
{
    let mut comments: Vec<GitHubComment> = Vec::new();
    let mut i: usize = 0;
    while i < detail.comments.len()
        invariant
            i <= detail.comments@.len(),
            github_comments_view(comments@) == comments_view(detail.comments@.take(i as int)).map_values(
                |c: LinearCommentView| context_comment(c),
            ),
        decreases detail.comments.len() - i,
    {
        let c = &detail.comments[i];
        let ghost before = github_comments_view(comments@);
        comments.push(
            GitHubComment {
                body: c.body.clone(),
                author: GitHubAuthor { login: author_name(&c.user) },
                created_at: c.created_at.clone(),
            },
        );
        proof {
            let cs = detail.comments@;
            assert(cs.take(i + 1) =~= cs.take(i as int).push(cs[i as int]));
            assert(comments_view(cs.take(i + 1)) =~= comments_view(cs.take(i as int)).push(cs[i as int]@));
            assert(comments_view(cs.take(i + 1)).map_values(|c: LinearCommentView| context_comment(c))
                =~= comments_view(cs.take(i as int)).map_values(|c: LinearCommentView| context_comment(c)).push(
                context_comment(cs[i as int]@),
            ));
            assert(github_comments_view(comments@) =~= before.push(
                (c.body@, author_of(user_view(c.user)), c.created_at@),
            ));
        }
        i = i + 1;
    }
    assert(detail.comments@.take(detail.comments@.len() as int) =~= detail.comments@);
    IssueContext {
        number: parse_linear_identifier_number(detail.identifier.as_str()),
        title: detail.title.clone(),
        body: detail.description.clone(),
        comments,
    }
}

/// The issue detail of a saved context: its own fields, with an unknown
/// state, no labels, assignee, date or URL, and no priority.
pub fn linear_context_to_detail(ctx: &LinearIssueContext) -> (d: LinearIssueDetail)
    ensures
        d.id@ == ctx.id@,
        d.identifier@ == ctx.identifier@,
        d.title@ == ctx.title@,
        opt_str(d.description) == opt_str(ctx.description),
        d.state.name@ == "Unknown"@,
        d.state.state_type@ == "started"@,
        d.state.color@ == "#000000"@,
        d.labels@.len() == 0,
        d.assignee is None,
        d.created_at@.len() == 0,
        d.url@.len() == 0,
        d.priority == 0,
        d.priority_label@ == "No priority"@,
        comments_view(d.comments@) == comments_view(ctx.comments@),
{
    let mut comments: Vec<LinearComment> = Vec::new();
    let mut i: usize = 0;
    while i < ctx.comments.len()
        invariant
            i <= ctx.comments@.len(),
            comments_view(comments@) == comments_view(ctx.comments@.take(i as int)),
        decreases ctx.comments.len() - i,
    {
        let c = &ctx.comments[i];
        let user = match &c.user {
            Some(u) => Some(LinearUser { name: u.name.clone(), display_name: u.display_name.clone() }),
            None => None,
        };
        let ghost before = comments_view(comments@);
        comments.push(LinearComment { body: c.body.clone(), user, created_at: c.created_at.clone() });
        proof {
            let cs = ctx.comments@;
            assert(cs.take(i + 1) =~= cs.take(i as int).push(cs[i as int]));
            assert(comments_view(cs.take(i + 1)) =~= comments_view(cs.take(i as int)).push(cs[i as int]@));
            assert(comments_view(comments@) =~= before.push(cs[i as int]@));
        }
        i = i + 1;
    }
    assert(ctx.comments@.take(ctx.comments@.len() as int) =~= ctx.comments@);
    LinearIssueDetail {
        id: ctx.id.clone(),
        identifier: ctx.identifier.clone(),
        title: ctx.title.clone(),
        description: ctx.description.clone(),
        state: LinearIssueState {
            name: own("Unknown"),
            state_type: own("started"),
            color: own("#000000"),
        },
        labels: Vec::new(),
        assignee: None,
        created_at: String::new(),
        url: String::new(),
        priority: 0,
        priority_label: own("No priority"),
        comments,
    }
}

// ---------------------------------------------------------------------------
// The context file
// ---------------------------------------------------------------------------

/// The label names joined with `, `.
pub open spec fn joined_labels(labels: Seq<LinearLabelView>) -> Seq<char>
    decreases labels.len(),
{
    if labels.len() == 0 {
        seq![]
    } else if labels.len() == 1 {
        labels[0].name
    } else {
        joined_labels(labels.drop_last()) + ", "@ + labels.last().name
    }
}

/// The section of one comment.
pub open spec fn comment_section(c: LinearCommentView) -> Seq<char> {
    "### "@ + author_of(c.user) + " ("@ + c.created_at + ")\n\n"@ + c.body + "\n\n---\n\n"@
}

/// The sections of the comments, in order.
pub open spec fn comment_sections(cs: Seq<LinearCommentView>) -> Seq<char>
    decreases cs.len(),
{
    if cs.len() == 0 {
        seq![]
    } else {
        comment_sections(cs.drop_last()) + comment_section(cs.last())
    }
}

/// The heading, status and priority lines.
pub open spec fn md_head(d: LinearIssueDetail) -> Seq<char> {
    "# Linear Issue "@ + d.identifier@ + ": "@ + d.title@ + "\n\n"@ + "- **Status**: "@ + d.state.name@
        + "\n"@ + "- **Priority**: "@ + d.priority_label@ + "\n"@
}

/// The labels line, when there are labels.
pub open spec fn md_labels(d: LinearIssueDetail) -> Seq<char> {
    if d.labels@.len() > 0 {
        "- **Labels**: "@ + joined_labels(labels_view(d.labels@)) + "\n"@
    } else {
        seq![]
    }
}

/// The assignee line, when there is an assignee.
pub open spec fn md_assignee(d: LinearIssueDetail) -> Seq<char> {
    match d.assignee {
        Some(a) => "- **Assignee**: "@ + a.display_name@ + "\n"@,
        None => seq![],
    }
}

/// The URL line and the start of the description section.
pub open spec fn md_url(d: LinearIssueDetail) -> Seq<char> {
    "- **URL**: "@ + d.url@ + "\n"@ + "\n---\n\n"@ + "## Description\n\n"@
}

/// The description, or a placeholder when it is missing or empty.
pub open spec fn md_description(d: LinearIssueDetail) -> Seq<char> {
    match d.description {
        Some(desc) => if desc@.len() > 0 {
            desc@
        } else {
            "*No description provided.*"@
        },
        None => "*No description provided.*"@,
    }
}

/// The comments section, when there are comments.
pub open spec fn md_comments(d: LinearIssueDetail) -> Seq<char> {
    if d.comments@.len() > 0 {
        "## Comments\n\n"@ + comment_sections(comments_view(d.comments@))
    } else {
        seq![]
    }
}

/// The markdown context of a Linear issue: heading, status, priority, labels
/// and assignee when present, URL, description (or a placeholder), comments
/// when present, and the closing instruction.
pub open spec fn issue_markdown(d: LinearIssueDetail) -> Seq<char> {
    md_head(d) + md_labels(d) + md_assignee(d) + md_url(d) + md_description(d) + "\n\n"@
        + md_comments(d) + "---\n\n"@ + "*Investigate this issue and propose a solution.*\n"@
}

fn push(content: &mut String, s: &str)
    ensures
        final(content)@ == old(content)@ + s@,
{
    content.append(s);
}

fn head_part(detail: &LinearIssueDetail) -> (r: String)
    ensures
        r@ == md_head(*detail),
{
    let mut content = own("# Linear Issue ");
    push(&mut content, detail.identifier.as_str());
    push(&mut content, ": ");
    push(&mut content, detail.title.as_str());
    push(&mut content, "\n\n");
    push(&mut content, "- **Status**: ");
    push(&mut content, detail.state.name.as_str());
    push(&mut content, "\n");
    push(&mut content, "- **Priority**: ");
    push(&mut content, detail.priority_label.as_str());
    push(&mut content, "\n");
    content
}

fn labels_part(detail: &LinearIssueDetail) -> (r: String)
    ensures
        r@ == md_labels(*detail),
{
    if detail.labels.len() == 0 {
        return String::new();
    }
    let mut content = own("- **Labels**: ");
    let ghost start = content@;
    let ls = &detail.labels;
    let mut i: usize = 0;
    assert(labels_view(ls@.take(0)) =~= Seq::<LinearLabelView>::empty());
    assert(start + Seq::<char>::empty() =~= start);
    while i < ls.len()
        invariant
            i <= ls@.len(),
            content@ == start + joined_labels(labels_view(ls@.take(i as int))),
        decreases ls.len() - i,
    {
        if i > 0 {
            push(&mut content, ", ");
        }
        push(&mut content, ls[i].name.as_str());
        proof {
            let t = labels_view(ls@.take(i + 1));
            assert(t.drop_last() =~= labels_view(ls@.take(i as int)));
            assert(t.last() == ls@[i as int]@);
            if i == 0 {
                assert(t.len() == 1);
            }
        }
        i = i + 1;
    }
    assert(ls@.take(ls@.len() as int) =~= ls@);
    push(&mut content, "\n");
    content
}

fn assignee_part(detail: &LinearIssueDetail) -> (r: String)
    ensures
        r@ == md_assignee(*detail),
{
    match &detail.assignee {
        Some(a) => {
            let mut content = own("- **Assignee**: ");
            push(&mut content, a.display_name.as_str());
            push(&mut content, "\n");
            content
        },
        None => String::new(),
    }
}

fn url_part(detail: &LinearIssueDetail) -> (r: String)
    ensures
        r@ == md_url(*detail),
{
    let mut content = own("- **URL**: ");
    push(&mut content, detail.url.as_str());
    push(&mut content, "\n");
    push(&mut content, "\n---\n\n");
    push(&mut content, "## Description\n\n");
    content
}

fn description_part(detail: &LinearIssueDetail) -> (r: String)
    ensures
        r@ == md_description(*detail),
{
    match &detail.description {
        Some(desc) => if !desc.as_str().is_empty() {
            desc.clone()
        } else {
            own("*No description provided.*")
        },
        None => own("*No description provided.*"),
    }
}

fn comments_block(detail: &LinearIssueDetail) -> (r: String)
    ensures
        r@ == md_comments(*detail),
{
    if detail.comments.len() == 0 {
        return String::new();
    }
    let mut content = own("## Comments\n\n");
    let ghost start = content@;
    let cs = &detail.comments;
    let mut i: usize = 0;
    assert(comments_view(cs@.take(0)) =~= Seq::<LinearCommentView>::empty());
    assert(start + Seq::<char>::empty() =~= start);
    while i < cs.len()
        invariant
            i <= cs@.len(),
            content@ == start + comment_sections(comments_view(cs@.take(i as int))),
        decreases cs.len() - i,
    {
        let c = &cs[i];
        let author = author_name(&c.user);
        let mut section = own("### ");
        push(&mut section, author.as_str());
        push(&mut section, " (");
        push(&mut section, c.created_at.as_str());
        push(&mut section, ")\n\n");
        push(&mut section, c.body.as_str());
        push(&mut section, "\n\n---\n\n");
        assert(section@ == comment_section(c@));
        let ghost prev = content@;
        push(&mut content, section.as_str());
        proof {
            assert(comments_view(cs@.take(i + 1)).drop_last() =~= comments_view(cs@.take(i as int)));
            assert(comments_view(cs@.take(i + 1)).last() == cs@[i as int]@);
            assert(start + comment_sections(comments_view(cs@.take(i + 1))) =~= prev + section@);
        }
        i = i + 1;
    }
    assert(cs@.take(cs@.len() as int) =~= cs@);
    content
}

/// The markdown context of a Linear issue.
pub fn format_linear_issue_context_markdown(detail: &LinearIssueDetail) -> (content: String)
    ensures
        content@ == issue_markdown(*detail),
{
    let mut content = head_part(detail);
    push(&mut content, labels_part(detail).as_str());
    push(&mut content, assignee_part(detail).as_str());
    push(&mut content, url_part(detail).as_str());
    push(&mut content, description_part(detail).as_str());
    push(&mut content, "\n\n");
    push(&mut content, comments_block(detail).as_str());
    push(&mut content, "---\n\n");
    push(&mut content, "*Investigate this issue and propose a solution.*\n");
    content
}

// ---------------------------------------------------------------------------
// Reading context files back
// ---------------------------------------------------------------------------

/// The file name of an issue's context in the shared contexts directory.
pub open spec fn context_file_name(project_name: Seq<char>, identifier: Seq<char>) -> Seq<char> {
    project_name + "-linear-"@ + lowercase(identifier) + ".md"@
}

/// The file name of an issue's context.
pub fn linear_context_file_name(project_name: &str, identifier: &str) -> (r: String)
    ensures
        r@ == context_file_name(project_name@, identifier@),
{
    let lower = string_of(to_lowercase(chars_of(identifier).as_slice()).as_slice());
    let mut r = crate::process::cat3(project_name, "-linear-", lower.as_str());
    r.append(".md");
    r
}

/// The title in a context file's heading (`# Linear Issue <id>: <title>`),
/// or `Issue <identifier>`.
pub open spec fn context_title(content: Seq<char>, identifier: Seq<char>) -> Seq<char> {
    let fallback = "Issue "@ + identifier;
    if lines(content).len() == 0 {
        fallback
    } else {
        let first = lines(content)[0];
        if !starts(first, "# Linear Issue "@) {
            fallback
        } else {
            let rest = first.skip(15);
            match find_from(rest, ": "@, 0) {
                Some(i) => rest.skip(i + 2),
                None => fallback,
            }
        }
    }
}

/// The part of a context file after its first `## Comments`, up to the next
/// one if any.
pub open spec fn comments_part(content: Seq<char>) -> Option<Seq<char>> {
    match find_from(content, "## Comments"@, 0) {
        None => None,
        Some(i) => {
            let rest = content.skip(i + 11);
            match find_from(rest, "## Comments"@, 0) {
                Some(j) => Some(rest.take(j)),
                None => Some(rest),
            }
        },
    }
}

/// The lines that start with `### `.
pub open spec fn heading_count(ls: Seq<Seq<char>>) -> nat
    decreases ls.len(),
{
    if ls.len() == 0 {
        0
    } else {
        heading_count(ls.drop_last()) + if starts(ls.last(), "### "@) {
            1nat
        } else {
            0nat
        }
    }
}

/// The number of comments in a context file.
pub open spec fn context_comment_count(content: Seq<char>) -> nat {
    match comments_part(content) {
        Some(part) => heading_count(lines(part)),
        None => 0,
    }
}

/// The first line that starts with `prefix`, without it.
pub open spec fn line_value(ls: Seq<Seq<char>>, prefix: Seq<char>) -> Option<Seq<char>>
    decreases ls.len(),
{
    if ls.len() == 0 {
        None
    } else if starts(ls[0], prefix) {
        Some(ls[0].skip(prefix.len() as int))
    } else {
        line_value(ls.drop_first(), prefix)
    }
}

/// The URL line of a context file.
pub open spec fn context_url(content: Seq<char>) -> Option<Seq<char>> {
    line_value(lines(content), "- **URL**: "@)
}

fn title_of_content(content: &[char], identifier: &str) -> (r: String)
    ensures
        r@ == context_title(content@, identifier@),
{
    let ls = split_lines(content);
    let fallback = crate::process::cat("Issue ", identifier);
    if ls.len() == 0 {
        return fallback;
    }
    assert(texts(ls@)[0] == ls@[0]@);
    let first = &ls[0];
    match crate::text::strip_prefix_str(first.as_slice(), "# Linear Issue ") {
        None => fallback,
        Some(rest) => {
            proof {
                reveal_strlit("# Linear Issue ");
            }
            let sep = chars_of(": ");
            proof {
                reveal_strlit(": ");
                crate::text::lemma_find_from(rest@, sep@, 0);
            }
            let rest_len = rest.len();
            match find_str_from(rest.as_slice(), sep.as_slice(), 0) {
                Some(i) => {
                    let tail = crate::text::slice_chars(rest.as_slice(), i + 2, rest.len());
                    assert(tail@ =~= rest@.skip(i + 2));
                    assert(rest@ =~= first@.skip(15));
                    string_of(tail.as_slice())
                },
                None => fallback,
            }
        },
    }
}

fn count_headings(part: &[char]) -> (n: usize)
    ensures
        n == heading_count(lines(part@)),
{
    let ls = split_lines(part);
    let mut n: usize = 0;
    let mut i: usize = 0;
    assert(texts(ls@).take(0) =~= Seq::<Seq<char>>::empty());
    while i < ls.len()
        invariant
            i <= ls@.len(),
            n == heading_count(texts(ls@).take(i as int)),
            n <= i,
        decreases ls.len() - i,
    {
        assert(texts(ls@).take(i + 1).drop_last() =~= texts(ls@).take(i as int));
        assert(texts(ls@).take(i + 1).last() == ls@[i as int]@);
        if starts_with_str(ls[i].as_slice(), "### ") {
            n = n + 1;
        }
        i = i + 1;
    }
    assert(texts(ls@).take(ls@.len() as int) =~= texts(ls@));
    n
}

fn comment_count_of(content: &[char]) -> (n: usize)
    ensures
        n == context_comment_count(content@),
{
    let marker = chars_of("## Comments");
    proof {
        reveal_strlit("## Comments");
    }
    let content_len = content.len();
    proof {
        crate::text::lemma_find_from(content@, marker@, 0);
    }
    match find_str_from(content, marker.as_slice(), 0) {
        None => 0,
        Some(i) => {
            let rest = crate::text::slice_chars(content, i + 11, content.len());
            assert(rest@ =~= content@.skip(i + 11));
            proof {
                crate::text::lemma_find_from(rest@, marker@, 0);
            }
            match find_str_from(rest.as_slice(), marker.as_slice(), 0) {
                Some(j) => {
                    let part = crate::text::slice_chars(rest.as_slice(), 0, j);
                    assert(part@ =~= rest@.take(j as int));
                    count_headings(part.as_slice())
                },
                None => count_headings(rest.as_slice()),
            }
        },
    }
}

fn url_of_content(content: &[char]) -> (r: Option<String>)
    ensures
        opt_str(r) == context_url(content@),
{
    let ls = split_lines(content);
    let ghost all = texts(ls@);
    let mut i: usize = 0;
    assert(all.skip(0) =~= all);
    while i < ls.len()
        invariant
            i <= ls@.len(),
            all == texts(ls@),
            all == lines(content@),
            line_value(all, "- **URL**: "@) == line_value(all.skip(i as int), "- **URL**: "@),
        decreases ls.len() - i,
    {
        assert(all.skip(i as int)[0] == ls@[i as int]@);
        if let Some(rest) = crate::text::strip_prefix_str(ls[i].as_slice(), "- **URL**: ") {
            return Some(string_of(rest.as_slice()));
        }
        assert(all.skip(i as int).drop_first() =~= all.skip(i + 1));
        i = i + 1;
    }
    None
}

/// The identifiers of the reference keys (`<project>-<identifier>`) of
/// `project_name`, in order.
pub open spec fn key_identifiers(keys: Seq<Seq<char>>, project_name: Seq<char>) -> Seq<Seq<char>>
    decreases keys.len(),
{
    let prefix = project_name + "-"@;
    if keys.len() == 0 {
        seq![]
    } else if starts(keys.last(), prefix) {
        key_identifiers(keys.drop_last(), project_name).push(keys.last().skip(prefix.len() as int))
    } else {
        key_identifiers(keys.drop_last(), project_name)
    }
}

/// The identifiers of a project's reference keys.
pub fn identifiers_of_keys(keys: &Vec<String>, project_name: &str) -> (r: Vec<String>)
    ensures
        strs(r@) == key_identifiers(strs(keys@), project_name@),
{
    let prefix = crate::process::cat(project_name, "-");
    let p = chars_of(prefix.as_str());
    let mut r: Vec<String> = Vec::new();
    let mut i: usize = 0;
    assert(strs(keys@).take(0) =~= Seq::<Seq<char>>::empty());
    assert(strs(r@) =~= Seq::<Seq<char>>::empty());
    while i < keys.len()
        invariant
            i <= keys@.len(),
            p@ == project_name@ + "-"@,
            strs(r@) == key_identifiers(strs(keys@).take(i as int), project_name@),
        decreases keys.len() - i,
    {
        assert(strs(keys@).take(i + 1).drop_last() =~= strs(keys@).take(i as int));
        assert(strs(keys@).take(i + 1).last() == keys@[i as int]@);
        let k = chars_of(keys[i].as_str());
        if let Some(rest) = crate::text::strip_prefix(k.as_slice(), p.as_slice()) {
            let ghost before = strs(r@);
            r.push(string_of(rest.as_slice()));
            assert(strs(r@) =~= before.push(rest@));
        }
        i = i + 1;
    }
    assert(strs(keys@).take(keys@.len() as int) =~= strs(keys@));
    r
}

/// The keys of a session followed by those of its worktree that it lacks.
pub open spec fn merged_keys(session: Seq<Seq<char>>, worktree: Seq<Seq<char>>) -> Seq<Seq<char>>
    decreases worktree.len(),
{
    if worktree.len() == 0 {
        session
    } else {
        let before = merged_keys(session, worktree.drop_last());
        if before.contains(worktree.last()) {
            before
        } else {
            before.push(worktree.last())
        }
    }
}

/// The reference keys of a session and, when given, of its worktree.
pub fn merge_reference_keys(session_keys: Vec<String>, worktree_keys: Option<Vec<String>>) -> (r: Vec<
    String,
>)
    ensures
        strs(r@) == match worktree_keys {
            Some(w) => merged_keys(strs(session_keys@), strs(w@)),
            None => strs(session_keys@),
        },
{
    let mut keys = session_keys;
    let ghost s0 = strs(keys@);
    match worktree_keys {
        None => keys,
        Some(w) => {
            let mut i: usize = 0;
            assert(strs(w@).take(0) =~= Seq::<Seq<char>>::empty());
            while i < w.len()
                invariant
                    i <= w@.len(),
                    strs(keys@) == merged_keys(s0, strs(w@).take(i as int)),
                decreases w.len() - i,
            {
                assert(strs(w@).take(i + 1).drop_last() =~= strs(w@).take(i as int));
                assert(strs(w@).take(i + 1).last() == w@[i as int]@);
                let mut found = false;
                let mut j: usize = 0;
                while j < keys.len()
                    invariant
                        i < w@.len(),
                        j <= keys@.len(),
                        found == (exists|k: int| 0 <= k < j && keys@[k]@ == w@[i as int]@),
                    decreases keys.len() - j,
                {
                    if str_eq(keys[j].as_str(), w[i].as_str()) {
                        found = true;
                    }
                    j = j + 1;
                }
                proof {
                    if found {
                        let k = choose|k: int| 0 <= k < keys@.len() && keys@[k]@ == w@[i as int]@;
                        assert(strs(keys@)[k] == w@[i as int]@);
                    } else {
                        assert forall|k: int| 0 <= k < strs(keys@).len() implies strs(keys@)[k]
                            != w@[i as int]@ by {
                            assert(strs(keys@)[k] == keys@[k]@);
                        }
                    }
                }
                if !found {
                    let ghost before = strs(keys@);
                    keys.push(w[i].clone());
                    assert(strs(keys@) =~= before.push(w@[i as int]@));
                }
                i = i + 1;
            }
            assert(strs(w@).take(w@.len() as int) =~= strs(w@));
            keys
        },
    }
}

pub struct LoadedContextView {
    pub identifier: Seq<char>,
    pub title: Seq<char>,
    pub comment_count: nat,
    pub project_name: Seq<char>,
    pub url: Option<Seq<char>>,
}

impl View for LoadedLinearIssueContext {
    type V = LoadedContextView;

    open spec fn view(&self) -> LoadedContextView {
        LoadedContextView {
            identifier: self.identifier@,
            title: self.title@,
            comment_count: self.comment_count as nat,
            project_name: self.project_name@,
            url: opt_str(self.url),
        }
    }
}

/// What a loaded context shows of its file.
pub open spec fn loaded_view(identifier: Seq<char>, project_name: Seq<char>, content: Seq<char>) -> LoadedContextView {
    LoadedContextView {
        identifier,
        title: context_title(content, identifier),
        comment_count: context_comment_count(content),
        project_name,
        url: context_url(content),
    }
}

/// The loaded contexts whose files could be read (`outs[i]` for `ids[i]`).
pub open spec fn loaded_from(ids: Seq<Seq<char>>, project_name: Seq<char>, outs: Seq<Outcome>) -> Seq<
    LoadedContextView,
>
    decreases ids.len(),
{
    if ids.len() == 0 {
        seq![]
    } else {
        let before = loaded_from(ids.drop_last(), project_name, outs);
        match outs[ids.len() - 1] {
            Ok(o) => before.push(loaded_view(ids.last(), project_name, o.stdout@)),
            Err(_) => before,
        }
    }
}

pub open spec fn loaded_seq(v: Seq<LoadedLinearIssueContext>) -> Seq<LoadedContextView> {
    v.map_values(|c: LoadedLinearIssueContext| c@)
}

/// The protocol of [`list_loaded_linear_issue_contexts`].
pub open spec fn list_loaded_next(
    contexts_dir: Seq<char>,
    project_name: Seq<char>,
    keys: Seq<Seq<char>>,
    outs: Seq<Outcome>,
) -> Next<Seq<LoadedContextView>> {
    let ids = key_identifiers(keys, project_name);
    if outs.len() < ids.len() {
        Next::Run(read_file(contexts_dir, context_file_name(project_name, ids[outs.len() as int])))
    } else {
        Next::Done(loaded_from(ids, project_name, outs))
    }
}

fn loaded_context(identifier: &String, project_name: &str, content: &String) -> (r: LoadedLinearIssueContext)
    ensures
        r@ == loaded_view(identifier@, project_name@, content@),
{
    let c = chars_of(content.as_str());
    LoadedLinearIssueContext {
        identifier: identifier.clone(),
        title: title_of_content(c.as_slice(), identifier.as_str()),
        comment_count: comment_count_of(c.as_slice()),
        project_name: own(project_name),
        url: url_of_content(c.as_slice()),
    }
}

/// The Linear issue contexts loaded for a session: for each reference key
/// of the project (`keys`, see [`merge_reference_keys`]), the context file in
/// `contexts_dir` is read; those that can be read are summarized (title,
/// comment count, URL).
pub fn list_loaded_linear_issue_contexts(
    contexts_dir: &str,
    project_name: &str,
    keys: &Vec<String>,
    outcomes: &Vec<Outcome>,
) -> (r: Step<Vec<LoadedLinearIssueContext>>)
    ensures
        match r {
            Step::Run(i) => list_loaded_next(contexts_dir@, project_name@, strs(keys@), outcomes@)
                == Next::<Seq<LoadedContextView>>::Run(i@),
            Step::Done(v) => list_loaded_next(contexts_dir@, project_name@, strs(keys@), outcomes@)
                == Next::<Seq<LoadedContextView>>::Done(loaded_seq(v@)),
        },
{
    let ids = identifiers_of_keys(keys, project_name);
    if outcomes.len() < ids.len() {
        let id = &ids[outcomes.len()];
        assert(strs(ids@)[outcomes@.len() as int] == id@);
        return Step::Run(read_file_in(contexts_dir, linear_context_file_name(project_name, id.as_str())));
    }
    let mut r: Vec<LoadedLinearIssueContext> = Vec::new();
    let mut i: usize = 0;
    assert(strs(ids@).take(0) =~= Seq::<Seq<char>>::empty());
    assert(loaded_seq(r@) =~= Seq::<LoadedContextView>::empty());
    while i < ids.len()
        invariant
            i <= ids@.len(),
            ids@.len() <= outcomes@.len(),
            loaded_seq(r@) == loaded_from(strs(ids@).take(i as int), project_name@, outcomes@),
        decreases ids.len() - i,
    {
        assert(strs(ids@).take(i + 1).drop_last() =~= strs(ids@).take(i as int));
        assert(strs(ids@).take(i + 1).last() == ids@[i as int]@);
        match &outcomes[i] {
            Ok(o) => {
                let ghost before = loaded_seq(r@);
                let c = loaded_context(&ids[i], project_name, &o.stdout);
                let ghost cv = c@;
                r.push(c);
                assert(loaded_seq(r@) =~= before.push(cv));
            },
            Err(_) => {},
        }
        i = i + 1;
    }
    assert(strs(ids@).take(ids@.len() as int) =~= strs(ids@));
    Step::Done(r)
}

/// The full contents whose files could be read (`outs[i]` for `ids[i]`):
/// identifier, title and text.
pub open spec fn contents_from(ids: Seq<Seq<char>>, outs: Seq<Outcome>) -> Seq<
    (Seq<char>, Seq<char>, Seq<char>),
>
    decreases ids.len(),
{
    if ids.len() == 0 {
        seq![]
    } else {
        let before = contents_from(ids.drop_last(), outs);
        match outs[ids.len() - 1] {
            Ok(o) => before.push((ids.last(), context_title(o.stdout@, ids.last()), o.stdout@)),
            Err(_) => before,
        }
    }
}

pub open spec fn contents_seq(v: Seq<LinearIssueContextContent>) -> Seq<(Seq<char>, Seq<char>, Seq<char>)> {
    v.map_values(|c: LinearIssueContextContent| (c.identifier@, c.title@, c.content@))
}

/// The full text of each Linear issue context loaded for a session, read as
/// in [`list_loaded_linear_issue_contexts`].
pub fn get_linear_issue_context_contents(
    contexts_dir: &str,
    project_name: &str,
    keys: &Vec<String>,
    outcomes: &Vec<Outcome>,
) -> (r: Step<Vec<LinearIssueContextContent>>)
    ensures
        ({
            let ids = key_identifiers(strs(keys@), project_name@);
            match r {
                Step::Run(i) => outcomes@.len() < ids.len() && i@ == read_file(
                    contexts_dir@,
                    context_file_name(project_name@, ids[outcomes@.len() as int]),
                ),
                Step::Done(v) => outcomes@.len() >= ids.len() && contents_seq(v@)
                    == contents_from(ids, outcomes@),
            }
        }),
{
    let ids = identifiers_of_keys(keys, project_name);
    if outcomes.len() < ids.len() {
        let id = &ids[outcomes.len()];
        assert(strs(ids@)[outcomes@.len() as int] == id@);
        return Step::Run(read_file_in(contexts_dir, linear_context_file_name(project_name, id.as_str())));
    }
    let mut r: Vec<LinearIssueContextContent> = Vec::new();
    let mut i: usize = 0;
    assert(strs(ids@).take(0) =~= Seq::<Seq<char>>::empty());
    assert(contents_seq(r@) =~= Seq::<(Seq<char>, Seq<char>, Seq<char>)>::empty());
    while i < ids.len()
        invariant
            i <= ids@.len(),
            ids@.len() <= outcomes@.len(),
            contents_seq(r@) == contents_from(strs(ids@).take(i as int), outcomes@),
        decreases ids.len() - i,
    {
        assert(strs(ids@).take(i + 1).drop_last() =~= strs(ids@).take(i as int));
        assert(strs(ids@).take(i + 1).last() == ids@[i as int]@);
        match &outcomes[i] {
            Ok(o) => {
                let ghost before = contents_seq(r@);
                let title = title_of_content(chars_of(o.stdout.as_str()).as_slice(), ids[i].as_str());
                let c = LinearIssueContextContent {
                    identifier: ids[i].clone(),
                    title,
                    content: o.stdout.clone(),
                };
                let ghost cv = (c.identifier@, c.title@, c.content@);
                r.push(c);
                assert(contents_seq(r@) =~= before.push(cv));
            },
            Err(_) => {},
        }
        i = i + 1;
    }
    assert(strs(ids@).take(ids@.len() as int) =~= strs(ids@));
    Step::Done(r)
}

// ---------------------------------------------------------------------------
// Images in context files
// ---------------------------------------------------------------------------

/// The largest image cached for a context, in bytes.
pub const MAX_LINEAR_CONTEXT_IMAGE_BYTES: usize = 15728640;

/// The scheme and host of a URL as the `url` crate parses it, or nothing when
/// it does not parse.
pub uninterp spec fn url_scheme_host(text: Seq<char>) -> Option<(Seq<char>, Option<Seq<char>>)>;

/// `reqwest::Url::parse`, keeping the scheme and the host. Claimed: the
/// outcome depends on the text alone.
#[verifier::external_body]
fn parse_url(text: &str) -> (r: Option<(String, Option<String>)>)
    ensures
        match r {
            Some((scheme, host)) => url_scheme_host(text@) == Some((scheme@, opt_str(host))),
            None => url_scheme_host(text@) is None,
        },
{
    match reqwest::Url::parse(text) {
        Ok(u) => Some((u.scheme().to_string(), u.host_str().map(String::from))),
        Err(_) => None,
    }
}

/// A URL of an image uploaded to Linear: HTTPS on `uploads.linear.app` or one
/// of its subdomains.
pub open spec fn trusted_image_url(url: Seq<char>) -> bool {
    match url_scheme_host(url) {
        Some((scheme, Some(host))) => scheme == "https"@ && (host == "uploads.linear.app"@ || ends(
            host,
            ".uploads.linear.app"@,
        )),
        _ => false,
    }
}

/// Whether `url` points at an image uploaded to Linear.
pub fn is_trusted_linear_image_url(url: &str) -> (r: bool)
    ensures
        r == trusted_image_url(url@),
{
    match parse_url(url) {
        Some((scheme, Some(host))) => str_eq(scheme.as_str(), "https") && (str_eq(
            host.as_str(),
            "uploads.linear.app",
        ) || ends_with_str(chars_of(host.as_str()).as_slice(), ".uploads.linear.app")),
        _ => false,
    }
}

/// The URLs of markdown image matches.
pub open spec fn markdown_urls(parts: Seq<(Seq<char>, Seq<char>, Seq<char>, Seq<char>)>) -> Seq<Seq<char>> {
    parts.map_values(|q: (Seq<char>, Seq<char>, Seq<char>, Seq<char>)| q.3)
}

/// The URLs of `<img>` tag matches.
pub open spec fn html_urls(parts: Seq<(Seq<char>, Seq<char>, Seq<char>, Seq<char>)>) -> Seq<Seq<char>> {
    parts.map_values(|q: (Seq<char>, Seq<char>, Seq<char>, Seq<char>)| q.2)
}

/// Adds the trusted URLs not seen yet, in order.
pub open spec fn add_urls(seen: Seq<Seq<char>>, urls: Seq<Seq<char>>) -> Seq<Seq<char>>
    decreases urls.len(),
{
    if urls.len() == 0 {
        seen
    } else {
        let before = add_urls(seen, urls.drop_last());
        if trusted_image_url(urls.last()) && !before.contains(urls.last()) {
            before.push(urls.last())
        } else {
            before
        }
    }
}

/// The trusted image URLs of a markdown text, without repeats: markdown
/// images first, then `<img>` tags, each in order.
pub open spec fn image_urls(markdown: Seq<char>) -> Seq<Seq<char>> {
    add_urls(
        add_urls(seq![], markdown_urls(markdown_image_split(markdown).0)),
        html_urls(html_image_split(markdown).0),
    )
}

/// Only trusted URLs, each once.
pub open spec fn trusted_and_distinct(urls: Seq<Seq<char>>) -> bool {
    &&& forall|i: int| 0 <= i < urls.len() ==> trusted_image_url(#[trigger] urls[i])
    &&& forall|i: int, j: int| 0 <= i < j < urls.len() ==> urls[i] != urls[j]
}

/// Adding URLs keeps a list trusted and free of repeats.
proof fn lemma_add_urls_trusted_and_distinct(seen: Seq<Seq<char>>, urls: Seq<Seq<char>>)
    requires
        trusted_and_distinct(seen),
    ensures
        trusted_and_distinct(add_urls(seen, urls)),
    decreases urls.len(),
{
    if urls.len() > 0 {
        lemma_add_urls_trusted_and_distinct(seen, urls.drop_last());
        let before = add_urls(seen, urls.drop_last());
        if trusted_image_url(urls.last()) && !before.contains(urls.last()) {
            let after = before.push(urls.last());
            assert forall|i: int, j: int| 0 <= i < j < after.len() implies after[i] != after[j] by {
                if j == after.len() - 1 {
                    assert(after[i] == before[i]);
                    if after[i] == after[j] {
                        assert(before.contains(urls.last()));
                    }
                }
            }
            assert forall|i: int| 0 <= i < after.len() implies trusted_image_url(#[trigger] after[i]) by {
                if i < before.len() {
                    assert(after[i] == before[i]);
                }
            }
        }
    }
}

fn add_trusted(urls: &mut Vec<String>, candidates: &Vec<(String, String, String, String)>, markdown_url: bool)
    ensures
        strs(final(urls)@) == add_urls(
            strs(old(urls)@),
            if markdown_url {
                markdown_urls(quads(candidates@))
            } else {
                html_urls(quads(candidates@))
            },
        ),
{
    let ghost cands = if markdown_url {
        markdown_urls(quads(candidates@))
    } else {
        html_urls(quads(candidates@))
    };
    let ghost start = strs(urls@);
    let mut i: usize = 0;
    assert(cands.take(0) =~= Seq::<Seq<char>>::empty());
    while i < candidates.len()
        invariant
            i <= candidates@.len(),
            cands == if markdown_url {
                markdown_urls(quads(candidates@))
            } else {
                html_urls(quads(candidates@))
            },
            strs(urls@) == add_urls(start, cands.take(i as int)),
        decreases candidates.len() - i,
    {
        assert(cands.take(i + 1).drop_last() =~= cands.take(i as int));
        let url: &String = if markdown_url {
            &candidates[i].3
        } else {
            &candidates[i].2
        };
        assert(cands.take(i + 1).last() == url@);
        if is_trusted_linear_image_url(url.as_str()) {
            let mut seen = false;
            let mut j: usize = 0;
            while j < urls.len()
                invariant
                    j <= urls@.len(),
                    seen == (exists|k: int| 0 <= k < j && urls@[k]@ == url@),
                decreases urls.len() - j,
            {
                if str_eq(urls[j].as_str(), url.as_str()) {
                    seen = true;
                }
                j = j + 1;
            }
            proof {
                if seen {
                    let k = choose|k: int| 0 <= k < urls@.len() && urls@[k]@ == url@;
                    assert(strs(urls@)[k] == url@);
                } else {
                    assert forall|k: int| 0 <= k < strs(urls@).len() implies strs(urls@)[k] != url@ by {
                        assert(strs(urls@)[k] == urls@[k]@);
                    }
                }
            }
            if !seen {
                let ghost before = strs(urls@);
                urls.push(url.clone());
                assert(strs(urls@) =~= before.push(url@));
            }
        }
        i = i + 1;
    }
    assert(cands.take(cands.len() as int) =~= cands);
}

/// The trusted Linear image URLs of a markdown text, without repeats.
pub fn extract_linear_image_urls(markdown: &str) -> (r: Vec<String>)
    ensures
        strs(r@) == image_urls(markdown@),
        trusted_and_distinct(strs(r@)),
{
    let mut urls: Vec<String> = Vec::new();
    assert(strs(urls@) =~= Seq::<Seq<char>>::empty());
    let (md, _) = markdown_image_captures(markdown);
    assert(quads(md@) == markdown_image_split(markdown@).0);
    add_trusted(&mut urls, &md, true);
    let ghost after_md = strs(urls@);
    let (html, _) = html_image_captures(markdown);
    assert(quads(html@) == html_image_split(markdown@).0);
    add_trusted(&mut urls, &html, false);
    proof {
        let md_urls = markdown_urls(markdown_image_split(markdown@).0);
        lemma_add_urls_trusted_and_distinct(seq![], md_urls);
        lemma_add_urls_trusted_and_distinct(
            add_urls(seq![], md_urls),
            html_urls(html_image_split(markdown@).0),
        );
    }
    urls
}

/// The cached path of an image URL, if it was cached.
pub open spec fn replacement(replacements: Seq<(Seq<char>, Seq<char>)>, url: Seq<char>) -> Option<Seq<char>>
    decreases replacements.len(),
{
    if replacements.len() == 0 {
        None
    } else if replacements[0].0 == url {
        Some(replacements[0].1)
    } else {
        replacement(replacements.drop_first(), url)
    }
}

pub open spec fn pairs_view(v: Seq<(String, String)>) -> Seq<(Seq<char>, Seq<char>)> {
    v.map_values(|p: (String, String)| (p.0@, p.1@))
}

fn find_replacement(replacements: &Vec<(String, String)>, url: &str) -> (r: Option<String>)
    ensures
        opt_str(r) == replacement(pairs_view(replacements@), url@),
{
    let ghost all = pairs_view(replacements@);
    let mut i: usize = 0;
    assert(all.skip(0) =~= all);
    while i < replacements.len()
        invariant
            i <= replacements@.len(),
            all == pairs_view(replacements@),
            replacement(all, url@) == replacement(all.skip(i as int), url@),
        decreases replacements.len() - i,
    {
        assert(all.skip(i as int)[0] == all[i as int]);
        if str_eq(replacements[i].0.as_str(), url) {
            return Some(replacements[i].1.clone());
        }
        assert(all.skip(i as int).drop_first() =~= all.skip(i + 1));
        i = i + 1;
    }
    None
}

/// The markdown images rewritten: a cached image points at its file.
pub open spec fn rewrite_markdown_parts(
    parts: Seq<(Seq<char>, Seq<char>, Seq<char>, Seq<char>)>,
    replacements: Seq<(Seq<char>, Seq<char>)>,
) -> Seq<char>
    decreases parts.len(),
{
    if parts.len() == 0 {
        seq![]
    } else {
        let p = parts.last();
        rewrite_markdown_parts(parts.drop_last(), replacements) + p.0 + match replacement(
            replacements,
            p.3,
        ) {
            Some(path) => "!["@ + p.2 + "](<"@ + path + ">)"@,
            None => p.1,
        }
    }
}

/// The `<img>` tags rewritten: a cached image's `src` is its file.
pub open spec fn rewrite_html_parts(
    parts: Seq<(Seq<char>, Seq<char>, Seq<char>, Seq<char>)>,
    replacements: Seq<(Seq<char>, Seq<char>)>,
) -> Seq<char>
    decreases parts.len(),
{
    if parts.len() == 0 {
        seq![]
    } else {
        let p = parts.last();
        rewrite_html_parts(parts.drop_last(), replacements) + p.0 + p.1 + match replacement(
            replacements,
            p.2,
        ) {
            Some(path) => path,
            None => p.2,
        } + p.3
    }
}

/// Splitting off the last piece: the pieces before it, then it, then the tail.
proof fn lemma_rejoin_last(parts: Seq<(Seq<char>, Seq<char>)>, tail: Seq<char>)
    requires
        parts.len() > 0,
    ensures
        rejoin(parts, tail) == rejoin(parts.drop_last(), parts.last().0 + parts.last().1 + tail),
    decreases parts.len(),
{
    if parts.len() == 1 {
        assert(parts.drop_last().len() == 0);
        assert(rejoin(parts.drop_first(), tail) == tail);
        assert(parts[0].0 + parts[0].1 + tail =~= parts.last().0 + parts.last().1 + tail);
    } else {
        lemma_rejoin_last(parts.drop_first(), tail);
        assert(parts.drop_first().drop_last() =~= parts.drop_last().drop_first());
        assert(parts.drop_first().last() == parts.last());
        assert(parts.drop_last()[0] == parts[0]);
        let rest = rejoin(
            parts.drop_last().drop_first(),
            parts.last().0 + parts.last().1 + tail,
        );
        assert(parts[0].0 + parts[0].1 + rest =~= parts.drop_last()[0].0 + parts.drop_last()[0].1
            + rest);
    }
}

/// With no cached images, the markdown images are put back as they were.
proof fn lemma_markdown_parts_unchanged(
    parts: Seq<(Seq<char>, Seq<char>, Seq<char>, Seq<char>)>,
    tail: Seq<char>,
)
    ensures
        rewrite_markdown_parts(parts, seq![]) + tail == rejoin(
            parts.map_values(|q: (Seq<char>, Seq<char>, Seq<char>, Seq<char>)| (q.0, q.1)),
            tail,
        ),
    decreases parts.len(),
{
    let pm = parts.map_values(|q: (Seq<char>, Seq<char>, Seq<char>, Seq<char>)| (q.0, q.1));
    if parts.len() == 0 {
        assert(rewrite_markdown_parts(parts, seq![]) + tail =~= tail);
    } else {
        let p = parts.last();
        let t2 = p.0 + p.1 + tail;
        lemma_markdown_parts_unchanged(parts.drop_last(), t2);
        lemma_rejoin_last(pm, tail);
        assert(pm.drop_last() =~= parts.drop_last().map_values(
            |q: (Seq<char>, Seq<char>, Seq<char>, Seq<char>)| (q.0, q.1),
        ));
        assert(pm.last() == (p.0, p.1));
        assert(replacement(seq![], p.3) is None);
        assert(rewrite_markdown_parts(parts, seq![]) + tail =~= rewrite_markdown_parts(
            parts.drop_last(),
            seq![],
        ) + t2);
    }
}

/// With no cached images, the `<img>` tags are put back as they were.
proof fn lemma_html_parts_unchanged(
    parts: Seq<(Seq<char>, Seq<char>, Seq<char>, Seq<char>)>,
    tail: Seq<char>,
)
    ensures
        rewrite_html_parts(parts, seq![]) + tail == rejoin(
            parts.map_values(|q: (Seq<char>, Seq<char>, Seq<char>, Seq<char>)| (q.0, q.1 + q.2 + q.3)),
            tail,
        ),
    decreases parts.len(),
{
    let pm = parts.map_values(
        |q: (Seq<char>, Seq<char>, Seq<char>, Seq<char>)| (q.0, q.1 + q.2 + q.3),
    );
    if parts.len() == 0 {
        assert(rewrite_html_parts(parts, seq![]) + tail =~= tail);
    } else {
        let p = parts.last();
        let t2 = p.0 + (p.1 + p.2 + p.3) + tail;
        lemma_html_parts_unchanged(parts.drop_last(), t2);
        lemma_rejoin_last(pm, tail);
        assert(pm.drop_last() =~= parts.drop_last().map_values(
            |q: (Seq<char>, Seq<char>, Seq<char>, Seq<char>)| (q.0, q.1 + q.2 + q.3),
        ));
        assert(pm.last() == (p.0, p.1 + p.2 + p.3));
        assert(replacement(seq![], p.2) is None);
        assert(rewrite_html_parts(parts, seq![]) + tail =~= rewrite_html_parts(
            parts.drop_last(),
            seq![],
        ) + t2);
    }
}

/// A markdown text with its cached images pointing at their files: markdown
/// images first, then `<img>` tags of the result.
pub open spec fn rewritten_markdown(markdown: Seq<char>, replacements: Seq<(Seq<char>, Seq<char>)>) -> Seq<char> {
    let md = markdown_image_split(markdown);
    let first = rewrite_markdown_parts(md.0, replacements) + md.1;
    let html = html_image_split(first);
    rewrite_html_parts(html.0, replacements) + html.1
}

/// Points the cached images of a markdown text at their files (`replacements`
/// maps image URLs to file paths).
pub fn rewrite_linear_image_urls(markdown: &str, replacements: &Vec<(String, String)>) -> (r: String)
    ensures
        r@ == rewritten_markdown(markdown@, pairs_view(replacements@)),
        replacements@.len() == 0 ==> r@ == markdown@,
{
    let ghost reps = pairs_view(replacements@);
    let (md, md_tail) = markdown_image_captures(markdown);
    let mut first = String::new();
    let mut i: usize = 0;
    assert(quads(md@).take(0) =~= Seq::<(Seq<char>, Seq<char>, Seq<char>, Seq<char>)>::empty());
    while i < md.len()
        invariant
            i <= md@.len(),
            reps == pairs_view(replacements@),
            first@ == rewrite_markdown_parts(quads(md@).take(i as int), reps),
        decreases md.len() - i,
    {
        assert(quads(md@).take(i + 1).drop_last() =~= quads(md@).take(i as int));
        assert(quads(md@).take(i + 1).last() == (md@[i as int].0@, md@[i as int].1@, md@[i as int].2@, md@[i as int].3@));
        let (gap, whole, alt, url) = &md[i];
        first.append(gap.as_str());
        match find_replacement(replacements, url.as_str()) {
            Some(path) => {
                first.append("![");
                first.append(alt.as_str());
                first.append("](<");
                first.append(path.as_str());
                first.append(">)");
            },
            None => first.append(whole.as_str()),
        }
        i = i + 1;
    }
    assert(quads(md@).take(md@.len() as int) =~= quads(md@));
    first.append(md_tail.as_str());
    let (html, html_tail) = html_image_captures(first.as_str());
    let mut out = String::new();
    let mut j: usize = 0;
    assert(quads(html@).take(0) =~= Seq::<(Seq<char>, Seq<char>, Seq<char>, Seq<char>)>::empty());
    while j < html.len()
        invariant
            j <= html@.len(),
            reps == pairs_view(replacements@),
            out@ == rewrite_html_parts(quads(html@).take(j as int), reps),
        decreases html.len() - j,
    {
        assert(quads(html@).take(j + 1).drop_last() =~= quads(html@).take(j as int));
        assert(quads(html@).take(j + 1).last() == (html@[j as int].0@, html@[j as int].1@, html@[j as int].2@, html@[j as int].3@));
        let (gap, prefix, url, suffix) = &html[j];
        out.append(gap.as_str());
        out.append(prefix.as_str());
        match find_replacement(replacements, url.as_str()) {
            Some(path) => out.append(path.as_str()),
            None => out.append(url.as_str()),
        }
        out.append(suffix.as_str());
        j = j + 1;
    }
    assert(quads(html@).take(html@.len() as int) =~= quads(html@));
    out.append(html_tail.as_str());
    proof {
        if replacements@.len() == 0 {
            assert(reps =~= Seq::<(Seq<char>, Seq<char>)>::empty());
            lemma_markdown_parts_unchanged(quads(md@), md_tail@);
            lemma_html_parts_unchanged(quads(html@), html_tail@);
        }
    }
    out
}

/// The file extension of a cached image: from its content type (before any
/// `;`), else from its URL (case-insensitively), else `bin`.
pub open spec fn image_extension(url: Seq<char>, content_type: Option<Seq<char>>) -> Seq<char> {
    let ct = match content_type {
        Some(c) => crate::text::split(c, ';')[0],
        None => seq![],
    };
    let lower = lowercase(url);
    if ct == "image/png"@ {
        "png"@
    } else if ct == "image/jpeg"@ {
        "jpg"@
    } else if ct == "image/gif"@ {
        "gif"@
    } else if ct == "image/webp"@ {
        "webp"@
    } else if ct == "image/svg+xml"@ {
        "svg"@
    } else if contains_seq(lower, ".png"@) {
        "png"@
    } else if contains_seq(lower, ".jpg"@) || contains_seq(lower, ".jpeg"@) {
        "jpg"@
    } else if contains_seq(lower, ".gif"@) {
        "gif"@
    } else if contains_seq(lower, ".webp"@) {
        "webp"@
    } else if contains_seq(lower, ".svg"@) {
        "svg"@
    } else {
        "bin"@
    }
}

/// The file extension of a cached image.
pub fn linear_image_extension(url: &str, content_type: Option<&str>) -> (r: &'static str)
    ensures
        r@ == image_extension(
            url@,
            match content_type {
                Some(c) => Some(c@),
                None => None,
            },
        ),
{
    let ct = match content_type {
        Some(c) => {
            let pieces = crate::text::split_char(chars_of(c).as_slice(), ';');
            proof {
                crate::text::lemma_split_nonempty(c@, ';');
            }
            assert(texts(pieces@)[0] == pieces@[0]@);
            string_of(pieces[0].as_slice())
        },
        None => String::new(),
    };
    let lower = to_lowercase(chars_of(url).as_slice());
    let l = lower.as_slice();
    let c = ct.as_str();
    if str_eq(c, "image/png") {
        "png"
    } else if str_eq(c, "image/jpeg") {
        "jpg"
    } else if str_eq(c, "image/gif") {
        "gif"
    } else if str_eq(c, "image/webp") {
        "webp"
    } else if str_eq(c, "image/svg+xml") {
        "svg"
    } else if contains_str(l, ".png") {
        "png"
    } else if contains_str(l, ".jpg") || contains_str(l, ".jpeg") {
        "jpg"
    } else if contains_str(l, ".gif") {
        "gif"
    } else if contains_str(l, ".webp") {
        "webp"
    } else if contains_str(l, ".svg") {
        "svg"
    } else {
        "bin"
    }
}

/// The SHA-256 digest of the bytes.
pub uninterp spec fn sha256(bytes: Seq<u8>) -> Seq<u8>;

/// `sha2::Sha256::digest`: the 32-byte SHA-256 digest. Claimed: the digest
/// depends on the bytes alone and has 32 bytes (SHA-256's output size).
#[verifier::external_body]
fn sha256_digest(bytes: &[u8]) -> (r: Vec<u8>)
    ensures
        r@ == sha256(bytes@),
        r@.len() == 32,
{
    sha2::Sha256::digest(bytes).to_vec()
}

/// A lowercase hexadecimal digit.
pub open spec fn hex_digit(d: u8) -> char {
    if d < 10 {
        (48 + d) as char
    } else {
        (87 + d) as char
    }
}

/// Bytes in lowercase hexadecimal, two digits each.
pub open spec fn hex(bytes: Seq<u8>) -> Seq<char>
    decreases bytes.len(),
{
    if bytes.len() == 0 {
        seq![]
    } else {
        hex(bytes.drop_last()) + seq![hex_digit(bytes.last() / 16), hex_digit(bytes.last() % 16)]
    }
}

fn hex_char(d: u8) -> (c: char)
    requires
        d < 16,
    ensures
        c == hex_digit(d),
{
    if d < 10 {
        (48u8 + d) as char
    } else {
        (87u8 + d) as char
    }
}

/// The cache file name of an image: the SHA-256 of its URL in hexadecimal,
/// then its [`image_extension`].
pub open spec fn image_cache_name(url: Seq<char>, content_type: Option<Seq<char>>) -> Seq<char> {
    hex(sha256(vstd::utf8::encode_utf8(url))) + "."@ + image_extension(url, content_type)
}

/// The cache file name of an image.
pub fn linear_image_cache_name(url: &str, content_type: Option<&str>) -> (r: String)
    ensures
        r@ == image_cache_name(
            url@,
            match content_type {
                Some(c) => Some(c@),
                None => None,
            },
        ),
{
    let digest = sha256_digest(url.as_bytes());
    let mut text: Vec<char> = Vec::new();
    let mut i: usize = 0;
    assert(digest@.take(0) =~= Seq::<u8>::empty());
    while i < digest.len()
        invariant
            i <= digest@.len(),
            text@ == hex(digest@.take(i as int)),
        decreases digest.len() - i,
    {
        let b = digest[i];
        text.push(hex_char(b / 16));
        text.push(hex_char(b % 16));
        assert(digest@.take(i + 1).drop_last() =~= digest@.take(i as int));
        assert(digest@.take(i + 1).last() == b);
        i = i + 1;
    }
    assert(digest@.take(digest@.len() as int) =~= digest@);
    let mut r = string_of(text.as_slice());
    r.append(".");
    r.append(linear_image_extension(url, content_type));
    r
}

// ---------------------------------------------------------------------------
// References from sessions to loaded contexts
// ---------------------------------------------------------------------------

/// The sessions that use a loaded context, and when it lost its last one.
#[derive(Clone, Debug)]
pub struct ContextReference {
    pub sessions: Vec<String>,
    pub orphaned_at: Option<u64>,
}

/// A reference in mathematical form: key, sessions, orphaned time.
pub open spec fn reference_view(r: (String, ContextReference)) -> (Seq<char>, Seq<Seq<char>>, Option<u64>) {
    (r.0@, strs(r.1.sessions@), r.1.orphaned_at)
}

pub open spec fn references_view(v: Seq<(String, ContextReference)>) -> Seq<
    (Seq<char>, Seq<Seq<char>>, Option<u64>),
> {
    v.map_values(|r: (String, ContextReference)| reference_view(r))
}

/// The key of a Linear context reference.
pub open spec fn reference_key(project_name: Seq<char>, identifier: Seq<char>) -> Seq<char> {
    project_name + "-"@ + identifier
}

/// The position of the reference with key `key`.
pub open spec fn reference_index(refs: Seq<(Seq<char>, Seq<Seq<char>>, Option<u64>)>, key: Seq<char>) -> Option<int>
    decreases refs.len(),
{
    if refs.len() == 0 {
        None
    } else if refs.last().0 == key {
        Some(refs.len() - 1)
    } else {
        reference_index(refs.drop_last(), key)
    }
}

proof fn lemma_reference_index(refs: Seq<(Seq<char>, Seq<Seq<char>>, Option<u64>)>, key: Seq<char>)
    ensures
        reference_index(refs, key) matches Some(i) ==> 0 <= i < refs.len() && refs[i].0 == key,
    decreases refs.len(),
{
    if refs.len() > 0 && refs.last().0 != key {
        lemma_reference_index(refs.drop_last(), key);
    }
}

/// The references after session `session` starts using the context `key`:
/// the session is listed (once) and the context is no longer orphaned.
pub open spec fn with_reference(
    refs: Seq<(Seq<char>, Seq<Seq<char>>, Option<u64>)>,
    key: Seq<char>,
    session: Seq<char>,
) -> Seq<(Seq<char>, Seq<Seq<char>>, Option<u64>)> {
    match reference_index(refs, key) {
        Some(i) => refs.update(
            i,
            (
                key,
                if refs[i].1.contains(session) {
                    refs[i].1
                } else {
                    refs[i].1.push(session)
                },
                None,
            ),
        ),
        None => refs.push((key, seq![session], None)),
    }
}

fn find_reference(refs: &Vec<(String, ContextReference)>, key: &str) -> (r: Option<usize>)
    ensures
        match r {
            Some(i) => reference_index(references_view(refs@), key@) == Some(i as int) && i < refs@.len(),
            None => reference_index(references_view(refs@), key@) is None,
        },
{
    let ghost all = references_view(refs@);
    let mut i: usize = refs.len();
    assert(all.take(i as int) =~= all);
    while i > 0
        invariant
            i <= refs@.len(),
            all == references_view(refs@),
            reference_index(all, key@) == reference_index(all.take(i as int), key@),
        decreases i,
    {
        assert(all.take(i as int).last() == reference_view(refs@[i - 1]));
        if str_eq(refs[i - 1].0.as_str(), key) {
            return Some(i - 1);
        }
        assert(all.take(i as int).drop_last() =~= all.take(i - 1));
        i = i - 1;
    }
    None
}

fn contains_session(sessions: &Vec<String>, session: &str) -> (r: bool)
    ensures
        r == strs(sessions@).contains(session@),
{
    let mut i: usize = 0;
    while i < sessions.len()
        invariant
            i <= sessions@.len(),
            forall|k: int| 0 <= k < i ==> sessions@[k]@ != session@,
        decreases sessions.len() - i,
    {
        if str_eq(sessions[i].as_str(), session) {
            assert(strs(sessions@)[i as int] == session@);
            return true;
        }
        i = i + 1;
    }
    assert forall|k: int| 0 <= k < strs(sessions@).len() implies strs(sessions@)[k] != session@ by {
        assert(strs(sessions@)[k] == sessions@[k]@);
    }
    false
}

/// Records that `session_id` uses the Linear context of `identifier` in
/// `project_name`.
pub fn add_linear_reference(
    refs: &mut Vec<(String, ContextReference)>,
    project_name: &str,
    identifier: &str,
    session_id: &str,
)
    ensures
        references_view(final(refs)@) == with_reference(
            references_view(old(refs)@),
            reference_key(project_name@, identifier@),
            session_id@,
        ),
{
    let key = crate::process::cat3(project_name, "-", identifier);
    let ghost before = references_view(refs@);
    proof {
        lemma_reference_index(before, key@);
    }
    match find_reference(refs, key.as_str()) {
        Some(i) => {
            assert(before[i as int] == reference_view(refs@[i as int]));
            let (k, mut entry) = refs.remove(i);
            if !contains_session(&entry.sessions, session_id) {
                entry.sessions.push(own(session_id));
            }
            entry.orphaned_at = None;
            let ghost e = (k, entry);
            proof {
                assert(k@ == key@);
                assert(strs(entry.sessions@) == if before[i as int].1.contains(session_id@) {
                    before[i as int].1
                } else {
                    before[i as int].1.push(session_id@)
                }) by {
                    if !before[i as int].1.contains(session_id@) {
                        assert(strs(entry.sessions@) =~= before[i as int].1.push(session_id@));
                    }
                }
            }
            refs.insert(i, (k, entry));
            assert(references_view(refs@) =~= before.update(i as int, reference_view(e)));
        },
        None => {
            let sessions = vec![own(session_id)];
            assert(strs(sessions@) =~= seq![session_id@]);
            refs.push((key, ContextReference { sessions, orphaned_at: None }));
            assert(references_view(refs@) =~= before.push(
                (reference_key(project_name@, identifier@), seq![session_id@], None),
            ));
        },
    }
}

/// The sessions without `session`.
pub open spec fn without_session(sessions: Seq<Seq<char>>, session: Seq<char>) -> Seq<Seq<char>>
    decreases sessions.len(),
{
    if sessions.len() == 0 {
        seq![]
    } else if sessions.last() == session {
        without_session(sessions.drop_last(), session)
    } else {
        without_session(sessions.drop_last(), session).push(sessions.last())
    }
}

/// The references after `session` stops using the context `key`, and whether
/// that left the context orphaned (for the first time, at `now`).
pub open spec fn without_reference(
    refs: Seq<(Seq<char>, Seq<Seq<char>>, Option<u64>)>,
    key: Seq<char>,
    session: Seq<char>,
    now: u64,
) -> (Seq<(Seq<char>, Seq<Seq<char>>, Option<u64>)>, bool) {
    match reference_index(refs, key) {
        None => (refs, false),
        Some(i) => {
            let rest = without_session(refs[i].1, session);
            if rest.len() == 0 && refs[i].2 is None {
                (refs.update(i, (key, rest, Some(now))), true)
            } else {
                (refs.update(i, (key, rest, refs[i].2)), false)
            }
        },
    }
}

/// Records that `session_id` no longer uses the Linear context of
/// `identifier`; `true` when no session uses it any more and it was not
/// orphaned before (it is then marked orphaned at `now`, seconds since the
/// Unix epoch).
pub fn remove_linear_reference(
    refs: &mut Vec<(String, ContextReference)>,
    project_name: &str,
    identifier: &str,
    session_id: &str,
    now: u64,
) -> (orphaned: bool)
    ensures
        (references_view(final(refs)@), orphaned) == without_reference(
            references_view(old(refs)@),
            reference_key(project_name@, identifier@),
            session_id@,
            now,
        ),
{
    let key = crate::process::cat3(project_name, "-", identifier);
    let ghost before = references_view(refs@);
    proof {
        lemma_reference_index(before, key@);
    }
    match find_reference(refs, key.as_str()) {
        None => false,
        Some(i) => {
            assert(before[i as int] == reference_view(refs@[i as int]));
            let (k, entry) = refs.remove(i);
            let mut kept: Vec<String> = Vec::new();
            let mut j: usize = 0;
            let ghost ss = strs(entry.sessions@);
            assert(ss.take(0) =~= Seq::<Seq<char>>::empty());
            while j < entry.sessions.len()
                invariant
                    j <= entry.sessions@.len(),
                    ss == strs(entry.sessions@),
                    strs(kept@) == without_session(ss.take(j as int), session_id@),
                decreases entry.sessions.len() - j,
            {
                assert(ss.take(j + 1).drop_last() =~= ss.take(j as int));
                assert(ss.take(j + 1).last() == entry.sessions@[j as int]@);
                if !str_eq(entry.sessions[j].as_str(), session_id) {
                    let ghost b = strs(kept@);
                    kept.push(entry.sessions[j].clone());
                    assert(strs(kept@) =~= b.push(entry.sessions@[j as int]@));
                }
                j = j + 1;
            }
            assert(ss.take(ss.len() as int) =~= ss);
            let orphaned = kept.len() == 0 && entry.orphaned_at.is_none();
            let orphaned_at = if orphaned {
                Some(now)
            } else {
                entry.orphaned_at
            };
            let ghost e = (k, ContextReference { sessions: kept, orphaned_at });
            assert(k@ == key@);
            refs.insert(i, (k, ContextReference { sessions: kept, orphaned_at }));
            assert(references_view(refs@) =~= before.update(i as int, reference_view(e)));
            orphaned
        },
    }
}

/// The keys of the contexts a session uses, in order.
pub open spec fn session_keys(refs: Seq<(Seq<char>, Seq<Seq<char>>, Option<u64>)>, session: Seq<char>) -> Seq<Seq<char>>
    decreases refs.len(),
{
    if refs.len() == 0 {
        seq![]
    } else if refs.last().1.contains(session) {
        session_keys(refs.drop_last(), session).push(refs.last().0)
    } else {
        session_keys(refs.drop_last(), session)
    }
}

/// The keys of the Linear contexts a session uses.
pub fn get_session_linear_refs(refs: &Vec<(String, ContextReference)>, session_id: &str) -> (r: Vec<String>)
    ensures
        strs(r@) == session_keys(references_view(refs@), session_id@),
{
    let ghost all = references_view(refs@);
    let mut r: Vec<String> = Vec::new();
    let mut i: usize = 0;
    assert(all.take(0) =~= Seq::<(Seq<char>, Seq<Seq<char>>, Option<u64>)>::empty());
    assert(strs(r@) =~= Seq::<Seq<char>>::empty());
    while i < refs.len()
        invariant
            i <= refs@.len(),
            all == references_view(refs@),
            strs(r@) == session_keys(all.take(i as int), session_id@),
        decreases refs.len() - i,
    {
        assert(all.take(i + 1).drop_last() =~= all.take(i as int));
        assert(all.take(i + 1).last() == reference_view(refs@[i as int]));
        if contains_session(&refs[i].1.sessions, session_id) {
            let ghost b = strs(r@);
            r.push(refs[i].0.clone());
            assert(strs(r@) =~= b.push(refs@[i as int].0@));
        }
        i = i + 1;
    }
    assert(all.take(all.len() as int) =~= all);
    r
}

/// The Linear identifiers a session uses in `project_name`.
pub fn get_session_linear_identifiers(
    refs: &Vec<(String, ContextReference)>,
    session_id: &str,
    project_name: &str,
) -> (r: Vec<String>)
    ensures
        strs(r@) == key_identifiers(session_keys(references_view(refs@), session_id@), project_name@),
{
    let keys = get_session_linear_refs(refs, session_id);
    identifiers_of_keys(&keys, project_name)
}

} // verus!
