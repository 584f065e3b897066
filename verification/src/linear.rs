//! Linear: the issue types, the GraphQL requests the library sends, how their
//! responses are read, and which API key and team a project uses.
use crate::error::{BackendError, BackendErrorCode};
use crate::json_value::{
    json_as_str, json_as_u64, json_get, json_items, json_path, str_at, Json,
};
use crate::process::{cat, cat3, opt_str, own};
use crate::text::{chars_of, string_of, trim, trimmed};
use vstd::prelude::*;

verus! {

// ---------------------------------------------------------------------------
// Types
// ---------------------------------------------------------------------------

/// A Linear user.
#[derive(Clone, Debug)]
pub struct LinearUser {
    pub name: String,
    pub display_name: String,
}

/// A comment on a Linear issue.
#[derive(Clone, Debug)]
pub struct LinearComment {
    pub body: String,
    pub user: Option<LinearUser>,
    pub created_at: String,
}

/// The workflow state of an issue.
#[derive(Clone, Debug)]
pub struct LinearIssueState {
    pub name: String,
    pub state_type: String,
    pub color: String,
}

/// A label on an issue.
#[derive(Clone, Debug)]
pub struct LinearLabel {
    pub name: String,
    pub color: String,
}

/// A Linear issue as listed.
#[derive(Clone, Debug)]
pub struct LinearIssue {
    pub id: String,
    pub identifier: String,
    pub title: String,
    pub description: Option<String>,
    pub state: LinearIssueState,
    pub labels: Vec<LinearLabel>,
    pub assignee: Option<LinearUser>,
    pub created_at: String,
    pub url: String,
    pub priority: u32,
    pub priority_label: String,
}

/// A Linear issue with its comments.
#[derive(Clone, Debug)]
pub struct LinearIssueDetail {
    pub id: String,
    pub identifier: String,
    pub title: String,
    pub description: Option<String>,
    pub state: LinearIssueState,
    pub labels: Vec<LinearLabel>,
    pub assignee: Option<LinearUser>,
    pub created_at: String,
    pub url: String,
    pub priority: u32,
    pub priority_label: String,
    pub comments: Vec<LinearComment>,
}

/// The issues of a listing.
#[derive(Clone, Debug)]
pub struct LinearIssueListResult {
    pub issues: Vec<LinearIssue>,
}

/// A Linear team.
#[derive(Clone, Debug)]
pub struct LinearTeam {
    pub id: String,
    pub name: String,
    pub key: String,
}

/// The Linear settings of a project.
#[derive(Clone, Debug)]
pub struct LinearConfig {
    pub api_key: String,
    pub project_name: String,
    pub team_id: Option<String>,
}

/// The transport that sends GraphQL requests to Linear over HTTPS.
#[derive(Clone, Copy, Debug, Default)]
pub struct ReqwestLinearTransport;

/// The Linear GraphQL endpoint.
pub const LINEAR_API_URL: &'static str = "https://api.linear.app/graphql";

pub struct LinearUserView {
    pub name: Seq<char>,
    pub display_name: Seq<char>,
}

pub struct LinearCommentView {
    pub body: Seq<char>,
    pub user: Option<LinearUserView>,
    pub created_at: Seq<char>,
}

pub struct LinearLabelView {
    pub name: Seq<char>,
    pub color: Seq<char>,
}

pub struct LinearIssueView {
    pub id: Seq<char>,
    pub identifier: Seq<char>,
    pub title: Seq<char>,
    pub description: Option<Seq<char>>,
    pub state_name: Seq<char>,
    pub state_type: Seq<char>,
    pub state_color: Seq<char>,
    pub labels: Seq<LinearLabelView>,
    pub assignee: Option<LinearUserView>,
    pub created_at: Seq<char>,
    pub url: Seq<char>,
    pub priority: u32,
    pub priority_label: Seq<char>,
}

pub struct LinearTeamView {
    pub id: Seq<char>,
    pub name: Seq<char>,
    pub key: Seq<char>,
}

pub open spec fn user_view(u: Option<LinearUser>) -> Option<LinearUserView> {
    match u {
        Some(u) => Some(LinearUserView { name: u.name@, display_name: u.display_name@ }),
        None => None,
    }
}

impl View for LinearComment {
    type V = LinearCommentView;

    open spec fn view(&self) -> LinearCommentView {
        LinearCommentView { body: self.body@, user: user_view(self.user), created_at: self.created_at@ }
    }
}

impl View for LinearLabel {
    type V = LinearLabelView;

    open spec fn view(&self) -> LinearLabelView {
        LinearLabelView { name: self.name@, color: self.color@ }
    }
}

impl View for LinearTeam {
    type V = LinearTeamView;

    open spec fn view(&self) -> LinearTeamView {
        LinearTeamView { id: self.id@, name: self.name@, key: self.key@ }
    }
}

pub open spec fn labels_view(v: Seq<LinearLabel>) -> Seq<LinearLabelView> {
    v.map_values(|l: LinearLabel| l@)
}

pub open spec fn comments_view(v: Seq<LinearComment>) -> Seq<LinearCommentView> {
    v.map_values(|c: LinearComment| c@)
}

impl View for LinearIssue {
    type V = LinearIssueView;

    open spec fn view(&self) -> LinearIssueView {
        LinearIssueView {
            id: self.id@,
            identifier: self.identifier@,
            title: self.title@,
            description: opt_str(self.description),
            state_name: self.state.name@,
            state_type: self.state.state_type@,
            state_color: self.state.color@,
            labels: labels_view(self.labels@),
            assignee: user_view(self.assignee),
            created_at: self.created_at@,
            url: self.url@,
            priority: self.priority,
            priority_label: self.priority_label@,
        }
    }
}

/// The issue part of a detail.
pub open spec fn detail_issue(d: LinearIssueDetail) -> LinearIssueView {
    LinearIssueView {
        id: d.id@,
        identifier: d.identifier@,
        title: d.title@,
        description: opt_str(d.description),
        state_name: d.state.name@,
        state_type: d.state.state_type@,
        state_color: d.state.color@,
        labels: labels_view(d.labels@),
        assignee: user_view(d.assignee),
        created_at: d.created_at@,
        url: d.url@,
        priority: d.priority,
        priority_label: d.priority_label@,
    }
}

pub open spec fn issues_view(v: Seq<LinearIssue>) -> Seq<LinearIssueView> {
    v.map_values(|i: LinearIssue| i@)
}

pub open spec fn teams_view(v: Seq<LinearTeam>) -> Seq<LinearTeamView> {
    v.map_values(|t: LinearTeam| t@)
}

// ---------------------------------------------------------------------------
// Reading responses
// ---------------------------------------------------------------------------

/// A user object: both names must be strings.
pub open spec fn user_of(u: Json) -> Option<LinearUserView> {
    match (str_at(u, "name"@), str_at(u, "displayName"@)) {
        (Some(name), Some(display_name)) => Some(LinearUserView { name, display_name }),
        _ => None,
    }
}

/// The optional user member `key`: absent or `null` gives none.
pub open spec fn user_member(node: Json, key: Seq<char>) -> Option<LinearUserView> {
    match json_get(node, key) {
        Some(u) => if u is Null {
            None
        } else {
            user_of(u)
        },
        None => None,
    }
}

/// A label object.
pub open spec fn label_of(l: Json) -> Option<LinearLabelView> {
    match (str_at(l, "name"@), str_at(l, "color"@)) {
        (Some(name), Some(color)) => Some(LinearLabelView { name, color }),
        _ => None,
    }
}

/// The labels read from the items, skipping those that do not read.
pub open spec fn labels_of_items(items: Seq<Json>) -> Seq<LinearLabelView>
    decreases items.len(),
{
    if items.len() == 0 {
        seq![]
    } else {
        match label_of(items.last()) {
            Some(l) => labels_of_items(items.drop_last()).push(l),
            None => labels_of_items(items.drop_last()),
        }
    }
}

/// The items of the array at `path`, or none.
pub open spec fn items_at(node: Json, path: Seq<Seq<char>>) -> Seq<Json> {
    match json_path(node, path) {
        Some(v) => match json_items(v) {
            Some(items) => items,
            None => seq![],
        },
        None => seq![],
    }
}

/// A team object.
pub open spec fn team_of(node: Json) -> Option<LinearTeamView> {
    match (str_at(node, "id"@), str_at(node, "name"@), str_at(node, "key"@)) {
        (Some(id), Some(name), Some(key)) => Some(LinearTeamView { id, name, key }),
        _ => None,
    }
}

/// A comment object: its body and date must be strings; its user is optional.
pub open spec fn comment_of(node: Json) -> Option<LinearCommentView> {
    match (str_at(node, "body"@), str_at(node, "createdAt"@)) {
        (Some(body), Some(created_at)) => Some(
            LinearCommentView { body, user: user_member(node, "user"@), created_at },
        ),
        _ => None,
    }
}

/// The priority: a non-negative integer, truncated to `u32`.
pub open spec fn priority_of(node: Json) -> Option<u32> {
    match json_get(node, "priority"@) {
        Some(p) => match json_as_u64(p) {
            Some(n) => Some(n as u32),
            None => None,
        },
        None => None,
    }
}

/// An issue object: it needs a state object with name, type and color, and
/// string id, identifier, title, creation date and URL, and a priority.
pub open spec fn issue_of(node: Json) -> Option<LinearIssueView> {
    match json_get(node, "state"@) {
        None => None,
        Some(state) => match (
            str_at(node, "id"@),
            str_at(node, "identifier"@),
            str_at(node, "title"@),
            str_at(state, "name"@),
            str_at(state, "type"@),
            str_at(state, "color"@),
            str_at(node, "createdAt"@),
            str_at(node, "url"@),
            priority_of(node),
        ) {
            (
                Some(id),
                Some(identifier),
                Some(title),
                Some(state_name),
                Some(state_type),
                Some(state_color),
                Some(created_at),
                Some(url),
                Some(priority),
            ) => Some(
                LinearIssueView {
                    id,
                    identifier,
                    title,
                    description: str_at(node, "description"@),
                    state_name,
                    state_type,
                    state_color,
                    labels: labels_of_items(items_at(node, seq!["labels"@, "nodes"@])),
                    assignee: user_member(node, "assignee"@),
                    created_at,
                    url,
                    priority,
                    priority_label: match str_at(node, "priorityLabel"@) {
                        Some(l) => l,
                        None => "No priority"@,
                    },
                },
            ),
            _ => None,
        },
    }
}

/// The issues read from the items, skipping those that do not read.
pub open spec fn issues_of_items(items: Seq<Json>) -> Seq<LinearIssueView>
    decreases items.len(),
{
    if items.len() == 0 {
        seq![]
    } else {
        match issue_of(items.last()) {
            Some(i) => issues_of_items(items.drop_last()).push(i),
            None => issues_of_items(items.drop_last()),
        }
    }
}

/// The teams read from the items, skipping those that do not read.
pub open spec fn teams_of_items(items: Seq<Json>) -> Seq<LinearTeamView>
    decreases items.len(),
{
    if items.len() == 0 {
        seq![]
    } else {
        match team_of(items.last()) {
            Some(t) => teams_of_items(items.drop_last()).push(t),
            None => teams_of_items(items.drop_last()),
        }
    }
}

/// The comments read from the items, skipping those that do not read.
pub open spec fn comments_of_items(items: Seq<Json>) -> Seq<LinearCommentView>
    decreases items.len(),
{
    if items.len() == 0 {
        seq![]
    } else {
        match comment_of(items.last()) {
            Some(c) => comments_of_items(items.drop_last()).push(c),
            None => comments_of_items(items.drop_last()),
        }
    }
}

fn user_from(u: &Json) -> (r: Option<LinearUser>)
    ensures
        user_view(r) == user_of(*u),
{
    let name = match u.str_member("name") {
        Some(n) => n,
        None => {
            return None;
        },
    };
    let display_name = match u.str_member("displayName") {
        Some(d) => d,
        None => {
            return None;
        },
    };
    Some(LinearUser { name, display_name })
}

fn user_member_from(node: &Json, key: &str) -> (r: Option<LinearUser>)
    ensures
        user_view(r) == user_member(*node, key@),
{
    match node.get(key) {
        Some(u) => if u.is_null() {
            None
        } else {
            user_from(u)
        },
        None => None,
    }
}

fn label_from(l: &Json) -> (r: Option<LinearLabel>)
    ensures
        match r {
            Some(x) => label_of(*l) == Some(x@),
            None => label_of(*l) is None,
        },
{
    let name = match l.str_member("name") {
        Some(n) => n,
        None => {
            return None;
        },
    };
    let color = match l.str_member("color") {
        Some(c) => c,
        None => {
            return None;
        },
    };
    Some(LinearLabel { name, color })
}

fn items_from<'a>(node: &'a Json, path: &[&str]) -> (r: &'a [Json])
    ensures
        r@ == items_at(*node, path@.map_values(|s: &str| s@)),
{
    match node.at_path(path) {
        Some(v) => match v.as_array() {
            Some(items) => items.as_slice(),
            None => &[],
        },
        None => &[],
    }
}

fn labels_from(items: &[Json]) -> (r: Vec<LinearLabel>)
    ensures
        labels_view(r@) == labels_of_items(items@),
{
    let mut r: Vec<LinearLabel> = Vec::new();
    let mut i: usize = 0;
    assert(items@.take(0) =~= Seq::<Json>::empty());
    assert(labels_view(r@) =~= Seq::<LinearLabelView>::empty());
    while i < items.len()
        invariant
            i <= items@.len(),
            labels_view(r@) == labels_of_items(items@.take(i as int)),
        decreases items.len() - i,
    {
        assert(items@.take(i + 1).drop_last() =~= items@.take(i as int));
        assert(items@.take(i + 1).last() == items@[i as int]);
        if let Some(l) = label_from(&items[i]) {
            let ghost before = labels_view(r@);
            let ghost lv = l@;
            r.push(l);
            assert(labels_view(r@) =~= before.push(lv));
        }
        i = i + 1;
    }
    assert(items@.take(items@.len() as int) =~= items@);
    r
}

/// Reads a team object.
pub fn parse_team_node(node: &Json) -> (r: Option<LinearTeam>)
    ensures
        match r {
            Some(t) => team_of(*node) == Some(t@),
            None => team_of(*node) is None,
        },
{
    let id = match node.str_member("id") {
        Some(v) => v,
        None => {
            return None;
        },
    };
    let name = match node.str_member("name") {
        Some(v) => v,
        None => {
            return None;
        },
    };
    let key = match node.str_member("key") {
        Some(v) => v,
        None => {
            return None;
        },
    };
    Some(LinearTeam { id, name, key })
}

/// Reads a comment object.
pub fn parse_comment_node(node: &Json) -> (r: Option<LinearComment>)
    ensures
        match r {
            Some(c) => comment_of(*node) == Some(c@),
            None => comment_of(*node) is None,
        },
{
    let body = match node.str_member("body") {
        Some(v) => v,
        None => {
            return None;
        },
    };
    let user = user_member_from(node, "user");
    let created_at = match node.str_member("createdAt") {
        Some(v) => v,
        None => {
            return None;
        },
    };
    Some(LinearComment { body, user, created_at })
}

/// Reads an issue object.
pub fn parse_issue_node(node: &Json) -> (r: Option<LinearIssue>)
    ensures
        match r {
            Some(i) => issue_of(*node) == Some(i@),
            None => issue_of(*node) is None,
        },
{
    let state = match node.get("state") {
        Some(s) => s,
        None => {
            return None;
        },
    };
    let label_items = items_from(node, &["labels", "nodes"]);
    proof {
        assert(seq!["labels", "nodes"].map_values(|s: &str| s@) =~= seq!["labels"@, "nodes"@]);
    }
    let labels = labels_from(label_items);
    let assignee = user_member_from(node, "assignee");
    let id = match node.str_member("id") {
        Some(v) => v,
        None => {
            return None;
        },
    };
    let identifier = match node.str_member("identifier") {
        Some(v) => v,
        None => {
            return None;
        },
    };
    let title = match node.str_member("title") {
        Some(v) => v,
        None => {
            return None;
        },
    };
    let description = node.str_member("description");
    let state_name = match state.str_member("name") {
        Some(v) => v,
        None => {
            return None;
        },
    };
    let state_type = match state.str_member("type") {
        Some(v) => v,
        None => {
            return None;
        },
    };
    let color = match state.str_member("color") {
        Some(v) => v,
        None => {
            return None;
        },
    };
    let created_at = match node.str_member("createdAt") {
        Some(v) => v,
        None => {
            return None;
        },
    };
    let url = match node.str_member("url") {
        Some(v) => v,
        None => {
            return None;
        },
    };
    let priority = match node.get("priority") {
        Some(p) => match p.as_u64() {
            Some(n) => n as u32,
            None => {
                return None;
            },
        },
        None => {
            return None;
        },
    };
    let priority_label = match node.str_member("priorityLabel") {
        Some(l) => l,
        None => own("No priority"),
    };
    Some(
        LinearIssue {
            id,
            identifier,
            title,
            description,
            state: LinearIssueState { name: state_name, state_type, color },
            labels,
            assignee,
            created_at,
            url,
            priority,
            priority_label,
        },
    )
}

fn issues_from(items: &[Json]) -> (r: Vec<LinearIssue>)
    ensures
        issues_view(r@) == issues_of_items(items@),
{
    let mut r: Vec<LinearIssue> = Vec::new();
    let mut i: usize = 0;
    assert(items@.take(0) =~= Seq::<Json>::empty());
    assert(issues_view(r@) =~= Seq::<LinearIssueView>::empty());
    while i < items.len()
        invariant
            i <= items@.len(),
            issues_view(r@) == issues_of_items(items@.take(i as int)),
        decreases items.len() - i,
    {
        assert(items@.take(i + 1).drop_last() =~= items@.take(i as int));
        assert(items@.take(i + 1).last() == items@[i as int]);
        if let Some(x) = parse_issue_node(&items[i]) {
            let ghost before = issues_view(r@);
            let ghost xv = x@;
            r.push(x);
            assert(issues_view(r@) =~= before.push(xv));
        }
        i = i + 1;
    }
    assert(items@.take(items@.len() as int) =~= items@);
    r
}

fn teams_from(items: &[Json]) -> (r: Vec<LinearTeam>)
    ensures
        teams_view(r@) == teams_of_items(items@),
{
    let mut r: Vec<LinearTeam> = Vec::new();
    let mut i: usize = 0;
    assert(items@.take(0) =~= Seq::<Json>::empty());
    assert(teams_view(r@) =~= Seq::<LinearTeamView>::empty());
    while i < items.len()
        invariant
            i <= items@.len(),
            teams_view(r@) == teams_of_items(items@.take(i as int)),
        decreases items.len() - i,
    {
        assert(items@.take(i + 1).drop_last() =~= items@.take(i as int));
        assert(items@.take(i + 1).last() == items@[i as int]);
        if let Some(x) = parse_team_node(&items[i]) {
            let ghost before = teams_view(r@);
            let ghost xv = x@;
            r.push(x);
            assert(teams_view(r@) =~= before.push(xv));
        }
        i = i + 1;
    }
    assert(items@.take(items@.len() as int) =~= items@);
    r
}

fn comments_from(items: &[Json]) -> (r: Vec<LinearComment>)
    ensures
        comments_view(r@) == comments_of_items(items@),
{
    let mut r: Vec<LinearComment> = Vec::new();
    let mut i: usize = 0;
    assert(items@.take(0) =~= Seq::<Json>::empty());
    assert(comments_view(r@) =~= Seq::<LinearCommentView>::empty());
    while i < items.len()
        invariant
            i <= items@.len(),
            comments_view(r@) == comments_of_items(items@.take(i as int)),
        decreases items.len() - i,
    {
        assert(items@.take(i + 1).drop_last() =~= items@.take(i as int));
        assert(items@.take(i + 1).last() == items@[i as int]);
        if let Some(x) = parse_comment_node(&items[i]) {
            let ghost before = comments_view(r@);
            let ghost xv = x@;
            r.push(x);
            assert(comments_view(r@) =~= before.push(xv));
        }
        i = i + 1;
    }
    assert(items@.take(items@.len() as int) =~= items@);
    r
}

/// The array at `path` of a response, or an error with `message`.
pub open spec fn nodes_of(response: Json, path: Seq<Seq<char>>) -> Option<Seq<Json>> {
    match json_path(response, path) {
        Some(v) => json_items(v),
        None => None,
    }
}

fn nodes_at<'a>(response: &'a Json, path: &[&str], message: &str) -> (r: Result<
    &'a Vec<Json>,
    BackendError,
>)
    ensures
        match r {
            Ok(v) => nodes_of(*response, path@.map_values(|s: &str| s@)) == Some(v@),
            Err(e) => nodes_of(*response, path@.map_values(|s: &str| s@)) is None && e.code
                == BackendErrorCode::InvalidArgument && e.message@ == message@,
        },
{
    match response.at_path(path) {
        Some(v) => match v.as_array() {
            Some(items) => Ok(items),
            None => Err(BackendError::new(BackendErrorCode::InvalidArgument, message)),
        },
        None => Err(BackendError::new(BackendErrorCode::InvalidArgument, message)),
    }
}

/// The message for a response without the expected nodes.
pub open spec fn unexpected_format() -> Seq<char> {
    "Unexpected Linear API response format"@
}

/// Reads the teams of a `ListTeams` response.
pub fn parse_teams_response(response: &Json) -> (r: Result<Vec<LinearTeam>, BackendError>)
    ensures
        match nodes_of(*response, seq!["data"@, "teams"@, "nodes"@]) {
            Some(items) => r matches Ok(v) && teams_view(v@) == teams_of_items(items),
            None => r matches Err(e) && e.code == BackendErrorCode::InvalidArgument && e.message@
                == unexpected_format(),
        },
{
    let path: [&str; 3] = ["data", "teams", "nodes"];
    proof {
        assert(path@.map_values(|s: &str| s@) =~= seq!["data"@, "teams"@, "nodes"@]);
    }
    match nodes_at(response, &path, "Unexpected Linear API response format") {
        Ok(nodes) => Ok(teams_from(nodes.as_slice())),
        Err(e) => Err(e),
    }
}

/// Reads the issues of a `ListIssues` response.
pub fn parse_issue_list_response(response: &Json) -> (r: Result<LinearIssueListResult, BackendError>)
    ensures
        match nodes_of(*response, seq!["data"@, "issues"@, "nodes"@]) {
            Some(items) => r matches Ok(v) && issues_view(v.issues@) == issues_of_items(items),
            None => r matches Err(e) && e.code == BackendErrorCode::InvalidArgument && e.message@
                == unexpected_format(),
        },
{
    let path: [&str; 3] = ["data", "issues", "nodes"];
    proof {
        assert(path@.map_values(|s: &str| s@) =~= seq!["data"@, "issues"@, "nodes"@]);
    }
    match nodes_at(response, &path, "Unexpected Linear API response format") {
        Ok(nodes) => Ok(LinearIssueListResult { issues: issues_from(nodes.as_slice()) }),
        Err(e) => Err(e),
    }
}

/// Reads the issues of a `SearchIssues` response.
pub fn parse_search_response(response: &Json) -> (r: Result<Vec<LinearIssue>, BackendError>)
    ensures
        match nodes_of(*response, seq!["data"@, "issueSearch"@, "nodes"@]) {
            Some(items) => r matches Ok(v) && issues_view(v@) == issues_of_items(items),
            None => r matches Err(e) && e.code == BackendErrorCode::InvalidArgument && e.message@
                == "Unexpected Linear search response format"@,
        },
{
    let path: [&str; 3] = ["data", "issueSearch", "nodes"];
    proof {
        assert(path@.map_values(|s: &str| s@) =~= seq!["data"@, "issueSearch"@, "nodes"@]);
    }
    match nodes_at(response, &path, "Unexpected Linear search response format") {
        Ok(nodes) => Ok(issues_from(nodes.as_slice())),
        Err(e) => Err(e),
    }
}

/// Reads the first issue of a `GetIssueByNumber` response, if it reads.
pub fn parse_issue_by_number_response(response: &Json) -> (r: Result<Option<LinearIssue>, BackendError>)
    ensures
        match nodes_of(*response, seq!["data"@, "issues"@, "nodes"@]) {
            Some(items) => r matches Ok(o) && (if items.len() == 0 {
                o is None
            } else {
                match issue_of(items[0]) {
                    Some(i) => o matches Some(x) && x@ == i,
                    None => o is None,
                }
            }),
            None => r matches Err(e) && e.code == BackendErrorCode::InvalidArgument && e.message@
                == unexpected_format(),
        },
{
    let path: [&str; 3] = ["data", "issues", "nodes"];
    proof {
        assert(path@.map_values(|s: &str| s@) =~= seq!["data"@, "issues"@, "nodes"@]);
    }
    match nodes_at(response, &path, "Unexpected Linear API response format") {
        Ok(nodes) => if nodes.len() == 0 {
            Ok(None)
        } else {
            Ok(parse_issue_node(&nodes[0]))
        },
        Err(e) => Err(e),
    }
}

/// Reads the issue of a `GetIssue` response, with its comments.
pub fn parse_issue_detail_response(response: &Json) -> (r: Result<LinearIssueDetail, BackendError>)
    ensures
        match json_path(*response, seq!["data"@, "issue"@]) {
            None => r matches Err(e) && e.code == BackendErrorCode::InvalidArgument && e.message@
                == "Issue not found"@,
            Some(node) => match issue_of(node) {
                None => r matches Err(e) && e.code == BackendErrorCode::InvalidArgument
                    && e.message@ == "Failed to parse Linear issue"@,
                Some(i) => r matches Ok(d) && detail_issue(d) == i && comments_view(d.comments@)
                    == comments_of_items(items_at(node, seq!["comments"@, "nodes"@])),
            },
        },
{
    let path: [&str; 2] = ["data", "issue"];
    proof {
        assert(path@.map_values(|s: &str| s@) =~= seq!["data"@, "issue"@]);
    }
    let node = match response.at_path(&path) {
        Some(n) => n,
        None => {
            return Err(BackendError::new(BackendErrorCode::InvalidArgument, "Issue not found"));
        },
    };
    let issue = match parse_issue_node(node) {
        Some(i) => i,
        None => {
            return Err(
                BackendError::new(BackendErrorCode::InvalidArgument, "Failed to parse Linear issue"),
            );
        },
    };
    let comment_items = items_from(node, &["comments", "nodes"]);
    proof {
        assert(seq!["comments", "nodes"].map_values(|s: &str| s@) =~= seq!["comments"@, "nodes"@]);
    }
    let comments = comments_from(comment_items);
    Ok(
        LinearIssueDetail {
            id: issue.id,
            identifier: issue.identifier,
            title: issue.title,
            description: issue.description,
            state: issue.state,
            labels: issue.labels,
            assignee: issue.assignee,
            created_at: issue.created_at,
            url: issue.url,
            priority: issue.priority,
            priority_label: issue.priority_label,
            comments,
        },
    )
}

// ---------------------------------------------------------------------------
// Configuration
// ---------------------------------------------------------------------------

/// A setting read under its snake-case name, else its camel-case name (only
/// when the first is absent), trimmed; an empty value counts as none.
pub open spec fn setting_of(v: Json, snake: Seq<char>, camel: Seq<char>) -> Option<Seq<char>> {
    let member = match json_get(v, snake) {
        Some(m) => Some(m),
        None => json_get(v, camel),
    };
    match member {
        Some(m) => match json_as_str(m) {
            Some(s) => if trim(s).len() == 0 {
                None
            } else {
                Some(trim(s))
            },
            None => None,
        },
        None => None,
    }
}

fn setting(v: &Json, snake: &str, camel: &str) -> (r: Option<String>)
    ensures
        opt_str(r) == setting_of(*v, snake@, camel@),
{
    let member = match v.get(snake) {
        Some(m) => Some(m),
        None => v.get(camel),
    };
    match member {
        Some(m) => match m.as_str() {
            Some(s) => {
                let t = trimmed(chars_of(s).as_slice());
                if t.len() == 0 {
                    None
                } else {
                    Some(string_of(t.as_slice()))
                }
            },
            None => None,
        },
        None => None,
    }
}

/// The position of the first project whose `id` is `project_id`.
pub open spec fn project_index(projects: Seq<Json>, project_id: Seq<char>) -> Option<int>
    decreases projects.len(),
{
    if projects.len() == 0 {
        None
    } else if str_at(projects[0], "id"@) == Some(project_id) {
        Some(0)
    } else {
        match project_index(projects.drop_first(), project_id) {
            Some(i) => Some(i + 1),
            None => None,
        }
    }
}

/// The message when neither the project nor the preferences hold an API key.
pub open spec fn no_api_key_message() -> Seq<char> {
    "No Linear API key configured. Add one in Settings → Integrations, or override per-project."@
}

/// The Linear settings of project `project_id`: its name, its team, and the
/// API key of the project or, failing that, of the preferences.
pub open spec fn config_of(
    projects: Seq<Json>,
    project_id: Seq<char>,
    preferences: Option<Json>,
) -> Result<(Seq<char>, Seq<char>, Option<Seq<char>>), Seq<char>> {
    match project_index(projects, project_id) {
        None => Err("Project not found: "@ + project_id),
        Some(i) => {
            let project = projects[i];
            let key = match setting_of(project, "linear_api_key"@, "linearApiKey"@) {
                Some(k) => Some(k),
                None => match preferences {
                    Some(p) => setting_of(p, "linear_api_key"@, "linearApiKey"@),
                    None => None,
                },
            };
            match key {
                None => Err(no_api_key_message()),
                Some(k) => Ok(
                    (
                        k,
                        match str_at(project, "name"@) {
                            Some(n) => n,
                            None => seq![],
                        },
                        setting_of(project, "linear_team_id"@, "linearTeamId"@),
                    ),
                ),
            }
        },
    }
}

fn find_project(projects: &Vec<Json>, project_id: &str) -> (r: Option<usize>)
    ensures
        match r {
            Some(k) => k < projects@.len() && project_index(projects@, project_id@) == Some(k as int),
            None => project_index(projects@, project_id@) is None,
        },
{
    let mut i: usize = 0;
    assert(projects@.skip(0) =~= projects@);
    while i < projects.len()
        invariant
            i <= projects@.len(),
            project_index(projects@, project_id@) == match project_index(
                projects@.skip(i as int),
                project_id@,
            ) {
                Some(j) => Some(j + i),
                None => None,
            },
        decreases projects.len() - i,
    {
        assert(projects@.skip(i as int)[0] == projects@[i as int]);
        assert(projects@.skip(i as int).drop_first() =~= projects@.skip(i + 1));
        let is_match = match projects[i].get("id") {
            Some(v) => match v.as_str() {
                Some(s) => crate::text::str_eq(s, project_id),
                None => false,
            },
            None => false,
        };
        if is_match {
            return Some(i);
        }
        i = i + 1;
    }
    assert(projects@.skip(i as int) =~= Seq::<Json>::empty());
    None
}

/// The Linear settings of a project, from the saved projects and preferences.
pub fn linear_config(projects: &Vec<Json>, project_id: &str, preferences: Option<&Json>) -> (r:
    Result<LinearConfig, BackendError>)
    ensures
        match r {
            Ok(c) => config_of(projects@, project_id@, match preferences {
                Some(p) => Some(*p),
                None => None,
            }) == Ok::<(Seq<char>, Seq<char>, Option<Seq<char>>), Seq<char>>(
                (c.api_key@, c.project_name@, opt_str(c.team_id)),
            ),
            Err(e) => e.code == BackendErrorCode::InvalidArgument && config_of(
                projects@,
                project_id@,
                match preferences {
                    Some(p) => Some(*p),
                    None => None,
                },
            ) == Err::<(Seq<char>, Seq<char>, Option<Seq<char>>), Seq<char>>(e.message@),
        },
{
    let idx = match find_project(projects, project_id) {
        Some(k) => k,
        None => {
            return Err(
                BackendError::with_message(
                    BackendErrorCode::InvalidArgument,
                    cat("Project not found: ", project_id),
                ),
            );
        },
    };
    let project = &projects[idx];
    let key = match setting(project, "linear_api_key", "linearApiKey") {
        Some(k) => Some(k),
        None => match preferences {
            Some(p) => setting(p, "linear_api_key", "linearApiKey"),
            None => None,
        },
    };
    let api_key = match key {
        Some(k) => k,
        None => {
            return Err(
                BackendError::new(
                    BackendErrorCode::InvalidArgument,
                    "No Linear API key configured. Add one in Settings → Integrations, or override per-project.",
                ),
            );
        },
    };
    let project_name = match project.str_member("name") {
        Some(n) => n,
        None => String::new(),
    };
    let team_id = setting(project, "linear_team_id", "linearTeamId");
    Ok(LinearConfig { api_key, project_name, team_id })
}

// ---------------------------------------------------------------------------
// Requests
// ---------------------------------------------------------------------------

/// The issue fields every issue query asks for.
pub const ISSUE_FIELDS: &'static str = "\n id identifier title description state { name type color } labels { nodes { name color } } assignee { name displayName } createdAt url priority priorityLabel\n";

/// The query that lists teams.
pub const LIST_TEAMS_QUERY: &'static str = "query ListTeams { teams(first: 250) { nodes { id name key } } }";

/// The query that reads one issue with its comments.
pub const GET_ISSUE_QUERY: &'static str = "query GetIssue($id: String!) { issue(id: $id) { id identifier title description state { name type color } labels { nodes { name color } } assignee { name displayName } createdAt url priority priorityLabel comments { nodes { body user { name displayName } createdAt } } } }";

/// The filter on active workflow states.
pub const ACTIVE_STATES: &'static str = "state: { type: { in: [\"started\", \"unstarted\", \"backlog\", \"triage\"] } }";

/// The filter on a team, when there is one.
pub const TEAM_FILTER: &'static str = ", team: { id: { eq: $teamId } }";

/// The query listing the active issues (of the team, when there is one), most
/// recently updated first.
pub open spec fn list_issues_query(has_team: bool) -> Seq<char> {
    "query ListIssues"@ + (if has_team { "($teamId: ID!)"@ } else { ""@ }) + " { issues(filter: { "@
        + ACTIVE_STATES@ + (if has_team { TEAM_FILTER@ } else { ""@ })
        + " }, orderBy: updatedAt, first: 100) { nodes {"@ + ISSUE_FIELDS@ + "} } }"@
}

/// The query searching the active issues (of the team, when there is one).
pub open spec fn search_issues_query(has_team: bool) -> Seq<char> {
    "query SearchIssues"@ + (if has_team {
        "($query: String!, $teamId: ID!)"@
    } else {
        "($query: String!)"@
    }) + " { issueSearch(query: $query, first: 50, filter: { "@ + ACTIVE_STATES@ + (if has_team {
        TEAM_FILTER@
    } else {
        ""@
    }) + " }) { nodes {"@ + ISSUE_FIELDS@ + "} } }"@
}

/// The query reading an issue by its number (in the team, when there is one).
pub open spec fn issue_by_number_query(has_team: bool) -> Seq<char> {
    "query GetIssueByNumber"@ + (if has_team {
        "($number: Float!, $teamId: ID!)"@
    } else {
        "($number: Float!)"@
    }) + " { issues(filter: { number: { eq: $number }"@ + (if has_team {
        TEAM_FILTER@
    } else {
        ""@
    }) + " }, first: 1) { nodes {"@ + ISSUE_FIELDS@ + "} } }"@
}

fn pick(c: bool, a: &'static str, b: &'static str) -> (r: &'static str)
    ensures
        r@ == if c {
            a@
        } else {
            b@
        },
{
    if c {
        a
    } else {
        b
    }
}

/// The query listing active issues.
pub fn build_list_issues_query(team: Option<&str>) -> (r: String)
    ensures
        r@ == list_issues_query(team is Some),
{
    let t = team.is_some();
    let mut r = cat3("query ListIssues", pick(t, "($teamId: ID!)", ""), " { issues(filter: { ");
    r.append(ACTIVE_STATES);
    r.append(pick(t, TEAM_FILTER, ""));
    r.append(" }, orderBy: updatedAt, first: 100) { nodes {");
    r.append(ISSUE_FIELDS);
    r.append("} } }");
    r
}

/// The query searching active issues.
pub fn build_search_issues_query(team: Option<&str>) -> (r: String)
    ensures
        r@ == search_issues_query(team is Some),
{
    let t = team.is_some();
    let mut r = cat3(
        "query SearchIssues",
        pick(t, "($query: String!, $teamId: ID!)", "($query: String!)"),
        " { issueSearch(query: $query, first: 50, filter: { ",
    );
    r.append(ACTIVE_STATES);
    r.append(pick(t, TEAM_FILTER, ""));
    r.append(" }) { nodes {");
    r.append(ISSUE_FIELDS);
    r.append("} } }");
    r
}

/// The query reading an issue by number.
pub fn build_issue_by_number_query(team: Option<&str>) -> (r: String)
    ensures
        r@ == issue_by_number_query(team is Some),
{
    let t = team.is_some();
    let mut r = cat3(
        "query GetIssueByNumber",
        pick(t, "($number: Float!, $teamId: ID!)", "($number: Float!)"),
        " { issues(filter: { number: { eq: $number }",
    );
    r.append(pick(t, TEAM_FILTER, ""));
    r.append(" }, first: 1) { nodes {");
    r.append(ISSUE_FIELDS);
    r.append("} } }");
    r
}

/// A GraphQL request: the API key it is sent with, the query, its variables.
#[derive(Debug)]
pub struct GraphqlRequest {
    pub api_key: String,
    pub query: String,
    pub variables: Option<Json>,
}

/// A member named `name` holding the string `value`.
pub open spec fn string_member(e: (String, Json), name: Seq<char>, value: Seq<char>) -> bool {
    e.0@ == name && match e.1 {
        Json::String(s) => s@ == value,
        _ => false,
    }
}

/// A JSON object of string members.
pub open spec fn string_object(j: Json, members: Seq<(Seq<char>, Seq<char>)>) -> bool {
    match j {
        Json::Object(es) => es@.len() == members.len() && forall|i: int|
            0 <= i < members.len() ==> string_member(
                #[trigger] es@[i],
                members[i].0,
                members[i].1,
            ),
        _ => false,
    }
}

/// The variables of an issue-by-number request: the number, then the team
/// when there is one.
pub open spec fn number_variables(v: Option<Json>, number: i64, team: Option<Seq<char>>) -> bool {
    match v {
        Some(Json::Object(es)) => es@.len() >= 1 && es@[0].0@ == "number"@ && match es@[0].1 {
            Json::Number(t) => t@ == crate::terminal::signed_decimal(number as int),
            _ => false,
        } && match team {
            Some(t) => es@.len() == 2 && string_member(es@[1], "teamId"@, t),
            None => es@.len() == 1,
        },
        _ => false,
    }
}

fn team_variables(team: &String) -> (j: Json)
    ensures
        string_object(j, seq![("teamId"@, team@)]),
{
    let j = Json::Object(vec![(own("teamId"), Json::String(team.clone()))]);
    j
}

/// The request listing teams.
pub fn list_teams_request(config: &LinearConfig) -> (r: GraphqlRequest)
    ensures
        r.api_key@ == config.api_key@,
        r.query@ == LIST_TEAMS_QUERY@,
        r.variables is None,
{
    GraphqlRequest { api_key: config.api_key.clone(), query: own(LIST_TEAMS_QUERY), variables: None }
}

/// The request listing active issues, of the project's team when it has one.
pub fn list_issues_request(config: &LinearConfig) -> (r: GraphqlRequest)
    ensures
        r.api_key@ == config.api_key@,
        r.query@ == list_issues_query(config.team_id is Some),
        match config.team_id {
            Some(t) => r.variables matches Some(v) && string_object(v, seq![("teamId"@, t@)]),
            None => r.variables is None,
        },
{
    let query = match &config.team_id {
        Some(t) => build_list_issues_query(Some(t.as_str())),
        None => build_list_issues_query(None),
    };
    let variables = match &config.team_id {
        Some(t) => Some(team_variables(t)),
        None => None,
    };
    GraphqlRequest { api_key: config.api_key.clone(), query, variables }
}

/// The request searching issues for `text`.
pub fn search_issues_request(config: &LinearConfig, text: &str) -> (r: GraphqlRequest)
    ensures
        r.api_key@ == config.api_key@,
        r.query@ == search_issues_query(config.team_id is Some),
        match config.team_id {
            Some(t) => r.variables matches Some(v) && string_object(
                v,
                seq![("query"@, text@), ("teamId"@, t@)],
            ),
            None => r.variables matches Some(v) && string_object(v, seq![("query"@, text@)]),
        },
{
    let query = match &config.team_id {
        Some(t) => build_search_issues_query(Some(t.as_str())),
        None => build_search_issues_query(None),
    };
    let mut members: Vec<(String, Json)> = vec![(own("query"), Json::String(own(text)))];
    if let Some(t) = &config.team_id {
        members.push((own("teamId"), Json::String(t.clone())));
    }
    GraphqlRequest { api_key: config.api_key.clone(), query, variables: Some(Json::Object(members)) }
}

/// The request reading issue `issue_id` with its comments.
pub fn issue_request(config: &LinearConfig, issue_id: &str) -> (r: GraphqlRequest)
    ensures
        r.api_key@ == config.api_key@,
        r.query@ == GET_ISSUE_QUERY@,
        r.variables matches Some(v) && string_object(v, seq![("id"@, issue_id@)]),
{
    let variables = Json::Object(vec![(own("id"), Json::String(own(issue_id)))]);
    GraphqlRequest { api_key: config.api_key.clone(), query: own(GET_ISSUE_QUERY), variables: Some(variables) }
}

/// A signed number in decimal.
pub fn i64_text(n: i64) -> (r: String)
    ensures
        r@ == crate::terminal::signed_decimal(n as int),
{
    if n < 0 {
        let magnitude: u64 = (0 - (n as i128)) as u64;
        cat("-", crate::text::decimal_string(magnitude).as_str())
    } else {
        crate::text::decimal_string(n as u64)
    }
}

/// The request reading the issue numbered `number`, in the project's team
/// when it has one.
pub fn issue_by_number_request(config: &LinearConfig, number: i64) -> (r: GraphqlRequest)
    ensures
        r.api_key@ == config.api_key@,
        r.query@ == issue_by_number_query(config.team_id is Some),
        number_variables(r.variables, number, opt_str(config.team_id)),
{
    let query = match &config.team_id {
        Some(t) => build_issue_by_number_query(Some(t.as_str())),
        None => build_issue_by_number_query(None),
    };
    let mut members: Vec<(String, Json)> = vec![(own("number"), Json::Number(i64_text(number)))];
    if let Some(t) = &config.team_id {
        members.push((own("teamId"), Json::String(t.clone())));
    }
    GraphqlRequest { api_key: config.api_key.clone(), query, variables: Some(Json::Object(members)) }
}

/// The error for an unsuccessful HTTP status from the API: a refused key is
/// reported as such; otherwise the status (as displayed) and the body.
pub fn graphql_status_error(status: u16, status_text: &str, body: &str) -> (e: BackendError)
    ensures
        e.code == BackendErrorCode::Io,
        status == 401 ==> e.message@ == "Linear API key is invalid. Update it in project settings."@,
        status != 401 ==> e.message@ == "Linear API error ("@ + status_text@ + "): "@ + body@,
{
    if status == 401 {
        BackendError::new(BackendErrorCode::Io, "Linear API key is invalid. Update it in project settings.")
    } else {
        let mut m = cat3("Linear API error (", status_text, "): ");
        m.append(body);
        BackendError::with_message(BackendErrorCode::Io, m)
    }
}

} // verus!
