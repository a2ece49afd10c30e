//! The GitHub tool server: its configuration, and the checks and choices it
//! makes on a tool call before the GitHub API is reached.

use vstd::prelude::*;
use crate::mcp::{McpError, is_invalid_request, is_tool_not_found};
use crate::text::str_eq;

verus! {

/// The configuration of the GitHub server.
#[derive(Debug)]
pub struct GitHubConfig {
    /// Personal access token.
    pub token: String,
    /// Owner used when a call names none.
    pub default_owner: Option<String>,
    /// Request timeout, in seconds.
    pub timeout_secs: u64,
    /// User-Agent header value.
    pub user_agent: String,
}

impl Default for GitHubConfig {
    fn default() -> (c: Self)
        ensures
            c.token@ == Seq::<char>::empty(),
            c.default_owner is None,
            c.timeout_secs == 30,
            c.user_agent@ == "oxify-mcp/0.2"@,
    {
        GitHubConfig {
            token: String::new(),
            default_owner: None,
            timeout_secs: 30,
            user_agent: String::from_str("oxify-mcp/0.2"),
        }
    }
}

/// The view of an optional string.
pub open spec fn opt_str(o: Option<String>) -> Option<Seq<char>> {
    match o {
        Some(s) => Some(s@),
        None => None,
    }
}

fn copy_opt(o: &Option<String>) -> (r: Option<String>)
    ensures
        opt_str(r) == opt_str(*o),
{
    match o {
        Some(s) => Some(s.clone()),
        None => None,
    }
}

/// The owner a call acts on: the one it names, else the configured default.
pub open spec fn owner_of(arg: Option<String>, default_owner: Option<String>) -> Option<Seq<char>> {
    match arg {
        Some(o) => Some(o@),
        None => opt_str(default_owner),
    }
}

/// The refusal for a call that names no owner when no default is configured.
pub open spec fn missing_owner_message() -> Seq<char> {
    "Missing 'owner' argument and GITHUB_DEFAULT_OWNER is not configured"@
}

impl GitHubConfig {
    /// The configuration from the values of `GITHUB_TOKEN` and
    /// `GITHUB_DEFAULT_OWNER` (`None` for a variable that is not set);
    /// refused without a token.
    pub fn from_vars(token: Option<String>, default_owner: Option<String>) -> (r: Result<
        Self,
        McpError,
    >)
        ensures
            match token {
                Some(t) => r matches Ok(c) && {
                    &&& c.token@ == t@
                    &&& opt_str(c.default_owner) == opt_str(default_owner)
                    &&& c.timeout_secs == 30
                    &&& c.user_agent@ == "oxify-mcp/0.2"@
                },
                None => r matches Err(e) && is_invalid_request(e, "GITHUB_TOKEN not set"@),
            },
    {
        match token {
            Some(t) => Ok(
                GitHubConfig {
                    token: t,
                    default_owner,
                    timeout_secs: 30,
                    user_agent: String::from_str("oxify-mcp/0.2"),
                },
            ),
            None => Err(McpError::InvalidRequest(String::from_str("GITHUB_TOKEN not set"))),
        }
    }

    /// The owner a call acts on: `owner` when given, else the configured
    /// default; refused when there is neither.
    pub fn resolve_owner(&self, owner: &Option<String>) -> (r: Result<String, McpError>)
        ensures
            match owner_of(*owner, self.default_owner) {
                Some(o) => r matches Ok(s) && s@ == o,
                None => r matches Err(e) && is_invalid_request(e, missing_owner_message()),
            },
    {
        match owner {
            Some(o) => Ok(o.clone()),
            None => match &self.default_owner {
                Some(d) => Ok(d.clone()),
                None => Err(
                    McpError::InvalidRequest(
                        String::from_str(
                            "Missing 'owner' argument and GITHUB_DEFAULT_OWNER is not configured",
                        ),
                    ),
                ),
            },
        }
    }
}

/// Which issues or pull requests a listing covers.
#[derive(Clone, Copy, Debug, PartialEq, Eq, Structural)]
pub enum IssueState {
    Open,
    Closed,
    All,
}

/// The refusal for an unknown state name.
pub open spec fn invalid_state_message(s: Seq<char>) -> Seq<char> {
    "Invalid state '"@ + s + "': expected one of open, closed, all"@
}

/// `r` is what `parse_state` gives for `s`.
pub open spec fn state_parse(r: Result<IssueState, McpError>, s: Seq<char>) -> bool {
    if s == "open"@ {
        r == Ok::<IssueState, McpError>(IssueState::Open)
    } else if s == "closed"@ {
        r == Ok::<IssueState, McpError>(IssueState::Closed)
    } else if s == "all"@ {
        r == Ok::<IssueState, McpError>(IssueState::All)
    } else {
        r matches Err(e) && is_invalid_request(e, invalid_state_message(s))
    }
}

/// Reads a state name: `open`, `closed` or `all`.
pub fn parse_state(state: &str) -> (r: Result<IssueState, McpError>)
    ensures
        state_parse(r, state@),
{
    if str_eq(state, "open") {
        Ok(IssueState::Open)
    } else if str_eq(state, "closed") {
        Ok(IssueState::Closed)
    } else if str_eq(state, "all") {
        Ok(IssueState::All)
    } else {
        Err(
            McpError::InvalidRequest(
                String::from_str("Invalid state '").concat(state).concat(
                    "': expected one of open, closed, all",
                ),
            ),
        )
    }
}

/// The names of the GitHub tools, in the order they are listed.
pub open spec fn github_tool_names_spec() -> Seq<Seq<char>> {
    seq![
        "list_repos"@,
        "get_repo"@,
        "list_issues"@,
        "create_issue"@,
        "list_prs"@,
        "create_pr"@,
        "get_file"@,
        "search_code"@,
    ]
}

/// The names of the GitHub tools, in the order they are listed.
pub fn github_tool_names() -> (r: Vec<&'static str>)
    ensures
        r@.len() == github_tool_names_spec().len(),
        forall|i: int| 0 <= i < r@.len() ==> #[trigger] r@[i]@ == github_tool_names_spec()[i],
{
    let r = vec![
        "list_repos",
        "get_repo",
        "list_issues",
        "create_issue",
        "list_prs",
        "create_pr",
        "get_file",
        "search_code",
    ];
    assert(r@.len() == 8);
    r
}

/// The arguments of a GitHub tool call, as read from its JSON object (each
/// one when it is a string; `labels` when it is an array, keeping its
/// strings).
pub struct GitHubToolArgs {
    pub owner: Option<String>,
    pub repo: Option<String>,
    pub title: Option<String>,
    pub body: Option<String>,
    pub labels: Option<Vec<String>>,
    pub state: Option<String>,
    pub head: Option<String>,
    pub base: Option<String>,
    pub path: Option<String>,
    pub branch: Option<String>,
    pub query: Option<String>,
    pub language: Option<String>,
}

/// What a GitHub tool call asks of the API.
#[derive(Debug)]
pub enum GitHubRequest {
    ListRepos { owner: String },
    GetRepo { owner: String, repo: String },
    ListIssues { owner: String, repo: String, state: IssueState },
    CreateIssue { owner: String, repo: String, title: String, body: Option<String>, labels: Option<Vec<String>> },
    ListPulls { owner: String, repo: String, state: IssueState },
    CreatePull { owner: String, repo: String, title: String, head: String, base: String, body: Option<String> },
    GetFile { owner: String, repo: String, path: String, branch: Option<String> },
    SearchCode { query: String },
}

/// The state a listing asks for: the one named, `open` by default.
pub open spec fn state_name(arg: Option<String>) -> Seq<char> {
    match arg {
        Some(s) => s@,
        None => "open"@,
    }
}

/// The query a code search sends: the query, then ` language:` and the
/// language when one is named.
pub open spec fn effective_query(query: Seq<char>, language: Option<String>) -> Seq<char> {
    match language {
        Some(l) => query + " language:"@ + l@,
        None => query,
    }
}

/// The views of a list of strings.
pub open spec fn strs(v: Seq<String>) -> Seq<Seq<char>> {
    Seq::new(v.len(), |i: int| v[i]@)
}

/// The views of an optional list of strings.
pub open spec fn opt_strs(o: Option<Vec<String>>) -> Option<Seq<Seq<char>>> {
    match o {
        Some(v) => Some(strs(v@)),
        None => None,
    }
}

/// `r` refuses for the first missing argument among those a call needs,
/// or `rest` holds when none is missing.
pub open spec fn needs(r: Result<GitHubRequest, McpError>, arg: Option<String>, message: Seq<char>, rest: bool) -> bool {
    match arg {
        None => r matches Err(e) && is_invalid_request(e, message),
        Some(_) => rest,
    }
}

/// `r` is the plan of the GitHub tool call `name` with `a` under default
/// owner `d`.
pub open spec fn github_plan(r: Result<GitHubRequest, McpError>, name: Seq<char>, a: GitHubToolArgs, d: Option<String>) -> bool {
    let owner = owner_of(a.owner, d);
    let repo = opt_str(a.repo);
    if name == "search_code"@ {
        needs(r, a.query, "Missing 'query'"@,
            r matches Ok(GitHubRequest::SearchCode { query: q }) && q@ == effective_query(opt_str(a.query).unwrap(), a.language))
    } else if !(name == "list_repos"@ || name == "get_repo"@ || name == "list_issues"@ || name == "create_issue"@
        || name == "list_prs"@ || name == "create_pr"@ || name == "get_file"@) {
        r matches Err(e) && is_tool_not_found(e, name)
    } else if owner is None {
        r matches Err(e) && is_invalid_request(e, missing_owner_message())
    } else if name == "list_repos"@ {
        r matches Ok(GitHubRequest::ListRepos { owner: o }) && o@ == owner.unwrap()
    } else {
        needs(r, a.repo, "Missing 'repo'"@,
        if name == "get_repo"@ {
            r matches Ok(GitHubRequest::GetRepo { owner: o, repo: p }) && o@ == owner.unwrap() && p@ == repo.unwrap()
        } else if name == "list_issues"@ || name == "list_prs"@ {
            ||| (exists|st: IssueState| state_parse(Ok(st), state_name(a.state)) && (if name == "list_issues"@ {
                r matches Ok(GitHubRequest::ListIssues { owner: o, repo: p, state: s }) && o@ == owner.unwrap() && p@ == repo.unwrap() && s == st
            } else {
                r matches Ok(GitHubRequest::ListPulls { owner: o, repo: p, state: s }) && o@ == owner.unwrap() && p@ == repo.unwrap() && s == st
            }))
            ||| (forall|st: IssueState| !state_parse(Ok(st), state_name(a.state))) && (r matches Err(e) && is_invalid_request(e, invalid_state_message(state_name(a.state))))
        } else if name == "create_issue"@ {
            needs(r, a.title, "Missing 'title'"@,
                r matches Ok(GitHubRequest::CreateIssue { owner: o, repo: p, title: t, body: b, labels: l })
                    && o@ == owner.unwrap() && p@ == repo.unwrap() && t@ == opt_str(a.title).unwrap()
                    && opt_str(b) == opt_str(a.body) && opt_strs(l) == opt_strs(a.labels))
        } else if name == "create_pr"@ {
            needs(r, a.title, "Missing 'title'"@,
            needs(r, a.head, "Missing 'head'"@,
            needs(r, a.base, "Missing 'base'"@,
                r matches Ok(GitHubRequest::CreatePull { owner: o, repo: p, title: t, head: h, base: b, body: y })
                    && o@ == owner.unwrap() && p@ == repo.unwrap() && t@ == opt_str(a.title).unwrap()
                    && h@ == opt_str(a.head).unwrap() && b@ == opt_str(a.base).unwrap()
                    && opt_str(y) == opt_str(a.body))))
        } else {
            needs(r, a.path, "Missing 'path'"@,
                r matches Ok(GitHubRequest::GetFile { owner: o, repo: p, path: f, branch: b })
                    && o@ == owner.unwrap() && p@ == repo.unwrap() && f@ == opt_str(a.path).unwrap()
                    && opt_str(b) == opt_str(a.branch))
        })
    }
}

fn copy_strings(v: &Vec<String>) -> (r: Vec<String>)
    ensures
        strs(r@) == strs(v@),
{
    let mut out: Vec<String> = Vec::new();
    let mut i: usize = 0;
    while i < v.len()
        invariant
            i <= v@.len(),
            out@.len() == i,
            forall|k: int| 0 <= k < i ==> #[trigger] out@[k]@ == v@[k]@,
        decreases v@.len() - i,
    {
        out.push(v[i].clone());
        i = i + 1;
    }
    assert(strs(out@) =~= strs(v@));
    out
}

fn copy_opt_strings(o: &Option<Vec<String>>) -> (r: Option<Vec<String>>)
    ensures
        opt_strs(r) == opt_strs(*o),
{
    match o {
        Some(v) => Some(copy_strings(v)),
        None => None,
    }
}

fn missing(message: &str) -> (r: Result<GitHubRequest, McpError>)
    ensures
        r matches Err(e) && is_invalid_request(e, message@),
{
    Err(McpError::InvalidRequest(message.to_owned()))
}

/// Decides what a GitHub tool call asks of the API, or refuses it: an
/// unknown tool, no owner and no default owner, a missing argument, or an
/// unknown state.
pub fn plan_github_tool(name: &str, args: &GitHubToolArgs, cfg: &GitHubConfig) -> (r: Result<GitHubRequest, McpError>)
    ensures
        github_plan(r, name@, *args, cfg.default_owner),
{
    if str_eq(name, "search_code") {
        return match &args.query {
            None => missing("Missing 'query'"),
            Some(q) => {
                let query = match &args.language {
                    Some(l) => q.clone().concat(" language:").concat(l.as_str()),
                    None => q.clone(),
                };
                Ok(GitHubRequest::SearchCode { query })
            },
        };
    }
    let known = str_eq(name, "list_repos") || str_eq(name, "get_repo") || str_eq(name, "list_issues")
        || str_eq(name, "create_issue") || str_eq(name, "list_prs") || str_eq(name, "create_pr")
        || str_eq(name, "get_file");
    if !known {
        return Err(McpError::ToolNotFound(name.to_owned()));
    }
    let owner = match cfg.resolve_owner(&args.owner) {
        Ok(o) => o,
        Err(e) => {
            return Err(e);
        },
    };
    if str_eq(name, "list_repos") {
        return Ok(GitHubRequest::ListRepos { owner });
    }
    let repo = match &args.repo {
        None => {
            return missing("Missing 'repo'");
        },
        Some(p) => p.clone(),
    };
    if str_eq(name, "get_repo") {
        Ok(GitHubRequest::GetRepo { owner, repo })
    } else if str_eq(name, "list_issues") || str_eq(name, "list_prs") {
        let state_str: &str = match &args.state {
            Some(s) => s.as_str(),
            None => "open",
        };
        match parse_state(state_str) {
            Ok(state) => {
                assert(state_str@ == state_name(args.state));
                assert(state_parse(Ok(state), state_name(args.state)));
                if str_eq(name, "list_issues") {
                    Ok(GitHubRequest::ListIssues { owner, repo, state })
                } else {
                    Ok(GitHubRequest::ListPulls { owner, repo, state })
                }
            },
            Err(e) => {
                assert forall|st: IssueState| !state_parse(Ok(st), state_name(args.state)) by {}
                Err(e)
            },
        }
    } else if str_eq(name, "create_issue") {
        match &args.title {
            None => missing("Missing 'title'"),
            Some(t) => Ok(
                GitHubRequest::CreateIssue {
                    owner,
                    repo,
                    title: t.clone(),
                    body: copy_opt(&args.body),
                    labels: copy_opt_strings(&args.labels),
                },
            ),
        }
    } else if str_eq(name, "create_pr") {
        let title = match &args.title {
            None => {
                return missing("Missing 'title'");
            },
            Some(t) => t.clone(),
        };
        let head = match &args.head {
            None => {
                return missing("Missing 'head'");
            },
            Some(h) => h.clone(),
        };
        let base = match &args.base {
            None => {
                return missing("Missing 'base'");
            },
            Some(b) => b.clone(),
        };
        Ok(GitHubRequest::CreatePull { owner, repo, title, head, base, body: copy_opt(&args.body) })
    } else {
        match &args.path {
            None => missing("Missing 'path'"),
            Some(p) => Ok(
                GitHubRequest::GetFile { owner, repo, path: p.clone(), branch: copy_opt(&args.branch) },
            ),
        }
    }
}

} // verus!
