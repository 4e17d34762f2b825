//! The requests for a repository's tree and for one of its files, and how GitHub's answers are
//! passed on.
use crate::encode::{encode_path_for_url, encoded};
use crate::params::{param_or, Params};
use crate::state::{AppState, AppStateView};
use crate::status::{reply, HttpStatus, Reply, ReplyView};
use crate::text::join2;
use crate::validate::{
    chosen_token, no_token, path_refusal, resolve_token, segment_refusal, validate_path,
    validate_segment,
};
#[allow(unused_imports)]
use vstd::string::StringExecFns;
use vstd::prelude::*;

verus! {

/// The method of a request.
#[derive(Clone, Copy, PartialEq, Eq, Structural, Debug)]
pub enum Method {
    Get,
    Post,
}

/// A request to send: by which method, where to, and with which headers.
#[derive(Debug)]
pub struct HttpRequest {
    pub method: Method,
    pub url: String,
    pub headers: Vec<(String, String)>,
}

/// The method, the address and the headers of a request.
#[verifier::ext_equal]
pub struct RequestView {
    pub method: Method,
    pub url: Seq<char>,
    pub headers: Seq<(Seq<char>, Seq<char>)>,
}

/// The names and values of headers.
pub open spec fn header_views(headers: Seq<(String, String)>) -> Seq<(Seq<char>, Seq<char>)> {
    headers.map_values(|header: (String, String)| (header.0@, header.1@))
}

impl View for HttpRequest {
    type V = RequestView;

    open spec fn view(&self) -> RequestView {
        RequestView {
            method: self.method,
            url: self.url@,
            headers: header_views(self.headers@),
        }
    }
}

impl HttpRequest {
    /// A request without headers.
    pub fn to(method: Method, url: String) -> (request: HttpRequest)
        ensures
            request@ == (RequestView { method, url: url@, headers: seq![] }),
    {
        HttpRequest { method, url, headers: Vec::new() }
    }

    /// Adds a header.
    pub fn add_header(&mut self, name: &str, value: String)
        ensures
            final(self)@ == (RequestView {
                method: old(self)@.method,
                url: old(self)@.url,
                headers: old(self)@.headers.push((name@, value@)),
            }),
    {
        self.headers.push((name.to_owned(), value));
    }
}

/// The parameter of this name in a query; empty if it is missing.
pub open spec fn text_param(params: Map<Seq<char>, Seq<char>>, name: Seq<char>) -> Seq<char> {
    param_or(params, name, ""@)
}

/// The branch that a query asks for.
pub open spec fn branch_param(params: Map<Seq<char>, Seq<char>>) -> Seq<char> {
    param_or(params, "branch"@, "main"@)
}

/// What is answered where the repository in a query is not well-formed.
pub open spec fn repository_refusal(params: Map<Seq<char>, Seq<char>>) -> Option<ReplyView> {
    if segment_refusal(text_param(params, "owner"@), "owner"@) is Some {
        segment_refusal(text_param(params, "owner"@), "owner"@)
    } else if segment_refusal(text_param(params, "repo"@), "repo"@) is Some {
        segment_refusal(text_param(params, "repo"@), "repo"@)
    } else {
        segment_refusal(branch_param(params), "branch"@)
    }
}

/// Checks the repository in a query.
pub fn validate_repository(params: &Params) -> (verdict: Result<(), Reply>)
    ensures
        match verdict {
            Ok(_) => repository_refusal(params@) is None,
            Err(refusal) => repository_refusal(params@) == Some(refusal@),
        },
{
    validate_segment(params.get_or("owner", ""), "owner")?;
    validate_segment(params.get_or("repo", ""), "repo")?;
    validate_segment(params.get_or("branch", "main"), "branch")?;
    Ok(())
}

/// What is answered to a request for a tree that cannot be made.
pub open spec fn tree_refusal(
    state: AppStateView,
    params: Map<Seq<char>, Seq<char>>,
) -> Option<ReplyView> {
    if chosen_token(state.default_token, params) is None {
        Some(no_token())
    } else {
        repository_refusal(params)
    }
}

/// Where the tree of a branch is found.
pub open spec fn tree_url(owner: Seq<char>, repo: Seq<char>, branch: Seq<char>) -> Seq<char> {
    "https://api.github.com/repos/"@ + owner + "/"@ + repo + "/git/trees/"@ + branch
        + "?recursive=1"@
}

/// The request for the tree of a branch.
pub open spec fn tree_request(
    token: Seq<char>,
    owner: Seq<char>,
    repo: Seq<char>,
    branch: Seq<char>,
) -> RequestView {
    RequestView {
        method: Method::Get,
        url: tree_url(owner, repo, branch),
        headers: seq![
            ("Authorization"@, "Bearer "@ + token),
            ("Accept"@, "application/vnd.github+json"@),
            ("X-GitHub-Api-Version"@, "2022-11-28"@),
        ],
    }
}

/// Decides what to ask GitHub for the file tree of a repository.
pub fn handle_tree(state: &AppState, params: &Params) -> (request: Result<HttpRequest, Reply>)
    ensures
        match request {
            Ok(r) => tree_refusal(state@, params@) is None && r@ == tree_request(
                chosen_token(state@.default_token, params@)->0,
                text_param(params@, "owner"@),
                text_param(params@, "repo"@),
                branch_param(params@),
            ),
            Err(refusal) => tree_refusal(state@, params@) == Some(refusal@),
        },
{
    let token: String = resolve_token(state, params)?;
    validate_repository(params)?;
    let mut url: String = "https://api.github.com/repos/".to_owned();
    url.append(params.get_or("owner", ""));
    url.append("/");
    url.append(params.get_or("repo", ""));
    url.append("/git/trees/");
    url.append(params.get_or("branch", "main"));
    url.append("?recursive=1");
    let mut request: HttpRequest = HttpRequest::to(Method::Get, url);
    request.add_header("Authorization", join2("Bearer ", token.as_str()));
    request.add_header("Accept", "application/vnd.github+json".to_owned());
    request.add_header("X-GitHub-Api-Version", "2022-11-28".to_owned());
    Ok(request)
}

/// What is answered to a request for a file that cannot be made.
pub open spec fn raw_refusal(
    state: AppStateView,
    params: Map<Seq<char>, Seq<char>>,
) -> Option<ReplyView> {
    if tree_refusal(state, params) is Some {
        tree_refusal(state, params)
    } else {
        path_refusal(text_param(params, "path"@))
    }
}

/// Where the contents of a file are found.
pub open spec fn raw_url(
    owner: Seq<char>,
    repo: Seq<char>,
    branch: Seq<char>,
    path: Seq<char>,
) -> Seq<char> {
    "https://raw.githubusercontent.com/"@ + owner + "/"@ + repo + "/"@ + branch + "/"@ + encoded(
        path,
    )
}

/// The request for the contents of a file.
pub open spec fn raw_request(
    token: Seq<char>,
    owner: Seq<char>,
    repo: Seq<char>,
    branch: Seq<char>,
    path: Seq<char>,
) -> RequestView {
    RequestView {
        method: Method::Get,
        url: raw_url(owner, repo, branch, path),
        headers: seq![("Authorization"@, "token "@ + token)],
    }
}

/// Builds the request for the contents of a file.
pub fn request_file(token: &str, owner: &str, repo: &str, branch: &str, path: &str) -> (request:
    HttpRequest)
    ensures
        request@ == raw_request(token@, owner@, repo@, branch@, path@),
{
    let mut url: String = "https://raw.githubusercontent.com/".to_owned();
    url.append(owner);
    url.append("/");
    url.append(repo);
    url.append("/");
    url.append(branch);
    url.append("/");
    url.append(encode_path_for_url(path).as_str());
    let mut request: HttpRequest = HttpRequest::to(Method::Get, url);
    request.add_header("Authorization", join2("token ", token));
    request
}

/// Decides what to ask GitHub for the contents of a file.
pub fn handle_raw(state: &AppState, params: &Params) -> (request: Result<HttpRequest, Reply>)
    ensures
        match request {
            Ok(r) => raw_refusal(state@, params@) is None && r@ == raw_request(
                chosen_token(state@.default_token, params@)->0,
                text_param(params@, "owner"@),
                text_param(params@, "repo"@),
                branch_param(params@),
                text_param(params@, "path"@),
            ),
            Err(refusal) => raw_refusal(state@, params@) == Some(refusal@),
        },
{
    let token: String = resolve_token(state, params)?;
    validate_repository(params)?;
    let path: &str = params.get_or("path", "");
    validate_path(path)?;
    Ok(
        request_file(
            token.as_str(),
            params.get_or("owner", ""),
            params.get_or("repo", ""),
            params.get_or("branch", "main"),
            path,
        ),
    )
}

/// What GitHub answered: a status code, and the body if it could be read as text.
#[derive(Debug)]
pub struct Upstream {
    pub code: u16,
    pub body: Option<String>,
}

/// The text of an answer; empty if it could not be read.
pub open spec fn body_text(body: Option<String>) -> Seq<char> {
    match body {
        Some(text) => text@,
        None => seq![],
    }
}

/// The text of an answer; empty if it could not be read.
pub fn body_or_empty(body: Option<String>) -> (text: String)
    ensures
        text@ == body_text(body),
{
    match body {
        Some(text) => text,
        None => String::new(),
    }
}

/// What is answered to a request for a tree or a file once GitHub has been asked: GitHub's own
/// answer, or the error where it could not be reached.
pub open spec fn relayed(outcome: Result<Upstream, String>) -> ReplyView {
    match outcome {
        Ok(upstream) => reply(
            if 100 <= upstream.code <= 999 {
                upstream.code
            } else {
                502
            },
            body_text(upstream.body),
        ),
        Err(error) => reply(502, "Proxy error: "@ + error@),
    }
}

/// Passes on what GitHub answered.
pub fn relay(outcome: Result<Upstream, String>) -> (r: Reply)
    ensures
        r@ == relayed(outcome),
{
    match outcome {
        Ok(upstream) => {
            let status: HttpStatus = match HttpStatus::from_u16(upstream.code) {
                Some(status) => status,
                None => HttpStatus::bad_gateway(),
            };
            Reply::new(status, body_or_empty(upstream.body))
        },
        Err(error) => Reply::labelled(HttpStatus::bad_gateway(), "Proxy error: ", error.as_str()),
    }
}

/// What is said of a request is said of the method, the whole address and all headers that are
/// sent, in order.
pub proof fn law_requests_are_seen_whole(request: HttpRequest, i: int)
    ensures
        request@.method == request.method,
        request@.url == request.url@,
        request@.headers.len() == request.headers@.len(),
        0 <= i < request.headers@.len() ==> request@.headers[i] == (
            request.headers@[i].0@,
            request.headers@[i].1@,
        ),
{
}

/// A parameter of the query is used as it was given; where it is missing it is empty, and the branch
/// is `main`.
pub proof fn law_query_parameters_are_used_as_given(
    params: Map<Seq<char>, Seq<char>>,
    name: Seq<char>,
    value: Seq<char>,
)
    ensures
        text_param(params.insert(name, value), name) == value,
        text_param(params.remove(name), name) == ""@,
        branch_param(params.insert("branch"@, value)) == value,
        branch_param(params.remove("branch"@)) == "main"@,
        name != "branch"@ ==> branch_param(params.insert(name, value)) == branch_param(params),
{
}

/// A query passes exactly if owner, repository and branch each do, and otherwise the first of them
/// that does not is answered.
pub proof fn law_the_first_bad_parameter_is_answered(params: Map<Seq<char>, Seq<char>>)
    ensures
        ({
            let owner = segment_refusal(text_param(params, "owner"@), "owner"@);
            let repo = segment_refusal(text_param(params, "repo"@), "repo"@);
            let branch = segment_refusal(branch_param(params), "branch"@);
            &&& repository_refusal(params) is None <==> owner is None && repo is None && branch is None
            &&& owner is Some ==> repository_refusal(params) == owner
            &&& owner is None && repo is Some ==> repository_refusal(params) == repo
            &&& owner is None && repo is None ==> repository_refusal(params) == branch
        }),
{
}

/// A request is answered at once exactly if it has no token, or its repository does not pass, or,
/// for a file, its path does not; the first of these is what it is answered.
pub proof fn law_the_first_failed_check_is_answered(
    state: AppStateView,
    params: Map<Seq<char>, Seq<char>>,
)
    ensures
        ({
            let token = chosen_token(state.default_token, params);
            let repository = repository_refusal(params);
            let path = path_refusal(text_param(params, "path"@));
            &&& token is None ==> tree_refusal(state, params) == Some(no_token()) && raw_refusal(
                state,
                params,
            ) == Some(no_token()) && no_token().status == 400 && no_token().body
                == "No GitHub token. Set GITHUB_TOKEN env var or pass ?token= parameter."@
            &&& token is Some ==> tree_refusal(state, params) == repository
            &&& token is Some && repository is Some ==> raw_refusal(state, params) == repository
            &&& token is Some && repository is None ==> raw_refusal(state, params) == path
        }),
{
}

/// The request for a tree is a GET that carries the token, the media type and the API's version.
pub proof fn law_tree_requests_carry_the_token(
    token: Seq<char>,
    owner: Seq<char>,
    repo: Seq<char>,
    branch: Seq<char>,
)
    ensures
        ({
            let request = tree_request(token, owner, repo, branch);
            &&& request.method == Method::Get
            &&& request.url == "https://api.github.com/repos/"@ + owner + "/"@ + repo
                + "/git/trees/"@ + branch + "?recursive=1"@
            &&& request.headers.len() == 3
            &&& request.headers[0] == ("Authorization"@, "Bearer "@ + token)
            &&& request.headers[1] == ("Accept"@, "application/vnd.github+json"@)
            &&& request.headers[2] == ("X-GitHub-Api-Version"@, "2022-11-28"@)
        }),
{
}

/// The request for a file is a GET for the path, encoded, on the branch named, and carries the
/// token.
pub proof fn law_file_requests_carry_the_token(
    token: Seq<char>,
    owner: Seq<char>,
    repo: Seq<char>,
    branch: Seq<char>,
    path: Seq<char>,
)
    ensures
        ({
            let request = raw_request(token, owner, repo, branch, path);
            &&& request.method == Method::Get
            &&& request.url == "https://raw.githubusercontent.com/"@ + owner + "/"@ + repo + "/"@
                + branch + "/"@ + encoded(path)
            &&& request.headers.len() == 1
            &&& request.headers[0] == ("Authorization"@, "token "@ + token)
        }),
{
}

/// GitHub's answer is passed on as it is: the same code, and the whole body, whatever its length. A
/// body that cannot be read is passed on as an empty one, and a code that is none as 502.
pub proof fn law_answers_are_passed_on_whole(upstream: Upstream)
    ensures
        100 <= upstream.code <= 999 ==> relayed(Ok(upstream)).status == upstream.code,
        !(100 <= upstream.code <= 999) ==> relayed(Ok(upstream)).status == 502,
        upstream.body matches Some(text) ==> relayed(Ok(upstream)).body == text@,
        upstream.body is None ==> relayed(Ok(upstream)).body.len() == 0,
{
}

/// Where GitHub cannot be reached the answer is 502 and gives the whole error.
pub proof fn law_unreachable_is_told(error: String)
    ensures
        relayed(Err(error)).status == 502,
        relayed(Err(error)).body == "Proxy error: "@ + error@,
{
}

} // verus!
