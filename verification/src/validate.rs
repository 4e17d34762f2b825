//! The checks that a request's parameters must pass before anything is done for it.
use crate::params::Params;
use crate::state::AppState;
use crate::status::{reply, HttpStatus, Reply, ReplyView};
use crate::text::{chars_of, has_char, has_dots, has_two_dots};
use vstd::prelude::*;

verus! {

/// The token that a request uses: the proxy's own, if it has one that is not empty, and otherwise
/// the one in the query, if there is one that is not empty.
pub open spec fn chosen_token(
    default_token: Option<Seq<char>>,
    params: Map<Seq<char>, Seq<char>>,
) -> Option<Seq<char>> {
    if default_token is Some && default_token->0.len() > 0 {
        default_token
    } else if params.contains_key("token"@) && params["token"@].len() > 0 {
        Some(params["token"@])
    } else {
        None
    }
}

/// What is answered where there is no token.
pub open spec fn no_token() -> ReplyView {
    reply(400, "No GitHub token. Set GITHUB_TOKEN env var or pass ?token= parameter."@)
}

/// Finds the token for a request.
pub fn resolve_token(state: &AppState, params: &Params) -> (token: Result<String, Reply>)
    ensures
        match token {
            Ok(t) => chosen_token(state@.default_token, params@) == Some(t@),
            Err(refusal) => chosen_token(state@.default_token, params@) is None && refusal@
                == no_token(),
        },
{
    if let Some(t) = &state.default_token {
        if !t.as_str().is_empty() {
            return Ok(t.clone());
        }
    }
    if let Some(t) = params.get("token") {
        if !t.is_empty() {
            return Ok(t.to_owned());
        }
    }
    Err(
        Reply::fixed(
            HttpStatus::bad_request(),
            "No GitHub token. Set GITHUB_TOKEN env var or pass ?token= parameter.",
        ),
    )
}

/// The characters that could change the meaning of a URL around a parameter.
pub open spec fn breaks_url(c: char) -> bool {
    c == '/' || c == '\\' || c == '?' || c == '&' || c == '#' || c == ' ' || c == '@' || c == ':'
}

/// Whether the text may stand as one segment of a URL.
pub open spec fn clean_segment(value: Seq<char>) -> bool {
    !has_dots(value) && forall|i: int| 0 <= i < value.len() ==> !breaks_url(#[trigger] value[i])
}

/// What is answered to a parameter that must be one URL segment, if it is not.
pub open spec fn segment_refusal(value: Seq<char>, name: Seq<char>) -> Option<ReplyView> {
    if value.len() == 0 {
        Some(reply(400, "Missing required parameter: "@ + name))
    } else if !clean_segment(value) {
        Some(reply(400, "Invalid characters in parameter: "@ + name))
    } else {
        None
    }
}

fn has_url_breaker(chars: &Vec<char>) -> (found: bool)
    ensures
        found == exists|i: int| 0 <= i < chars@.len() && breaks_url(#[trigger] chars@[i]),
{
    let mut i: usize = 0;
    while i < chars.len()
        invariant
            i <= chars.len(),
            forall|j: int| 0 <= j < i ==> !breaks_url(#[trigger] chars@[j]),
        decreases chars.len() - i,
    {
        let c: char = chars[i];
        if c == '/' || c == '\\' || c == '?' || c == '&' || c == '#' || c == ' ' || c == '@' || c
            == ':' {
            assert(breaks_url(chars@[i as int]));
            return true;
        }
        i += 1;
    }
    false
}

/// Checks a parameter that becomes one segment of a URL.
pub fn validate_segment(value: &str, name: &str) -> (verdict: Result<(), Reply>)
    ensures
        match verdict {
            Ok(_) => segment_refusal(value@, name@) is None,
            Err(refusal) => segment_refusal(value@, name@) == Some(refusal@),
        },
{
    if value.is_empty() {
        return Err(
            Reply::labelled(HttpStatus::bad_request(), "Missing required parameter: ", name),
        );
    }
    let chars: Vec<char> = chars_of(value);
    if has_two_dots(&chars) || has_url_breaker(&chars) {
        return Err(
            Reply::labelled(HttpStatus::bad_request(), "Invalid characters in parameter: ", name),
        );
    }
    Ok(())
}

/// What is answered to a path that is not a plain relative one.
pub open spec fn path_refusal(path: Seq<char>) -> Option<ReplyView> {
    if path.len() == 0 {
        Some(reply(400, "Missing required parameter: path"@))
    } else if has_dots(path) {
        Some(reply(400, "Path traversal not allowed"@))
    } else if path.contains('\\') || path[0] == '/' || path.contains(':') {
        Some(reply(400, "Invalid path format"@))
    } else {
        None
    }
}

/// Checks a path: in the repository, or below a directory on disk. A colon is refused because
/// behind a drive letter it would make the path absolute on Windows.
pub fn validate_path(path: &str) -> (verdict: Result<(), Reply>)
    ensures
        match verdict {
            Ok(_) => path_refusal(path@) is None,
            Err(refusal) => path_refusal(path@) == Some(refusal@),
        },
{
    if path.is_empty() {
        return Err(Reply::fixed(HttpStatus::bad_request(), "Missing required parameter: path"));
    }
    let chars: Vec<char> = chars_of(path);
    if has_two_dots(&chars) {
        return Err(Reply::fixed(HttpStatus::bad_request(), "Path traversal not allowed"));
    }
    if has_char(&chars, '\\') || chars[0] == '/' {
        return Err(Reply::fixed(HttpStatus::bad_request(), "Invalid path format"));
    }
    if has_char(&chars, ':') {
        return Err(Reply::fixed(HttpStatus::bad_request(), "Invalid path format"));
    }
    Ok(())
}

/// A refusal of a parameter tells its name and not its value: two values that are both missing, or
/// both there, are refused in the same words.
pub proof fn law_refusals_tell_names_only(value: Seq<char>, other: Seq<char>, name: Seq<char>)
    requires
        segment_refusal(value, name) is Some,
        segment_refusal(other, name) is Some,
        value.len() == 0 <==> other.len() == 0,
    ensures
        segment_refusal(value, name) == segment_refusal(other, name),
{
}

/// The proxy's own token, unless it is empty, is used whatever the query says.
pub proof fn law_own_token_goes_first(own: Seq<char>, params: Map<Seq<char>, Seq<char>>)
    ensures
        own.len() > 0 ==> chosen_token(Some(own), params) == Some(own),
        chosen_token(Some(Seq::empty()), params) == chosen_token(None, params),
{
}

/// Without a token of its own the proxy uses the one in the query, unless it is empty, and no other
/// parameter plays a part.
pub proof fn law_query_token_comes_second(
    params: Map<Seq<char>, Seq<char>>,
    token: Seq<char>,
    name: Seq<char>,
    value: Seq<char>,
)
    ensures
        token.len() > 0 ==> chosen_token(None, params.insert("token"@, token)) == Some(token),
        chosen_token(None, params.insert("token"@, Seq::empty())) is None,
        chosen_token(None, params.remove("token"@)) is None,
        name != "token"@ ==> chosen_token(None, params.insert(name, value)) == chosen_token(
            None,
            params,
        ),
{
}

/// A value passes as a URL segment exactly if it is there, holds no two dots in a row, and holds
/// none of the eight characters that could change the URL around it. Otherwise the answer is 400
/// and names the parameter.
pub proof fn law_segments_pass_exactly_if_clean(value: Seq<char>, name: Seq<char>)
    ensures
        segment_refusal(value, name) is None <==> value.len() > 0 && !has_dots(value)
            && !value.contains('/') && !value.contains('\\') && !value.contains('?')
            && !value.contains('&') && !value.contains('#') && !value.contains(' ')
            && !value.contains('@') && !value.contains(':'),
        segment_refusal(value, name) matches Some(r) ==> r.status == 400 && r.body == (
        if value.len() == 0 {
            "Missing required parameter: "@
        } else {
            "Invalid characters in parameter: "@
        }) + name,
{
    assert forall|i: int| 0 <= i < value.len() implies value.contains(#[trigger] value[i]) by {}
    lemma_breaker(value, '/');
    lemma_breaker(value, '\\');
    lemma_breaker(value, '?');
    lemma_breaker(value, '&');
    lemma_breaker(value, '#');
    lemma_breaker(value, ' ');
    lemma_breaker(value, '@');
    lemma_breaker(value, ':');
}

proof fn lemma_breaker(value: Seq<char>, c: char)
    requires
        breaks_url(c),
    ensures
        value.contains(c) ==> !clean_segment(value),
{
    if value.contains(c) {
        let i = choose|i: int| 0 <= i < value.len() && value[i] == c;
        assert(breaks_url(value[i]));
    }
}

/// A path passes exactly if it is there, holds no two dots in a row, no backslash and no colon, and
/// does not begin with a slash. Otherwise the answer is 400 and says which of these it is.
pub proof fn law_paths_pass_exactly_if_plain(path: Seq<char>)
    ensures
        path_refusal(path) is None <==> path.len() > 0 && !has_dots(path) && !path.contains('\\')
            && !path.contains(':') && path[0] != '/',
        path_refusal(path) matches Some(r) ==> r.status == 400 && r.body == (if path.len() == 0 {
            "Missing required parameter: path"@
        } else if has_dots(path) {
            "Path traversal not allowed"@
        } else {
            "Invalid path format"@
        }),
{
}

} // verus!
