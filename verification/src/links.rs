//! Where the proxy's requests can lead: the parameters of a request choose what stands in the
//! places kept for them in a URL, and nothing else.
use crate::batch::{batch_request, batch_url};
use crate::encode::{
    decoded, encoded, escape, law_encoding_keeps_segments, law_encoding_leaves_nothing_reserved,
    law_encoding_reads_back,
};
use crate::github::{
    branch_param, raw_refusal, raw_request, raw_url, repository_refusal, text_param, tree_refusal,
    tree_request, tree_url,
};
use crate::paths::lemma_segment_of;
use crate::state::AppStateView;
use crate::text::{dots_at, lemma_first_segment, lemma_only_segment, segments};
use crate::validate::{breaks_url, clean_segment, path_refusal};
use vstd::prelude::*;

verus! {

/// Whether the character would end the path of a URL, or be read as a slash in it.
pub open spec fn ends_path(c: char) -> bool {
    c == '?' || c == '#' || c == '\\'
}

/// Whether nothing in the text ends the path of a URL.
pub open spec fn all_path(s: Seq<char>) -> bool {
    forall|i: int| 0 <= i < s.len() ==> !ends_path(#[trigger] s[i])
}

/// Whether the URL leads to the host over HTTPS: it begins with the scheme and, between the second
/// and the third slash, names the host and nothing else.
pub open spec fn leads_to(url: Seq<char>, host: Seq<char>) -> bool {
    segments(url).len() > 3 && segments(url)[0] == "https:"@ && segments(url)[1] == ""@ && segments(
        url,
    )[2] == host
}

proof fn lemma_all_path_joins(a: Seq<char>, b: Seq<char>)
    requires
        all_path(a),
        all_path(b),
    ensures
        all_path(a + b),
{
}

proof fn lemma_clean(value: Seq<char>)
    requires
        clean_segment(value),
    ensures
        !value.contains('/'),
        all_path(value),
{
    if value.contains('/') {
        let i = choose|i: int| 0 <= i < value.len() && value[i] == '/';
        assert(breaks_url(value[i]));
    }
    assert forall|i: int| 0 <= i < value.len() implies !ends_path(#[trigger] value[i]) by {
        assert(!breaks_url(value[i]));
    }
}

/// A request for a tree goes to `api.github.com`, and there to the tree of the branch, owner and
/// repository named, whatever their names: each of them fills one segment of the path, and the
/// query is the fixed one.
pub proof fn law_tree_url_keeps_its_shape(owner: Seq<char>, repo: Seq<char>, branch: Seq<char>)
    requires
        clean_segment(owner),
        clean_segment(repo),
        clean_segment(branch),
    ensures
        segments(tree_url(owner, repo, branch)) == seq![
            "https:"@,
            ""@,
            "api.github.com"@,
            "repos"@,
            owner,
            repo,
            "git"@,
            "trees"@,
            branch + "?recursive=1"@,
        ],
        all_path(tree_url(owner, repo, branch).take(
            tree_url(owner, repo, branch).len() - "?recursive=1"@.len(),
        )),
{
    reveal_strlit("https://api.github.com/repos/");
    reveal_strlit("https:");
    reveal_strlit("");
    reveal_strlit("api.github.com");
    reveal_strlit("repos");
    reveal_strlit("/");
    reveal_strlit("/git/trees/");
    reveal_strlit("git");
    reveal_strlit("trees");
    reveal_strlit("?recursive=1");
    lemma_clean(owner);
    lemma_clean(repo);
    lemma_clean(branch);
    let slash = seq!['/'];
    let last = branch + "?recursive=1"@;
    assert(!last.contains('/')) by {
        assert forall|i: int| 0 <= i < last.len() implies last[i] != '/' by {
            if i < branch.len() {
                assert(branch.contains(branch[i]));
            } else {
                assert(last[i] == "?recursive=1"@[i - branch.len()]);
            }
        }
    }
    let u7 = "trees"@ + slash + last;
    let u6 = "git"@ + slash + u7;
    let u5 = repo + slash + u6;
    let u4 = owner + slash + u5;
    let u3 = "repos"@ + slash + u4;
    let u2 = "api.github.com"@ + slash + u3;
    let u1 = ""@ + slash + u2;
    let u0 = "https:"@ + slash + u1;
    assert("https://api.github.com/repos/"@ =~= "https:"@ + slash + (""@ + slash + (
    "api.github.com"@ + slash + ("repos"@ + slash))));
    assert("/git/trees/"@ =~= slash + "git"@ + slash + "trees"@ + slash);
    assert("/"@ =~= slash);
    let url = tree_url(owner, repo, branch);
    assert(url =~= u0);
    lemma_only_segment(last);
    lemma_first_segment("trees"@, last);
    lemma_first_segment("git"@, u7);
    lemma_first_segment(repo, u6);
    lemma_first_segment(owner, u5);
    lemma_first_segment("repos"@, u4);
    lemma_first_segment("api.github.com"@, u3);
    lemma_first_segment(""@, u2);
    lemma_first_segment("https:"@, u1);
    assert(segments(url) =~= seq![
        "https:"@,
        ""@,
        "api.github.com"@,
        "repos"@,
        owner,
        repo,
        "git"@,
        "trees"@,
        last,
    ]);
    let a = "https://api.github.com/repos/"@ + owner;
    lemma_all_path_joins("https://api.github.com/repos/"@, owner);
    lemma_all_path_joins(a, "/"@);
    lemma_all_path_joins(a + "/"@, repo);
    lemma_all_path_joins(a + "/"@ + repo, "/git/trees/"@);
    lemma_all_path_joins(a + "/"@ + repo + "/git/trees/"@, branch);
    assert(url.take(url.len() - "?recursive=1"@.len()) =~= a + "/"@ + repo + "/git/trees/"@
        + branch);
}

/// A request for a file goes to `raw.githubusercontent.com`, and there to the file of the branch,
/// owner and repository named: owner, repository and branch fill one segment each, the segments
/// of the path follow, no segment is `..`, and there is no query and no fragment.
pub proof fn law_raw_url_keeps_its_shape(
    owner: Seq<char>,
    repo: Seq<char>,
    branch: Seq<char>,
    path: Seq<char>,
)
    requires
        clean_segment(owner),
        clean_segment(repo),
        clean_segment(branch),
        path_refusal(path) is None,
    ensures
        segments(raw_url(owner, repo, branch, path)) == seq![
            "https:"@,
            ""@,
            "raw.githubusercontent.com"@,
            owner,
            repo,
            branch,
        ] + segments(path).map_values(|segment: Seq<char>| encoded(segment)),
        all_path(raw_url(owner, repo, branch, path)),
        forall|i: int|
            0 <= i < segments(raw_url(owner, repo, branch, path)).len() ==> #[trigger] segments(
                raw_url(owner, repo, branch, path),
            )[i] != seq!['.', '.'],
{
    reveal_strlit("https://raw.githubusercontent.com/");
    reveal_strlit("https:");
    reveal_strlit("");
    reveal_strlit("raw.githubusercontent.com");
    reveal_strlit("/");
    lemma_clean(owner);
    lemma_clean(repo);
    lemma_clean(branch);
    let slash = seq!['/'];
    let last = encoded(path);
    let u5 = branch + slash + last;
    let u4 = repo + slash + u5;
    let u3 = owner + slash + u4;
    let u2 = "raw.githubusercontent.com"@ + slash + u3;
    let u1 = ""@ + slash + u2;
    let u0 = "https:"@ + slash + u1;
    assert("https://raw.githubusercontent.com/"@ =~= "https:"@ + slash + (""@ + slash + (
    "raw.githubusercontent.com"@ + slash)));
    assert("/"@ =~= slash);
    let url = raw_url(owner, repo, branch, path);
    assert(url =~= u0);
    lemma_first_segment(branch, last);
    lemma_first_segment(repo, u5);
    lemma_first_segment(owner, u4);
    lemma_first_segment("raw.githubusercontent.com"@, u3);
    lemma_first_segment(""@, u2);
    lemma_first_segment("https:"@, u1);
    law_encoding_keeps_segments(path);
    let front = seq!["https:"@, ""@, "raw.githubusercontent.com"@, owner, repo, branch];
    assert(segments(url) =~= front + segments(last));
    assert(all_path(last)) by {
        assert forall|i: int| 0 <= i < last.len() implies !ends_path(#[trigger] last[i]) by {
            law_encoding_leaves_nothing_reserved(path, i);
            lemma_encoding_adds_no_backslash(path, i);
        }
    }
    let a = "https://raw.githubusercontent.com/"@ + owner;
    lemma_all_path_joins("https://raw.githubusercontent.com/"@, owner);
    lemma_all_path_joins(a, "/"@);
    lemma_all_path_joins(a + "/"@, repo);
    lemma_all_path_joins(a + "/"@ + repo, "/"@);
    lemma_all_path_joins(a + "/"@ + repo + "/"@, branch);
    lemma_all_path_joins(a + "/"@ + repo + "/"@ + branch, "/"@);
    lemma_all_path_joins(a + "/"@ + repo + "/"@ + branch + "/"@, last);
    let dots = seq!['.', '.'];
    assert forall|i: int| 0 <= i < segments(url).len() implies #[trigger] segments(url)[i]
        != dots by {
        assert(dots_at(dots, 0));
        if i >= 6 {
            let segment = segments(path)[i - 6];
            lemma_segment_of(path, i - 6, ' ');
            law_encoding_reads_back(segment);
            if encoded(segment) == dots {
                assert(dots.skip(1) =~= seq!['.']);
                assert(seq!['.'].skip(1) =~= Seq::<char>::empty());
                assert(decoded(seq!['.']) =~= seq!['.'] + decoded(seq!['.'].skip(1)));
                assert(decoded(dots) =~= dots);
            }
        } else if i == 0 {
            assert("https:"@.len() != dots.len());
        } else if i == 1 {
            assert(""@.len() != dots.len());
        } else if i == 2 {
            assert("raw.githubusercontent.com"@.len() != dots.len());
        }
    }
}

/// A call of the Batch API goes to `github.com`, and there to the API of the repository named.
pub proof fn law_batch_url_keeps_its_shape(owner: Seq<char>, repo: Seq<char>)
    requires
        clean_segment(owner),
        clean_segment(repo),
    ensures
        segments(batch_url(owner, repo)) == seq![
            "https:"@,
            ""@,
            "github.com"@,
            owner,
            repo + ".git"@,
            "info"@,
            "lfs"@,
            "objects"@,
            "batch"@,
        ],
        all_path(batch_url(owner, repo)),
{
    reveal_strlit("https://github.com/");
    reveal_strlit("https:");
    reveal_strlit("");
    reveal_strlit("github.com");
    reveal_strlit("/");
    reveal_strlit(".git/info/lfs/objects/batch");
    reveal_strlit(".git");
    reveal_strlit("info");
    reveal_strlit("lfs");
    reveal_strlit("objects");
    reveal_strlit("batch");
    lemma_clean(owner);
    lemma_clean(repo);
    let slash = seq!['/'];
    let store = repo + ".git"@;
    assert(!store.contains('/')) by {
        assert forall|i: int| 0 <= i < store.len() implies store[i] != '/' by {
            if i < repo.len() {
                assert(repo.contains(repo[i]));
            } else {
                assert(store[i] == ".git"@[i - repo.len()]);
            }
        }
    }
    let u7 = "objects"@ + slash + "batch"@;
    let u6 = "lfs"@ + slash + u7;
    let u5 = "info"@ + slash + u6;
    let u4 = store + slash + u5;
    let u3 = owner + slash + u4;
    let u2 = "github.com"@ + slash + u3;
    let u1 = ""@ + slash + u2;
    let u0 = "https:"@ + slash + u1;
    assert("https://github.com/"@ =~= "https:"@ + slash + (""@ + slash + ("github.com"@ + slash)));
    assert(".git/info/lfs/objects/batch"@ =~= ".git"@ + slash + "info"@ + slash + "lfs"@ + slash
        + "objects"@ + slash + "batch"@);
    assert("/"@ =~= slash);
    let url = batch_url(owner, repo);
    assert(url =~= u0);
    lemma_only_segment("batch"@);
    lemma_first_segment("objects"@, "batch"@);
    lemma_first_segment("lfs"@, u7);
    lemma_first_segment("info"@, u6);
    lemma_first_segment(store, u5);
    lemma_first_segment(owner, u4);
    lemma_first_segment("github.com"@, u3);
    lemma_first_segment(""@, u2);
    lemma_first_segment("https:"@, u1);
    assert(segments(url) =~= seq![
        "https:"@,
        ""@,
        "github.com"@,
        owner,
        store,
        "info"@,
        "lfs"@,
        "objects"@,
        "batch"@,
    ]);
    let a = "https://github.com/"@ + owner;
    lemma_all_path_joins("https://github.com/"@, owner);
    lemma_all_path_joins(a, "/"@);
    lemma_all_path_joins(a + "/"@, repo);
    lemma_all_path_joins(a + "/"@ + repo, ".git/info/lfs/objects/batch"@);
}

/// Whatever a request asks for, once it has passed the checks the proxy turns to GitHub for it, over
/// HTTPS: to `api.github.com` for a tree, to `raw.githubusercontent.com` for a file, and to
/// `github.com` for what the Batch API knows of one.
pub proof fn law_checked_requests_go_to_github(
    state: AppStateView,
    params: Map<Seq<char>, Seq<char>>,
)
    requires
        tree_refusal(state, params) is None,
    ensures
        ({
            let owner = text_param(params, "owner"@);
            let repo = text_param(params, "repo"@);
            let branch = branch_param(params);
            let path = text_param(params, "path"@);
            &&& leads_to(tree_url(owner, repo, branch), "api.github.com"@)
            &&& leads_to(batch_url(owner, repo), "github.com"@)
            &&& raw_refusal(state, params) is None ==> leads_to(
                raw_url(owner, repo, branch, path),
                "raw.githubusercontent.com"@,
            )
        }),
{
    let owner = text_param(params, "owner"@);
    let repo = text_param(params, "repo"@);
    let branch = branch_param(params);
    let path = text_param(params, "path"@);
    assert(repository_refusal(params) is None);
    law_tree_url_keeps_its_shape(owner, repo, branch);
    law_batch_url_keeps_its_shape(owner, repo);
    if raw_refusal(state, params) is None {
        law_raw_url_keeps_its_shape(owner, repo, branch, path);
    }
}

proof fn lemma_encoding_adds_no_backslash(path: Seq<char>, i: int)
    requires
        !path.contains('\\'),
        0 <= i < encoded(path).len(),
    ensures
        encoded(path)[i] != '\\',
    decreases path.len(),
{
    if path.len() > 0 {
        let rest = path.skip(1);
        assert(path.contains(path[0]));
        assert(!rest.contains('\\')) by {
            assert forall|j: int| 0 <= j < rest.len() implies rest[j] != '\\' by {
                assert(path.contains(path[j + 1]));
            }
        }
        let head = escape(path[0]);
        if i < head.len() {
            assert(encoded(path)[i] == head[i]);
        } else {
            lemma_encoding_adds_no_backslash(rest, i - head.len());
        }
    }
}

/// The requests that are sent go to the owner, the repository, the branch and the path that were
/// asked for: each fills its own segments of the address.
pub proof fn law_sent_requests_name_what_was_asked_for(
    token: Seq<char>,
    owner: Seq<char>,
    repo: Seq<char>,
    branch: Seq<char>,
    path: Seq<char>,
)
    requires
        clean_segment(owner),
        clean_segment(repo),
        clean_segment(branch),
        path_refusal(path) is None,
    ensures
        segments(tree_request(token, owner, repo, branch).url) == seq![
            "https:"@,
            ""@,
            "api.github.com"@,
            "repos"@,
            owner,
            repo,
            "git"@,
            "trees"@,
            branch + "?recursive=1"@,
        ],
        segments(raw_request(token, owner, repo, branch, path).url) == seq![
            "https:"@,
            ""@,
            "raw.githubusercontent.com"@,
            owner,
            repo,
            branch,
        ] + segments(path).map_values(|segment: Seq<char>| encoded(segment)),
        segments(batch_request(token, owner, repo).url) == seq![
            "https:"@,
            ""@,
            "github.com"@,
            owner,
            repo + ".git"@,
            "info"@,
            "lfs"@,
            "objects"@,
            "batch"@,
        ],
{
    law_tree_url_keeps_its_shape(owner, repo, branch);
    law_raw_url_keeps_its_shape(owner, repo, branch, path);
    law_batch_url_keeps_its_shape(owner, repo);
}

} // verus!
