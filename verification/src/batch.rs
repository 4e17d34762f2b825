//! Asking GitHub's LFS Batch API where the file behind a pointer can be downloaded.
use crate::github::{body_or_empty, body_text, HttpRequest, Method, RequestView};
use crate::pointer::{
    law_pointer_reads_back, law_pointer_text_has_three_lines, lfs_pointer, LfsPointer, LfsPointerView,
};
use crate::status::{reply, status_text, success_code, HttpStatus, Reply, ReplyView};
use crate::text::{
    clip, clipped, decimal, join2, law_clipping_drops_only_what_does_not_fit,
    law_clipping_keeps_the_beginning, push_decimal,
};
use std::collections::HashMap;
#[allow(unused_imports)]
use vstd::string::StringExecFns;
use vstd::prelude::*;
use vstd::utf8::encode_utf8;

verus! {

/// How many bytes of GitHub's own error text are passed on.
pub const ERROR_TEXT_BYTES: usize = 200;

/// A file that the Batch API is asked for.
#[derive(Debug)]
pub struct LfsBatchObject {
    pub oid: String,
    pub size: u64,
}

/// What the Batch API is asked.
#[derive(Debug)]
pub struct LfsBatchRequest {
    pub operation: String,
    pub transfers: Vec<String>,
    pub objects: Vec<LfsBatchObject>,
}

/// What a request to the Batch API says.
#[verifier::ext_equal]
pub struct BatchRequestView {
    pub operation: Seq<char>,
    pub transfers: Seq<Seq<char>>,
    pub objects: Seq<(Seq<char>, u64)>,
}

impl View for LfsBatchRequest {
    type V = BatchRequestView;

    open spec fn view(&self) -> BatchRequestView {
        BatchRequestView {
            operation: self.operation@,
            transfers: self.transfers@.map_values(|transfer: String| transfer@),
            objects: self.objects@.map_values(|object: LfsBatchObject| (object.oid@, object.size)),
        }
    }
}

/// What the Batch API answers.
#[derive(Debug)]
pub struct LfsBatchResponse {
    pub objects: Vec<LfsBatchResponseObject>,
}

/// What it answers for one file: what can be done, or what is wrong.
#[derive(Debug)]
pub struct LfsBatchResponseObject {
    pub oid: String,
    pub size: u64,
    pub actions: Option<LfsBatchActions>,
    pub error: Option<LfsBatchError>,
}

/// What can be done with a file.
#[derive(Debug)]
pub struct LfsBatchActions {
    pub download: LfsBatchAction,
}

/// Where something can be done, and the headers that the request for it needs.
#[derive(Debug)]
pub struct LfsBatchAction {
    pub href: String,
    pub header: Option<HashMap<String, String>>,
}

/// What is wrong with a file.
#[derive(Debug)]
pub struct LfsBatchError {
    pub code: u16,
    pub message: String,
}

/// How and where a file can be downloaded, and the headers that the request for it needs.
#[derive(Debug)]
pub struct LfsDownload {
    pub method: Method,
    pub href: String,
    pub headers: HashMap<String, String>,
}

/// The call of the Batch API: the request, and what its body asks.
#[derive(Debug)]
pub struct LfsBatchCall {
    pub request: HttpRequest,
    pub body: LfsBatchRequest,
}

/// Where the Batch API of a repository is found.
pub open spec fn batch_url(owner: Seq<char>, repo: Seq<char>) -> Seq<char> {
    "https://github.com/"@ + owner + "/"@ + repo + ".git/info/lfs/objects/batch"@
}

/// The request to the Batch API.
pub open spec fn batch_request(token: Seq<char>, owner: Seq<char>, repo: Seq<char>) -> RequestView {
    RequestView {
        method: Method::Post,
        url: batch_url(owner, repo),
        headers: seq![
            ("Accept"@, "application/vnd.git-lfs+json"@),
            ("Content-Type"@, "application/vnd.git-lfs+json"@),
            ("Authorization"@, "Bearer "@ + token),
        ],
    }
}

/// What the Batch API is asked about a pointer.
pub open spec fn batch_body(pointer: LfsPointerView) -> BatchRequestView {
    BatchRequestView {
        operation: "download"@,
        transfers: seq!["basic"@],
        objects: seq![(pointer.oid, pointer.size)],
    }
}

/// Decides what to ask the Batch API in order to resolve a pointer to a download URL.
pub fn resolve_lfs(token: &str, owner: &str, repo: &str, pointer: &LfsPointer) -> (call:
    LfsBatchCall)
    ensures
        call.request@ == batch_request(token@, owner@, repo@),
        call.body@ == batch_body(pointer@),
{
    let mut url: String = "https://github.com/".to_owned();
    url.append(owner);
    url.append("/");
    url.append(repo);
    url.append(".git/info/lfs/objects/batch");
    let mut request: HttpRequest = HttpRequest::to(Method::Post, url);
    request.add_header("Accept", "application/vnd.git-lfs+json".to_owned());
    request.add_header("Content-Type", "application/vnd.git-lfs+json".to_owned());
    request.add_header("Authorization", join2("Bearer ", token));
    let mut transfers: Vec<String> = Vec::new();
    transfers.push("basic".to_owned());
    let mut objects: Vec<LfsBatchObject> = Vec::new();
    objects.push(LfsBatchObject { oid: pointer.oid.clone(), size: pointer.size });
    let body: LfsBatchRequest = LfsBatchRequest {
        operation: "download".to_owned(),
        transfers,
        objects,
    };
    assert(body@ =~= batch_body(pointer@));
    LfsBatchCall { request, body }
}

/// How the call of the Batch API goes on once its answer has begun to arrive.
#[derive(Debug)]
pub enum BatchAnswer {
    /// The call was refused; the body says why.
    Refused(RefusedBatch),
    /// The answer is to be read.
    Accepted(AcceptedBatch),
}

/// A call of the Batch API that was refused.
#[derive(Debug)]
pub struct RefusedBatch {
    status: HttpStatus,
}

impl View for RefusedBatch {
    type V = u16;

    /// The status of the answer.
    closed spec fn view(&self) -> u16 {
        self.status@
    }
}

/// A call of the Batch API whose answer is to be read.
#[derive(Debug)]
pub struct AcceptedBatch {
    sealed: (),
}

/// Decides what to do with the status of the Batch API's answer.
pub fn batch_answered(outcome: Result<HttpStatus, String>) -> (next: Result<BatchAnswer, Reply>)
    ensures
        match (outcome, next) {
            (Err(error), Err(r)) => r@ == reply(502, "LFS batch failed: "@ + error@),
            (Ok(status), Ok(BatchAnswer::Refused(refused))) => !success_code(status@) && refused@
                == status@,
            (Ok(status), Ok(BatchAnswer::Accepted(_))) => success_code(status@),
            _ => false,
        },
{
    match outcome {
        Ok(status) => if status.is_success() {
            Ok(BatchAnswer::Accepted(AcceptedBatch { sealed: () }))
        } else {
            Ok(BatchAnswer::Refused(RefusedBatch { status }))
        },
        Err(error) => Err(
            Reply::labelled(HttpStatus::bad_gateway(), "LFS batch failed: ", error.as_str()),
        ),
    }
}

/// The text of a reply to an error of a server: a label, the status, and the beginning of what the
/// server said.
pub open spec fn error_text(label: Seq<char>, code: u16, body: Seq<char>) -> Seq<char> {
    label + status_text(code) + ": "@ + clipped(body, ERROR_TEXT_BYTES as nat)
}

/// The text of a reply to an error of a server.
pub(crate) fn write_error_text(label: &str, status: HttpStatus, body: &str) -> (text: String)
    ensures
        text@ == error_text(label@, status@, body@),
{
    let mut text: String = join2(label, status.text().as_str());
    text.append(": ");
    text.append(clip(body, ERROR_TEXT_BYTES));
    text
}

impl RefusedBatch {
    /// What is answered, given the body.
    pub fn refused(self, body: Option<String>) -> (r: Reply)
        ensures
            r@ == reply(502, error_text("LFS batch "@, self@, body_text(body))),
    {
        let body: String = body_or_empty(body);
        Reply::new(
            HttpStatus::bad_gateway(),
            write_error_text("LFS batch ", self.status, body.as_str()),
        )
    }
}

/// What is answered to an answer of the Batch API that names no download.
pub open spec fn batch_refusal(response: LfsBatchResponse) -> Option<ReplyView> {
    if response.objects@.len() == 0 {
        Some(reply(502, "LFS batch returned no objects"@))
    } else {
        let object = response.objects@[0];
        match object.error {
            Some(error) => Some(
                reply(502, "LFS error "@ + decimal(error.code as nat) + ": "@ + error.message@),
            ),
            None => match object.actions {
                Some(_) => None,
                None => Some(reply(502, "LFS object has no download action"@)),
            },
        }
    }
}

/// The download that an answer of the Batch API names for the first file.
pub open spec fn named_download(response: LfsBatchResponse) -> LfsBatchAction {
    response.objects@[0].actions->0.download
}

impl AcceptedBatch {
    /// Reads the download out of the Batch API's answer.
    pub fn download(self, outcome: Result<LfsBatchResponse, String>) -> (download: Result<
        LfsDownload,
        Reply,
    >)
        ensures
            match (outcome, download) {
                (Err(error), Err(r)) => r@ == reply(502, "LFS batch parse error: "@ + error@),
                (Ok(response), Err(r)) => batch_refusal(response) == Some(r@),
                (Ok(response), Ok(d)) => batch_refusal(response) is None && d.method
                    == Method::Get && d.href@ == named_download(response).href@
                    && match named_download(response).header {
                    Some(headers) => d.headers == headers,
                    None => d.headers@ == Map::<String, String>::empty(),
                },
                _ => false,
            },
    {
        let response: LfsBatchResponse = match outcome {
            Ok(response) => response,
            Err(error) => {
                return Err(
                    Reply::labelled(
                        HttpStatus::bad_gateway(),
                        "LFS batch parse error: ",
                        error.as_str(),
                    ),
                );
            },
        };
        let mut objects: Vec<LfsBatchResponseObject> = response.objects;
        if objects.len() == 0 {
            return Err(Reply::fixed(HttpStatus::bad_gateway(), "LFS batch returned no objects"));
        }
        let object: LfsBatchResponseObject = objects.remove(0);
        if let Some(error) = object.error {
            let mut text: String = "LFS error ".to_owned();
            push_decimal(&mut text, error.code as u64);
            text.append(": ");
            text.append(error.message.as_str());
            return Err(Reply::new(HttpStatus::bad_gateway(), text));
        }
        match object.actions {
            Some(actions) => {
                let headers: HashMap<String, String> = match actions.download.header {
                    Some(headers) => headers,
                    None => HashMap::new(),
                };
                Ok(LfsDownload { method: Method::Get, href: actions.download.href, headers })
            },
            None => Err(
                Reply::fixed(HttpStatus::bad_gateway(), "LFS object has no download action"),
            ),
        }
    }
}

/// What is said of a request to the Batch API is said of all that it asks, in order.
pub proof fn law_batch_requests_are_seen_whole(request: LfsBatchRequest, i: int)
    ensures
        request@.operation == request.operation@,
        request@.transfers.len() == request.transfers@.len(),
        0 <= i < request.transfers@.len() ==> request@.transfers[i] == request.transfers@[i]@,
        request@.objects.len() == request.objects@.len(),
        0 <= i < request.objects@.len() ==> request@.objects[i] == (
            request.objects@[i].oid@,
            request.objects@[i].size,
        ),
{
}

/// The Batch API is asked to download one file by the basic transfer: the one with the whole hash
/// and the size that the pointer gives.
pub proof fn law_the_file_behind_the_pointer_is_asked_for(pointer: LfsPointerView)
    ensures
        batch_body(pointer).operation == "download"@,
        batch_body(pointer).transfers.len() == 1,
        batch_body(pointer).transfers[0] == "basic"@,
        batch_body(pointer).objects.len() == 1,
        batch_body(pointer).objects[0].0 == pointer.oid,
        batch_body(pointer).objects[0].1 == pointer.size,
{
}

/// For the pointer file of a file with this hash and size, the Batch API is asked for exactly the
/// file with this hash and size.
pub proof fn law_pointer_files_are_asked_for_by_their_hash(oid: Seq<char>, size: u64)
    requires
        !oid.contains('\n'),
        oid.len() > 0 ==> oid.last() != '\r',
        encode_utf8(
            "version https://git-lfs.github.com/spec/v1\noid sha256:"@ + oid + "\nsize "@ + decimal(
                size as nat,
            ) + "\n"@,
        ).len() <= 512,
    ensures
        lfs_pointer(
            encode_utf8(
                "version https://git-lfs.github.com/spec/v1\noid sha256:"@ + oid + "\nsize "@
                    + decimal(size as nat) + "\n"@,
            ),
        ) matches Some(pointer) && batch_body(pointer).objects == seq![(oid, size)],
{
    law_pointer_text_has_three_lines(oid, size);
    law_pointer_reads_back(oid, size);
}

/// The call of the Batch API is a POST to the repository's own address that carries the media type
/// and the token.
pub proof fn law_batch_requests_carry_the_token(
    token: Seq<char>,
    owner: Seq<char>,
    repo: Seq<char>,
)
    ensures
        ({
            let request = batch_request(token, owner, repo);
            &&& request.method == Method::Post
            &&& request.url == "https://github.com/"@ + owner + "/"@ + repo
                + ".git/info/lfs/objects/batch"@
            &&& request.headers.len() == 3
            &&& request.headers[0] == ("Accept"@, "application/vnd.git-lfs+json"@)
            &&& request.headers[1] == ("Content-Type"@, "application/vnd.git-lfs+json"@)
            &&& request.headers[2] == ("Authorization"@, "Bearer "@ + token)
        }),
{
}

/// The text of a reply to an error of a server gives the label, the status, and of the server's own
/// words as many characters from the beginning as fit in 200 bytes.
pub proof fn law_error_texts_give_the_beginning(label: Seq<char>, code: u16, body: Seq<char>)
    ensures
        ({
            let head = label + status_text(code) + ": "@;
            let text = error_text(label, code, body);
            let said = text.skip(head.len() as int);
            &&& head.is_prefix_of(text)
            &&& said.is_prefix_of(body)
            &&& encode_utf8(said).len() <= 200
            &&& encode_utf8(body).len() <= 200 ==> said == body
            &&& said.len() < body.len() ==> encode_utf8(body.take(said.len() as int + 1)).len() > 200
        }),
{
    let head = label + status_text(code) + ": "@;
    let text = error_text(label, code, body);
    law_clipping_keeps_the_beginning(body, 200);
    law_clipping_drops_only_what_does_not_fit(body, 200);
    assert(text.take(head.len() as int) =~= head);
    assert(text.skip(head.len() as int) =~= clipped(body, 200));
}

/// What the Batch API says of the first file decides: an error is passed on with its code and its
/// whole message, and otherwise the download that it names is made. Without a file, or without a
/// download for it, the answer says so.
pub proof fn law_the_first_object_decides(response: LfsBatchResponse)
    ensures
        response.objects@.len() == 0 ==> batch_refusal(response) == Some(
            (ReplyView { status: 502, body: "LFS batch returned no objects"@ }),
        ),
        response.objects@.len() > 0 ==> ({
            let object = response.objects@[0];
            &&& object.error matches Some(error) ==> batch_refusal(response) == Some(
                (ReplyView {
                    status: 502,
                    body: "LFS error "@ + decimal(error.code as nat) + ": "@ + error.message@,
                }),
            )
            &&& object.error is None && object.actions is None ==> batch_refusal(response) == Some(
                (ReplyView { status: 502, body: "LFS object has no download action"@ }),
            )
            &&& object.error is None ==> (object.actions matches Some(actions) ==> batch_refusal(
                response,
            ) is None && named_download(response) == actions.download)
        }),
{
}

} // verus!
