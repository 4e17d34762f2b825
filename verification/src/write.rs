//! Downloading a file from GitHub to disk. Each step of the work outside (resolving a path, sending
//! a request, writing a file) is followed by a decision here, which takes the outcome and says how
//! to go on or what to answer.
use crate::background::{count_step, CountEvent, LfsCounters};
use crate::batch::{
    batch_body, batch_request, error_text, resolve_lfs, write_error_text, LfsBatchCall,
};
use crate::github::{
    body_or_empty, body_text, branch_param, raw_refusal, raw_request, request_file, text_param,
    tree_refusal, validate_repository, HttpRequest,
};
use crate::params::Params;
use crate::paths::{
    byte_views, copy_base, copy_parts, directories_up, entry_of, entry_within, file_name, join,
    joined, law_entries_lie_where_their_directory_lies, law_join_stays_below_base,
    law_named_paths_have_a_place, name_bytes, name_of, names_something, parent, parent_of,
    part_views, path_views, path_within, plain_name, temp_name, temp_name_of, way_up, within,
    BasePath, BaseView, PartView, PathPart,
};
use crate::pointer::{
    lfs_pointer, parse_lfs_pointer, LfsPointer, LfsPointerView, MAX_POINTER_BYTES,
};
use crate::state::{AppState, AppStateView};
use crate::status::{reply, success_code, HttpStatus, Reply, ReplyView};
use crate::text::{
    decimal, law_decimal_reads_back, parsed_u64, push_decimal, same_text, segments,
};
use crate::validate::{chosen_token, path_refusal, resolve_token, validate_path};
#[allow(unused_imports)]
use vstd::string::StringExecFns;
use vstd::prelude::*;
use vstd::utf8::encode_utf8;

verus! {

/// The base directory that a destination stands for, if it is known and was configured.
pub open spec fn base_for(state: AppStateView, dest: Seq<char>) -> Option<BaseView> {
    if dest == "profile"@ {
        state.profile_path
    } else if dest == "mission"@ {
        state.mission_path
    } else {
        None
    }
}

/// What is answered to a request for a download that cannot be made.
pub open spec fn write_refusal(
    state: AppStateView,
    params: Map<Seq<char>, Seq<char>>,
) -> Option<ReplyView> {
    if raw_refusal(state, params) is Some {
        raw_refusal(state, params)
    } else if path_refusal(text_param(params, "localpath"@)) is Some {
        path_refusal(text_param(params, "localpath"@))
    } else if base_for(state, text_param(params, "dest"@)) is None {
        Some(
            reply(
                400,
                "Unknown or unconfigured dest '"@ + text_param(params, "dest"@)
                    + "'. Start proxy with --profile-path / --mission-path."@,
            ),
        )
    } else {
        None
    }
}

/// A request for a download that passed all checks.
pub struct WriteRequest {
    token: String,
    owner: String,
    repo: String,
    branch: String,
    path: String,
    localpath: String,
    base: BasePath,
}

/// What a request for a download asks for.
#[verifier::ext_equal]
pub struct WriteRequestView {
    pub token: Seq<char>,
    pub owner: Seq<char>,
    pub repo: Seq<char>,
    pub branch: Seq<char>,
    pub path: Seq<char>,
    pub localpath: Seq<char>,
    pub base: BaseView,
}

impl View for WriteRequest {
    type V = WriteRequestView;

    closed spec fn view(&self) -> WriteRequestView {
        WriteRequestView {
            token: self.token@,
            owner: self.owner@,
            repo: self.repo@,
            branch: self.branch@,
            path: self.path@,
            localpath: self.localpath@,
            base: self.base@,
        }
    }
}

/// What the parameters of a request for a download ask for.
pub open spec fn write_request(
    state: AppStateView,
    params: Map<Seq<char>, Seq<char>>,
) -> WriteRequestView {
    WriteRequestView {
        token: chosen_token(state.default_token, params)->0,
        owner: text_param(params, "owner"@),
        repo: text_param(params, "repo"@),
        branch: branch_param(params),
        path: text_param(params, "path"@),
        localpath: text_param(params, "localpath"@),
        base: base_for(state, text_param(params, "dest"@))->0,
    }
}

fn choose_base<'a>(state: &'a AppState, dest: &str) -> (base: Option<&'a BasePath>)
    ensures
        match base {
            Some(b) => base_for(state@, dest@) == Some(b@),
            None => base_for(state@, dest@) is None,
        },
{
    if same_text(dest, "profile") {
        state.profile_path.as_ref()
    } else if same_text(dest, "mission") {
        state.mission_path.as_ref()
    } else {
        None
    }
}

/// Decides whether a download can be made.
pub fn handle_write(state: &AppState, params: &Params) -> (request: Result<WriteRequest, Reply>)
    ensures
        match request {
            Ok(r) => write_refusal(state@, params@) is None && r@ == write_request(state@, params@),
            Err(refusal) => write_refusal(state@, params@) == Some(refusal@),
        },
{
    let token: String = resolve_token(state, params)?;
    validate_repository(params)?;
    let path: &str = params.get_or("path", "");
    let localpath: &str = params.get_or("localpath", "");
    validate_path(path)?;
    validate_path(localpath)?;
    let dest: &str = params.get_or("dest", "");
    match choose_base(state, dest) {
        Some(base) => Ok(
            WriteRequest {
                token,
                owner: params.get_or("owner", "").to_owned(),
                repo: params.get_or("repo", "").to_owned(),
                branch: params.get_or("branch", "main").to_owned(),
                path: path.to_owned(),
                localpath: localpath.to_owned(),
                base: copy_base(base),
            },
        ),
        None => {
            let mut body: String = "Unknown or unconfigured dest '".to_owned();
            body.append(dest);
            body.append("'. Start proxy with --profile-path / --mission-path.");
            Err(Reply::new(HttpStatus::bad_request(), body))
        },
    }
}

impl WriteRequest {
    #[verifier::type_invariant]
    spec fn checked(&self) -> bool {
        path_refusal(self.localpath@) is None
    }

    /// The directory to resolve first.
    pub fn base(&self) -> (base: &str)
        ensures
            base@ == self@.base.text,
    {
        self.base.text.as_str()
    }

    /// Goes on once the base directory was to be resolved.
    pub fn base_resolved(self, outcome: Result<Vec<Vec<u8>>, String>) -> (next: Result<
        WriteTarget,
        Reply,
    >)
        ensures
            match (outcome, next) {
                (Ok(resolved), Ok(target)) => target@ == (TargetView {
                    request: self@,
                    base: byte_views(resolved@),
                    target: joined(self@.base.parts, self@.localpath),
                }),
                (Err(error), Err(r)) => r@ == reply(500, "Base path does not exist: "@ + error@),
                _ => false,
            },
    {
        proof {
            use_type_invariant(&self);
        }
        match outcome {
            Ok(base) => {
                let target: Vec<PathPart> = join(&self.base.parts, self.localpath.as_str());
                Ok(WriteTarget { request: self, base, target })
            },
            Err(error) => Err(
                Reply::labelled(
                    HttpStatus::internal_server_error(),
                    "Base path does not exist: ",
                    error.as_str(),
                ),
            ),
        }
    }
}

/// A download whose base directory is resolved, and of whose own directory it is to be found out
/// where it lies, as far as it exists.
pub struct WriteTarget {
    request: WriteRequest,
    base: Vec<Vec<u8>>,
    target: Vec<PathPart>,
}

/// Where a download is to go: the request, the resolved base directory, and the path that was
/// asked for.
#[verifier::ext_equal]
pub struct TargetView {
    pub request: WriteRequestView,
    pub base: Seq<Seq<u8>>,
    pub target: Seq<PartView>,
}

impl View for WriteTarget {
    type V = TargetView;

    closed spec fn view(&self) -> TargetView {
        TargetView {
            request: self.request@,
            base: byte_views(self.base@),
            target: part_views(self.target@),
        }
    }
}

/// What is answered where a request leads out of the base directory.
pub open spec fn escape_refusal() -> ReplyView {
    reply(403, "Resolved path escapes base directory"@)
}

fn answer_escape() -> (r: Reply)
    ensures
        r@ == escape_refusal(),
{
    Reply::fixed(HttpStatus::forbidden(), "Resolved path escapes base directory")
}

/// The nearest directory that exists: how many directories below it are missing, that is, how many
/// were tried in vain before it, and what it resolved to.
#[derive(Debug)]
pub struct Nearest {
    pub missing: usize,
    pub path: Vec<Vec<u8>>,
}

/// What is known of the nearest directory that exists.
#[verifier::ext_equal]
pub struct NearestView {
    pub missing: nat,
    pub path: Seq<Seq<u8>>,
}

impl View for Nearest {
    type V = NearestView;

    open spec fn view(&self) -> NearestView {
        NearestView { missing: self.missing as nat, path: byte_views(self.path@) }
    }
}

/// Whether the directories of a download may be created: none is missing, or the nearest one that
/// exists lies within the base directory.
pub open spec fn may_create(base: Seq<Seq<u8>>, nearest: NearestView) -> bool {
    nearest.missing == 0 || within(base, nearest.path)
}

impl WriteTarget {
    /// The directories to resolve, one after the other until one of them can be: the directory of
    /// the download and those above it, as far as the base directory. There are none where the
    /// download lies in no directory.
    pub fn dirs_to_resolve(&self) -> (dirs: Vec<Vec<PathPart>>)
        ensures
            path_views(dirs@) == (match parent_of(self@.target) {
                Some(dir) => way_up(dir, self@.request.base.parts.len()),
                None => seq![],
            }),
    {
        match parent(&self.target) {
            Some(dir) => directories_up(&dir, self.request.base.parts.len()),
            None => {
                let dirs: Vec<Vec<PathPart>> = Vec::new();
                assert(path_views(dirs@) =~= seq![]);
                dirs
            },
        }
    }

    /// Goes on once the nearest directory that exists was to be resolved; where there is none to
    /// resolve, the outcome plays no part. Directories are ever created only where the nearest one
    /// lies within the resolved base directory.
    pub fn nearest_resolved(self, outcome: Result<Nearest, String>) -> (next: Result<
        WriteDirs,
        Reply,
    >)
        ensures
            match (outcome, next) {
                (Ok(nearest), Ok(d)) => d@ == self@ && (parent_of(self@.target) is None
                    || may_create(self@.base, nearest@)),
                (Err(_), Ok(d)) => d@ == self@ && parent_of(self@.target) is None,
                (Ok(nearest), Err(r)) => parent_of(self@.target) is Some && !may_create(
                    self@.base,
                    nearest@,
                ) && r@ == escape_refusal(),
                (Err(error), Err(r)) => parent_of(self@.target) is Some && r@ == reply(
                    500,
                    "Cannot resolve target path: "@ + error@,
                ),
            },
    {
        if parent(&self.target).is_some() {
            match outcome {
                Ok(nearest) => {
                    if nearest.missing > 0 && !path_within(&self.base, &nearest.path) {
                        return Err(answer_escape());
                    }
                },
                Err(error) => {
                    return Err(
                        Reply::labelled(
                            HttpStatus::internal_server_error(),
                            "Cannot resolve target path: ",
                            error.as_str(),
                        ),
                    );
                },
            }
        }
        Ok(WriteDirs { place: self })
    }
}

/// A download whose directories may be created.
pub struct WriteDirs {
    place: WriteTarget,
}

impl View for WriteDirs {
    type V = TargetView;

    closed spec fn view(&self) -> TargetView {
        self.place@
    }
}

impl WriteDirs {
    /// The directory to create, if there is one.
    pub fn dir_to_create(&self) -> (dir: Option<Vec<PathPart>>)
        ensures
            match dir {
                Some(d) => parent_of(self@.target) == Some(part_views(d@)),
                None => parent_of(self@.target) is None,
            },
    {
        parent(&self.place.target)
    }

    /// Goes on once the directories were to be created; where there is none to create, the outcome
    /// plays no part.
    pub fn dirs_created(self, outcome: Result<(), String>) -> (next: Result<WriteParent, Reply>)
        ensures
            match next {
                Ok(p) => (outcome is Ok || parent_of(self@.target) is None) && p@ == self@,
                Err(r) => outcome is Err && parent_of(self@.target) is Some && r@ == reply(
                    500,
                    "Failed to create directories: "@ + outcome->Err_0@,
                ),
            },
    {
        if let Err(error) = outcome {
            if parent(&self.place.target).is_some() {
                return Err(
                    Reply::labelled(
                        HttpStatus::internal_server_error(),
                        "Failed to create directories: ",
                        error.as_str(),
                    ),
                );
            }
        }
        Ok(WriteParent { place: self.place })
    }
}

/// A download whose directories exist and whose own directory is to be resolved.
pub struct WriteParent {
    place: WriteTarget,
}

impl View for WriteParent {
    type V = TargetView;

    closed spec fn view(&self) -> TargetView {
        self.place@
    }
}

/// The directory that is resolved before a download: the one that the target lies in, or the
/// target itself where it lies in none.
pub open spec fn dir_of(target: Seq<PartView>) -> Seq<PartView> {
    match parent_of(target) {
        Some(dir) => dir,
        None => target,
    }
}

/// What is answered where the directory of a download was resolved and the download may still not
/// be written there.
pub open spec fn place_refusal(place: TargetView, dir: Seq<Seq<u8>>) -> Option<ReplyView> {
    match name_of(place.target) {
        None => Some(reply(400, "Invalid localpath"@)),
        Some(name) => if within(place.base, entry_of(dir, name)) {
            None
        } else {
            Some(escape_refusal())
        },
    }
}

impl WriteParent {
    /// The directory to resolve.
    pub fn dir(&self) -> (dir: Vec<PathPart>)
        ensures
            part_views(dir@) == dir_of(self@.target),
    {
        match parent(&self.place.target) {
            Some(dir) => dir,
            None => {
                proof {
                    let all = part_views(self.place.target@);
                    assert(all.take(all.len() as int) =~= all);
                }
                copy_parts(&self.place.target, self.place.target.len())
            },
        }
    }

    /// Goes on once the directory was to be resolved. Only a file that lies within the resolved
    /// base directory is ever downloaded.
    pub fn dir_resolved(self, outcome: Result<Vec<Vec<u8>>, String>) -> (next: Result<
        WriteDownload,
        Reply,
    >)
        ensures
            match (outcome, next) {
                (Ok(dir), Ok(d)) => place_refusal(self@, byte_views(dir@)) is None && d@ == placed(
                    self@,
                    byte_views(dir@),
                ),
                (Ok(dir), Err(r)) => place_refusal(self@, byte_views(dir@)) == Some(r@),
                (Err(error), Err(r)) => r@ == reply(
                    500,
                    "Cannot resolve target path: "@ + error@,
                ),
                (Err(_), Ok(_)) => false,
            },
    {
        let dir: Vec<Vec<u8>> = match outcome {
            Ok(dir) => dir,
            Err(error) => {
                return Err(
                    Reply::labelled(
                        HttpStatus::internal_server_error(),
                        "Cannot resolve target path: ",
                        error.as_str(),
                    ),
                );
            },
        };
        let name: String = match file_name(&self.place.target) {
            Some(name) => name,
            None => {
                return Err(Reply::fixed(HttpStatus::bad_request(), "Invalid localpath"));
            },
        };
        if !entry_within(&self.place.base, &dir, name.as_str()) {
            return Err(answer_escape());
        }
        Ok(WriteDownload { request: self.place.request, base: self.place.base, dir, name })
    }
}

/// A download that may be made and written.
pub struct WriteDownload {
    request: WriteRequest,
    base: Vec<Vec<u8>>,
    dir: Vec<Vec<u8>>,
    name: String,
}

/// What is downloaded, and to where: the resolved base directory, the resolved directory of the
/// file, and the file's name.
#[verifier::ext_equal]
pub struct DownloadView {
    pub request: WriteRequestView,
    pub base: Seq<Seq<u8>>,
    pub dir: Seq<Seq<u8>>,
    pub name: Seq<char>,
}

impl DownloadView {
    /// The file that is written in the end.
    pub open spec fn file(self) -> Seq<Seq<u8>> {
        entry_of(self.dir, self.name)
    }

    /// The file that is written until the download is complete.
    pub open spec fn temp_file(self) -> Seq<Seq<u8>> {
        entry_of(self.dir, temp_name_of(self.name))
    }
}

/// The download that is made in a resolved directory.
pub open spec fn placed(place: TargetView, dir: Seq<Seq<u8>>) -> DownloadView {
    DownloadView {
        request: place.request,
        base: place.base,
        dir,
        name: name_of(place.target)->0,
    }
}

impl View for WriteDownload {
    type V = DownloadView;

    closed spec fn view(&self) -> DownloadView {
        DownloadView {
            request: self.request@,
            base: byte_views(self.base@),
            dir: byte_views(self.dir@),
            name: self.name@,
        }
    }
}

/// What is known of an answer before its body is read: the status, and the length if it was given.
#[derive(Clone, Copy, Debug)]
pub struct ResponseHead {
    pub status: HttpStatus,
    pub content_length: Option<u64>,
}

/// How a download goes on once the answer to its request has begun to arrive.
pub enum WriteAnswer {
    /// GitHub refused; the body says why.
    Refused(RefusedDownload),
    /// The body may be a pointer and is to be read whole.
    Small(SmallDownload),
    /// The body is too long for a pointer and is to be written to the temporary file as it comes.
    Large(LargeDownload),
}

/// A download that GitHub refused.
pub struct RefusedDownload {
    status: HttpStatus,
}

impl View for RefusedDownload {
    type V = u16;

    /// The status of the answer.
    closed spec fn view(&self) -> u16 {
        self.status@
    }
}

/// A download whose body is to be read whole.
pub struct SmallDownload {
    download: WriteDownload,
}

impl View for SmallDownload {
    type V = DownloadView;

    closed spec fn view(&self) -> DownloadView {
        self.download@
    }
}

/// A download whose body is to be written as it comes.
pub struct LargeDownload {
    download: WriteDownload,
}

impl View for LargeDownload {
    type V = DownloadView;

    closed spec fn view(&self) -> DownloadView {
        self.download@
    }
}

/// Whether a body of this length, if it was given, may be a pointer.
pub open spec fn may_be_pointer(content_length: Option<u64>) -> bool {
    match content_length {
        Some(len) => len <= MAX_POINTER_BYTES,
        None => true,
    }
}

impl WriteDownload {
    /// The request to send.
    pub fn request(&self) -> (request: HttpRequest)
        ensures
            request@ == raw_request(
                self@.request.token,
                self@.request.owner,
                self@.request.repo,
                self@.request.branch,
                self@.request.path,
            ),
    {
        request_file(
            self.request.token.as_str(),
            self.request.owner.as_str(),
            self.request.repo.as_str(),
            self.request.branch.as_str(),
            self.request.path.as_str(),
        )
    }

    /// The name of the file in its directory.
    pub fn name(&self) -> (name: &str)
        ensures
            name@ == self@.name,
    {
        self.name.as_str()
    }

    /// The name of the temporary file in the same directory.
    pub fn temp_name(&self) -> (name: String)
        ensures
            name@ == temp_name_of(self@.name),
    {
        temp_name(self.name.as_str())
    }

    /// Goes on once the request was sent.
    pub fn answered(self, outcome: Result<ResponseHead, String>) -> (next: Result<
        WriteAnswer,
        Reply,
    >)
        ensures
            match (outcome, next) {
                (Err(error), Err(r)) => r@ == reply(502, "Download failed: "@ + error@),
                (Ok(head), Ok(WriteAnswer::Refused(d))) => !success_code(head.status@) && d@
                    == head.status@,
                (Ok(head), Ok(WriteAnswer::Small(d))) => success_code(head.status@)
                    && may_be_pointer(head.content_length) && d@ == self@,
                (Ok(head), Ok(WriteAnswer::Large(d))) => success_code(head.status@)
                    && !may_be_pointer(head.content_length) && d@ == self@,
                _ => false,
            },
    {
        let head: ResponseHead = match outcome {
            Ok(head) => head,
            Err(error) => {
                return Err(
                    Reply::labelled(
                        HttpStatus::bad_gateway(),
                        "Download failed: ",
                        error.as_str(),
                    ),
                );
            },
        };
        if !head.status.is_success() {
            return Ok(WriteAnswer::Refused(RefusedDownload { status: head.status }));
        }
        let maybe_lfs: bool = match head.content_length {
            Some(len) => len <= MAX_POINTER_BYTES as u64,
            None => true,
        };
        if maybe_lfs {
            Ok(WriteAnswer::Small(SmallDownload { download: self }))
        } else {
            Ok(WriteAnswer::Large(LargeDownload { download: self }))
        }
    }
}

impl RefusedDownload {
    /// What is answered, given the body.
    pub fn refused(self, body: Option<String>) -> (r: Reply)
        ensures
            r@ == reply(502, error_text("GitHub "@, self@, body_text(body))),
    {
        let body: String = body_or_empty(body);
        Reply::new(
            HttpStatus::bad_gateway(),
            write_error_text("GitHub ", self.status, body.as_str()),
        )
    }
}

/// What is answered once a file of this many bytes is in place, or on its way there.
pub open spec fn written_reply(count: u64) -> ReplyView {
    reply(200, "{\"ok\":true,\"bytes\":"@ + decimal(count as nat) + "}"@)
}

/// What is answered once a file of this many bytes is in place, or on its way there.
fn answer_written(count: u64) -> (r: Reply)
    ensures
        r@ == written_reply(count),
{
    let mut body: String = "{\"ok\":true,\"bytes\":".to_owned();
    push_decimal(&mut body, count);
    body.append("}");
    Reply::new(HttpStatus::ok(), body)
}

/// A body that was read whole.
pub enum SmallBody {
    /// It is a pointer to an LFS file.
    Pointer(PointerFile),
    /// It is the file itself, to be written to the temporary file.
    Plain(PlainFile),
}

/// A download whose body is a pointer.
pub struct PointerFile {
    download: WriteDownload,
    pointer: LfsPointer,
}

/// A download and the pointer that it found.
#[verifier::ext_equal]
pub struct PointerFileView {
    pub download: DownloadView,
    pub pointer: LfsPointerView,
}

impl View for PointerFile {
    type V = PointerFileView;

    closed spec fn view(&self) -> PointerFileView {
        PointerFileView { download: self.download@, pointer: self.pointer@ }
    }
}

/// A download whose body is the file itself.
pub struct PlainFile {
    download: WriteDownload,
    bytes: Vec<u8>,
}

/// A download and the bytes of the file.
#[verifier::ext_equal]
pub struct PlainFileView {
    pub download: DownloadView,
    pub bytes: Seq<u8>,
}

impl View for PlainFile {
    type V = PlainFileView;

    closed spec fn view(&self) -> PlainFileView {
        PlainFileView { download: self.download@, bytes: self.bytes@ }
    }
}

impl SmallDownload {
    /// Goes on once the body was to be read.
    pub fn body_read(self, outcome: Result<Vec<u8>, String>) -> (next: Result<SmallBody, Reply>)
        ensures
            match (outcome, next) {
                (Err(error), Err(r)) => r@ == reply(502, "Read body failed: "@ + error@),
                (Ok(bytes), Ok(SmallBody::Pointer(file))) => file@.download == self@
                    && lfs_pointer(bytes@) == Some(file@.pointer),
                (Ok(bytes), Ok(SmallBody::Plain(file))) => file@.download == self@ && lfs_pointer(
                    bytes@,
                ) is None && file@.bytes == bytes@,
                _ => false,
            },
    {
        match outcome {
            Ok(bytes) => match parse_lfs_pointer(bytes.as_slice()) {
                Some(pointer) => Ok(
                    SmallBody::Pointer(PointerFile { download: self.download, pointer }),
                ),
                None => Ok(SmallBody::Plain(PlainFile { download: self.download, bytes })),
            },
            Err(error) => Err(
                Reply::labelled(HttpStatus::bad_gateway(), "Read body failed: ", error.as_str()),
            ),
        }
    }
}

/// A download that ends without its file in place, and whether its temporary file is to be
/// removed.
#[derive(Debug)]
pub struct Abandoned {
    pub reply: Reply,
    pub remove_temp: bool,
}

/// How writing the whole body to the temporary file went.
#[derive(Debug)]
pub enum StageOutcome {
    Done,
    NotCreated(String),
    NotWritten(String),
    NotFlushed(String),
}

/// What is answered where the body could not be written to the temporary file.
pub open spec fn stage_refusal(outcome: StageOutcome) -> Option<ReplyView> {
    match outcome {
        StageOutcome::Done => None,
        StageOutcome::NotCreated(error) => Some(reply(500, "Create file failed: "@ + error@)),
        StageOutcome::NotWritten(error) => Some(reply(500, "Write failed: "@ + error@)),
        StageOutcome::NotFlushed(error) => Some(reply(500, "Flush failed: "@ + error@)),
    }
}

/// A download whose temporary file is complete and is to be renamed.
pub struct StagedFile {
    download: WriteDownload,
    count: u64,
}

/// A download and how many bytes its file has.
#[verifier::ext_equal]
pub struct StagedFileView {
    pub download: DownloadView,
    pub count: u64,
}

impl View for StagedFile {
    type V = StagedFileView;

    closed spec fn view(&self) -> StagedFileView {
        StagedFileView { download: self.download@, count: self.count }
    }
}

impl PlainFile {
    /// The bytes to write.
    pub fn bytes(&self) -> (bytes: &Vec<u8>)
        ensures
            bytes@ == self@.bytes,
    {
        &self.bytes
    }

    /// Goes on once the bytes were to be written to the temporary file. What is left of that file
    /// after a failure stays.
    pub fn staged(self, outcome: StageOutcome) -> (next: Result<StagedFile, Abandoned>)
        ensures
            match next {
                Ok(file) => stage_refusal(outcome) is None && file@ == (StagedFileView {
                    download: self@.download,
                    count: self@.bytes.len() as u64,
                }) && file@.count == self@.bytes.len(),
                Err(end) => stage_refusal(outcome) == Some(end.reply@) && !end.remove_temp,
            },
    {
        let (label, error): (&str, String) = match outcome {
            StageOutcome::Done => {
                let count: u64 = self.bytes.len() as u64;
                return Ok(StagedFile { download: self.download, count });
            },
            StageOutcome::NotCreated(error) => ("Create file failed: ", error),
            StageOutcome::NotWritten(error) => ("Write failed: ", error),
            StageOutcome::NotFlushed(error) => ("Flush failed: ", error),
        };
        Err(
            Abandoned {
                reply: Reply::labelled(
                    HttpStatus::internal_server_error(),
                    label,
                    error.as_str(),
                ),
                remove_temp: false,
            },
        )
    }
}

impl LargeDownload {
    /// Goes on once the body was to be streamed to the temporary file.
    pub fn streamed(self, outcome: Result<u64, Reply>) -> (next: Result<StagedFile, Abandoned>)
        ensures
            match (outcome, next) {
                (Ok(count), Ok(file)) => file@ == (StagedFileView { download: self@, count }),
                (Err(r), Err(end)) => end.reply@ == r@ && end.remove_temp,
                _ => false,
            },
    {
        match outcome {
            Ok(count) => Ok(StagedFile { download: self.download, count }),
            Err(reply) => Err(Abandoned { reply, remove_temp: true }),
        }
    }
}

impl StagedFile {
    /// Ends the download once the temporary file was to be renamed.
    pub fn renamed(self, outcome: Result<(), String>) -> (end: Result<Reply, Abandoned>)
        ensures
            match (outcome, end) {
                (Ok(_), Ok(r)) => r@ == written_reply(self@.count),
                (Err(error), Err(end)) => end.reply@ == reply(500, "Rename failed: "@ + error@)
                    && end.remove_temp,
                _ => false,
            },
    {
        match outcome {
            Ok(_) => Ok(answer_written(self.count)),
            Err(error) => Err(
                Abandoned {
                    reply: Reply::labelled(
                        HttpStatus::internal_server_error(),
                        "Rename failed: ",
                        error.as_str(),
                    ),
                    remove_temp: true,
                },
            ),
        }
    }
}

/// How a download of a pointer goes on.
pub enum PointerNext {
    /// A file of the right size is already there; this is the answer.
    Present(Reply),
    /// The file is to be asked for.
    Missing(MissingFile),
}

/// A download of an LFS file that is not there yet.
pub struct MissingFile {
    download: WriteDownload,
    pointer: LfsPointer,
}

impl View for MissingFile {
    type V = PointerFileView;

    closed spec fn view(&self) -> PointerFileView {
        PointerFileView { download: self.download@, pointer: self.pointer@ }
    }
}

impl PointerFile {
    /// Goes on once the size of the file on disk was looked up; there is none where there is no
    /// such file.
    pub fn size_on_disk(self, size: Option<u64>) -> (next: PointerNext)
        ensures
            match next {
                PointerNext::Present(r) => size == Some(self@.pointer.size) && r@ == written_reply(
                    self@.pointer.size,
                ),
                PointerNext::Missing(file) => size != Some(self@.pointer.size) && file@ == self@,
            },
    {
        if let Some(size) = size {
            if size == self.pointer.size {
                return PointerNext::Present(answer_written(size));
            }
        }
        PointerNext::Missing(MissingFile { download: self.download, pointer: self.pointer })
    }
}

impl MissingFile {
    /// The call of the Batch API.
    pub fn batch_call(&self) -> (call: LfsBatchCall)
        ensures
            call.request@ == batch_request(
                self@.download.request.token,
                self@.download.request.owner,
                self@.download.request.repo,
            ),
            call.body@ == batch_body(self@.pointer),
    {
        resolve_lfs(
            self.download.request.token.as_str(),
            self.download.request.owner.as_str(),
            self.download.request.repo.as_str(),
            &self.pointer,
        )
    }

    /// Goes on once the download URL is known: takes note of a background download that begins,
    /// and answers as if the file were already written with the size that the pointer gives.
    pub fn hand_over(self, counters: &mut LfsCounters) -> (r: Reply)
        ensures
            r@ == written_reply(self@.pointer.size),
            final(counters)@ == count_step(old(counters)@, CountEvent::Begun),
    {
        counters.begin();
        answer_written(self.pointer.size)
    }
}

/// Every directory that a download creates lies within the base directory. The path of its
/// directory has plain names behind the nearest directory that exists; each of those that is
/// created, the one with `n` parts as well as any other, lies within the base directory.
pub proof fn law_created_directories_stay_within_base(
    place: TargetView,
    nearest: NearestView,
    n: int,
)
    requires
        path_refusal(place.request.localpath) is None,
        place.target == joined(place.request.base.parts, place.request.localpath),
        parent_of(place.target) is Some,
        nearest.missing < way_up(
            parent_of(place.target)->0,
            place.request.base.parts.len(),
        ).len(),
        may_create(place.base, nearest),
        parent_of(place.target)->0.len() - nearest.missing < n <= parent_of(place.target)->0.len(),
    ensures
        ({
            let dir = parent_of(place.target)->0;
            let k = dir.len() - nearest.missing;
            &&& way_up(dir, place.request.base.parts.len())[nearest.missing as int] == dir.take(k)
            &&& forall|i: int|
                k <= i < n ==> (#[trigger] dir[i]) is Name && plain_name(dir[i]->Name_0)
            &&& within(place.base, nearest.path + name_bytes(dir.subrange(k, n)))
        }),
{
    let dir = parent_of(place.target)->0;
    let k = dir.len() - nearest.missing;
    law_join_stays_below_base(place.request.base.parts, place.request.localpath);
    assert forall|i: int| k <= i < n implies (#[trigger] dir[i]) is Name && plain_name(
        dir[i]->Name_0,
    ) by {
        assert(dir[i] == place.target[i]);
    }
    let created = nearest.path + name_bytes(dir.subrange(k, n));
    let m = place.base.len() as int;
    assert(created.take(m) =~= nearest.path.take(m));
}

/// What a download writes lies within the base directory: the file itself, and, unless the file
/// asked for is the base directory itself, the temporary file too.
pub proof fn law_downloads_stay_within_base(place: TargetView, dir: Seq<Seq<u8>>)
    requires
        place_refusal(place, dir) is None,
    ensures
        within(place.base, placed(place, dir).file()),
        placed(place, dir).file() != place.base ==> within(
            place.base,
            placed(place, dir).temp_file(),
        ),
{
    let name = placed(place, dir).name;
    law_entries_lie_where_their_directory_lies(place.base, dir, name);
    law_entries_lie_where_their_directory_lies(place.base, dir, temp_name_of(name));
}

/// A checked path that names anything is not refused where its directory resolves to the base
/// directory or to one below it.
pub proof fn law_downloads_below_base_are_made(
    request: WriteRequestView,
    base: Seq<Seq<u8>>,
    dir: Seq<Seq<u8>>,
)
    requires
        path_refusal(request.localpath) is None,
        exists|i: int|
            0 <= i < segments(request.localpath).len() && names_something(
                #[trigger] segments(request.localpath)[i],
            ),
        within(base, dir),
    ensures
        ({
            let target = joined(request.base.parts, request.localpath);
            place_refusal(TargetView { request, base, target }, dir) is None
        }),
{
    law_named_paths_have_a_place(request.base.parts, request.localpath);
    let target = joined(request.base.parts, request.localpath);
    law_entries_lie_where_their_directory_lies(base, dir, name_of(target)->0);
}

/// Where the length of a body rules out a pointer, reading the body would have found none either.
pub proof fn law_large_bodies_are_no_pointers(bytes: Seq<u8>)
    requires
        bytes.len() <= u64::MAX,
        !may_be_pointer(Some(bytes.len() as u64)),
    ensures
        lfs_pointer(bytes) is None,
{
}

/// What a request is refused with does not depend on the proxy's own token, as long as there is
/// one.
pub proof fn law_refusals_hide_own_token(
    state: AppStateView,
    other: Seq<char>,
    params: Map<Seq<char>, Seq<char>>,
)
    requires
        state.default_token is Some,
        state.default_token->0.len() > 0,
        other.len() > 0,
    ensures
        ({
            let swapped = AppStateView { default_token: Some(other), ..state };
            tree_refusal(state, params) == tree_refusal(swapped, params) && raw_refusal(
                state,
                params,
            ) == raw_refusal(swapped, params) && write_refusal(state, params) == write_refusal(
                swapped,
                params,
            )
        }),
{
}

/// What a request is refused with does not depend on the token that it carries, as long as it
/// carries one.
pub proof fn law_refusals_hide_query_token(
    state: AppStateView,
    params: Map<Seq<char>, Seq<char>>,
    token: Seq<char>,
    other: Seq<char>,
)
    requires
        token.len() > 0,
        other.len() > 0,
    ensures
        ({
            let one = params.insert("token"@, token);
            let two = params.insert("token"@, other);
            tree_refusal(state, one) == tree_refusal(state, two) && raw_refusal(state, one)
                == raw_refusal(state, two) && write_refusal(state, one) == write_refusal(state, two)
        }),
{
    reveal_strlit("token");
    reveal_strlit("owner");
    reveal_strlit("repo");
    reveal_strlit("branch");
    reveal_strlit("path");
    reveal_strlit("localpath");
    reveal_strlit("dest");
    assert("token"@[0] != "owner"@[0]);
    assert("token"@[0] != "repo"@[0]);
    assert("token"@[0] != "branch"@[0]);
    assert("token"@[0] != "path"@[0]);
    assert("token"@[0] != "localpath"@[0]);
    assert("token"@[0] != "dest"@[0]);
}

/// `profile` and `mission` stand for the directories configured for them, and nothing else stands
/// for any.
pub proof fn law_destinations_stand_for_their_directories(state: AppStateView, dest: Seq<char>)
    ensures
        base_for(state, "profile"@) == state.profile_path,
        base_for(state, "mission"@) == state.mission_path,
        dest != "profile"@ && dest != "mission"@ ==> base_for(state, dest) is None,
{
    reveal_strlit("profile");
    reveal_strlit("mission");
    assert("profile"@[0] != "mission"@[0]);
}

/// A request for a download is answered at once exactly if one for its file would be, or its local
/// path does not pass, or its destination stands for no directory; the first of these is what it
/// is answered.
pub proof fn law_the_first_failed_check_of_a_download_is_answered(
    state: AppStateView,
    params: Map<Seq<char>, Seq<char>>,
)
    ensures
        ({
            let raw = raw_refusal(state, params);
            let localpath = path_refusal(text_param(params, "localpath"@));
            let dest = text_param(params, "dest"@);
            let base = base_for(state, dest);
            &&& write_refusal(state, params) is None <==> raw is None && localpath is None && base
                is Some
            &&& raw is Some ==> write_refusal(state, params) == raw
            &&& raw is None && localpath is Some ==> write_refusal(state, params) == localpath
            &&& raw is None && localpath is None && base is None ==> (write_refusal(
                state,
                params,
            ) matches Some(r) && r.status == 400 && r.body == "Unknown or unconfigured dest '"@
                + dest + "'. Start proxy with --profile-path / --mission-path."@)
        }),
{
}

/// A download is made for what the request names: its token, its file, and its place.
pub proof fn law_downloads_are_what_was_asked_for(
    state: AppStateView,
    params: Map<Seq<char>, Seq<char>>,
)
    ensures
        ({
            let request = write_request(state, params);
            &&& chosen_token(state.default_token, params) matches Some(token) ==> request.token
                == token
            &&& request.owner == text_param(params, "owner"@)
            &&& request.repo == text_param(params, "repo"@)
            &&& request.branch == branch_param(params)
            &&& request.path == text_param(params, "path"@)
            &&& request.localpath == text_param(params, "localpath"@)
            &&& base_for(state, text_param(params, "dest"@)) matches Some(base) ==> request.base
                == base
        }),
{
}

/// What is said of the nearest directory is said of the whole path that it resolved to.
pub proof fn law_nearest_directories_are_seen_whole(nearest: Nearest)
    ensures
        nearest@.missing == nearest.missing,
        nearest@.path == byte_views(nearest.path@),
{
}

/// Where directories are missing they are created exactly if the nearest one lies within the base
/// directory; where none is missing there is nothing to decide.
pub proof fn law_directories_are_created_only_within_base(
    base: Seq<Seq<u8>>,
    nearest: NearestView,
)
    ensures
        nearest.missing > 0 ==> (may_create(base, nearest) <==> base.is_prefix_of(nearest.path)),
        nearest.missing == 0 ==> may_create(base, nearest),
{
}

/// The directory that is resolved for an entry is the one that it lies in.
pub proof fn law_the_directory_of_an_entry_is_resolved(dir: Seq<PartView>, name: Seq<char>)
    ensures
        dir_of(dir.push(PartView::Name(name))) == dir,
        dir_of(dir.push(PartView::Root)) == dir.push(PartView::Root),
        dir_of(dir.push(PartView::Prefix(name))) == dir.push(PartView::Prefix(name)),
        dir_of(Seq::empty()) == Seq::<PartView>::empty(),
        dir_of(dir.push(PartView::Current)) == dir,
        dir_of(dir.push(PartView::Parent)) == dir,
{
    assert(dir.push(PartView::Name(name)).drop_last() =~= dir);
    assert(dir.push(PartView::Current).drop_last() =~= dir);
    assert(dir.push(PartView::Parent).drop_last() =~= dir);
}

/// A download whose directory is resolved is refused exactly if its path ends in no name, or if the
/// file lies outside the base directory.
pub proof fn law_places_are_refused_exactly_outside_base(place: TargetView, dir: Seq<Seq<u8>>)
    ensures
        name_of(place.target) is None ==> (place_refusal(place, dir) matches Some(r) && r.status
            == 400 && r.body == "Invalid localpath"@),
        name_of(place.target) matches Some(name) ==> (place_refusal(place, dir) is None
            <==> place.base.is_prefix_of(entry_of(dir, name))),
        name_of(place.target) is Some ==> (place_refusal(place, dir) matches Some(r) ==> r
            == escape_refusal() && r.status == 403 && r.body
            == "Resolved path escapes base directory"@),
{
}

/// A download is written to the entry of its own name in the directory that was resolved, by way of
/// the entry of its temporary name in the same directory.
pub proof fn law_downloads_go_to_their_own_entry(place: TargetView, dir: Seq<Seq<u8>>)
    ensures
        placed(place, dir).request == place.request,
        placed(place, dir).base == place.base,
        placed(place, dir).dir == dir,
        name_of(place.target) matches Some(name) ==> placed(place, dir).name == name && placed(
            place,
            dir,
        ).file() == dir.push(encode_utf8(name)) && placed(place, dir).temp_file() == dir.push(
            encode_utf8(temp_name_of(name)),
        ),
{
}

/// A body may be a pointer unless it is known to have more than 512 bytes.
pub proof fn law_known_long_bodies_are_no_pointers(len: u64)
    ensures
        may_be_pointer(Some(len)) <==> len <= 512,
        may_be_pointer(None),
{
}

/// The answer to a download that was made is a JSON object with the number of bytes written out
/// whole: what stands behind `"bytes":` reads back as that number.
pub proof fn law_written_answers_read_back(count: u64, bytes: Seq<char>)
    ensures
        written_reply(count).status == 200,
        written_reply(count).body == "{\"ok\":true,\"bytes\":"@ + decimal(count as nat) + "}"@,
        written_reply(count).body == "{\"ok\":true,\"bytes\":"@ + bytes + "}"@ ==> parsed_u64(bytes)
            == Some(count),
{
    law_decimal_reads_back(count);
    let body = written_reply(count).body;
    let head = "{\"ok\":true,\"bytes\":"@.len() as int;
    let digits = decimal(count as nat);
    if body == "{\"ok\":true,\"bytes\":"@ + bytes + "}"@ {
        let given = "{\"ok\":true,\"bytes\":"@ + bytes + "}"@;
        assert(given.len() == head + bytes.len() + "}"@.len());
        assert(body.len() == head + digits.len() + "}"@.len());
        assert(bytes =~= body.subrange(head, head + digits.len()));
        assert(digits =~= body.subrange(head, head + digits.len()));
    }
}

/// A body that could not be created, written or flushed to the temporary file is answered 500, with
/// the step that failed and the whole error.
pub proof fn law_failed_stages_are_told(error: String)
    ensures
        stage_refusal(StageOutcome::Done) is None,
        stage_refusal(StageOutcome::NotCreated(error)) matches Some(r) && r.status == 500 && r.body
            == "Create file failed: "@ + error@,
        stage_refusal(StageOutcome::NotWritten(error)) matches Some(r) && r.status == 500 && r.body
            == "Write failed: "@ + error@,
        stage_refusal(StageOutcome::NotFlushed(error)) matches Some(r) && r.status == 500 && r.body
            == "Flush failed: "@ + error@,
{
}

} // verus!
