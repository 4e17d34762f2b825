use gitconfig_proxy::background::{background_answered, handle_lfs_status, LfsCounters, LfsEnd};
use gitconfig_proxy::batch::{
    batch_answered, BatchAnswer, LfsBatchAction, LfsBatchActions, LfsBatchError, LfsBatchResponse,
    LfsBatchResponseObject, LfsDownload,
};
use gitconfig_proxy::github::Method;
use gitconfig_proxy::params::Params;
use gitconfig_proxy::paths::{temp_name, BasePath, PathPart};
use gitconfig_proxy::state::AppState;
use gitconfig_proxy::status::{HttpStatus, Reply};
use gitconfig_proxy::stream::{stream_response_to_file, Chunk};
use gitconfig_proxy::text::clip;
use gitconfig_proxy::write::{
    handle_write, MissingFile, Nearest, PlainFile, PointerNext, ResponseHead, SmallBody, SmallDownload,
    StageOutcome, WriteAnswer, WriteDirs, WriteDownload, WriteRequest, WriteTarget,
};
use std::collections::HashMap;
use std::path::{Component, Path, PathBuf};

fn base(text: &str) -> BasePath {
    let parts = Path::new(text)
        .components()
        .map(|c| match c {
            Component::Prefix(p) => PathPart::Prefix(p.as_os_str().to_str().unwrap().to_string()),
            Component::RootDir => PathPart::Root,
            Component::CurDir => PathPart::Current,
            Component::ParentDir => PathPart::Parent,
            Component::Normal(n) => PathPart::Name(n.to_str().unwrap().to_string()),
        })
        .collect();
    BasePath { text: text.to_string(), parts }
}

fn path_of(parts: &[PathPart]) -> PathBuf {
    parts
        .iter()
        .map(|part| match part {
            PathPart::Prefix(t) | PathPart::Name(t) => t.as_str(),
            PathPart::Root => "/",
            PathPart::Current => ".",
            PathPart::Parent => "..",
        })
        .collect()
}

fn resolved(text: &str) -> Vec<Vec<u8>> {
    Path::new(text)
        .components()
        .map(|c| c.as_os_str().as_encoded_bytes().to_vec())
        .collect()
}

fn state(profile: &str) -> AppState {
    AppState {
        default_token: Some("t0".to_string()),
        profile_path: Some(base(profile)),
        mission_path: None,
        allowed_ips: Vec::new(),
    }
}

fn query(localpath: &str, dest: &str) -> Params {
    let mut params = Params::new();
    for (name, value) in [
        ("owner", "me"),
        ("repo", "cfg"),
        ("path", "maps/My Map.dze"),
        ("localpath", localpath),
        ("dest", dest),
    ] {
        params.insert(name.to_string(), value.to_string());
    }
    params
}

fn request(profile: &str, localpath: &str) -> WriteRequest {
    handle_write(&state(profile), &query(localpath, "profile")).ok().unwrap()
}

fn target(profile: &str, localpath: &str) -> WriteTarget {
    request(profile, localpath).base_resolved(Ok(resolved(profile))).ok().unwrap()
}

fn nearest(missing: usize, text: &str) -> Result<Nearest, String> {
    Ok(Nearest { missing, path: resolved(text) })
}

fn dirs(profile: &str, localpath: &str) -> WriteDirs {
    target(profile, localpath).nearest_resolved(nearest(1, profile)).ok().unwrap()
}

fn download(localpath: &str) -> WriteDownload {
    let parent = dirs("/srv/profiles", localpath).dirs_created(Ok(())).ok().unwrap();
    let dir = path_of(&parent.dir());
    parent.dir_resolved(Ok(resolved(dir.to_str().unwrap()))).ok().unwrap()
}

fn status(code: u16) -> HttpStatus {
    HttpStatus::from_u16(code).unwrap()
}

fn head(code: u16, content_length: Option<u64>) -> Result<ResponseHead, String> {
    Ok(ResponseHead { status: status(code), content_length })
}

fn small(download: WriteDownload) -> SmallDownload {
    match download.answered(head(200, Some(130))) {
        Ok(WriteAnswer::Small(small)) => small,
        _ => panic!("not small"),
    }
}

fn plain(bytes: &[u8]) -> PlainFile {
    match small(download("a/b.bin")).body_read(Ok(bytes.to_vec())) {
        Ok(SmallBody::Plain(file)) => file,
        _ => panic!("not plain"),
    }
}

fn pointer_bytes() -> Vec<u8> {
    b"version https://git-lfs.github.com/spec/v1\noid sha256:abcd\nsize 77\n".to_vec()
}

fn pointer_next(size: Option<u64>) -> PointerNext {
    match small(download("a/b.bin")).body_read(Ok(pointer_bytes())) {
        Ok(SmallBody::Pointer(file)) => file.size_on_disk(size),
        _ => panic!("no pointer"),
    }
}

fn missing() -> MissingFile {
    match pointer_next(None) {
        PointerNext::Missing(missing) => missing,
        PointerNext::Present(_) => panic!("present"),
    }
}

fn answer(reply: &Reply) -> (u16, &str) {
    (reply.status.as_u16(), reply.body.as_str())
}

#[test]
fn a_destination_must_be_known_and_configured() {
    for dest in ["mission", "other", ""] {
        let refusal = handle_write(&state("/srv/profiles"), &query("a", dest)).err().unwrap();
        assert_eq!(
            answer(&refusal),
            (
                400,
                format!(
                    "Unknown or unconfigured dest '{}'. Start proxy with --profile-path / --mission-path.",
                    dest
                )
                .as_str()
            )
        );
    }
    let mut both = state("/srv/profiles");
    both.mission_path = Some(base("/srv/mission"));
    assert_eq!(handle_write(&both, &query("a", "mission")).ok().unwrap().base(), "/srv/mission");
    assert_eq!(handle_write(&both, &query("a", "profile")).ok().unwrap().base(), "/srv/profiles");
}

#[test]
fn the_local_path_is_checked_like_the_other() {
    let body = |localpath: &str| {
        handle_write(&state("/srv"), &query(localpath, "nowhere")).err().unwrap().body
    };
    assert_eq!(body(""), "Missing required parameter: path");
    assert_eq!(body("../x"), "Path traversal not allowed");
    assert_eq!(body("/etc/x"), "Invalid path format");
    assert_eq!(body("C:/x"), "Invalid path format");
}

#[test]
fn a_base_that_cannot_be_resolved_is_reported() {
    let refusal = request("/none", "a").base_resolved(Err("not found".to_string())).err().unwrap();
    assert_eq!(answer(&refusal), (500, "Base path does not exist: not found"));
}

#[test]
fn directories_are_created_as_the_platform_would() {
    for (profile, localpath) in [
        ("/srv/profiles", "EditorFiles/MyMap.dze"),
        ("/srv/profiles/", "a//b/./c/"),
        ("rel", "x"),
        (".", "x/y"),
        ("/srv/../srv", "x"),
        ("/srv/profiles", "."),
        ("/", "a"),
        ("rel", "./."),
    ] {
        let expected = Path::new(profile).join(localpath);
        let dir = dirs(profile, localpath).dir_to_create();
        assert_eq!(
            dir.map(|d| path_of(&d)),
            expected.parent().map(Path::to_path_buf),
            "{:?} {:?}",
            profile,
            localpath
        );
    }
    assert!(dirs("/", ".").dir_to_create().is_none());
}

#[test]
fn a_checked_path_leads_below_the_base() {
    let parent = dirs("/srv/profiles", "a/./b//c.txt").dirs_created(Ok(())).ok().unwrap();
    assert_eq!(path_of(&parent.dir()), PathBuf::from("/srv/profiles/a/b"));
    assert_eq!(download("a/./b//c.txt").name(), "c.txt");
}

#[test]
fn directories_that_cannot_be_created_are_reported() {
    let refusal = dirs("/srv", "a/b").dirs_created(Err("denied".to_string())).err().unwrap();
    assert_eq!(answer(&refusal), (500, "Failed to create directories: denied"));
    assert!(dirs("/", ".").dirs_created(Err("ignored".to_string())).is_ok());
}

#[test]
fn a_directory_that_cannot_be_resolved_is_reported() {
    let parent = dirs("/srv", "a/b").dirs_created(Ok(())).ok().unwrap();
    let refusal = parent.dir_resolved(Err("loop".to_string())).err().unwrap();
    assert_eq!(answer(&refusal), (500, "Cannot resolve target path: loop"));
}

#[test]
fn a_path_without_a_name_is_refused() {
    let parent = dirs("/", ".").dirs_created(Ok(())).ok().unwrap();
    assert_eq!(path_of(&parent.dir()), PathBuf::from("/"));
    let refusal = parent.dir_resolved(Ok(resolved("/"))).err().unwrap();
    assert_eq!(answer(&refusal), (400, "Invalid localpath"));
}

#[test]
fn a_path_that_escapes_the_base_is_refused() {
    for elsewhere in ["/etc", "/", "/srv", "/srv/profiles2", "/srv/profile"] {
        let parent = dirs("/srv/profiles", "link/x").dirs_created(Ok(())).ok().unwrap();
        let refusal = parent.dir_resolved(Ok(resolved(elsewhere))).err().unwrap();
        assert_eq!(answer(&refusal), (403, "Resolved path escapes base directory"), "{}", elsewhere);
    }
    for inside in ["/srv/profiles", "/srv/profiles/link", "/srv/profiles/a/b/c"] {
        let parent = dirs("/srv/profiles", "link/x").dirs_created(Ok(())).ok().unwrap();
        assert!(parent.dir_resolved(Ok(resolved(inside))).is_ok(), "{}", inside);
    }
}

#[test]
fn the_base_itself_lies_within_the_base() {
    let place = target("/srv/profiles", ".");
    let tried: Vec<PathBuf> = place.dirs_to_resolve().iter().map(|d| path_of(d)).collect();
    assert_eq!(tried, vec![PathBuf::from("/srv")]);
    let dirs = place.nearest_resolved(nearest(0, "/srv")).ok().unwrap();
    let parent = dirs.dirs_created(Ok(())).ok().unwrap();
    assert_eq!(path_of(&parent.dir()), PathBuf::from("/srv"));
    let download = parent.dir_resolved(Ok(resolved("/srv"))).ok().unwrap();
    assert_eq!(download.name(), "profiles");
    assert_eq!(download.temp_name(), "profiles..tmp");
}

#[test]
fn directories_are_tried_from_the_lowest_up_to_the_base() {
    let tried = |profile: &str, localpath: &str| -> Vec<PathBuf> {
        target(profile, localpath).dirs_to_resolve().iter().map(|d| path_of(d)).collect()
    };
    assert_eq!(
        tried("/srv/profiles", "a/./b//c.txt"),
        vec![
            PathBuf::from("/srv/profiles/a/b"),
            PathBuf::from("/srv/profiles/a"),
            PathBuf::from("/srv/profiles"),
        ]
    );
    assert_eq!(tried("/srv/profiles", "c.txt"), vec![PathBuf::from("/srv/profiles")]);
    assert_eq!(tried("/", "a"), vec![PathBuf::from("/")]);
    assert!(tried("/", ".").is_empty());
}

#[test]
fn nothing_is_created_behind_a_link_out_of_the_base() {
    // link leads to /outside, and /outside/new does not exist
    let place = target("/srv/profiles", "link/new/f.bin");
    let tried: Vec<PathBuf> = place.dirs_to_resolve().iter().map(|d| path_of(d)).collect();
    assert_eq!(tried[0], PathBuf::from("/srv/profiles/link/new"));
    assert_eq!(tried[1], PathBuf::from("/srv/profiles/link"));
    let refusal = place.nearest_resolved(nearest(1, "/outside")).err().unwrap();
    assert_eq!(answer(&refusal), (403, "Resolved path escapes base directory"));
}

#[test]
fn directories_are_created_only_where_the_nearest_one_lies_within_the_base() {
    for elsewhere in ["/", "/srv", "/srv/profiles2", "/srv/profile", "/etc/profiles"] {
        let place = target("/srv/profiles", "a/b/c");
        let refusal = place.nearest_resolved(nearest(1, elsewhere)).err().unwrap();
        assert_eq!(answer(&refusal), (403, "Resolved path escapes base directory"), "{}", elsewhere);
    }
    for inside in ["/srv/profiles", "/srv/profiles/a", "/srv/profiles/x/y"] {
        let place = target("/srv/profiles", "a/b/c");
        let dirs = place.nearest_resolved(nearest(1, inside)).ok().unwrap();
        assert_eq!(
            dirs.dir_to_create().map(|d| path_of(&d)),
            Some(PathBuf::from("/srv/profiles/a/b")),
            "{}",
            inside
        );
    }
    let place = target("/srv/profiles", "link/c");
    let dirs = place.nearest_resolved(nearest(0, "/outside")).ok().unwrap();
    let parent = dirs.dirs_created(Ok(())).ok().unwrap();
    let refusal = parent.dir_resolved(Ok(resolved("/outside"))).err().unwrap();
    assert_eq!(answer(&refusal), (403, "Resolved path escapes base directory"));
    let place = target("/srv/profiles", "a/b/c");
    let refusal = place.nearest_resolved(Err("denied".to_string())).err().unwrap();
    assert_eq!(answer(&refusal), (500, "Cannot resolve target path: denied"));
    assert!(target("/", ".").nearest_resolved(Err("ignored".to_string())).is_ok());
    assert!(target("/", ".").nearest_resolved(nearest(0, "/")).is_ok());
}

#[test]
fn temporary_names_are_those_of_the_platform() {
    for name in ["MyMap.dze", "README", ".gitignore", "a.b.c", "foo.", ".a.b", "h\u{e9}.x", "a"] {
        let path = Path::new(name);
        let expected = path.with_extension(format!(
            "{}.tmp",
            path.extension().unwrap_or_default().to_string_lossy()
        ));
        assert_eq!(temp_name(name), expected.to_str().unwrap());
    }
    assert_eq!(temp_name("MyMap.dze"), "MyMap.dze.tmp");
    assert_eq!(temp_name("README"), "README..tmp");
    assert_eq!(download("a/MyMap.dze").temp_name(), "MyMap.dze.tmp");
}

#[test]
fn the_file_is_asked_of_the_raw_host_with_the_token() {
    let http = download("a/b").request();
    assert_eq!(http.url, "https://raw.githubusercontent.com/me/cfg/main/maps/My%20Map.dze");
    assert_eq!(http.method, Method::Get);
    assert_eq!(http.headers, vec![("Authorization".to_string(), "token t0".to_string())]);
}

#[test]
fn a_failed_request_is_reported() {
    let refusal = download("a").answered(Err("timeout".to_string())).err().unwrap();
    assert_eq!(answer(&refusal), (502, "Download failed: timeout"));
}

#[test]
fn a_refusal_of_github_is_passed_on_in_part() {
    let refused = |body: Option<String>| match download("a").answered(head(404, Some(9))) {
        Ok(WriteAnswer::Refused(refused)) => refused.refused(body),
        _ => panic!("not refused"),
    };
    assert_eq!(
        answer(&refused(Some("no such file".to_string()))),
        (502, "GitHub 404 Not Found: no such file")
    );
    assert_eq!(answer(&refused(None)), (502, "GitHub 404 Not Found: "));
    let long = "x".repeat(300);
    assert_eq!(
        answer(&refused(Some(long))),
        (502, format!("GitHub 404 Not Found: {}", "x".repeat(200)).as_str())
    );
    let exact = format!("{}\u{e9}\u{e9}", "x".repeat(198));
    assert_eq!(
        refused(Some(exact)).body,
        format!("GitHub 404 Not Found: {}\u{e9}", "x".repeat(198))
    );
}

#[test]
fn a_character_at_the_limit_is_left_out_whole() {
    assert_eq!(clip("short", 200), "short");
    assert_eq!(clip("", 200), "");
    assert_eq!(clip("\u{e9}", 0), "");
    let full = "x".repeat(200);
    assert_eq!(clip(&full, 200), full);
    assert_eq!(clip("a\u{1f600}b", 4), "a");
    assert_eq!(clip("a\u{1f600}b", 5), "a\u{1f600}");
    let refused = |body: String| match download("a").answered(head(401, None)) {
        Ok(WriteAnswer::Refused(refused)) => refused.refused(Some(body)),
        _ => panic!("not refused"),
    };
    let body = format!("{}\u{e9}", "x".repeat(199));
    assert_eq!(
        answer(&refused(body.clone())),
        (502, format!("GitHub 401 Unauthorized: {}", "x".repeat(199)).as_str())
    );
    match batch_answered(Ok(status(404))) {
        Ok(BatchAnswer::Refused(refused)) => assert_eq!(
            refused.refused(Some(body)).body,
            format!("LFS batch 404 Not Found: {}", "x".repeat(199))
        ),
        _ => panic!("not refused"),
    }
}

#[test]
fn the_length_decides_how_a_body_is_read() {
    let kind = |len: Option<u64>| match download("a").answered(head(206, len)) {
        Ok(WriteAnswer::Small(_)) => "small",
        Ok(WriteAnswer::Large(_)) => "large",
        _ => "other",
    };
    assert_eq!(kind(None), "small");
    assert_eq!(kind(Some(0)), "small");
    assert_eq!(kind(Some(512)), "small");
    assert_eq!(kind(Some(513)), "large");
}

#[test]
fn a_body_that_cannot_be_read_is_reported() {
    let refusal = small(download("a")).body_read(Err("reset".to_string())).err().unwrap();
    assert_eq!(answer(&refusal), (502, "Read body failed: reset"));
}

#[test]
fn a_plain_body_is_written_byte_for_byte() {
    let bytes = [0u8, 255, 10, 13, 200];
    let file = plain(&bytes);
    assert_eq!(file.bytes().as_slice(), &bytes);
    let staged = file.staged(StageOutcome::Done).ok().unwrap();
    let reply = staged.renamed(Ok(())).ok().unwrap();
    assert_eq!(answer(&reply), (200, "{\"ok\":true,\"bytes\":5}"));
}

#[test]
fn a_plain_body_that_cannot_be_written_is_reported() {
    for (outcome, body) in [
        (StageOutcome::NotCreated("e".to_string()), "Create file failed: e"),
        (StageOutcome::NotWritten("e".to_string()), "Write failed: e"),
        (StageOutcome::NotFlushed("e".to_string()), "Flush failed: e"),
    ] {
        let end = plain(b"x").staged(outcome).err().unwrap();
        assert_eq!(answer(&end.reply), (500, body));
        assert!(!end.remove_temp);
    }
}

#[test]
fn a_streamed_body_is_counted_and_renamed() {
    let large = |outcome: Result<u64, Reply>| match download("a").answered(head(200, Some(9999))) {
        Ok(WriteAnswer::Large(large)) => large.streamed(outcome),
        _ => panic!("not large"),
    };
    let reply = large(Ok(9999)).ok().unwrap().renamed(Ok(())).ok().unwrap();
    assert_eq!(answer(&reply), (200, "{\"ok\":true,\"bytes\":9999}"));
    let end = large(Ok(1)).ok().unwrap().renamed(Err("busy".to_string())).err().unwrap();
    assert_eq!(answer(&end.reply), (500, "Rename failed: busy"));
    assert!(end.remove_temp);
    let failed = stream_response_to_file(Err("full".to_string())).err().unwrap();
    let end = large(Err(failed)).err().unwrap();
    assert_eq!(answer(&end.reply), (500, "Create file failed: full"));
    assert!(end.remove_temp);
}

#[test]
fn the_pieces_of_a_stream_add_up() {
    let mut stream = stream_response_to_file(Ok(())).ok().unwrap();
    for len in [10u64, 0, 5, 1000] {
        assert!(stream.chunk(Chunk::Written(len)).is_ok());
    }
    assert_eq!(stream.count(), 1015);
    assert_eq!(stream.flushed(Ok(())).ok(), Some(1015));
}

#[test]
fn a_broken_stream_is_reported() {
    let mut stream = stream_response_to_file(Ok(())).ok().unwrap();
    let refusal = stream.chunk(Chunk::Lost("reset".to_string())).err().unwrap();
    assert_eq!(answer(&refusal), (502, "Download stream error: reset"));
    let refusal = stream.chunk(Chunk::Unwritten("full".to_string())).err().unwrap();
    assert_eq!(answer(&refusal), (500, "Write failed: full"));
    assert_eq!(stream.count(), 0);
    let refusal = stream.flushed(Err("io".to_string())).err().unwrap();
    assert_eq!(answer(&refusal), (500, "Flush failed: io"));
}

#[test]
fn a_file_of_the_right_size_is_not_downloaded_again() {
    match pointer_next(Some(77)) {
        PointerNext::Present(reply) => {
            assert_eq!(answer(&reply), (200, "{\"ok\":true,\"bytes\":77}"))
        }
        PointerNext::Missing(_) => panic!("missing"),
    }
    assert!(matches!(pointer_next(Some(76)), PointerNext::Missing(_)));
    assert!(matches!(pointer_next(None), PointerNext::Missing(_)));
}

#[test]
fn the_batch_api_is_asked_for_the_pointer() {
    let call = missing().batch_call();
    assert_eq!(call.request.method, Method::Post);
    assert_eq!(call.request.url, "https://github.com/me/cfg.git/info/lfs/objects/batch");
    let headers: Vec<(&str, &str)> =
        call.request.headers.iter().map(|(n, v)| (n.as_str(), v.as_str())).collect();
    assert_eq!(
        headers,
        vec![
            ("Accept", "application/vnd.git-lfs+json"),
            ("Content-Type", "application/vnd.git-lfs+json"),
            ("Authorization", "Bearer t0"),
        ]
    );
    assert_eq!(call.body.operation, "download");
    assert_eq!(call.body.transfers, vec!["basic".to_string()]);
    assert_eq!(call.body.objects.len(), 1);
    assert_eq!(call.body.objects[0].oid, "abcd");
    assert_eq!(call.body.objects[0].size, 77);
}

fn object(action: Option<LfsBatchAction>, error: Option<LfsBatchError>) -> LfsBatchResponseObject {
    LfsBatchResponseObject {
        oid: "abcd".to_string(),
        size: 77,
        actions: action.map(|download| LfsBatchActions { download }),
        error,
    }
}

fn batch(outcome: Result<LfsBatchResponse, String>) -> Result<LfsDownload, Reply> {
    match batch_answered(Ok(status(200))) {
        Ok(BatchAnswer::Accepted(accepted)) => accepted.download(outcome),
        _ => panic!("not accepted"),
    }
}

#[test]
fn the_batch_api_names_a_download() {
    let mut header = HashMap::new();
    header.insert("X".to_string(), "y".to_string());
    let action = LfsBatchAction { href: "https://h/1".to_string(), header: Some(header) };
    let download = batch(Ok(LfsBatchResponse { objects: vec![object(Some(action), None)] })).unwrap();
    assert_eq!(download.method, Method::Get);
    assert_eq!(download.href, "https://h/1");
    assert_eq!(download.headers.get("X"), Some(&"y".to_string()));
    assert_eq!(download.headers.len(), 1);
    let action = LfsBatchAction { href: "https://h/2".to_string(), header: None };
    let objects = vec![object(Some(action), None), object(None, None)];
    let download = batch(Ok(LfsBatchResponse { objects })).unwrap();
    assert_eq!(download.href, "https://h/2");
    assert!(download.headers.is_empty());
}

#[test]
fn errors_of_the_batch_api_are_reported() {
    let refusal = batch(Ok(LfsBatchResponse { objects: Vec::new() })).unwrap_err();
    assert_eq!(answer(&refusal), (502, "LFS batch returned no objects"));
    let refusal = batch(Ok(LfsBatchResponse { objects: vec![object(None, None)] })).unwrap_err();
    assert_eq!(answer(&refusal), (502, "LFS object has no download action"));
    let action = LfsBatchAction { href: "https://h/1".to_string(), header: None };
    let error = LfsBatchError { code: 404, message: "Object does not exist".to_string() };
    let objects = vec![object(Some(action), Some(error))];
    let refusal = batch(Ok(LfsBatchResponse { objects })).unwrap_err();
    assert_eq!(answer(&refusal), (502, "LFS error 404: Object does not exist"));
    let refusal = batch(Err("bad json".to_string())).unwrap_err();
    assert_eq!(answer(&refusal), (502, "LFS batch parse error: bad json"));
    let refusal = batch_answered(Err("timeout".to_string())).unwrap_err();
    assert_eq!(answer(&refusal), (502, "LFS batch failed: timeout"));
    match batch_answered(Ok(status(401))) {
        Ok(BatchAnswer::Refused(refused)) => assert_eq!(
            answer(&refused.refused(Some("denied".to_string()))),
            (502, "LFS batch 401 Unauthorized: denied")
        ),
        _ => panic!("not refused"),
    }
}

#[test]
fn a_handed_over_download_is_counted_and_answered() {
    let mut counters = LfsCounters::new();
    let reply = missing().hand_over(&mut counters);
    assert_eq!(answer(&reply), (200, "{\"ok\":true,\"bytes\":77}"));
    assert_eq!(answer(&handle_lfs_status(&counters)), (200, "{\"pending\":1,\"failed\":0}"));
    assert_eq!(counters.poll_delay(), 1);
}

#[test]
fn the_counts_follow_the_downloads() {
    let done = LfsEnd { failed: false, remove_temp: false };
    let failed = LfsEnd { failed: true, remove_temp: true };
    let mut counters = LfsCounters::new();
    assert_eq!(counters.poll_delay(), 0);
    counters.begin();
    counters.begin();
    counters.begin();
    counters.end(failed);
    assert_eq!(handle_lfs_status(&counters).body, "{\"pending\":2,\"failed\":1}");
    counters.end(done);
    counters.end(failed);
    assert_eq!(handle_lfs_status(&counters).body, "{\"pending\":0,\"failed\":2}");
    assert_eq!(counters.poll_delay(), 0);
}

#[test]
fn a_background_download_ends_in_one_of_two_ways() {
    let end = |code: Option<u16>, complete: bool, done: bool| {
        match background_answered(code.map(status)) {
            Err(end) => end,
            Ok(body) => match body.body_written(complete) {
                Err(end) => end,
                Ok(written) => written.renamed(done),
            },
        }
    };
    assert_eq!(end(None, true, true), LfsEnd { failed: true, remove_temp: false });
    assert_eq!(end(Some(503), true, true), LfsEnd { failed: true, remove_temp: false });
    assert_eq!(end(Some(200), false, true), LfsEnd { failed: true, remove_temp: true });
    assert_eq!(end(Some(200), true, false), LfsEnd { failed: true, remove_temp: true });
    assert_eq!(end(Some(200), true, true), LfsEnd { failed: false, remove_temp: false });
}
