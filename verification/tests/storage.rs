use std::collections::HashMap;

use cadmus::catalog::{default_models, FileSpec};
use cadmus::{CacheSnapshot, CachedFile, Cadmus, CadmusConfig, ModelFamily, ModelRef, ModelSpec};
use cadmus::storage::{
    decimal_string, file_url_to_path, file_url_to_path_windows, has_file_scheme, join,
    percent_decode, Download, DownloadAction, DownloadError, DownloadEvent, PathStyle,
};

fn tiny_files() -> Vec<FileSpec> {
    default_models()
        .into_iter()
        .find(|m| m.name == "tiny")
        .expect("default_models missing tiny")
        .files
}

fn spec(filename: &str, url: &str) -> FileSpec {
    FileSpec { filename: filename.to_string(), url: url.to_string() }
}

/// An in-memory world the download protocol runs against.
#[derive(Default)]
struct World {
    disk: HashMap<String, Vec<u8>>,
    dirs: Vec<String>,
    remote: HashMap<String, Vec<u8>>,
    chunk: usize,
    cancel_after_reports: Option<usize>,
    cancelled_from_start: bool,
    actions: Vec<String>,
    progress: Vec<(u64, u64)>,
}

impl World {
    fn run(&mut self, job: &mut Download) -> Result<(), DownloadError> {
        let mut reader: Vec<u8> = Vec::new();
        let mut offset = 0usize;
        let mut last_read = 0usize;
        let mut temp: Option<(String, Vec<u8>)> = None;
        loop {
            let action = job.next_action();
            self.actions.push(format!("{action:?}"));
            let event = match action {
                DownloadAction::Finish(r) => return r,
                DownloadAction::CheckCancel => {
                    let reports = self.progress.len();
                    let c = self.cancelled_from_start
                        || self.cancel_after_reports.map_or(false, |n| reports >= n);
                    DownloadEvent::Cancel(c)
                }
                DownloadAction::CreateDir(d) => {
                    self.dirs.push(d);
                    DownloadEvent::Done(Ok(()))
                }
                DownloadAction::Probe(p) => {
                    DownloadEvent::Probed(self.disk.get(&p).map(|b| b.len() as u64))
                }
                DownloadAction::StatSource(p) => {
                    DownloadEvent::Stat(Ok(self.disk.get(&p).map(|b| b.len() as u64)))
                }
                DownloadAction::OpenSource(p) => {
                    reader = self.disk.get(&p).cloned().unwrap_or_default();
                    offset = 0;
                    DownloadEvent::Done(Ok(()))
                }
                DownloadAction::OpenRemote(u) => match self.remote.get(&u) {
                    Some(body) => {
                        reader = body.clone();
                        offset = 0;
                        DownloadEvent::Opened(Ok(()))
                    }
                    None => DownloadEvent::Opened(Err(DownloadError::Http(404, String::new()))),
                },
                DownloadAction::CreateTemp(p) => {
                    temp = Some((p, Vec::new()));
                    DownloadEvent::Done(Ok(()))
                }
                DownloadAction::ReadChunk => {
                    let n = self.chunk.min(reader.len() - offset);
                    last_read = n;
                    DownloadEvent::Read(Ok(n))
                }
                DownloadAction::WriteChunk(n) => {
                    assert_eq!(n, last_read);
                    let (_, buf) = temp.as_mut().expect("temp open");
                    buf.extend_from_slice(&reader[offset..offset + n]);
                    offset += n;
                    DownloadEvent::Done(Ok(()))
                }
                DownloadAction::Progress(r, t) => {
                    self.progress.push((r, t));
                    DownloadEvent::Ack
                }
                DownloadAction::Flush => DownloadEvent::Done(Ok(())),
                DownloadAction::Rename(from, to) => {
                    let (p, buf) = temp.take().expect("temp open");
                    assert_eq!(p, from);
                    self.disk.insert(to, buf);
                    DownloadEvent::Done(Ok(()))
                }
                DownloadAction::RemoveTemp(p) => {
                    if let Some((q, _)) = &temp {
                        assert_eq!(q, &p);
                    }
                    temp = None;
                    self.disk.remove(&p);
                    DownloadEvent::Ack
                }
            };
            job.advance(event);
        }
    }
}

#[test]
fn cancel_before_call_returns_cancelled() {
    let dir = "/cache/never-touched-cancelled-target".to_string();
    let mut world = World { cancelled_from_start: true, chunk: 64 * 1024, ..Default::default() };
    let mut job = Download::new(tiny_files(), dir, 1000, PathStyle::Posix);
    let result = world.run(&mut job);
    assert!(matches!(result, Err(DownloadError::Cancelled)));
    assert!(world.dirs.is_empty());
    assert!(world.disk.is_empty());
    assert_eq!(world.actions.len(), 2);
}

#[test]
fn download_fetches_remote_and_local_files_into_dest() {
    let mut world = World { chunk: 3, ..Default::default() };
    world.remote.insert("https://example.com/a.bin".into(), b"0123456789".to_vec());
    world.disk.insert("/src/with space.json".into(), b"{}".to_vec());
    let files = vec![
        spec("a.bin", "https://example.com/a.bin"),
        spec("c.json", "file:///src/with%20space.json"),
    ];
    let mut job = Download::new(files, "/cache/m".into(), 1000, PathStyle::Posix);
    world.run(&mut job).expect("download");
    assert_eq!(world.disk.get("/cache/m/a.bin").unwrap(), b"0123456789");
    assert_eq!(world.disk.get("/cache/m/c.json").unwrap(), b"{}");
    assert!(!world.disk.contains_key("/cache/m/a.bin.part"));
    assert_eq!(world.dirs, vec!["/cache/m".to_string()]);
}

#[test]
fn progress_is_monotonic_against_the_file_total() {
    let mut world = World { chunk: 4, ..Default::default() };
    world.remote.insert("http://127.0.0.1/file.bin".into(), vec![0xAB; 10]);
    let mut job =
        Download::new(vec![spec("file.bin", "http://127.0.0.1/file.bin")], "/c".into(), 10, PathStyle::Posix);
    world.run(&mut job).expect("download");
    assert_eq!(world.progress, vec![(4, 10), (8, 10), (10, 10)]);
}

#[test]
fn progress_covers_the_whole_model_against_its_size() {
    let mut world = World { chunk: 4, ..Default::default() };
    world.remote.insert("https://h/a".into(), vec![1; 6]);
    world.remote.insert("https://h/c".into(), vec![3; 5]);
    world.disk.insert("/m/b".into(), vec![2; 9]);
    let files = vec![spec("a", "https://h/a"), spec("b", "https://h/b"), spec("c", "https://h/c")];
    let mut job = Download::new(files, "/m".into(), 100, PathStyle::Posix);
    world.run(&mut job).expect("download");
    // `b` is already in place and skipped; the bytes of `a` stay counted
    // while `c` is fetched.
    assert_eq!(world.progress, vec![(4, 100), (6, 100), (10, 100), (11, 100)]);
    // The size caps what is reported.
    let mut world = World { chunk: 4, ..Default::default() };
    world.remote.insert("https://h/a".into(), vec![1; 6]);
    let mut job = Download::new(vec![spec("a", "https://h/a")], "/n".into(), 5, PathStyle::Posix);
    world.run(&mut job).expect("download");
    assert_eq!(world.progress, vec![(4, 5), (5, 5)]);
}

#[test]
fn present_files_are_skipped_on_a_second_run() {
    let mut world = World { chunk: 1024, ..Default::default() };
    world.remote.insert("https://h/x".into(), b"xyz".to_vec());
    let files = vec![spec("x", "https://h/x")];
    let mut first = Download::new(files.clone_specs(), "/d".into(), 1000, PathStyle::Posix);
    world.run(&mut first).expect("first");
    let fetched = world.actions.iter().filter(|a| a.starts_with("OpenRemote")).count();
    assert_eq!(fetched, 1);
    world.actions.clear();
    let mut second = Download::new(files, "/d".into(), 1000, PathStyle::Posix);
    world.run(&mut second).expect("second");
    assert!(world.actions.iter().all(|a| !a.starts_with("OpenRemote")));
}

trait CloneSpecs {
    fn clone_specs(&self) -> Vec<FileSpec>;
}

impl CloneSpecs for Vec<FileSpec> {
    fn clone_specs(&self) -> Vec<FileSpec> {
        self.iter().map(|f| f.copy()).collect()
    }
}

#[test]
fn empty_file_counts_as_missing() {
    let mut world = World { chunk: 1024, ..Default::default() };
    world.disk.insert("/d/x".into(), Vec::new());
    world.remote.insert("https://h/x".into(), b"data".to_vec());
    let mut job = Download::new(vec![spec("x", "https://h/x")], "/d".into(), 1000, PathStyle::Posix);
    world.run(&mut job).expect("download");
    assert_eq!(world.disk.get("/d/x").unwrap(), b"data");
}

#[test]
fn cancel_mid_stream_removes_partial_file() {
    let mut world =
        World { chunk: 32 * 1024, cancel_after_reports: Some(1), ..Default::default() };
    world.remote.insert("http://127.0.0.1/file.bin".into(), vec![0u8; 4 * 1024 * 1024]);
    let mut job = Download::new(
        vec![spec("mock-cancel-target", "http://127.0.0.1/file.bin")],
        "/c".into(),
        4 * 1024 * 1024,
        PathStyle::Posix,
    );
    let result = world.run(&mut job);
    assert!(matches!(result, Err(DownloadError::Cancelled)));
    assert!(!world.disk.contains_key("/c/mock-cancel-target.part"));
    assert!(!world.disk.contains_key("/c/mock-cancel-target"));
    assert_eq!(
        world.actions[world.actions.len() - 2],
        "RemoveTemp(\"/c/mock-cancel-target.part\")"
    );
}

#[test]
fn http_error_fails_without_partial_file() {
    let mut world = World { chunk: 10, ..Default::default() };
    let mut job = Download::new(vec![spec("x", "https://h/missing")], "/d".into(), 1000, PathStyle::Posix);
    let result = world.run(&mut job);
    match result {
        Err(e) => {
            assert!(matches!(e, DownloadError::Http(404, _)));
            assert_eq!(e.message(), "http 404: ");
        }
        Ok(()) => panic!("expected an HTTP error"),
    }
    assert!(world.actions.iter().all(|a| !a.starts_with("CreateTemp")));
}

#[test]
fn local_source_that_is_not_a_file_is_an_io_error() {
    let mut world = World { chunk: 10, ..Default::default() };
    let mut job = Download::new(vec![spec("x", "file:///nowhere")], "/d".into(), 1000, PathStyle::Posix);
    match world.run(&mut job) {
        Err(DownloadError::Io(m)) => assert_eq!(m, "\"/nowhere\" is not a regular file"),
        other => panic!("expected Io, got {other:?}"),
    }
    let mut world = World { chunk: 10, ..Default::default() };
    let mut job =
        Download::new(vec![spec("x", "file:///tab%09and%22quote")], "/d".into(), 1000, PathStyle::Posix);
    match world.run(&mut job) {
        Err(DownloadError::Io(m)) => assert_eq!(m, "\"/tab\\tand\\\"quote\" is not a regular file"),
        other => panic!("expected Io, got {other:?}"),
    }
}

#[test]
fn percent_decode_basic() {
    assert_eq!(percent_decode("/foo/bar").unwrap(), "/foo/bar");
    assert_eq!(percent_decode("/foo/with%20space").unwrap(), "/foo/with space");
    // Malformed escape: pass `%` through literally.
    assert_eq!(percent_decode("/foo/100%").unwrap(), "/foo/100%");
    assert_eq!(percent_decode("/a/%C3%A9").unwrap(), "/a/é");
}

#[test]
fn percent_decode_rejects_invalid_utf8() {
    match percent_decode("/a/%FF") {
        Err(DownloadError::Io(m)) => assert!(m.starts_with("invalid utf-8 in file:// path: ")),
        other => panic!("expected Io, got {other:?}"),
    }
    assert_eq!(percent_decode("%41%4a%zz%4").unwrap(), "AJ%zz%4");
}

#[test]
fn file_url_to_path_unix() {
    assert_eq!(file_url_to_path("/foo/bar").unwrap(), "/foo/bar");
    assert_eq!(file_url_to_path("/foo/with%20space").unwrap(), "/foo/with space");
}

#[test]
fn file_url_to_path_windows_drive_letter() {
    assert_eq!(file_url_to_path_windows("/C:/foo/bar").unwrap(), "C:/foo/bar");
    assert_eq!(file_url_to_path_windows("/C:/with%20space").unwrap(), "C:/with space");
}

#[test]
fn windows_paths_without_drive_letter_are_kept() {
    assert_eq!(file_url_to_path_windows("/foo/bar").unwrap(), "/foo/bar");
    assert_eq!(file_url_to_path_windows("/1:/x").unwrap(), "/1:/x");
}

#[test]
fn file_scheme_and_joins() {
    assert!(has_file_scheme("file:///tmp/x"));
    assert!(!has_file_scheme("https://x"));
    assert!(!has_file_scheme("file:/"));
    assert_eq!(join("/cache", "tiny"), "/cache/tiny");
    assert_eq!(join("/cache/", "tiny"), "/cache/tiny");
    assert_eq!(join("", "tiny"), "tiny");
    assert_eq!(join("/cache", "/abs/tiny"), "/abs/tiny");
}

#[test]
fn download_error_messages() {
    assert_eq!(DownloadError::Cancelled.message(), "download cancelled");
    assert_eq!(DownloadError::Http(503, "busy".into()).message(), "http 503: busy");
    assert_eq!(DownloadError::Network("reset".into()).message(), "network: reset");
    assert_eq!(DownloadError::Io("denied".into()).message(), "io: denied");
    assert_eq!(decimal_string(0), "0");
    assert_eq!(decimal_string(1234567890), "1234567890");
}

#[test]
fn downloaded_model_is_found_afterwards() {
    let model = ModelSpec {
        name: "mini".to_string(),
        description: "test model".to_string(),
        size_bytes: 13,
        family: ModelFamily::Whisper,
        multilingual: false,
        files: vec![spec("model.bin", "https://h/model.bin"), spec("config.json", "https://h/config.json")],
    };
    let cadmus =
        Cadmus::new(CadmusConfig { model_cache: "/cache".to_string(), models: vec![model] }, Ok(()))
            .expect("new");
    let mut world = World { chunk: 4, ..Default::default() };
    world.remote.insert("https://h/model.bin".into(), b"0123456789".to_vec());
    world.remote.insert("https://h/config.json".into(), b"{ }".to_vec());
    let snapshot_of = |world: &World| CacheSnapshot {
        files: world
            .disk
            .iter()
            .map(|(p, b)| CachedFile { path: p.clone(), size: b.len() as u64 })
            .collect(),
        dirs: world.dirs.clone(),
    };
    assert_eq!(cadmus.find_model("mini", &snapshot_of(&world)), None);
    let mut job = cadmus.download_model("mini", PathStyle::Posix).expect("configured");
    world.run(&mut job).expect("download");
    let snap = snapshot_of(&world);
    assert_eq!(cadmus.find_model("mini", &snap), Some("/cache/mini".to_string()));
    assert_eq!(cadmus.load_model(ModelRef::name("mini"), &snap).ok(), Some("/cache/mini".to_string()));
    assert!(cadmus.list_available_models(&snap)[0].cached);
    let reported: Vec<u64> = world.progress.iter().map(|(r, _)| *r).collect();
    assert_eq!(reported, vec![4, 8, 10, 13]);
    assert!(world.progress.iter().all(|(_, t)| *t == 13));
}
