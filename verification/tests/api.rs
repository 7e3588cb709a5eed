use cadmus::bridge::{
    err_code, family_name, parse_family, CadmusConfigJs, LoadModelOptionsJs, ModelRefJs,
    TranscribeOptionsJs, VersionJs,
};
use cadmus::catalog::ensure_present_files;
use cadmus::{
    default_models, version, CacheSnapshot, CachedFile, Cadmus, CadmusConfig, CadmusError,
    ComputeType, DownloadAction, FileSpec, LoadModelOptions, ModelFamily, ModelRef, ModelSpec,
    PathStyle, TranscribeOptions,
};

fn cadmus(cache: &str) -> Cadmus {
    Cadmus::new(CadmusConfig { model_cache: cache.to_string(), models: default_models() }, Ok(()))
        .expect("new failed")
}

fn snapshot(entries: &[(&str, u64)]) -> CacheSnapshot {
    CacheSnapshot {
        files: entries
            .iter()
            .map(|(p, s)| CachedFile { path: p.to_string(), size: *s })
            .collect(),
        dirs: Vec::new(),
    }
}

fn tiny_present(cache: &str) -> CacheSnapshot {
    let names = ["model.bin", "config.json", "tokenizer.json", "vocabulary.json", "preprocessor_config.json"];
    CacheSnapshot {
        files: names
            .iter()
            .map(|n| CachedFile { path: format!("{cache}/tiny/{n}"), size: 7 })
            .collect(),
        dirs: vec![format!("{cache}/tiny")],
    }
}

#[test]
fn version_returns_three_string_fields() {
    let v = version();
    assert_eq!(v.cadmus, "2.0.0");
    let _: String = v.ct2rs;
    let _: String = v.ctranslate2;
}

#[test]
fn err_code_covers_every_variant() {
    for (e, expected) in [
        (CadmusError::Load("x".into()), "Load"),
        (CadmusError::Decode("x".into()), "Decode"),
        (CadmusError::Resample("x".into()), "Resample"),
        (CadmusError::Inference("x".into()), "Inference"),
        (CadmusError::Poisoned, "Poisoned"),
        (CadmusError::AlreadyFreed, "AlreadyFreed"),
        (CadmusError::UnknownModel("x".into()), "UnknownModel"),
        (CadmusError::Download("x".into()), "Download"),
        (CadmusError::Io("x".into()), "Io"),
    ] {
        assert_eq!(err_code(&e), expected);
    }
    assert_eq!(err_code(&CadmusError::InvalidArgument("x".into())), "InvalidArgument");
}

#[test]
fn model_info_js_family_round_trip() {
    assert_eq!(family_name(ModelFamily::Whisper), "whisper");
    assert_eq!(family_name(ModelFamily::DistilWhisper), "distil_whisper");
}

#[test]
fn unknown_model_returns_unknown_model_error() {
    let c = cadmus("/cache");
    let result = c.download_model("nonexistent-name", PathStyle::Posix);
    assert!(matches!(result, Err(CadmusError::UnknownModel(_))));
    let snap = snapshot(&[]);
    let result = c.load_model(ModelRef::from("nonexistent-name".to_string()), &snap);
    assert!(matches!(result, Err(CadmusError::UnknownModel(_))));
    assert!(c.find_model("nonexistent-name", &snap).is_none());
}

#[test]
fn default_models_are_the_six_multilingual_whisper_sizes() {
    let models = default_models();
    let names: Vec<&str> = models.iter().map(|m| m.name.as_str()).collect();
    assert_eq!(names, vec!["tiny", "base", "small", "medium", "large-v3", "large-v3-turbo"]);
    for m in &models {
        assert_eq!(m.family, ModelFamily::Whisper);
        assert!(m.multilingual);
        assert!(m.size_bytes > 0);
        assert!(!m.description.is_empty());
        assert_eq!(m.files.len(), 5);
    }
    assert_eq!(
        models[0].files[0].url,
        "https://huggingface.co/ctranslate2-4you/whisper-tiny-ct2-float16/resolve/main/model.bin"
    );
    assert_eq!(
        models[0].files[4].url,
        "https://huggingface.co/openai/whisper-tiny/resolve/main/preprocessor_config.json"
    );
    assert_eq!(
        models[3].files[4].url,
        "https://huggingface.co/ctranslate2-4you/whisper-medium-ct2-float16/resolve/main/preprocessor_config.json"
    );
    assert_eq!(models[0].size_bytes, 79_089_164);
}

#[test]
fn listing_reports_cached_state() {
    let c = cadmus("/cache");
    let infos = c.list_available_models(&tiny_present("/cache"));
    assert_eq!(infos.len(), 6);
    assert!(infos[0].cached);
    assert!(infos[1..].iter().all(|i| !i.cached));
    assert_eq!(infos[0].files, vec![
        "model.bin", "config.json", "tokenizer.json", "vocabulary.json", "preprocessor_config.json",
    ]);
    assert_eq!(c.find_model("tiny", &tiny_present("/cache")), Some("/cache/tiny".to_string()));
    assert_eq!(c.find_model("base", &tiny_present("/cache")), None);
}

#[test]
fn empty_catalog_lists_nothing() {
    let c = Cadmus::new(CadmusConfig { model_cache: "/c".into(), models: Vec::new() }, Ok(()))
        .expect("new");
    assert!(c.list_available_models(&snapshot(&[])).is_empty());
    assert!(matches!(c.download_model("tiny", PathStyle::Posix), Err(CadmusError::UnknownModel(_))));
}

#[test]
fn new_reports_cache_creation_failure_as_io() {
    let r = Cadmus::new(
        CadmusConfig { model_cache: "/blocked".into(), models: default_models() },
        Err("File exists".to_string()),
    );
    match r {
        Err(CadmusError::Io(m)) => assert_eq!(m, "creating cache \"/blocked\": File exists"),
        Err(e) => panic!("expected Io error; got {e:?}"),
        Ok(_) => panic!("expected Io error; new() succeeded"),
    }
    let r = Cadmus::new(
        CadmusConfig { model_cache: "/a \"b\"\\c".into(), models: default_models() },
        Err("denied".to_string()),
    );
    match r {
        Err(CadmusError::Io(m)) => assert_eq!(m, "creating cache \"/a \\\"b\\\"\\\\c\": denied"),
        Err(e) => panic!("expected Io error; got {e:?}"),
        Ok(_) => panic!("expected Io error; new() succeeded"),
    }
}

#[test]
fn load_model_resolves_names_and_paths() {
    let c = cadmus("/cache");
    let dir = c.load_model(ModelRef::name("tiny"), &tiny_present("/cache")).expect("load");
    assert_eq!(dir, "/cache/tiny");
    match c.load_model(ModelRef::name("base"), &tiny_present("/cache")) {
        Err(CadmusError::Load(m)) => assert_eq!(
            m,
            "model \"base\" not present in cache \"/cache\" \u{2014} call download_model first"
        ),
        other => panic!("expected Load, got {other:?}"),
    }
    let p = c.load_model(ModelRef::path("/models/x"), &snapshot(&[])).expect("path");
    assert_eq!(p, "/models/x");
}

#[test]
fn ensure_present_distinguishes_states() {
    let files: Vec<FileSpec> = default_models().remove(0).files;
    let missing = snapshot(&[]);
    assert!(!ensure_present_files(&files, "/t", &missing));
    let empty: Vec<(String, u64)> = files.iter().map(|f| (format!("/t/{}", f.filename), 0)).collect();
    let empty = CacheSnapshot {
        files: empty.into_iter().map(|(p, s)| CachedFile { path: p, size: s }).collect(),
        dirs: vec!["/t".to_string()],
    };
    assert!(!ensure_present_files(&files, "/t", &empty));
    let full = CacheSnapshot {
        files: files
            .iter()
            .map(|f| CachedFile { path: format!("/t/{}", f.filename), size: 1 })
            .collect(),
        dirs: vec!["/t".to_string()],
    };
    assert!(ensure_present_files(&files, "/t", &full));
}

#[test]
fn download_model_targets_the_model_directory() {
    let c = cadmus("/cache");
    let job = c.download_model("base", PathStyle::Posix).expect("known model");
    assert_eq!(job.dest(), "/cache/base");
    assert!(matches!(job.next_action(), DownloadAction::CheckCancel));
}

#[test]
fn model_ref_js_requires_exactly_one_field() {
    let both = ModelRefJs { name: Some("a".into()), path: Some("b".into()) };
    assert!(matches!(both.into_core(), Err(CadmusError::InvalidArgument(_))));
    let neither = ModelRefJs { name: None, path: None };
    assert!(matches!(neither.into_core(), Err(CadmusError::InvalidArgument(_))));
    let name = ModelRefJs { name: Some("tiny".into()), path: None };
    assert!(matches!(name.into_core(), Ok(ModelRef::Name(n)) if n == "tiny"));
    let path = ModelRefJs { name: None, path: Some("/m".into()) };
    assert!(matches!(path.into_core(), Ok(ModelRef::Path(p)) if p == "/m"));
}

#[test]
fn load_options_js_parse_compute_type() {
    let o = LoadModelOptionsJs { threads: Some(4), compute_type: None }.into_core().unwrap();
    assert_eq!(o.threads, Some(4));
    assert_eq!(o.compute_type, ComputeType::Auto);
    for (s, c) in [
        ("auto", ComputeType::Auto),
        ("int8", ComputeType::Int8),
        ("int8_float16", ComputeType::Int8Float16),
        ("float16", ComputeType::Float16),
        ("float32", ComputeType::Float32),
    ] {
        let o = LoadModelOptionsJs { threads: None, compute_type: Some(s.into()) }.into_core().unwrap();
        assert_eq!(o.compute_type, c);
    }
    match (LoadModelOptionsJs { threads: None, compute_type: Some("int4".into()) }).into_core() {
        Err(CadmusError::InvalidArgument(m)) => assert_eq!(m, "unknown computeType: int4"),
        other => panic!("expected InvalidArgument, got {other:?}"),
    }
}

#[test]
fn js_shapes_convert() {
    let v: VersionJs = version().into();
    assert_eq!(v.cadmus, "2.0.0");
    let t: TranscribeOptions =
        TranscribeOptionsJs { language: Some("de".into()), beam_size: Some(5) }.into();
    assert_eq!(t.language.as_deref(), Some("de"));
    assert_eq!(t.beam_size, Some(5));
    let c: CadmusConfig = CadmusConfigJs { model_cache: "/c".into(), models: Vec::<ModelSpec>::new() }.into();
    assert_eq!(c.model_cache, "/c");
    let d = LoadModelOptions::default();
    assert_eq!(d.threads, None);
    assert_eq!(d.compute_type, ComputeType::Auto);
    let d = TranscribeOptions::default();
    assert!(d.language.is_none() && d.beam_size.is_none());
}

#[test]
fn error_messages() {
    assert_eq!(
        CadmusError::UnknownModel("x".into()).message(),
        "model x not configured in this Cadmus instance"
    );
    assert_eq!(CadmusError::AlreadyFreed.message(), "model already freed");
    assert_eq!(CadmusError::Poisoned.message(), "internal lock poisoned");
    let e = CadmusError::from_download(cadmus::DownloadError::Cancelled);
    assert!(matches!(&e, CadmusError::Download(m) if m == "download cancelled"));
    assert_eq!(e.message(), "download: download cancelled");
}

#[test]
fn family_names_parse_back() {
    for f in [ModelFamily::Whisper, ModelFamily::DistilWhisper] {
        assert_eq!(parse_family(family_name(f)).ok(), Some(f));
    }
    match parse_family("whisperx") {
        Err(CadmusError::InvalidArgument(m)) => assert_eq!(m, "unknown family: whisperx"),
        other => panic!("unexpected {other:?}"),
    }
}

#[test]
fn model_size_follows_the_catalog() {
    let c = cadmus("/cache");
    let tiny = default_models().into_iter().find(|m| m.name == "tiny").unwrap();
    assert_eq!(c.model_size_bytes("tiny"), Some(tiny.size_bytes));
    assert_eq!(c.model_size_bytes("nonexistent-name"), None);
}

#[test]
fn a_model_needs_its_directory_to_count_as_cached() {
    let empty_model = ModelSpec {
        name: "nothing".to_string(),
        description: String::new(),
        size_bytes: 0,
        family: ModelFamily::Whisper,
        multilingual: false,
        files: Vec::new(),
    };
    let c = Cadmus::new(CadmusConfig { model_cache: "/cache".into(), models: vec![empty_model] }, Ok(()))
        .expect("new");
    let no_dir = snapshot(&[]);
    assert_eq!(c.find_model("nothing", &no_dir), None);
    assert!(!c.list_available_models(&no_dir)[0].cached);
    assert!(matches!(c.load_model(ModelRef::name("nothing"), &no_dir), Err(CadmusError::Load(_))));
    let with_dir = CacheSnapshot { files: Vec::new(), dirs: vec!["/cache/nothing".to_string()] };
    assert_eq!(c.find_model("nothing", &with_dir), Some("/cache/nothing".to_string()));
    assert!(c.list_available_models(&with_dir)[0].cached);
    // Every file present but the directory not reported: not cached.
    let mut files_only = tiny_present("/cache");
    files_only.dirs.clear();
    let d = cadmus("/cache");
    assert_eq!(d.find_model("tiny", &files_only), None);
    assert_eq!(d.model_dirs()[0], "/cache/tiny");
}

#[test]
fn listing_agrees_with_find_model() {
    let c = cadmus("/cache");
    for snap in [snapshot(&[]), tiny_present("/cache")] {
        for info in c.list_available_models(&snap) {
            let found = c.find_model(&info.name, &snap);
            assert_eq!(info.cached, found.is_some());
            if info.cached {
                assert_eq!(found, Some(format!("/cache/{}", info.name)));
            }
        }
    }
}
