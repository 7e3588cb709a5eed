//! The model catalog: consumer-supplied model descriptions, the six
//! built-in defaults, and the runtime view of a model against the cache.

use vstd::prelude::*;

use crate::storage::{join, join_path};

verus! {

/// The architecture family a model belongs to.
#[derive(Debug, Clone, Copy, PartialEq, Eq, Structural)]
pub enum ModelFamily {
    Whisper,
    DistilWhisper,
}

/// One file of a model: the name it gets in the cache and where it comes from.
#[derive(Debug)]
pub struct FileSpec {
    pub filename: String,
    pub url: String,
}

/// Consumer-supplied model description. `filename`s must be unique within a
/// spec: duplicates overwrite each other in the cache.
#[derive(Debug)]
pub struct ModelSpec {
    pub name: String,
    pub description: String,
    pub size_bytes: u64,
    pub family: ModelFamily,
    pub multilingual: bool,
    pub files: Vec<FileSpec>,
}

/// The runtime view of a configured model: its spec without the URLs, plus
/// whether every file is present in the cache.
#[derive(Debug)]
pub struct ModelInfo {
    pub name: String,
    pub description: String,
    pub size_bytes: u64,
    pub family: ModelFamily,
    pub multilingual: bool,
    pub cached: bool,
    pub files: Vec<String>,
}

/// Mathematical value of a [`FileSpec`].
pub struct FileSpecView {
    pub filename: Seq<char>,
    pub url: Seq<char>,
}

/// Mathematical value of a [`ModelSpec`].
pub struct ModelSpecView {
    pub name: Seq<char>,
    pub description: Seq<char>,
    pub size_bytes: u64,
    pub family: ModelFamily,
    pub multilingual: bool,
    pub files: Seq<FileSpecView>,
}

/// Mathematical value of a [`ModelInfo`].
pub struct ModelInfoView {
    pub name: Seq<char>,
    pub description: Seq<char>,
    pub size_bytes: u64,
    pub family: ModelFamily,
    pub multilingual: bool,
    pub cached: bool,
    pub files: Seq<Seq<char>>,
}

impl View for FileSpec {
    type V = FileSpecView;

    open spec fn view(&self) -> FileSpecView {
        FileSpecView { filename: self.filename@, url: self.url@ }
    }
}

impl View for ModelSpec {
    type V = ModelSpecView;

    open spec fn view(&self) -> ModelSpecView {
        ModelSpecView {
            name: self.name@,
            description: self.description@,
            size_bytes: self.size_bytes,
            family: self.family,
            multilingual: self.multilingual,
            files: self.files@.map_values(|f: FileSpec| f@),
        }
    }
}

impl View for ModelInfo {
    type V = ModelInfoView;

    open spec fn view(&self) -> ModelInfoView {
        ModelInfoView {
            name: self.name@,
            description: self.description@,
            size_bytes: self.size_bytes,
            family: self.family,
            multilingual: self.multilingual,
            cached: self.cached,
            files: self.files@.map_values(|f: String| f@),
        }
    }
}

/// The views of a list of specs.
pub open spec fn specs_view(specs: Seq<ModelSpec>) -> Seq<ModelSpecView> {
    specs.map_values(|m: ModelSpec| m@)
}

/// A regular file found in the cache, with its size.
#[derive(Debug)]
pub struct CachedFile {
    pub path: String,
    pub size: u64,
}

/// What a probe of the cache found: the regular files at the paths probed,
/// with their sizes, and the directories among the paths probed. A path
/// absent from `files` is not a regular file in the cache; one absent from
/// `dirs` is not a directory.
#[derive(Debug)]
pub struct CacheSnapshot {
    pub files: Vec<CachedFile>,
    pub dirs: Vec<String>,
}

/// Mathematical value of a [`CachedFile`].
pub struct CachedFileView {
    pub path: Seq<char>,
    pub size: u64,
}

impl View for CachedFile {
    type V = CachedFileView;

    open spec fn view(&self) -> CachedFileView {
        CachedFileView { path: self.path@, size: self.size }
    }
}

/// Mathematical value of a [`CacheSnapshot`].
pub struct CacheSnapshotView {
    pub files: Seq<CachedFileView>,
    pub dirs: Seq<Seq<char>>,
}

impl View for CacheSnapshot {
    type V = CacheSnapshotView;

    open spec fn view(&self) -> CacheSnapshotView {
        CacheSnapshotView {
            files: self.files@.map_values(|f: CachedFile| f@),
            dirs: self.dirs@.map_values(|d: String| d@),
        }
    }
}

/// The size the snapshot records for `path` (its first entry for it).
pub open spec fn size_in(entries: Seq<CachedFileView>, path: Seq<char>) -> Option<u64>
    decreases entries.len(),
{
    if entries.len() == 0 {
        None
    } else if entries[0].path == path {
        Some(entries[0].size)
    } else {
        size_in(entries.drop_first(), path)
    }
}

/// A file counts as present in the cache when it is a regular file of
/// non-zero size.
pub open spec fn file_present(entries: Seq<CachedFileView>, path: Seq<char>) -> bool {
    size_in(entries, path) matches Some(len) && len > 0
}

/// Every listed file is present in directory `dir`.
pub open spec fn all_files_present(
    files: Seq<FileSpecView>,
    dir: Seq<char>,
    entries: Seq<CachedFileView>,
) -> bool {
    forall|i: int|
        0 <= i < files.len() ==> file_present(entries, join_path(dir, #[trigger] files[i].filename))
}

/// The directory of model `name` in cache `cache`.
pub open spec fn model_dir(cache: Seq<char>, name: Seq<char>) -> Seq<char> {
    join_path(cache, name)
}

/// A model is in the cache when its directory exists and every one of its
/// files is present in it.
pub open spec fn model_present(
    files: Seq<FileSpecView>,
    dir: Seq<char>,
    snapshot: CacheSnapshotView,
) -> bool {
    snapshot.dirs.contains(dir) && all_files_present(files, dir, snapshot.files)
}

/// The `ModelInfo` of a spec, given the cache it is looked up in.
pub open spec fn info_of(
    spec: ModelSpecView,
    cache: Seq<char>,
    snapshot: CacheSnapshotView,
) -> ModelInfoView {
    ModelInfoView {
        name: spec.name,
        description: spec.description,
        size_bytes: spec.size_bytes,
        family: spec.family,
        multilingual: spec.multilingual,
        cached: model_present(spec.files, model_dir(cache, spec.name), snapshot),
        files: spec.files.map_values(|f: FileSpecView| f.filename),
    }
}

impl CacheSnapshot {
    /// The size recorded for `path`, if it is a regular file in the cache.
    pub fn size_of(&self, path: &String) -> (r: Option<u64>)
        ensures
            r == size_in(self@.files, path@),
    {
        let ghost fs = self@.files;
        let n = self.files.len();
        let mut k: usize = 0;
        assert(fs.skip(0) =~= fs);
        while k < n
            invariant
                n == self.files@.len(),
                fs == self@.files,
                k <= n,
                size_in(fs.skip(k as int), path@) == size_in(fs, path@),
            decreases n - k,
        {
            assert(fs.skip(k as int)[0] == fs[k as int]);
            assert(fs.skip(k as int).drop_first() =~= fs.skip(k + 1));
            if self.files[k].path == *path {
                return Some(self.files[k].size);
            }
            k = k + 1;
        }
        None
    }

    /// Whether the directory `dir` is in the cache.
    pub fn has_dir(&self, dir: &str) -> (r: bool)
        ensures
            r == self@.dirs.contains(dir@),
    {
        let ghost ds = self@.dirs;
        let n = self.dirs.len();
        let mut k: usize = 0;
        while k < n
            invariant
                n == self.dirs@.len(),
                ds == self@.dirs,
                k <= n,
                forall|j: int| 0 <= j < k ==> ds[j] != dir@,
            decreases n - k,
        {
            if crate::storage::text_eq(self.dirs[k].as_str(), dir) {
                assert(ds[k as int] == dir@);
                return true;
            }
            k = k + 1;
        }
        false
    }
}

/// Decides whether every listed file is present in directory `dir`: a
/// regular file of non-zero size.
pub fn ensure_present_files(files: &Vec<FileSpec>, dir: &str, cache: &CacheSnapshot) -> (r: bool)
    ensures
        r == all_files_present(files@.map_values(|f: FileSpec| f@), dir@, cache@.files),
{
    let ghost fs = files@.map_values(|f: FileSpec| f@);
    let n = files.len();
    let mut i: usize = 0;
    while i < n
        invariant
            n == files@.len(),
            fs == files@.map_values(|f: FileSpec| f@),
            i <= n,
            forall|j: int|
                0 <= j < i ==> file_present(
                    cache@.files,
                    join_path(dir@, #[trigger] fs[j].filename),
                ),
        decreases n - i,
    {
        let path = join(dir, files[i].filename.as_str());
        assert(fs[i as int].filename == files@[i as int].filename@);
        match cache.size_of(&path) {
            Some(len) => {
                if len == 0 {
                    return false;
                }
            },
            None => {
                return false;
            },
        }
        i = i + 1;
    }
    true
}

/// Copies a string.
pub fn copy_string(s: &String) -> (r: String)
    ensures
        r@ == s@,
{
    s.clone()
}

impl FileSpec {
    /// A copy of this file spec.
    pub fn copy(&self) -> (f: FileSpec)
        ensures
            f@ == self@,
    {
        FileSpec { filename: self.filename.clone(), url: self.url.clone() }
    }
}

/// Copies a list of file specs.
pub fn copy_files(files: &Vec<FileSpec>) -> (r: Vec<FileSpec>)
    ensures
        r@.map_values(|f: FileSpec| f@) == files@.map_values(|f: FileSpec| f@),
{
    let mut r: Vec<FileSpec> = Vec::new();
    let n = files.len();
    let mut i: usize = 0;
    while i < n
        invariant
            n == files@.len(),
            i <= n,
            r@.len() == i,
            forall|j: int| 0 <= j < i ==> #[trigger] r@[j]@ == files@[j]@,
        decreases n - i,
    {
        r.push(files[i].copy());
        i = i + 1;
    }
    assert(r@.map_values(|f: FileSpec| f@) =~= files@.map_values(|f: FileSpec| f@));
    r
}

impl ModelSpec {
    /// The runtime view of this spec against cache directory `cache`:
    /// `cached` when the model's directory exists and every file is present
    /// in it.
    pub fn to_info(&self, cache: &str, snapshot: &CacheSnapshot) -> (info: ModelInfo)
        ensures
            info@ == info_of(self@, cache@, snapshot@),
    {
        let dir = join(cache, self.name.as_str());
        let cached = snapshot.has_dir(dir.as_str()) && ensure_present_files(
            &self.files,
            dir.as_str(),
            snapshot,
        );
        let mut names: Vec<String> = Vec::new();
        let n = self.files.len();
        let mut i: usize = 0;
        while i < n
            invariant
                n == self.files@.len(),
                i <= n,
                names@.len() == i,
                forall|j: int| 0 <= j < i ==> #[trigger] names@[j]@ == self.files@[j].filename@,
            decreases n - i,
        {
            names.push(copy_string(&self.files[i].filename));
            i = i + 1;
        }
        let info = ModelInfo {
            name: copy_string(&self.name),
            description: copy_string(&self.description),
            size_bytes: self.size_bytes,
            family: self.family,
            multilingual: self.multilingual,
            cached,
            files: names,
        };
        assert(info@.files =~= self@.files.map_values(|f: FileSpecView| f.filename));
        info
    }

    /// A copy of this spec.
    pub fn copy(&self) -> (m: ModelSpec)
        ensures
            m@ == self@,
    {
        ModelSpec {
            name: self.name.clone(),
            description: self.description.clone(),
            size_bytes: self.size_bytes,
            family: self.family,
            multilingual: self.multilingual,
            files: copy_files(&self.files),
        }
    }
}

/// A file served from the `ctranslate2-4you` float16 conversion of a Whisper size.
pub open spec fn ct4you_file(model: Seq<char>, file: Seq<char>) -> FileSpecView {
    FileSpecView {
        filename: file,
        url: "https://huggingface.co/ctranslate2-4you/whisper-"@ + model
            + "-ct2-float16/resolve/main/"@ + file,
    }
}

/// The `preprocessor_config.json` of the upstream `openai/whisper-*` repository,
/// used where the conversion ships only a placeholder.
pub open spec fn openai_preproc_file(model: Seq<char>) -> FileSpecView {
    FileSpecView {
        filename: "preprocessor_config.json"@,
        url: "https://huggingface.co/openai/whisper-"@ + model
            + "/resolve/main/preprocessor_config.json"@,
    }
}

/// One of the built-in multilingual Whisper defaults.
pub open spec fn default_spec(
    name: Seq<char>,
    description: Seq<char>,
    size_bytes: u64,
    upstream_preproc: bool,
) -> ModelSpecView {
    ModelSpecView {
        name,
        description,
        size_bytes,
        family: ModelFamily::Whisper,
        multilingual: true,
        files: seq![
            ct4you_file(name, "model.bin"@),
            ct4you_file(name, "config.json"@),
            ct4you_file(name, "tokenizer.json"@),
            ct4you_file(name, "vocabulary.json"@),
            if upstream_preproc {
                openai_preproc_file(name)
            } else {
                ct4you_file(name, "preprocessor_config.json"@)
            },
        ],
    }
}

/// The six built-in defaults, in order.
pub open spec fn spec_default_models() -> Seq<ModelSpecView> {
    seq![
        default_spec("tiny"@,
            "39M-parameter Whisper, float16 CT2. Fastest; lowest accuracy. Multilingual."@,
            79_089_164, true),
        default_spec("base"@,
            "74M-parameter Whisper, float16 CT2. Better accuracy than tiny; still fast. Multilingual."@,
            148_768_486, true),
        default_spec("small"@,
            "244M-parameter Whisper, float16 CT2. Common balance of speed and accuracy. Multilingual."@,
            487_097_895, true),
        default_spec("medium"@,
            "769M-parameter Whisper, float16 CT2. Substantially higher accuracy; slower. Multilingual."@,
            1_531_825_451, false),
        default_spec("large-v3"@,
            "1.55B-parameter Whisper, float16 CT2, current generation. Multilingual."@,
            3_091_002_708, false),
        default_spec("large-v3-turbo"@,
            "809M-parameter distilled-decoder Whisper, float16 CT2. ~6x faster than large-v3 with comparable accuracy. Multilingual."@,
            1_621_718_074, false),
    ]
}

fn ct4you(model: &str, file: &str) -> (f: FileSpec)
    ensures
        f@ == ct4you_file(model@, file@),
{
    let url = String::from_str("https://huggingface.co/ctranslate2-4you/whisper-")
        .concat(model)
        .concat("-ct2-float16/resolve/main/")
        .concat(file);
    FileSpec { filename: String::from_str(file), url }
}

fn openai_preproc(model: &str) -> (f: FileSpec)
    ensures
        f@ == openai_preproc_file(model@),
{
    let url = String::from_str("https://huggingface.co/openai/whisper-")
        .concat(model)
        .concat("/resolve/main/preprocessor_config.json");
    FileSpec { filename: String::from_str("preprocessor_config.json"), url }
}

fn default_entry(name: &str, description: &str, size_bytes: u64, upstream_preproc: bool) -> (m: ModelSpec)
    ensures
        m@ == default_spec(name@, description@, size_bytes, upstream_preproc),
{
    let mut files: Vec<FileSpec> = Vec::new();
    files.push(ct4you(name, "model.bin"));
    files.push(ct4you(name, "config.json"));
    files.push(ct4you(name, "tokenizer.json"));
    files.push(ct4you(name, "vocabulary.json"));
    if upstream_preproc {
        files.push(openai_preproc(name));
    } else {
        files.push(ct4you(name, "preprocessor_config.json"));
    }
    let m = ModelSpec {
        name: String::from_str(name),
        description: String::from_str(description),
        size_bytes,
        family: ModelFamily::Whisper,
        multilingual: true,
        files,
    };
    assert(m@.files =~= default_spec(name@, description@, size_bytes, upstream_preproc).files);
    m
}

/// The six multilingual Whisper models (float16 CTranslate2 conversions)
/// that the library publishes as defaults, ready to pass as the configured
/// catalog.
pub fn default_models() -> (models: Vec<ModelSpec>)
    ensures
        specs_view(models@) == spec_default_models(),
{
    let mut models: Vec<ModelSpec> = Vec::new();
    models.push(default_entry("tiny",
        "39M-parameter Whisper, float16 CT2. Fastest; lowest accuracy. Multilingual.",
        79_089_164, true));
    models.push(default_entry("base",
        "74M-parameter Whisper, float16 CT2. Better accuracy than tiny; still fast. Multilingual.",
        148_768_486, true));
    models.push(default_entry("small",
        "244M-parameter Whisper, float16 CT2. Common balance of speed and accuracy. Multilingual.",
        487_097_895, true));
    models.push(default_entry("medium",
        "769M-parameter Whisper, float16 CT2. Substantially higher accuracy; slower. Multilingual.",
        1_531_825_451, false));
    models.push(default_entry("large-v3",
        "1.55B-parameter Whisper, float16 CT2, current generation. Multilingual.",
        3_091_002_708, false));
    models.push(default_entry("large-v3-turbo",
        "809M-parameter distilled-decoder Whisper, float16 CT2. ~6x faster than large-v3 with comparable accuracy. Multilingual.",
        1_621_718_074, false));
    assert(specs_view(models@) =~= spec_default_models());
    models
}

/// The defaults are six multilingual Whisper models, each with a
/// description, a non-zero size and five files, under six distinct names:
/// `tiny`, `base`, `small`, `medium`, `large-v3`, `large-v3-turbo`.
pub proof fn lemma_default_models_shape()
    ensures
        spec_default_models().len() == 6,
        forall|i: int|
            0 <= i < 6 ==> {
                let m = #[trigger] spec_default_models()[i];
                &&& m.family == ModelFamily::Whisper
                &&& m.multilingual
                &&& m.size_bytes > 0
                &&& m.description.len() > 0
                &&& m.files.len() == 5
            },
        forall|i: int, j: int|
            0 <= i < j < 6 ==> #[trigger] spec_default_models()[i].name
                != #[trigger] spec_default_models()[j].name,
{
    reveal_strlit("tiny");
    reveal_strlit("base");
    reveal_strlit("small");
    reveal_strlit("medium");
    reveal_strlit("large-v3");
    reveal_strlit("large-v3-turbo");
    reveal_strlit("39M-parameter Whisper, float16 CT2. Fastest; lowest accuracy. Multilingual.");
    reveal_strlit("74M-parameter Whisper, float16 CT2. Better accuracy than tiny; still fast. Multilingual.");
    reveal_strlit("244M-parameter Whisper, float16 CT2. Common balance of speed and accuracy. Multilingual.");
    reveal_strlit("769M-parameter Whisper, float16 CT2. Substantially higher accuracy; slower. Multilingual.");
    reveal_strlit("1.55B-parameter Whisper, float16 CT2, current generation. Multilingual.");
    reveal_strlit("809M-parameter distilled-decoder Whisper, float16 CT2. ~6x faster than large-v3 with comparable accuracy. Multilingual.");
    let d = spec_default_models();
    assert(d[0].name[0] == 't');
    assert(d[1].name[0] == 'b');
    assert(d[2].name[0] == 's');
    assert(d[3].name[0] == 'm');
    assert(d[4].name.len() == 8);
    assert(d[5].name.len() == 14);
}


/// The defaults, by position: `tiny`, `base`, `small`, `medium`,
/// `large-v3` and `large-v3-turbo`. Each has the files `model.bin`,
/// `config.json`, `tokenizer.json` and `vocabulary.json` from the
/// `ctranslate2-4you` float16 conversion; the three smallest take their
/// `preprocessor_config.json` from the upstream `openai/whisper-*`
/// repository (the conversion ships only a placeholder there), the three
/// largest from the conversion.
pub proof fn lemma_default_models_files()
    ensures
        spec_default_models()[0].name == "tiny"@,
        spec_default_models()[1].name == "base"@,
        spec_default_models()[2].name == "small"@,
        spec_default_models()[3].name == "medium"@,
        spec_default_models()[4].name == "large-v3"@,
        spec_default_models()[5].name == "large-v3-turbo"@,
        forall|i: int|
            0 <= i < 6 ==> {
                let m = #[trigger] spec_default_models()[i];
                let conv = "https://huggingface.co/ctranslate2-4you/whisper-"@ + m.name
                    + "-ct2-float16/resolve/main/"@;
                &&& m.files.len() == 5
                &&& m.files[0].filename == "model.bin"@
                &&& m.files[0].url == conv + "model.bin"@
                &&& m.files[1].filename == "config.json"@
                &&& m.files[1].url == conv + "config.json"@
                &&& m.files[2].filename == "tokenizer.json"@
                &&& m.files[2].url == conv + "tokenizer.json"@
                &&& m.files[3].filename == "vocabulary.json"@
                &&& m.files[3].url == conv + "vocabulary.json"@
                &&& m.files[4].filename == "preprocessor_config.json"@
                &&& (i < 3 ==> m.files[4].url == "https://huggingface.co/openai/whisper-"@ + m.name
                    + "/resolve/main/preprocessor_config.json"@)
                &&& (i >= 3 ==> m.files[4].url == conv + "preprocessor_config.json"@)
            },
{
}


/// The runtime view of a model carries its spec over unchanged (name,
/// description, size, family, multilingual flag and the file names in
/// order) and is `cached` exactly when the model's directory in the cache
/// exists and every file is a regular file of non-zero size in it.
pub proof fn lemma_info_keeps_spec(spec: ModelSpecView, cache: Seq<char>, snapshot: CacheSnapshotView)
    ensures
        info_of(spec, cache, snapshot).name == spec.name,
        info_of(spec, cache, snapshot).description == spec.description,
        info_of(spec, cache, snapshot).size_bytes == spec.size_bytes,
        info_of(spec, cache, snapshot).family == spec.family,
        info_of(spec, cache, snapshot).multilingual == spec.multilingual,
        info_of(spec, cache, snapshot).files.len() == spec.files.len(),
        forall|i: int|
            0 <= i < spec.files.len() ==> #[trigger] info_of(spec, cache, snapshot).files[i]
                == spec.files[i].filename,
        info_of(spec, cache, snapshot).cached <==> {
            &&& snapshot.dirs.contains(join_path(cache, spec.name))
            &&& forall|i: int|
                0 <= i < spec.files.len() ==> (size_in(
                    snapshot.files,
                    join_path(join_path(cache, spec.name), #[trigger] spec.files[i].filename),
                ) matches Some(n) && n > 0)
        },
{
}

} // verus!
