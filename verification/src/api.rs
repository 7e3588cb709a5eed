//! The public surface: the `Cadmus` handle over a model cache and a
//! configured catalog, model references, and the option types.
//!
//! Every decision the handle makes is taken here; the filesystem work it
//! depends on is passed in (a snapshot of the cache, the outcome of
//! creating it) or asked for (the steps of a [`Download`]).

use vstd::prelude::*;

use crate::catalog::{
    file_present, info_of, model_dir, model_present, size_in, specs_view, CacheSnapshot,
    CacheSnapshotView, FileSpecView, ModelInfo, ModelInfoView, ModelSpec, ModelSpecView,
    copy_files, ensure_present_files,
};
use crate::error::{CadmusError, CadmusErrorView};
use crate::storage::{
    download_start, faithful_run, join, join_path, lemma_success_leaves_files_in_place,
    no_empty_transfer, no_part_clash, path_debug, path_debug_text, pending_action, str_debug,
    str_debug_text, text_eq, ActionView, Download,
    DownloadState, EventView, FileSystem, PathStyle,
};

verus! {

/// How the inference engine stores weights while it runs.
#[derive(Debug, Clone, Copy, PartialEq, Eq, Structural)]
pub enum ComputeType {
    /// The engine chooses from the model.
    Auto,
    Int8,
    Int8Float16,
    Float16,
    Float32,
}

impl Default for ComputeType {
    fn default() -> (c: ComputeType)
        ensures
            c == ComputeType::Auto,
    {
        ComputeType::Auto
    }
}

/// Options for loading a model.
#[derive(Debug)]
pub struct LoadModelOptions {
    /// Threads per replica; `None` leaves it to the engine (logical CPU count).
    pub threads: Option<u32>,
    pub compute_type: ComputeType,
}

impl Default for LoadModelOptions {
    fn default() -> (o: LoadModelOptions)
        ensures
            o.threads is None,
            o.compute_type == ComputeType::Auto,
    {
        LoadModelOptions { threads: None, compute_type: ComputeType::Auto }
    }
}

/// Options for one transcription.
#[derive(Debug)]
pub struct TranscribeOptions {
    /// The spoken language; `None` lets Whisper detect it.
    pub language: Option<String>,
    /// Beam width; `None` keeps the engine's default.
    pub beam_size: Option<u32>,
}

impl Default for TranscribeOptions {
    fn default() -> (o: TranscribeOptions)
        ensures
            o.language is None,
            o.beam_size is None,
    {
        TranscribeOptions { language: None, beam_size: None }
    }
}

/// A model named in the configured catalog, or a model directory.
#[derive(Debug)]
pub enum ModelRef {
    Name(String),
    Path(String),
}

impl ModelRef {
    /// A reference to a configured model by name.
    pub fn name(n: &str) -> (r: ModelRef)
        ensures
            r matches ModelRef::Name(s) && s@ == n@,
    {
        ModelRef::Name(String::from_str(n))
    }

    /// A reference to a model directory.
    pub fn path(p: &str) -> (r: ModelRef)
        ensures
            r matches ModelRef::Path(s) && s@ == p@,
    {
        ModelRef::Path(String::from_str(p))
    }
}

impl From<String> for ModelRef {
    fn from(s: String) -> (r: ModelRef) {
        ModelRef::Name(s)
    }
}

impl vstd::std_specs::convert::FromSpecImpl<String> for ModelRef {
    open spec fn obeys_from_spec() -> bool {
        true
    }

    open spec fn from_spec(s: String) -> ModelRef {
        ModelRef::Name(s)
    }
}

/// Where the models live and which models exist.
#[derive(Debug)]
pub struct CadmusConfig {
    /// The cache directory; created if absent.
    pub model_cache: String,
    /// The catalog; `default_models()` gives the six built-in defaults.
    pub models: Vec<ModelSpec>,
}

/// A handle on a model cache and its configured catalog.
pub struct Cadmus {
    cache: String,
    models: Vec<ModelSpec>,
}

/// Mathematical value of a [`Cadmus`].
pub ghost struct CadmusView {
    pub cache: Seq<char>,
    pub models: Seq<ModelSpecView>,
}

impl View for Cadmus {
    type V = CadmusView;

    closed spec fn view(&self) -> CadmusView {
        CadmusView { cache: self.cache@, models: specs_view(self.models@) }
    }
}

/// The paths of a model's files in its directory of the cache.
pub open spec fn model_paths(cache: Seq<char>, m: ModelSpecView) -> Seq<Seq<char>> {
    m.files.map_values(|f: FileSpecView| join_path(model_dir(cache, m.name), f.filename))
}

/// The paths of every configured model's files, model after model.
pub open spec fn cache_paths(cache: Seq<char>, models: Seq<ModelSpecView>) -> Seq<Seq<char>>
    decreases models.len(),
{
    if models.len() == 0 {
        Seq::empty()
    } else {
        cache_paths(cache, models.drop_last()) + model_paths(cache, models.last())
    }
}

/// The position of the first configured model called `name`, searching
/// from position `k`.
pub open spec fn lookup_from(models: Seq<ModelSpecView>, name: Seq<char>, k: int) -> Option<int>
    decreases models.len() - k,
{
    if k < 0 || k >= models.len() {
        None
    } else if models[k].name == name {
        Some(k)
    } else {
        lookup_from(models, name, k + 1)
    }
}

/// A position found by `lookup_from` holds a model of that name.
pub proof fn lemma_lookup_from(models: Seq<ModelSpecView>, name: Seq<char>, j: int)
    requires
        j >= 0,
    ensures
        lookup_from(models, name, j) matches Some(k) ==> j <= k < models.len() && models[k].name
            == name,
        lookup_from(models, name, j) is None ==> forall|k: int|
            j <= k < models.len() ==> models[k].name != name,
    decreases models.len() - j,
{
    if j < models.len() && models[j].name != name {
        lemma_lookup_from(models, name, j + 1);
    }
}

/// The position of the first configured model called `name`.
pub open spec fn lookup(models: Seq<ModelSpecView>, name: Seq<char>) -> Option<int> {
    lookup_from(models, name, 0)
}

/// The message of a cache directory that could not be created.
pub open spec fn cache_error(cache: Seq<char>, detail: Seq<char>) -> CadmusErrorView {
    CadmusErrorView::Io("creating cache "@ + path_debug_text(cache) + ": "@ + detail)
}

/// The message of a named model whose files are not all in the cache.
pub open spec fn not_cached_error(name: Seq<char>, cache: Seq<char>) -> CadmusErrorView {
    CadmusErrorView::Load(
        "model "@ + str_debug_text(name) + " not present in cache "@ + path_debug_text(cache)
            + " \u{2014} call download_model first"@,
    )
}

/// The result of resolving a model reference against the cache.
pub open spec fn resolve_model_ref(
    c: CadmusView,
    r: ModelRefView,
    snapshot: CacheSnapshotView,
) -> Result<Seq<char>, CadmusErrorView> {
    match r {
        ModelRefView::Path(p) => Ok(p),
        ModelRefView::Name(n) => match lookup(c.models, n) {
            None => Err(CadmusErrorView::UnknownModel(n)),
            Some(k) => if model_present(c.models[k].files, model_dir(c.cache, n), snapshot) {
                Ok(model_dir(c.cache, n))
            } else {
                Err(not_cached_error(n, c.cache))
            },
        },
    }
}

/// What `find_model` finds: the directory of the configured model `name`
/// when it is in the cache, and nothing otherwise.
pub open spec fn found_model(c: CadmusView, name: Seq<char>, snapshot: CacheSnapshotView) -> Option<
    Seq<char>,
> {
    match lookup(c.models, name) {
        None => None,
        Some(k) => if model_present(c.models[k].files, model_dir(c.cache, name), snapshot) {
            Some(model_dir(c.cache, name))
        } else {
            None
        },
    }
}

/// Mathematical value of a [`ModelRef`].
pub ghost enum ModelRefView {
    Name(Seq<char>),
    Path(Seq<char>),
}

impl View for ModelRef {
    type V = ModelRefView;

    open spec fn view(&self) -> ModelRefView {
        match self {
            ModelRef::Name(n) => ModelRefView::Name(n@),
            ModelRef::Path(p) => ModelRefView::Path(p@),
        }
    }
}

impl Cadmus {
    /// A handle on the configured cache and catalog, given the outcome of
    /// creating the cache directory (and its parents) if it was absent.
    pub fn new(config: CadmusConfig, cache_created: Result<(), String>) -> (r: Result<Cadmus, CadmusError>)
        ensures
            match (cache_created, r) {
                (Ok(()), Ok(c)) => c@.cache == config.model_cache@ && c@.models == specs_view(
                    config.models@,
                ),
                (Err(m), Err(e)) => e@ == cache_error(config.model_cache@, m@),
                _ => false,
            },
    {
        match cache_created {
            Ok(()) => Ok(Cadmus { cache: config.model_cache, models: config.models }),
            Err(m) => Err(
                CadmusError::Io(
                    String::from_str("creating cache ").concat(
                        path_debug(config.model_cache.as_str()).as_str(),
                    ).concat(": ").concat(m.as_str()),
                ),
            ),
        }
    }

    /// The position of the configured model called `name`.
    fn model_index(&self, name: &str) -> (r: Option<usize>)
        ensures
            match r {
                Some(k) => lookup(self@.models, name@) == Some(k as int),
                None => lookup(self@.models, name@) is None,
            },
            r matches Some(k) ==> k < self.models@.len() && self@.models[k as int].name == name@
                && self.models@[k as int]@ == self@.models[k as int],
    {
        proof {
            lemma_lookup_from(self@.models, name@, 0);
        }
        let n = self.models.len();
        let mut k: usize = 0;
        while k < n
            invariant
                n == self.models@.len(),
                k <= n,
                specs_view(self.models@).len() == n,
                lookup_from(specs_view(self.models@), name@, k as int) == lookup(
                    specs_view(self.models@),
                    name@,
                ),
            decreases n - k,
        {
            if text_eq(self.models[k].name.as_str(), name) {
                return Some(k);
            }
            k = k + 1;
        }
        None
    }

    /// The declared size of the configured model `name`, the total a
    /// download's progress is reported against.
    pub fn model_size_bytes(&self, name: &str) -> (r: Option<u64>)
        ensures
            match lookup(self@.models, name@) {
                None => r is None,
                Some(k) => r == Some(self@.models[k].size_bytes),
            },
    {
        match self.model_index(name) {
            None => None,
            Some(k) => Some(self.models[k].size_bytes),
        }
    }

    /// The paths a probe of the cache has to look at: every file of every
    /// configured model, in its model's directory, model after model.
    pub fn probe_paths(&self) -> (paths: Vec<String>)
        ensures
            paths@.map_values(|p: String| p@) == cache_paths(self@.cache, self@.models),
    {
        let mut paths: Vec<String> = Vec::new();
        let n = self.models.len();
        let mut k: usize = 0;
        assert(self@.models.take(0) =~= Seq::<ModelSpecView>::empty());
        assert(paths@.map_values(|p: String| p@) =~= Seq::<Seq<char>>::empty());
        while k < n
            invariant
                n == self.models@.len(),
                n == self@.models.len(),
                k <= n,
                paths@.map_values(|p: String| p@) == cache_paths(
                    self@.cache,
                    self@.models.take(k as int),
                ),
            decreases n - k,
        {
            let dir = join(self.cache.as_str(), self.models[k].name.as_str());
            let m = self.models[k].files.len();
            let ghost base = paths@.map_values(|p: String| p@);
            let ghost mp = model_paths(self@.cache, self@.models[k as int]);
            let mut i: usize = 0;
            assert(mp.take(0) =~= Seq::<Seq<char>>::empty());
            assert(base + mp.take(0) =~= base);
            while i < m
                invariant
                    n == self.models@.len(),
                    n == self@.models.len(),
                    k < n,
                    m == self.models@[k as int].files@.len(),
                    m == self@.models[k as int].files.len(),
                    mp == model_paths(self@.cache, self@.models[k as int]),
                    mp.len() == m,
                    i <= m,
                    dir@ == model_dir(self@.cache, self@.models[k as int].name),
                    paths@.map_values(|p: String| p@) == base + mp.take(i as int),
                decreases m - i,
            {
                let p = join(dir.as_str(), self.models[k].files[i].filename.as_str());
                let ghost before = paths@.map_values(|p: String| p@);
                paths.push(p);
                proof {
                    assert(p@ == mp[i as int]);
                    assert(paths@.map_values(|p: String| p@) =~= before.push(p@));
                    assert(mp.take(i + 1) =~= mp.take(i as int).push(mp[i as int]));
                    assert(base + mp.take(i + 1) =~= (base + mp.take(i as int)).push(mp[i as int]));
                }
                i = i + 1;
            }
            proof {
                assert(mp.take(m as int) =~= mp);
                let next = self@.models.take(k + 1);
                assert(next.drop_last() =~= self@.models.take(k as int));
                assert(next.last() == self@.models[k as int]);
            }
            k = k + 1;
        }
        assert(self@.models.take(n as int) =~= self@.models);
        paths
    }

    /// The directories a probe of the cache has to look at: each configured
    /// model's directory, model after model.
    pub fn model_dirs(&self) -> (dirs: Vec<String>)
        ensures
            dirs@.map_values(|d: String| d@) == self@.models.map_values(
                |m: ModelSpecView| model_dir(self@.cache, m.name),
            ),
    {
        let mut dirs: Vec<String> = Vec::new();
        let n = self.models.len();
        let mut k: usize = 0;
        while k < n
            invariant
                n == self.models@.len(),
                k <= n,
                dirs@.len() == k,
                forall|j: int|
                    0 <= j < k ==> #[trigger] dirs@[j]@ == model_dir(
                        self@.cache,
                        self@.models[j].name,
                    ),
            decreases n - k,
        {
            dirs.push(join(self.cache.as_str(), self.models[k].name.as_str()));
            k = k + 1;
        }
        assert(dirs@.map_values(|d: String| d@) =~= self@.models.map_values(
            |m: ModelSpecView| model_dir(self@.cache, m.name),
        ));
        dirs
    }

    /// The configured models, each with whether it is fully in the cache.
    pub fn list_available_models(&self, snapshot: &CacheSnapshot) -> (infos: Vec<ModelInfo>)
        ensures
            infos@.map_values(|i: ModelInfo| i@) == self@.models.map_values(
                |m: ModelSpecView| info_of(m, self@.cache, snapshot@),
            ),
    {
        let mut infos: Vec<ModelInfo> = Vec::new();
        let n = self.models.len();
        let mut k: usize = 0;
        while k < n
            invariant
                n == self.models@.len(),
                k <= n,
                infos@.len() == k,
                forall|j: int|
                    0 <= j < k ==> #[trigger] infos@[j]@ == info_of(
                        self@.models[j],
                        self@.cache,
                        snapshot@,
                    ),
            decreases n - k,
        {
            infos.push(self.models[k].to_info(self.cache.as_str(), snapshot));
            k = k + 1;
        }
        assert(infos@.map_values(|i: ModelInfo| i@) =~= self@.models.map_values(
            |m: ModelSpecView| info_of(m, self@.cache, snapshot@),
        ));
        infos
    }

    /// The directory of the configured model `name` if it exists in the
    /// cache and every one of the model's files is in it (a regular file of
    /// non-zero size), else `None`.
    pub fn find_model(&self, name: &str, snapshot: &CacheSnapshot) -> (r: Option<String>)
        ensures
            match r {
                Some(d) => found_model(self@, name@, snapshot@) == Some(d@),
                None => found_model(self@, name@, snapshot@) is None,
            },
    {
        match self.model_index(name) {
            None => None,
            Some(k) => {
                let dir = join(self.cache.as_str(), name);
                if snapshot.has_dir(dir.as_str()) && ensure_present_files(
                    &self.models[k].files,
                    dir.as_str(),
                    snapshot,
                ) {
                    Some(dir)
                } else {
                    None
                }
            },
        }
    }

    /// The download of the configured model `name` into its directory in
    /// the cache, reporting progress against the model's declared size, or
    /// `UnknownModel` if no configured model has that name.
    pub fn download_model(&self, name: &str, style: PathStyle) -> (r: Result<Download, CadmusError>)
        ensures
            match lookup(self@.models, name@) {
                None => r matches Err(e) && e@ == CadmusErrorView::UnknownModel(name@),
                Some(k) => r matches Ok(d) && d@ == download_start(
                    self@.models[k].files,
                    model_dir(self@.cache, name@),
                    self@.models[k].size_bytes,
                    style,
                ),
            },
    {
        match self.model_index(name) {
            None => Err(CadmusError::UnknownModel(String::from_str(name))),
            Some(k) => {
                let dir = join(self.cache.as_str(), name);
                let files = copy_files(&self.models[k].files);
                Ok(Download::new(files, dir, self.models[k].size_bytes, style))
            },
        }
    }

    /// The directory to load for a model reference: a configured model by
    /// name once all its files are in the cache, or a directory given by path.
    pub fn load_model(&self, model_ref: ModelRef, snapshot: &CacheSnapshot) -> (r: Result<String, CadmusError>)
        ensures
            match r {
                Ok(d) => resolve_model_ref(self@, model_ref@, snapshot@) == Ok::<
                    Seq<char>,
                    CadmusErrorView,
                >(d@),
                Err(e) => resolve_model_ref(self@, model_ref@, snapshot@) == Err::<
                    Seq<char>,
                    CadmusErrorView,
                >(e@),
            },
    {
        match model_ref {
            ModelRef::Path(p) => Ok(p),
            ModelRef::Name(name) => match self.model_index(name.as_str()) {
                None => Err(CadmusError::UnknownModel(name)),
                Some(k) => {
                    let dir = join(self.cache.as_str(), name.as_str());
                    if snapshot.has_dir(dir.as_str()) && ensure_present_files(
                        &self.models[k].files,
                        dir.as_str(),
                        snapshot,
                    ) {
                        Ok(dir)
                    } else {
                        Err(
                            CadmusError::Load(
                                String::from_str("model ").concat(
                                    str_debug(name.as_str()).as_str(),
                                ).concat(" not present in cache ").concat(
                                    path_debug(self.cache.as_str()).as_str(),
                                ).concat(" \u{2014} call download_model first"),
                            ),
                        )
                    }
                },
            },
        }
    }
}

/// A snapshot of the cache taken of the file system `fs`: it reports
/// every regular file of `fs` with its size, and every directory.
pub open spec fn snapshot_of(snapshot: CacheSnapshotView, fs: FileSystem) -> bool {
    &&& forall|p: Seq<char>|
        #[trigger] fs.files.contains_key(p) ==> (size_in(snapshot.files, p) matches Some(x) && x
            == fs.files[p])
    &&& forall|d: Seq<char>| #[trigger] fs.dirs.contains(d) ==> snapshot.dirs.contains(d)
}

/// A configured model whose download finished successfully is found in
/// the cache afterwards: loading it by name gives its directory, and the
/// listing shows it cached, in any snapshot of the file system the
/// download left behind; provided the caller performed each action of the
/// download faithfully, every fetched file brought at least one byte, and
/// no partial file lands on a file of the model.
pub proof fn lemma_downloaded_model_is_found(
    c: CadmusView,
    name: Seq<char>,
    style: PathStyle,
    states: Seq<DownloadState>,
    events: Seq<EventView>,
    worlds: Seq<FileSystem>,
    snapshot: CacheSnapshotView,
)
    requires
        lookup(c.models, name) is Some,
        states.len() > 0,
        states[0] == download_start(
            c.models[lookup(c.models, name)->Some_0].files,
            model_dir(c.cache, name),
            c.models[lookup(c.models, name)->Some_0].size_bytes,
            style,
        ),
        faithful_run(states, events, worlds),
        no_part_clash(model_dir(c.cache, name), c.models[lookup(c.models, name)->Some_0].files),
        no_empty_transfer(states, events),
        pending_action(states.last()) == ActionView::Finish(Ok(())),
        snapshot_of(snapshot, worlds.last()),
    ensures
        resolve_model_ref(c, ModelRefView::Name(name), snapshot) == Ok::<
            Seq<char>,
            CadmusErrorView,
        >(model_dir(c.cache, name)),
        info_of(c.models[lookup(c.models, name)->Some_0], c.cache, snapshot).cached,
{
    let k = lookup(c.models, name)->Some_0;
    let files = c.models[k].files;
    let dir = model_dir(c.cache, name);
    lemma_lookup_from(c.models, name, 0);
    lemma_success_leaves_files_in_place(files, dir, c.models[k].size_bytes, style, states, events, worlds);
    assert(worlds.last().dirs.contains(dir));
    assert forall|i: int| 0 <= i < files.len() implies file_present(
        snapshot.files,
        join_path(dir, #[trigger] files[i].filename),
    ) by {
        let p = join_path(dir, files[i].filename);
        assert(worlds.last().files.contains_key(p));
    }
}

/// A name resolves only to a configured model of that name; a name with no
/// configured model is `UnknownModel` for loading (and, by their contracts,
/// for `find_model` and `download_model` too).
pub proof fn lemma_unknown_model(c: CadmusView, name: Seq<char>, snapshot: CacheSnapshotView)
    ensures
        lookup(c.models, name) is None <==> forall|k: int|
            0 <= k < c.models.len() ==> #[trigger] c.models[k].name != name,
        lookup(c.models, name) is None ==> resolve_model_ref(c, ModelRefView::Name(name), snapshot)
            == Err::<Seq<char>, CadmusErrorView>(CadmusErrorView::UnknownModel(name)),
{
    lemma_lookup_from(c.models, name, 0);
}

/// Loading a configured model by name succeeds exactly when the listing
/// shows it as cached, and then loads the directory `find_model` reports.
pub proof fn lemma_load_agrees_with_listing(
    c: CadmusView,
    name: Seq<char>,
    snapshot: CacheSnapshotView,
)
    requires
        lookup(c.models, name) is Some,
    ensures
        ({
            let k = lookup(c.models, name)->Some_0;
            &&& resolve_model_ref(c, ModelRefView::Name(name), snapshot) is Ok <==> info_of(
                c.models[k],
                c.cache,
                snapshot,
            ).cached
            &&& resolve_model_ref(c, ModelRefView::Name(name), snapshot) is Ok
                ==> resolve_model_ref(c, ModelRefView::Name(name), snapshot) == Ok::<
                Seq<char>,
                CadmusErrorView,
            >(model_dir(c.cache, c.models[k].name))
        }),
{
    lemma_lookup_from(c.models, name, 0);
}

/// The listing agrees with `find_model`: a configured model is listed as
/// cached exactly when `find_model` finds it, in its directory, in the
/// same snapshot of the cache; for every model whose name no earlier
/// configured model takes (with distinct names, every model).
pub proof fn lemma_listing_agrees_with_find(c: CadmusView, k: int, snapshot: CacheSnapshotView)
    requires
        0 <= k < c.models.len(),
        lookup(c.models, c.models[k].name) == Some(k),
    ensures
        info_of(c.models[k], c.cache, snapshot).cached <==> found_model(
            c,
            c.models[k].name,
            snapshot,
        ) == Some(model_dir(c.cache, c.models[k].name)),
        !info_of(c.models[k], c.cache, snapshot).cached <==> found_model(
            c,
            c.models[k].name,
            snapshot,
        ) is None,
{
}

/// With distinct names, every configured model's name looks up that model.
pub proof fn lemma_distinct_names_lookup(c: CadmusView, k: int)
    requires
        0 <= k < c.models.len(),
        forall|i: int, j: int|
            0 <= i < j < c.models.len() ==> #[trigger] c.models[i].name != #[trigger] c.models[j].name,
    ensures
        lookup(c.models, c.models[k].name) == Some(k),
{
    lemma_lookup_from(c.models, c.models[k].name, 0);
    if lookup(c.models, c.models[k].name) is None {
        assert(c.models[k].name == c.models[k].name);
    } else {
        let j = lookup(c.models, c.models[k].name)->Some_0;
        assert(c.models[j].name == c.models[k].name);
        if j < k {
            assert(c.models[j].name != c.models[k].name);
        } else if j > k {
            assert(c.models[k].name != c.models[j].name);
        }
    }
}

/// A model given by path is loaded from that path as it is.
pub proof fn lemma_path_reference(c: CadmusView, p: Seq<char>, snapshot: CacheSnapshotView)
    ensures
        resolve_model_ref(c, ModelRefView::Path(p), snapshot) == Ok::<Seq<char>, CadmusErrorView>(p),
{
}


/// `p` is the path of a file of one of `models`, inside that model's
/// directory in the cache.
pub open spec fn is_model_file_path(cache: Seq<char>, models: Seq<ModelSpecView>, p: Seq<char>) -> bool {
    exists|k: int, j: int|
        0 <= k < models.len() && 0 <= j < models[k].files.len() && p == join_path(
            join_path(cache, #[trigger] models[k].name),
            #[trigger] models[k].files[j].filename,
        )
}

/// The paths to probe cover every file of every configured model at the
/// path `find_model`, `load_model` and the listing look it up: the file's
/// name inside the model's directory, which is the model's name inside the
/// cache. Nothing else is probed.
pub proof fn lemma_probe_paths_cover_models(cache: Seq<char>, models: Seq<ModelSpecView>)
    ensures
        forall|k: int, j: int|
            0 <= k < models.len() && 0 <= j < models[k].files.len() ==> cache_paths(
                cache,
                models,
            ).contains(
                join_path(join_path(cache, #[trigger] models[k].name), #[trigger] models[k].files[j].filename),
            ),
        forall|i: int|
            0 <= i < cache_paths(cache, models).len() ==> is_model_file_path(
                cache,
                models,
                #[trigger] cache_paths(cache, models)[i],
            ),
    decreases models.len(),
{
    if models.len() > 0 {
        let init = models.drop_last();
        let n = models.len() - 1;
        lemma_probe_paths_cover_models(cache, init);
        let a = cache_paths(cache, init);
        let b = model_paths(cache, models.last());
        let r = cache_paths(cache, models);
        assert(r == a + b);
        assert forall|k: int, j: int|
            0 <= k < models.len() && 0 <= j < models[k].files.len() implies r.contains(
                join_path(join_path(cache, #[trigger] models[k].name), #[trigger] models[k].files[j].filename),
            ) by {
            let p = join_path(join_path(cache, models[k].name), models[k].files[j].filename);
            if k < n {
                assert(init[k] == models[k]);
                assert(a.contains(p));
                let i = choose|i: int| 0 <= i < a.len() && a[i] == p;
                assert(r[i] == p);
            } else {
                assert(b[j] == p);
                assert(r[a.len() + j] == p);
            }
        }
        assert forall|i: int| 0 <= i < r.len() implies is_model_file_path(cache, models, #[trigger] r[i]) by {
            if i < a.len() {
                assert(r[i] == a[i]);
                assert(is_model_file_path(cache, init, a[i]));
                let (k, j) = choose|k: int, j: int|
                    0 <= k < init.len() && 0 <= j < init[k].files.len() && a[i] == join_path(
                        join_path(cache, #[trigger] init[k].name),
                        #[trigger] init[k].files[j].filename,
                    );
                assert(init[k] == models[k]);
                assert(models[k].files[j].filename == init[k].files[j].filename);
            } else {
                let j = i - a.len();
                assert(r[i] == b[j]);
                assert(models[n] == models.last());
                assert(r[i] == join_path(join_path(cache, models[n].name), models[n].files[j].filename));
            }
        }
    }
}

} // verus!
