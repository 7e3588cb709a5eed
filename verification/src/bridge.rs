//! The JavaScript-facing shapes of the API and the checks and conversions
//! between them and the core types: error codes, model references given
//! as `{ name } | { path }`, and compute types and families given as
//! strings.

use vstd::prelude::*;

use crate::api::{CadmusConfig, ComputeType, LoadModelOptions, ModelRef, ModelRefView, TranscribeOptions};
use crate::catalog::{ModelFamily, ModelSpec};
use crate::error::{CadmusError, CadmusErrorView};
use crate::storage::text_eq;
use crate::Version;

verus! {

/// The `code` a JavaScript error carries: the variant's name.
pub open spec fn error_code(e: CadmusErrorView) -> Seq<char> {
    match e {
        CadmusErrorView::Load(_) => "Load"@,
        CadmusErrorView::Decode(_) => "Decode"@,
        CadmusErrorView::Resample(_) => "Resample"@,
        CadmusErrorView::Inference(_) => "Inference"@,
        CadmusErrorView::Poisoned => "Poisoned"@,
        CadmusErrorView::AlreadyFreed => "AlreadyFreed"@,
        CadmusErrorView::UnknownModel(_) => "UnknownModel"@,
        CadmusErrorView::Download(_) => "Download"@,
        CadmusErrorView::Io(_) => "Io"@,
        CadmusErrorView::InvalidArgument(_) => "InvalidArgument"@,
    }
}

/// The `code` of an error, as JavaScript sees it.
pub fn err_code(e: &CadmusError) -> (c: &'static str)
    ensures
        c@ == error_code(e@),
{
    match e {
        CadmusError::Load(_) => "Load",
        CadmusError::Decode(_) => "Decode",
        CadmusError::Resample(_) => "Resample",
        CadmusError::Inference(_) => "Inference",
        CadmusError::Poisoned => "Poisoned",
        CadmusError::AlreadyFreed => "AlreadyFreed",
        CadmusError::UnknownModel(_) => "UnknownModel",
        CadmusError::Download(_) => "Download",
        CadmusError::Io(_) => "Io",
        CadmusError::InvalidArgument(_) => "InvalidArgument",
    }
}

/// Every variant has a code of its own: two errors with the same code are
/// of the same variant.
pub proof fn lemma_error_codes_distinct(a: CadmusErrorView, b: CadmusErrorView)
    requires
        error_code(a) == error_code(b),
    ensures
        a is Load <==> b is Load,
        a is Decode <==> b is Decode,
        a is Resample <==> b is Resample,
        a is Inference <==> b is Inference,
        a is Poisoned <==> b is Poisoned,
        a is AlreadyFreed <==> b is AlreadyFreed,
        a is UnknownModel <==> b is UnknownModel,
        a is Download <==> b is Download,
        a is Io <==> b is Io,
        a is InvalidArgument <==> b is InvalidArgument,
{
    reveal_strlit("Load");
    reveal_strlit("Decode");
    reveal_strlit("Resample");
    reveal_strlit("Inference");
    reveal_strlit("Poisoned");
    reveal_strlit("AlreadyFreed");
    reveal_strlit("UnknownModel");
    reveal_strlit("Download");
    reveal_strlit("Io");
    reveal_strlit("InvalidArgument");
    let (ca, cb) = (error_code(a), error_code(b));
    assert(ca.len() == cb.len());
    assert(ca[0] == cb[0]);
}

/// The family's name in JavaScript.
pub open spec fn family_name_spec(f: ModelFamily) -> Seq<char> {
    match f {
        ModelFamily::Whisper => "whisper"@,
        ModelFamily::DistilWhisper => "distil_whisper"@,
    }
}

/// The family's name in JavaScript: `"whisper"` or `"distil_whisper"`.
pub fn family_name(f: ModelFamily) -> (s: &'static str)
    ensures
        s@ == family_name_spec(f),
{
    match f {
        ModelFamily::Whisper => "whisper",
        ModelFamily::DistilWhisper => "distil_whisper",
    }
}

/// The family a JavaScript name stands for.
pub open spec fn family_named(s: Seq<char>) -> Option<ModelFamily> {
    if s == "whisper"@ {
        Some(ModelFamily::Whisper)
    } else if s == "distil_whisper"@ {
        Some(ModelFamily::DistilWhisper)
    } else {
        None
    }
}

/// Parses a family name given by JavaScript; any other name is an
/// `InvalidArgument`.
pub fn parse_family(s: &str) -> (r: Result<ModelFamily, CadmusError>)
    ensures
        match family_named(s@) {
            Some(f) => r matches Ok(g) && g == f,
            None => r matches Err(e) && e@ == CadmusErrorView::InvalidArgument(
                "unknown family: "@ + s@,
            ),
        },
{
    if text_eq(s, "whisper") {
        Ok(ModelFamily::Whisper)
    } else if text_eq(s, "distil_whisper") {
        Ok(ModelFamily::DistilWhisper)
    } else {
        Err(CadmusError::InvalidArgument(String::from_str("unknown family: ").concat(s)))
    }
}

/// Every family's JavaScript name parses back to the family.
pub proof fn lemma_family_names_round_trip(f: ModelFamily)
    ensures
        family_named(family_name_spec(f)) == Some(f),
{
    reveal_strlit("whisper");
    reveal_strlit("distil_whisper");
    assert("whisper"@.len() != "distil_whisper"@.len());
}

/// The version triple as JavaScript sees it.
pub struct VersionJs {
    pub cadmus: String,
    pub ct2rs: String,
    pub ctranslate2: String,
}

impl From<Version> for VersionJs {
    fn from(v: Version) -> (j: VersionJs) {
        VersionJs { cadmus: v.cadmus, ct2rs: v.ct2rs, ctranslate2: v.ctranslate2 }
    }
}

impl vstd::std_specs::convert::FromSpecImpl<Version> for VersionJs {
    open spec fn obeys_from_spec() -> bool {
        true
    }

    open spec fn from_spec(v: Version) -> VersionJs {
        VersionJs { cadmus: v.cadmus, ct2rs: v.ct2rs, ctranslate2: v.ctranslate2 }
    }
}

/// The configuration object `new Cadmus(config)` takes.
pub struct CadmusConfigJs {
    pub model_cache: String,
    pub models: Vec<ModelSpec>,
}

impl From<CadmusConfigJs> for CadmusConfig {
    fn from(c: CadmusConfigJs) -> (r: CadmusConfig) {
        CadmusConfig { model_cache: c.model_cache, models: c.models }
    }
}

impl vstd::std_specs::convert::FromSpecImpl<CadmusConfigJs> for CadmusConfig {
    open spec fn obeys_from_spec() -> bool {
        true
    }

    open spec fn from_spec(c: CadmusConfigJs) -> CadmusConfig {
        CadmusConfig { model_cache: c.model_cache, models: c.models }
    }
}

/// The options object of `model.transcribe(audio, options)`.
pub struct TranscribeOptionsJs {
    pub language: Option<String>,
    pub beam_size: Option<u32>,
}

impl From<TranscribeOptionsJs> for TranscribeOptions {
    fn from(o: TranscribeOptionsJs) -> (r: TranscribeOptions) {
        TranscribeOptions { language: o.language, beam_size: o.beam_size }
    }
}

impl vstd::std_specs::convert::FromSpecImpl<TranscribeOptionsJs> for TranscribeOptions {
    open spec fn obeys_from_spec() -> bool {
        true
    }

    open spec fn from_spec(o: TranscribeOptionsJs) -> TranscribeOptions {
        TranscribeOptions { language: o.language, beam_size: o.beam_size }
    }
}

/// A model reference as JavaScript gives it: `{ name }` or `{ path }`.
pub struct ModelRefJs {
    pub name: Option<String>,
    pub path: Option<String>,
}

/// The message when both fields of a model reference are set.
pub open spec fn both_set_message() -> Seq<char> {
    "ModelRef: exactly one of `name` or `path` must be set, not both"@
}

/// The message when neither field of a model reference is set.
pub open spec fn none_set_message() -> Seq<char> {
    "ModelRef: exactly one of `name` or `path` must be set"@
}

impl ModelRefJs {
    /// The core reference: exactly one of `name` and `path` must be set.
    pub fn into_core(self) -> (r: Result<ModelRef, CadmusError>)
        ensures
            match (self.name, self.path) {
                (Some(n), None) => r matches Ok(m) && m@ == ModelRefView::Name(n@),
                (None, Some(p)) => r matches Ok(m) && m@ == ModelRefView::Path(p@),
                (Some(_), Some(_)) => r matches Err(e) && e@ == CadmusErrorView::InvalidArgument(
                    both_set_message(),
                ),
                (None, None) => r matches Err(e) && e@ == CadmusErrorView::InvalidArgument(
                    none_set_message(),
                ),
            },
    {
        match (self.name, self.path) {
            (Some(n), None) => Ok(ModelRef::Name(n)),
            (None, Some(p)) => Ok(ModelRef::Path(p)),
            (Some(_), Some(_)) => Err(
                CadmusError::InvalidArgument(
                    String::from_str(
                        "ModelRef: exactly one of `name` or `path` must be set, not both",
                    ),
                ),
            ),
            (None, None) => Err(
                CadmusError::InvalidArgument(
                    String::from_str("ModelRef: exactly one of `name` or `path` must be set"),
                ),
            ),
        }
    }
}

/// The options object of `cadmus.loadModel(ref, options)`.
pub struct LoadModelOptionsJs {
    pub threads: Option<u32>,
    /// One of `"auto" | "int8" | "int8_float16" | "float16" | "float32"`.
    pub compute_type: Option<String>,
}

/// The compute type a JavaScript name stands for.
pub open spec fn compute_type_named(s: Seq<char>) -> Option<ComputeType> {
    if s == "auto"@ {
        Some(ComputeType::Auto)
    } else if s == "int8"@ {
        Some(ComputeType::Int8)
    } else if s == "int8_float16"@ {
        Some(ComputeType::Int8Float16)
    } else if s == "float16"@ {
        Some(ComputeType::Float16)
    } else if s == "float32"@ {
        Some(ComputeType::Float32)
    } else {
        None
    }
}

/// Parses a compute type name.
pub fn parse_compute_type(s: &str) -> (r: Option<ComputeType>)
    ensures
        r == compute_type_named(s@),
{
    if text_eq(s, "auto") {
        Some(ComputeType::Auto)
    } else if text_eq(s, "int8") {
        Some(ComputeType::Int8)
    } else if text_eq(s, "int8_float16") {
        Some(ComputeType::Int8Float16)
    } else if text_eq(s, "float16") {
        Some(ComputeType::Float16)
    } else if text_eq(s, "float32") {
        Some(ComputeType::Float32)
    } else {
        None
    }
}

impl LoadModelOptionsJs {
    /// The core options: an absent compute type means `auto`; an unknown
    /// one is an `InvalidArgument`.
    pub fn into_core(self) -> (r: Result<LoadModelOptions, CadmusError>)
        ensures
            match self.compute_type {
                None => r matches Ok(o) && o.threads == self.threads && o.compute_type
                    == ComputeType::Auto,
                Some(s) => match compute_type_named(s@) {
                    Some(c) => r matches Ok(o) && o.threads == self.threads && o.compute_type == c,
                    None => r matches Err(e) && e@ == CadmusErrorView::InvalidArgument(
                        "unknown computeType: "@ + s@,
                    ),
                },
            },
    {
        let compute_type = match self.compute_type {
            None => ComputeType::Auto,
            Some(s) => match parse_compute_type(s.as_str()) {
                Some(c) => c,
                None => {
                    return Err(
                        CadmusError::InvalidArgument(
                            String::from_str("unknown computeType: ").concat(s.as_str()),
                        ),
                    );
                },
            },
        };
        Ok(LoadModelOptions { threads: self.threads, compute_type })
    }
}

} // verus!
