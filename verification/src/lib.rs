//! Cadmus: the verified core of a Whisper transcription library.
//!
//! The modules hold the logic that decides: the model catalog, the cache
//! layout, the download protocol, URL handling, the parsing of Whisper's
//! timestamped output, Opus stream headers and the error surface.  Audio
//! decoding, resampling and the inference engine itself run outside, in
//! the application layer, because they work on floating-point samples.

use vstd::prelude::*;

pub mod api;
pub mod audio;
pub mod bridge;
pub mod catalog;
pub mod error;
pub mod inference;
pub mod storage;
pub mod transcript;

pub use api::{
    Cadmus, CadmusConfig, ComputeType, LoadModelOptions, ModelRef, TranscribeOptions,
};
pub use catalog::{
    default_models, CacheSnapshot, CachedFile, FileSpec, ModelFamily, ModelInfo, ModelSpec,
};
pub use error::CadmusError;
pub use storage::{Download, DownloadAction, DownloadError, DownloadEvent, PathStyle};
pub use transcript::{RawSegment, Transcript};

verus! {

/// Versions of the library and of the inference stack it was built against.
#[derive(Debug)]
pub struct Version {
    pub cadmus: String,
    pub ct2rs: String,
    pub ctranslate2: String,
}

/// The version of this crate.
pub open spec fn spec_cadmus_version() -> Seq<char> {
    seq!['2', '.', '0', '.', '0']
}

/// Reports the crate version together with the versions of the inference stack.
pub fn version() -> (v: Version)
    ensures
        v.cadmus@ == spec_cadmus_version(),
        v.ct2rs@ == seq!['0', '.', '9', '.', '2', '2'],
        v.ctranslate2@ == Seq::<char>::empty(),
{
    proof {
        reveal_strlit("2.0.0");
        reveal_strlit("0.9.22");
    }
    Version {
        cadmus: String::from_str("2.0.0"),
        ct2rs: String::from_str("0.9.22"),
        ctranslate2: String::new(),
    }
}

} // verus!
