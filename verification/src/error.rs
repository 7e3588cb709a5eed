//! The error type of the public surface.

use vstd::prelude::*;

use crate::audio::AudioError;
use crate::inference::InferenceError;
use crate::storage::{download_error_message, DownloadError};

verus! {

/// Every failure the library reports, by kind.
#[derive(Debug)]
pub enum CadmusError {
    /// The model could not be loaded (missing, incomplete, rejected).
    Load(String),
    /// The audio bytes are corrupt or in an unrecognised format.
    Decode(String),
    /// The audio could not be brought to 16 kHz.
    Resample(String),
    /// The inference engine failed.
    Inference(String),
    /// An internal lock was poisoned by a panic on another thread.
    Poisoned,
    /// The model was used after `free()`.
    AlreadyFreed,
    /// The name is not one of the models configured in this instance.
    UnknownModel(String),
    /// A download failed (cancelled, HTTP, network or I/O).
    Download(String),
    /// A filesystem operation on the cache failed.
    Io(String),
    /// A malformed argument at the boundary (model reference, compute type).
    InvalidArgument(String),
}

/// Mathematical value of a [`CadmusError`].
pub ghost enum CadmusErrorView {
    Load(Seq<char>),
    Decode(Seq<char>),
    Resample(Seq<char>),
    Inference(Seq<char>),
    Poisoned,
    AlreadyFreed,
    UnknownModel(Seq<char>),
    Download(Seq<char>),
    Io(Seq<char>),
    InvalidArgument(Seq<char>),
}

impl View for CadmusError {
    type V = CadmusErrorView;

    open spec fn view(&self) -> CadmusErrorView {
        match self {
            CadmusError::Load(m) => CadmusErrorView::Load(m@),
            CadmusError::Decode(m) => CadmusErrorView::Decode(m@),
            CadmusError::Resample(m) => CadmusErrorView::Resample(m@),
            CadmusError::Inference(m) => CadmusErrorView::Inference(m@),
            CadmusError::Poisoned => CadmusErrorView::Poisoned,
            CadmusError::AlreadyFreed => CadmusErrorView::AlreadyFreed,
            CadmusError::UnknownModel(m) => CadmusErrorView::UnknownModel(m@),
            CadmusError::Download(m) => CadmusErrorView::Download(m@),
            CadmusError::Io(m) => CadmusErrorView::Io(m@),
            CadmusError::InvalidArgument(m) => CadmusErrorView::InvalidArgument(m@),
        }
    }
}

/// The human-readable message of an error.
pub open spec fn error_message(e: CadmusErrorView) -> Seq<char> {
    match e {
        CadmusErrorView::Load(m) => "load: "@ + m,
        CadmusErrorView::Decode(m) => "decode: "@ + m,
        CadmusErrorView::Resample(m) => "resample: "@ + m,
        CadmusErrorView::Inference(m) => "inference: "@ + m,
        CadmusErrorView::Poisoned => "internal lock poisoned"@,
        CadmusErrorView::AlreadyFreed => "model already freed"@,
        CadmusErrorView::UnknownModel(n) => "model "@ + n + " not configured in this Cadmus instance"@,
        CadmusErrorView::Download(m) => "download: "@ + m,
        CadmusErrorView::Io(m) => "io: "@ + m,
        CadmusErrorView::InvalidArgument(m) => "invalid argument: "@ + m,
    }
}

impl CadmusError {
    /// The human-readable message of this error.
    pub fn message(&self) -> (m: String)
        ensures
            m@ == error_message(self@),
    {
        match self {
            CadmusError::Load(m) => String::from_str("load: ").concat(m.as_str()),
            CadmusError::Decode(m) => String::from_str("decode: ").concat(m.as_str()),
            CadmusError::Resample(m) => String::from_str("resample: ").concat(m.as_str()),
            CadmusError::Inference(m) => String::from_str("inference: ").concat(m.as_str()),
            CadmusError::Poisoned => String::from_str("internal lock poisoned"),
            CadmusError::AlreadyFreed => String::from_str("model already freed"),
            CadmusError::UnknownModel(n) => String::from_str("model ").concat(n.as_str()).concat(
                " not configured in this Cadmus instance",
            ),
            CadmusError::Download(m) => String::from_str("download: ").concat(m.as_str()),
            CadmusError::Io(m) => String::from_str("io: ").concat(m.as_str()),
            CadmusError::InvalidArgument(m) => String::from_str("invalid argument: ").concat(
                m.as_str(),
            ),
        }
    }

    /// A failed download, reported with the download error's message.
    pub fn from_download(e: DownloadError) -> (c: CadmusError)
        ensures
            c@ == CadmusErrorView::Download(download_error_message(e@)),
    {
        CadmusError::Download(e.message())
    }
}

impl From<AudioError> for CadmusError {
    fn from(e: AudioError) -> (c: CadmusError) {
        match e {
            AudioError::Decode(m) => CadmusError::Decode(m),
            AudioError::Resample(m) => CadmusError::Resample(m),
        }
    }
}

impl vstd::std_specs::convert::FromSpecImpl<AudioError> for CadmusError {
    open spec fn obeys_from_spec() -> bool {
        true
    }

    open spec fn from_spec(e: AudioError) -> CadmusError {
        match e {
            AudioError::Decode(m) => CadmusError::Decode(m),
            AudioError::Resample(m) => CadmusError::Resample(m),
        }
    }
}

impl From<InferenceError> for CadmusError {
    fn from(e: InferenceError) -> (c: CadmusError) {
        match e {
            InferenceError::Load(m) => CadmusError::Load(m),
            InferenceError::Generate(m) => CadmusError::Inference(m),
            InferenceError::Poisoned => CadmusError::Poisoned,
            InferenceError::AlreadyFreed => CadmusError::AlreadyFreed,
        }
    }
}

impl vstd::std_specs::convert::FromSpecImpl<InferenceError> for CadmusError {
    open spec fn obeys_from_spec() -> bool {
        true
    }

    open spec fn from_spec(e: InferenceError) -> CadmusError {
        match e {
            InferenceError::Load(m) => CadmusError::Load(m),
            InferenceError::Generate(m) => CadmusError::Inference(m),
            InferenceError::Poisoned => CadmusError::Poisoned,
            InferenceError::AlreadyFreed => CadmusError::AlreadyFreed,
        }
    }
}

} // verus!
