//! The lifecycle of a loaded model.
//!
//! A loaded engine sits in a [`ModelSlot`]. Each transcription takes its
//! own shared reference to the engine, so freeing the slot never aborts a
//! transcription already under way: the engine is released when the last
//! reference goes. After `free()`, no new transcription can start.

use vstd::prelude::*;

use std::sync::Arc;

verus! {

/// Why inference could not run.
#[derive(Debug)]
pub enum InferenceError {
    Load(String),
    Generate(String),
    AlreadyFreed,
    Poisoned,
}

/// Mathematical value of an [`InferenceError`].
pub ghost enum InferenceErrorView {
    Load(Seq<char>),
    Generate(Seq<char>),
    AlreadyFreed,
    Poisoned,
}

impl View for InferenceError {
    type V = InferenceErrorView;

    open spec fn view(&self) -> InferenceErrorView {
        match self {
            InferenceError::Load(m) => InferenceErrorView::Load(m@),
            InferenceError::Generate(m) => InferenceErrorView::Generate(m@),
            InferenceError::AlreadyFreed => InferenceErrorView::AlreadyFreed,
            InferenceError::Poisoned => InferenceErrorView::Poisoned,
        }
    }
}

impl InferenceError {
    /// The human-readable message of this error.
    pub fn message(&self) -> (m: String)
        ensures
            m@ == match self@ {
                InferenceErrorView::Load(d) => "load: "@ + d,
                InferenceErrorView::Generate(d) => "generate: "@ + d,
                InferenceErrorView::AlreadyFreed => "model already freed"@,
                InferenceErrorView::Poisoned => "internal lock poisoned by a panic"@,
            },
    {
        match self {
            InferenceError::Load(d) => String::from_str("load: ").concat(d.as_str()),
            InferenceError::Generate(d) => String::from_str("generate: ").concat(d.as_str()),
            InferenceError::AlreadyFreed => String::from_str("model already freed"),
            InferenceError::Poisoned => String::from_str("internal lock poisoned by a panic"),
        }
    }
}

/// `Arc::clone`: another pointer to the same engine.
#[verifier::external_body]
fn share<E>(a: &Arc<E>) -> (r: Arc<E>)
    ensures
        r == *a,
{
    Arc::clone(a)
}

/// A loaded engine, until it is freed.
pub struct ModelSlot<E> {
    engine: Option<Arc<E>>,
    freed: bool,
}

/// Mathematical value of a [`ModelSlot`]: the engine it holds, if any, and
/// whether it was freed.
pub ghost struct SlotView<E> {
    pub engine: Option<E>,
    pub freed: bool,
}

impl<E> View for ModelSlot<E> {
    type V = SlotView<E>;

    closed spec fn view(&self) -> SlotView<E> {
        SlotView {
            engine: match self.engine {
                Some(a) => Some(*a),
                None => None,
            },
            freed: self.freed,
        }
    }
}

/// The outcome of asking a slot for its engine.
pub open spec fn acquire_result<E>(s: SlotView<E>) -> Result<E, ()> {
    if s.freed {
        Err(())
    } else {
        match s.engine {
            Some(e) => Ok(e),
            None => Err(()),
        }
    }
}

/// A slot after `free()`.
pub open spec fn freed_slot<E>(s: SlotView<E>) -> SlotView<E> {
    SlotView { engine: None, freed: true }
}

impl<E> ModelSlot<E> {
    /// A slot holding a freshly loaded engine.
    pub fn new(engine: E) -> (s: ModelSlot<E>)
        ensures
            s@ == (SlotView { engine: Some(engine), freed: false }),
    {
        ModelSlot { engine: Some(Arc::new(engine)), freed: false }
    }

    /// A shared reference to the engine for one transcription, or
    /// `AlreadyFreed` once the slot was freed.
    pub fn acquire(&self) -> (r: Result<Arc<E>, InferenceError>)
        ensures
            match r {
                Ok(a) => acquire_result(self@) == Ok::<E, ()>(*a),
                Err(e) => acquire_result(self@) is Err && e is AlreadyFreed,
            },
    {
        if self.freed {
            return Err(InferenceError::AlreadyFreed);
        }
        match &self.engine {
            Some(a) => Ok(share(a)),
            None => Err(InferenceError::AlreadyFreed),
        }
    }

    /// Frees the slot. References already handed out stay valid; the
    /// engine is released when the last of them is dropped.
    pub fn free(&mut self)
        ensures
            final(self)@ == freed_slot(old(self)@),
    {
        self.freed = true;
        self.engine = None;
    }

    /// Whether the slot was freed.
    pub fn is_freed(&self) -> (b: bool)
        ensures
            b == self@.freed,
    {
        self.freed
    }
}

/// After `free()`, every request for the engine is answered `AlreadyFreed`.
pub proof fn lemma_acquire_after_free<E>(s: SlotView<E>)
    ensures
        acquire_result(freed_slot(s)) is Err,
{
}

/// Freeing twice is the same as freeing once.
pub proof fn lemma_free_idempotent<E>(s: SlotView<E>)
    ensures
        freed_slot(freed_slot(s)) == freed_slot(s),
{
}

/// A slot that was never freed hands out the engine it was made with.
pub proof fn lemma_fresh_slot_serves<E>(engine: E)
    ensures
        acquire_result(SlotView { engine: Some(engine), freed: false }) == Ok::<E, ()>(engine),
{
}

} // verus!
