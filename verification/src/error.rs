use vstd::prelude::*;
use crate::media::MediaKind;

verus! {

/// The terminal errors the runtime can surface.
///
/// Binding errors (`StreamIndexNotFound`, `LinkLabelNotFound`, `KindNotFound`)
/// abort a chain's construction before its worker starts.  Stage-lifecycle
/// errors (`FilterInit`, `FilterProcess`, `FilterRequest`) carry the name of
/// the stage whose hook failed and the hook's own message; `FilterProcess` is
/// the push phase, `FilterRequest` the pull phase.  `SendAllocFailed` is
/// buffer exhaustion while duplicating a unit for fan-out, and
/// `ThreadSpawnFailed` means a worker thread could not be started.
#[derive(Debug)]
pub enum FlowError {
    StreamIndexNotFound { stream_index: usize, media_type: MediaKind },
    LinkLabelNotFound { linklabel: String },
    KindNotFound { media_type: MediaKind },
    FilterInit { stage: String, detail: String },
    FilterProcess { stage: String, detail: String },
    FilterRequest { stage: String, detail: String },
    SendAllocFailed,
    ThreadSpawnFailed,
    UnrecognizedHwAccel { name: String },
    DecoderNotFound { name: String },
    InvalidDecoderType { name: String },
    DecoderMissing,
}

impl FlowError {
    /// True for the errors raised by binding resolution, the ones that are
    /// reported before any worker runs.
    pub open spec fn is_binding_error(self) -> bool {
        match self {
            FlowError::StreamIndexNotFound { .. } => true,
            FlowError::LinkLabelNotFound { .. } => true,
            FlowError::KindNotFound { .. } => true,
            _ => false,
        }
    }

    /// True for the errors raised by a stage hook, push or pull phase.
    pub open spec fn is_stage_error(self) -> bool {
        match self {
            FlowError::FilterInit { .. } => true,
            FlowError::FilterProcess { .. } => true,
            FlowError::FilterRequest { .. } => true,
            _ => false,
        }
    }
}

} // verus!
