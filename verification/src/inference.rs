//! Which callbacks derive.

use vstd::prelude::*;
use vstd::string::*;

use crate::text::text;

verus! {

/// Why there is nothing to derive with.
#[derive(Debug, Clone, Copy, PartialEq, Eq, Structural)]
pub enum LhcInferenceError {
    /// A model is asked for, and the host has given none.
    LiveNotConfigured,
}

impl LhcInferenceError {
    /// The error in words.
    pub fn to_text(&self) -> (r: String)
        ensures
            r@
                == "live inference requested but not configured: host must pass ModelClient-backed InferenceCallbacks into produce_lhc_compact (lhc_inference_callbacks(true) never returns deterministic text)"@,
    {
        text(
            "live inference requested but not configured: host must pass ModelClient-backed InferenceCallbacks into produce_lhc_compact (lhc_inference_callbacks(true) never returns deterministic text)",
        )
    }
}

/// The callbacks that can be had without a model.
#[derive(Debug, Clone, Copy, PartialEq, Eq, Structural)]
pub enum BuiltinCallbacks {
    /// They give the same text for the same input, and ask no model.
    Deterministic,
}

/// The callbacks to derive with. A model cannot be had here: where one is asked
/// for, there is an error, never text that only looks derived.
pub fn lhc_inference_callbacks(live: bool) -> (r: Result<BuiltinCallbacks, LhcInferenceError>)
    ensures
        r == (if live {
            Err(LhcInferenceError::LiveNotConfigured)
        } else {
            Ok(BuiltinCallbacks::Deterministic)
        }),
{
    if live {
        return Err(LhcInferenceError::LiveNotConfigured);
    }
    Ok(BuiltinCallbacks::Deterministic)
}

} // verus!
