use vstd::prelude::*;

verus! {

/// Why a decode failed. Every failure is fatal: the decoder never returns a
/// partially built sweep.
#[derive(Clone, Copy, Debug, PartialEq, Eq, Structural)]
pub enum DecodeError {
    /// The stream ended before a required field or block was fully read.
    TruncatedInput,
    /// A structural field failed validation: header-size mismatch,
    /// angle-block-size mismatch, or ray-block-size/gate-count mismatch.
    Format,
    /// A moment outside the fixed scaling table reached the scaling law.
    /// Unreachable through the decoder itself; kept as an invariant guard.
    UnsupportedMoment,
}

impl DecodeError {
    /// A short description, for callers that report the failure.
    pub fn describe(&self) -> (r: &'static str)
        ensures
            self is TruncatedInput ==> r@ == "input ended before a required field"@,
            self is Format ==> r@ == "structural field failed validation"@,
            self is UnsupportedMoment ==> r@ == "moment outside the fixed scaling table"@,
    {
        match self {
            DecodeError::TruncatedInput => "input ended before a required field",
            DecodeError::Format => "structural field failed validation",
            DecodeError::UnsupportedMoment => "moment outside the fixed scaling table",
        }
    }
}

} // verus!
