//! Failures that callers of the library can tell apart.
use vstd::prelude::*;

verus! {

#[derive(Debug)]
pub enum AppError {
    /// The owner already has an unexpired self-spot for this program.
    SelfSpotExists,
    ProgramNotFound { slug: String },
    CapabilityNotSupported { capability: String, program_slug: String },
    SpotNotFound { spot_id: u64 },
    /// Every spot identifier has been handed out.
    StoreFull,
}

impl AppError {
    /// A stable code for the failure.
    pub fn code(&self) -> (r: &'static str)
        ensures
            r@ == error_code(*self),
    {
        match self {
            AppError::SelfSpotExists => "SELF_SPOT_EXISTS",
            AppError::ProgramNotFound { .. } => "PROGRAM_NOT_FOUND",
            AppError::CapabilityNotSupported { .. } => "CAPABILITY_NOT_SUPPORTED",
            AppError::SpotNotFound { .. } => "SPOT_NOT_FOUND",
            AppError::StoreFull => "STORE_FAILURE",
        }
    }
}

pub open spec fn error_code(e: AppError) -> Seq<char> {
    match e {
        AppError::SelfSpotExists => "SELF_SPOT_EXISTS"@,
        AppError::ProgramNotFound { .. } => "PROGRAM_NOT_FOUND"@,
        AppError::CapabilityNotSupported { .. } => "CAPABILITY_NOT_SUPPORTED"@,
        AppError::SpotNotFound { .. } => "SPOT_NOT_FOUND"@,
        AppError::StoreFull => "STORE_FAILURE"@,
    }
}

} // verus!
