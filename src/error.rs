//! Errors of the instruction decoder, and their form for the host runtime.
use solana_program::program_error::ProgramError;
use vstd::prelude::*;

verus! {

#[verifier::external_type_specification]
#[verifier::external_body]
pub struct ExProgramError(ProgramError);

/// The one way decoding an inbound buffer can fail.
#[derive(Clone, Copy, Debug, PartialEq, Eq, Structural)]
pub enum AppError {
    /// The buffer is empty, its tag is unknown, or a field is cut short.
    InvalidInstruction,
}

impl AppError {
    /// The number under which the host runtime reports this error.
    pub open spec fn spec_code(self) -> u32 {
        match self {
            AppError::InvalidInstruction => 0,
        }
    }

    pub fn code(&self) -> (r: u32)
        ensures
            r == self.spec_code(),
    {
        match self {
            AppError::InvalidInstruction => 0,
        }
    }

    /// The runtime's program-specific error carrying this error's code.
    pub fn to_program_error(&self) -> ProgramError {
        custom_program_error(self.code())
    }
}

/// Relies on `ProgramError::Custom`: the runtime's error for a
/// program-specific code. The value is opaque here.
#[verifier::external_body]
fn custom_program_error(code: u32) -> ProgramError {
    ProgramError::Custom(code)
}

} // verus!
