//! The failures of a render.

use crate::native::{
    hresult_from_win32, win32_failure, FILE_TOO_LARGE, INVALID_ARGUMENT_CODE,
    RECREATE_TARGET_CODE,
};
use vstd::prelude::*;

verus! {

/// Why a render failed.
#[derive(Clone, Copy, Debug, PartialEq, Eq, Structural)]
pub enum RenderError {
    /// A dimension is zero or above the largest supported one.
    InvalidArgument,
    /// The input is larger than the cap on input bytes.
    OversizeInput,
    /// The GPU resources could not be created, not even in software. The
    /// native code of the last failure is kept.
    ResourceCreationFailure(i32),
    /// The device was lost during the draw session. The cached resources
    /// are recreated at the next acquisition.
    DeviceLost,
    /// Any other native failure, with its code.
    Unexpected(i32),
}

/// The failure that a native code reported by a draw session stands for.
pub open spec fn classify(code: i32) -> RenderError {
    if code == RECREATE_TARGET_CODE {
        RenderError::DeviceLost
    } else {
        RenderError::Unexpected(code)
    }
}

/// The native code under which a failure is reported to the host.
pub open spec fn native_code(e: RenderError) -> int {
    match e {
        RenderError::InvalidArgument => INVALID_ARGUMENT_CODE as int,
        RenderError::OversizeInput => win32_failure(FILE_TOO_LARGE),
        RenderError::ResourceCreationFailure(code) => code as int,
        RenderError::DeviceLost => RECREATE_TARGET_CODE as int,
        RenderError::Unexpected(code) => code as int,
    }
}

impl RenderError {
    /// Tells which failure a native code reported by a draw session stands
    /// for.
    pub fn from_code(code: i32) -> (e: RenderError)
        ensures
            e == classify(code),
    {
        if code == RECREATE_TARGET_CODE {
            RenderError::DeviceLost
        } else {
            RenderError::Unexpected(code)
        }
    }

    /// The native code under which the failure is reported to the host.
    pub fn code(&self) -> (code: i32)
        ensures
            code == native_code(*self),
    {
        match self {
            RenderError::InvalidArgument => INVALID_ARGUMENT_CODE,
            RenderError::OversizeInput => hresult_from_win32(FILE_TOO_LARGE),
            RenderError::ResourceCreationFailure(code) => *code,
            RenderError::DeviceLost => RECREATE_TARGET_CODE,
            RenderError::Unexpected(code) => *code,
        }
    }

    /// Whether the failure tells that the device was lost.
    pub fn is_device_loss(&self) -> (b: bool)
        ensures
            b == (*self == RenderError::DeviceLost),
    {
        match self {
            RenderError::DeviceLost => true,
            _ => false,
        }
    }
}

/// A code is classified as a lost device exactly where it is the code that
/// asks for the target to be recreated, and the failure reports that code
/// again.
pub proof fn lemma_classify_keeps_code(code: i32)
    ensures
        native_code(classify(code)) == code,
        classify(code) == RenderError::DeviceLost <==> code == RECREATE_TARGET_CODE,
{
}

/// The code of an oversized input.
pub proof fn lemma_oversize_code()
    ensures
        native_code(RenderError::OversizeInput) == -2147024673,
{
}

} // verus!
