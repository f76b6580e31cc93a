//! The native result codes that the renderer exchanges with its host.

use vstd::prelude::*;

verus! {

/// The code with which the host is told of an invalid argument.
pub const INVALID_ARGUMENT_CODE: i32 = -2147024809;

/// The code of an unspecified failure.
pub const FAILURE_CODE: i32 = -2147467259;

/// The code with which a draw session tells that its target must be
/// recreated.
pub const RECREATE_TARGET_CODE: i32 = -2003238900;

/// The system error number of a file that is too large.
pub const FILE_TOO_LARGE: u32 = 223;

/// The result code that stands for the system error number `error`: zero
/// for zero, the number itself where it already has the failure bit, and
/// else its low 16 bits under the failure bit and the system facility.
pub open spec fn win32_failure(error: u32) -> int {
    if error == 0 {
        0
    } else if error >= 0x8000_0000 {
        error - 0x1_0000_0000
    } else {
        (error % 0x1_0000) - 0x7ff9_0000
    }
}

/// Calls `windows_core::HRESULT::from_win32` and reads the code of its
/// result. The contract restates the function's body in integers: a number
/// that is zero or negative as a signed value is kept; of any other the low
/// 16 bits are joined with `0x8007_0000`.
#[verifier::external_body]
pub(crate) fn hresult_from_win32(error: u32) -> (code: i32)
    ensures
        code == win32_failure(error),
{
    windows_core::HRESULT::from_win32(error).0
}

} // verus!
