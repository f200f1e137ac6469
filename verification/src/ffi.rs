//! What the foreign function interface answers.
use vstd::prelude::*;

verus! {

pub const FFI_OK: u32 = 0;

pub const FFI_BAD_TYPEDEF: u32 = 1;

#[derive(Debug, Clone, Copy, PartialEq, Eq, Structural)]
pub enum FfiError {
    Typedef,
    Abi,
}

/// Reads a raw status. One that is not known is an error of the ABI.
pub fn status_to_result(status: u32) -> (r: Result<(), FfiError>)
    ensures
        r == (if status == FFI_OK {
            Ok::<(), FfiError>(())
        } else if status == FFI_BAD_TYPEDEF {
            Err(FfiError::Typedef)
        } else {
            Err(FfiError::Abi)
        }),
{
    if status == FFI_OK {
        Ok(())
    } else if status == FFI_BAD_TYPEDEF {
        Err(FfiError::Typedef)
    } else {
        Err(FfiError::Abi)
    }
}

} // verus!
