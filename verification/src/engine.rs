//! What the filtering engine answers.

use vstd::prelude::*;

verus! {

/// The engine's code for success.
pub const ENGINE_SUCCESS: u32 = 0;

/// The engine's code for a caller without the privilege to do what it asked.
pub const ENGINE_ACCESS_DENIED: u32 = 5;

/// The engine's code for an operation it does not support at the layer.
pub const ENGINE_NOT_SUPPORTED: u32 = 50;

/// The engine's code for a parameter it does not accept.
pub const ENGINE_INVALID_PARAMETER: u32 = 87;

/// The engine's code for an object that exists already.
pub const ENGINE_ALREADY_EXISTS: u32 = 183;

/// The engine's code for a layer or condition it does not know.
pub const ENGINE_NOT_FOUND: u32 = 1168;

/// The engine's code for conditions that a layer does not evaluate together.
pub const ENGINE_INVALID_CONDITION: u32 = 2150760450;

/// Why the engine refused a request.
#[derive(Clone, Copy, Debug, PartialEq, Eq, Structural)]
pub enum EngineError {
    PermissionDenied,
    InvalidConditionCombination,
    AlreadyExists,
    NotFound,
    Unknown,
}

/// The kind of refusal that a code other than success stands for.
pub open spec fn engine_error_of(code: u32) -> EngineError {
    if code == ENGINE_ACCESS_DENIED {
        EngineError::PermissionDenied
    } else if code == ENGINE_INVALID_PARAMETER || code == ENGINE_NOT_SUPPORTED || code
        == ENGINE_INVALID_CONDITION {
        EngineError::InvalidConditionCombination
    } else if code == ENGINE_ALREADY_EXISTS {
        EngineError::AlreadyExists
    } else if code == ENGINE_NOT_FOUND {
        EngineError::NotFound
    } else {
        EngineError::Unknown
    }
}

/// What the engine answered to a request that has no result of its own.
pub open spec fn engine_result_of(code: u32) -> Result<(), EngineError> {
    if code == ENGINE_SUCCESS {
        Ok(())
    } else {
        Err(engine_error_of(code))
    }
}

impl EngineError {
    /// The kind of refusal that a code other than success stands for.
    pub fn from_code(code: u32) -> (error: EngineError)
        ensures
            error == engine_error_of(code),
    {
        if code == ENGINE_ACCESS_DENIED {
            EngineError::PermissionDenied
        } else if code == ENGINE_INVALID_PARAMETER || code == ENGINE_NOT_SUPPORTED || code
            == ENGINE_INVALID_CONDITION {
            EngineError::InvalidConditionCombination
        } else if code == ENGINE_ALREADY_EXISTS {
            EngineError::AlreadyExists
        } else if code == ENGINE_NOT_FOUND {
            EngineError::NotFound
        } else {
            EngineError::Unknown
        }
    }

    /// Reads the engine's answer to a request that has no result of its own.
    pub fn check(code: u32) -> (result: Result<(), EngineError>)
        ensures
            result == engine_result_of(code),
    {
        if code == ENGINE_SUCCESS {
            Ok(())
        } else {
            Err(EngineError::from_code(code))
        }
    }
}

} // verus!
