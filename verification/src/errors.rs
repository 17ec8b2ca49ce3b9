//! The error taxonomy every public operation reports through.

use vstd::prelude::*;

verus! {

/// Semantic error kinds of the engine.
#[derive(Clone, Copy, Debug, PartialEq, Eq, Structural)]
pub enum ErrorEnum {
    Error,
    AlreadyExists,
    Busy,
    Invalid,
    NotFound,
}

/// An engine failure: either a semantic engine error with its kind, or a
/// wrapped low-level cause, carried as the cause's message.
#[derive(Debug)]
pub enum EngineError {
    Engine(ErrorEnum, String),
    Io(String),
    Nix(String),
    Uuid(String),
    Utf8(String),
    Serde(String),
    Dm(String),
}

pub type EngineResult<T> = Result<T, EngineError>;

impl EngineError {
    /// The message carried by this error.
    pub open spec fn spec_description(&self) -> Seq<char> {
        match self {
            EngineError::Engine(_, s) => s@,
            EngineError::Io(s) => s@,
            EngineError::Nix(s) => s@,
            EngineError::Uuid(s) => s@,
            EngineError::Utf8(s) => s@,
            EngineError::Serde(s) => s@,
            EngineError::Dm(s) => s@,
        }
    }

    /// The semantic kind, for errors that carry one.
    pub open spec fn spec_engine_kind(&self) -> Option<ErrorEnum> {
        match self {
            EngineError::Engine(k, _) => Some(*k),
            _ => None,
        }
    }

    /// A short description of the failure.
    pub fn description(&self) -> (r: &str)
        ensures
            r@ == self.spec_description(),
    {
        match self {
            EngineError::Engine(_, s) => s.as_str(),
            EngineError::Io(s) => s.as_str(),
            EngineError::Nix(s) => s.as_str(),
            EngineError::Uuid(s) => s.as_str(),
            EngineError::Utf8(s) => s.as_str(),
            EngineError::Serde(s) => s.as_str(),
            EngineError::Dm(s) => s.as_str(),
        }
    }
}

/// True of a result that failed with the given semantic kind.
pub open spec fn is_engine_err<T>(r: EngineResult<T>, kind: ErrorEnum) -> bool {
    match r {
        Result::Err(e) => e.spec_engine_kind() == Some(kind),
        Result::Ok(_) => false,
    }
}

} // verus!
