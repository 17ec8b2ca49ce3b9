//! Translation of engine results into the stable (numeric code, message)
//! pairs that the wire-level RPC layer returns to its callers.

use vstd::prelude::*;

use crate::errors::{EngineError, ErrorEnum};

verus! {

/// Wire-level error categories, each with a stable numeric code.
#[derive(Clone, Copy, Debug, PartialEq, Eq, Structural)]
pub enum DbusErrorEnum {
    OK,
    ERROR,
    ALREADY_EXISTS,
    BUSY,
    INTERNAL_ERROR,
    IO_ERROR,
    NIX_ERROR,
    NOTFOUND,
}

impl DbusErrorEnum {
    /// The stable numeric code of this category.
    pub open spec fn spec_code(self) -> u16 {
        match self {
            DbusErrorEnum::OK => 0,
            DbusErrorEnum::ERROR => 1,
            DbusErrorEnum::ALREADY_EXISTS => 2,
            DbusErrorEnum::BUSY => 3,
            DbusErrorEnum::INTERNAL_ERROR => 4,
            DbusErrorEnum::IO_ERROR => 5,
            DbusErrorEnum::NIX_ERROR => 6,
            DbusErrorEnum::NOTFOUND => 7,
        }
    }

    pub fn code(self) -> (r: u16)
        ensures
            r == self.spec_code(),
    {
        match self {
            DbusErrorEnum::OK => 0,
            DbusErrorEnum::ERROR => 1,
            DbusErrorEnum::ALREADY_EXISTS => 2,
            DbusErrorEnum::BUSY => 3,
            DbusErrorEnum::INTERNAL_ERROR => 4,
            DbusErrorEnum::IO_ERROR => 5,
            DbusErrorEnum::NIX_ERROR => 6,
            DbusErrorEnum::NOTFOUND => 7,
        }
    }

    /// The human-readable message for this category.
    pub fn get_error_string(self) -> (r: &'static str)
        ensures
            self == DbusErrorEnum::OK ==> r@ == "Ok"@,
    {
        match self {
            DbusErrorEnum::OK => "Ok",
            DbusErrorEnum::ERROR => "A general error happened",
            DbusErrorEnum::ALREADY_EXISTS => "Already exists",
            DbusErrorEnum::BUSY => "Operation can not be performed at this time",
            DbusErrorEnum::INTERNAL_ERROR => "Internal error",
            DbusErrorEnum::IO_ERROR => "IO error during operation",
            DbusErrorEnum::NIX_ERROR => "System error during operation",
            DbusErrorEnum::NOTFOUND => "Not found",
        }
    }
}

/// Convert a (present, value) pair as used on the wire to an Option.
pub fn tuple_to_option<T>(value: (bool, T)) -> (r: Option<T>)
    ensures
        value.0 ==> r == Some(value.1),
        !value.0 ==> r is None,
{
    if value.0 {
        Some(value.1)
    } else {
        None
    }
}

/// The wire-level category an engine error maps to.
pub open spec fn spec_dbus_category(err: &EngineError) -> DbusErrorEnum {
    match err {
        EngineError::Engine(e, _) => match e {
            ErrorEnum::Error => DbusErrorEnum::ERROR,
            ErrorEnum::AlreadyExists => DbusErrorEnum::ALREADY_EXISTS,
            ErrorEnum::Busy => DbusErrorEnum::BUSY,
            ErrorEnum::Invalid => DbusErrorEnum::ERROR,
            ErrorEnum::NotFound => DbusErrorEnum::NOTFOUND,
        },
        EngineError::Io(_) => DbusErrorEnum::IO_ERROR,
        EngineError::Nix(_) => DbusErrorEnum::NIX_ERROR,
        EngineError::Uuid(_) => DbusErrorEnum::INTERNAL_ERROR,
        EngineError::Utf8(_) => DbusErrorEnum::INTERNAL_ERROR,
        EngineError::Serde(_) => DbusErrorEnum::INTERNAL_ERROR,
        EngineError::Dm(_) => DbusErrorEnum::INTERNAL_ERROR,
    }
}

/// Translate an engine error to the (error code, message) tuple that the
/// RPC methods return.
pub fn engine_to_dbus_err_tuple(err: &EngineError) -> (r: (u16, String))
    ensures
        r.0 == spec_dbus_category(err).spec_code(),
        r.1@ == err.spec_description(),
{
    let error = match err {
        EngineError::Engine(e, _) => match e {
            ErrorEnum::Error => DbusErrorEnum::ERROR,
            ErrorEnum::AlreadyExists => DbusErrorEnum::ALREADY_EXISTS,
            ErrorEnum::Busy => DbusErrorEnum::BUSY,
            ErrorEnum::Invalid => DbusErrorEnum::ERROR,
            ErrorEnum::NotFound => DbusErrorEnum::NOTFOUND,
        },
        EngineError::Io(_) => DbusErrorEnum::IO_ERROR,
        EngineError::Nix(_) => DbusErrorEnum::NIX_ERROR,
        EngineError::Uuid(_) => DbusErrorEnum::INTERNAL_ERROR,
        EngineError::Utf8(_) => DbusErrorEnum::INTERNAL_ERROR,
        EngineError::Serde(_) => DbusErrorEnum::INTERNAL_ERROR,
        EngineError::Dm(_) => DbusErrorEnum::INTERNAL_ERROR,
    };
    (error.code(), err.description().to_owned())
}

/// The error code for "OK".
pub fn msg_code_ok() -> (r: u16)
    ensures
        r == DbusErrorEnum::OK.spec_code(),
{
    DbusErrorEnum::OK.code()
}

/// The error string for "OK".
pub fn msg_string_ok() -> (r: String)
    ensures
        r@ == "Ok"@,
{
    DbusErrorEnum::OK.get_error_string().to_owned()
}

} // verus!
