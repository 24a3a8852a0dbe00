//! Error kinds that the core reports at its boundary.

use vstd::prelude::*;

verus! {

/// Why an operation of the core failed.
#[derive(Clone, Copy, Debug, PartialEq, Eq, Structural)]
pub enum ErrorKind {
    /// The install manifest lacks a section or holds one of the wrong shape.
    ManifestMalformed,
    /// A build step or the collection of build outputs failed.
    BuildFailure,
    /// The service is loaded, so it can be neither replaced nor removed.
    ServiceInUse,
    /// The platform could not open or read the entry file.
    OpenFailed,
    /// The service class is none of `c`, `cpp`, `rust`, `python`.
    UnsupportedClass,
    /// There is no entry file to load.
    EntryMissing,
    /// The handle string is no number, or is the reserved handle zero.
    InvalidHandle,
    /// The handle names no live registration.
    StaleHandle,
    /// The service exports no callable function of that name.
    UnknownFunction,
    /// The call passes another number of arguments than the function takes.
    ArityMismatch,
    /// An argument is not a single-key JSON object, or refers to no earlier
    /// step of a chain.
    MarshalFailure,
    /// The platform loader reported a fault while binding or calling.
    AbiFailure,
    /// The called function itself failed.
    CalleeError,
    /// No unused signature was found within the allowed number of draws.
    RegistryExhausted,
}

impl ErrorKind {
    /// The name under which a response envelope reports this kind.
    pub open spec fn name_spec(self) -> Seq<char> {
        match self {
            ErrorKind::ManifestMalformed => "manifest_malformed"@,
            ErrorKind::BuildFailure => "build_failure"@,
            ErrorKind::ServiceInUse => "service_in_use"@,
            ErrorKind::OpenFailed => "open_failed"@,
            ErrorKind::UnsupportedClass => "unsupported_class"@,
            ErrorKind::EntryMissing => "entry_missing"@,
            ErrorKind::InvalidHandle => "invalid_handle"@,
            ErrorKind::StaleHandle => "stale_handle"@,
            ErrorKind::UnknownFunction => "unknown_function"@,
            ErrorKind::ArityMismatch => "arity_mismatch"@,
            ErrorKind::MarshalFailure => "marshal_failure"@,
            ErrorKind::AbiFailure => "abi_failure"@,
            ErrorKind::CalleeError => "callee_error"@,
            ErrorKind::RegistryExhausted => "registry_exhausted"@,
        }
    }

    /// The name under which a response envelope reports this kind.
    pub fn name(&self) -> (text: &'static str)
        ensures
            text@ == self.name_spec(),
    {
        match self {
            ErrorKind::ManifestMalformed => "manifest_malformed",
            ErrorKind::BuildFailure => "build_failure",
            ErrorKind::ServiceInUse => "service_in_use",
            ErrorKind::OpenFailed => "open_failed",
            ErrorKind::UnsupportedClass => "unsupported_class",
            ErrorKind::EntryMissing => "entry_missing",
            ErrorKind::InvalidHandle => "invalid_handle",
            ErrorKind::StaleHandle => "stale_handle",
            ErrorKind::UnknownFunction => "unknown_function",
            ErrorKind::ArityMismatch => "arity_mismatch",
            ErrorKind::MarshalFailure => "marshal_failure",
            ErrorKind::AbiFailure => "abi_failure",
            ErrorKind::CalleeError => "callee_error",
            ErrorKind::RegistryExhausted => "registry_exhausted",
        }
    }
}

} // verus!
