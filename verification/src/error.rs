use vstd::prelude::*;

verus! {

/// An I/O error of the standard library, carried through unread.
#[verifier::external_type_specification]
#[verifier::external_body]
pub struct ExIoError(std::io::Error);

/// Errors returned while constructing backend components.
#[derive(Debug)]
pub enum BuildError {
    /// File output configuration is invalid; the text says why.
    InvalidFileConfig(&'static str),
    /// File sink setup failed.
    Io(std::io::Error),
}

/// Errors returned while installing the backend globally.
#[derive(Debug)]
pub enum InitError {
    /// A global tracing subscriber is already installed.
    AlreadyInitialized,
    /// The `log` crate already has a global logger installed.
    LogBridgeAlreadyInitialized,
    /// Building the backend failed before installation.
    Build(BuildError),
}

impl From<BuildError> for InitError {
    fn from(err: BuildError) -> (r: InitError) {
        InitError::Build(err)
    }
}

impl vstd::std_specs::convert::FromSpecImpl<BuildError> for InitError {
    open spec fn obeys_from_spec() -> bool {
        true
    }

    open spec fn from_spec(err: BuildError) -> InitError {
        InitError::Build(err)
    }
}

impl From<std::io::Error> for BuildError {
    fn from(err: std::io::Error) -> (r: BuildError) {
        BuildError::Io(err)
    }
}

impl vstd::std_specs::convert::FromSpecImpl<std::io::Error> for BuildError {
    open spec fn obeys_from_spec() -> bool {
        true
    }

    open spec fn from_spec(err: std::io::Error) -> BuildError {
        BuildError::Io(err)
    }
}

} // verus!
