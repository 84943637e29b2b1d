use vstd::prelude::*;

verus! {

/// An environment variable that a launcher's directories are derived from.
#[derive(Clone, Copy, Debug, PartialEq, Eq, Structural)]
pub enum EnvVar {
    AppData,
    HomeDrive,
    HomePath,
}

/// Every way one update run can fail.
#[derive(Clone, Copy, Debug, PartialEq, Eq, Structural)]
pub enum UpdateError {
    /// The release feed could not be reached.
    Network,
    /// No release, or no asset of the expected name.
    NotFound,
    /// A required environment variable is absent.
    Config(EnvVar),
    /// The asset stream could not be opened or broke off.
    Download,
    /// A file could not be read, written or removed.
    Io,
    /// The downloaded archive is corrupt.
    Archive,
    /// The last key of a JSON key path is not in its object.
    KeyNotFound,
    /// An intermediate key of a JSON key path is missing.
    PathNotFound,
    /// The managed launcher's pack installer failed.
    Install,
    /// The line pattern of the config patch could not be compiled.
    Pattern,
}

} // verus!
