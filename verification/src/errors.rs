//! The error taxonomy shared by every stage: each stage reports a
//! tagged, terminal failure to its immediate caller; nothing retries
//! internally.

use vstd::prelude::*;

verus! {

#[derive(Debug, Clone, PartialEq, Eq)]
pub enum LauncherError {
    /// The metadata request could not be sent or timed out.
    NetworkError,
    /// The metadata endpoint answered with a non-success status.
    RemoteError { status: u16 },
    /// The metadata body could not be parsed into a release.
    DecodeError,
    /// The expected client/server asset pair could not be located.
    AmbiguousRelease,
    /// A file could not be created, written or read.
    IOError { path: Vec<u8> },
    /// An archive could not be unpacked into its destination.
    ExtractionError { archive: Vec<u8>, dest: Vec<u8> },
    /// The client or server executable is absent from its fixed path.
    ExecutableNotFound,
    /// A port is in use but its owning process could not be determined.
    PortInUseUnidentified,
    /// The process owning a port could not be terminated.
    KillFailed,
    /// The child process could not be spawned.
    SpawnFailed,
}

} // verus!
