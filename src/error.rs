use vstd::prelude::*;

verus! {

/// Why the processing of one version stopped.
#[derive(Clone, Copy, Debug, PartialEq, Eq, Structural)]
pub enum PipelineError {
    /// A version identifier is not `major.minor[.patch]` with each part a `u8`.
    InvalidVersion,
    /// The bytes given as an archive have no readable central directory.
    NotAnArchive,
    /// A release index lists neither the requested release nor its latest release.
    VersionNotListed,
    /// No payload could be resolved inside a nested archive.
    PayloadNotFound,
    /// A file-name pattern of the library failed to compile.
    InvalidPattern,
    /// No file in a directory listing matches the expected name.
    FileNotFound,
    /// The diff engine could not produce a patch.
    DiffFailed,
    /// A patch that cannot be applied to the given bytes.
    CorruptPatch,
    /// The external build exited with the given non-zero code.
    BuildFailed(i32),
    /// The remote provenance could not be fetched or parsed.
    ProvenanceUnavailable,
    /// A bundled dependency of the project descriptor has no version.
    InvalidDependency,
    /// A working directory or an output file could not be created or written.
    WriteFailed,
    /// A recomputed digest differs from the recorded one.
    IntegrityMismatch,
}

} // verus!
