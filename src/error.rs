use vstd::prelude::*;

verus! {

/// Failures reported by the library.
#[derive(Debug, Clone, PartialEq, Eq)]
pub enum ProcessError {
    /// A path of the input tree could not be mapped onto the output tree.
    FsError(String),
    /// The metadata of an image could not be carried over to its copy.
    MetadataError(String),
    /// The input of a run is not a directory.
    NotADirectory(String),
    /// The font of the watermark could not be read.
    FontError(String),
    /// A source image could not be decoded.
    DecodeError(String),
    /// A watermarked image could not be encoded.
    EncodeError(String),
    /// A file could not be copied.
    CopyError(String),
}

/// What a run does when copying a file fails.
#[derive(Debug, Clone, Copy, PartialEq, Eq)]
pub enum CopyFailurePolicy {
    /// Stop the whole run.
    Abort,
    /// Record the failure and go on with the other files.
    SkipAndContinue,
}

/// Whether an error stops the whole run. A run without an input directory, a
/// watermark or its output directories cannot go on; a failure on one image
/// (decoding, encoding, metadata) never stops it; a failed copy stops it only under
/// `CopyFailurePolicy::Abort`.
pub fn aborts_run(policy: CopyFailurePolicy, e: &ProcessError) -> (r: bool)
    ensures
        r == match e {
            ProcessError::NotADirectory(_) | ProcessError::FontError(_) | ProcessError::FsError(_) => true,
            ProcessError::CopyError(_) => policy == CopyFailurePolicy::Abort,
            _ => false,
        },
{
    match e {
        ProcessError::NotADirectory(_) | ProcessError::FontError(_) | ProcessError::FsError(_) => true,
        ProcessError::CopyError(_) => match policy {
            CopyFailurePolicy::Abort => true,
            CopyFailurePolicy::SkipAndContinue => false,
        },
        _ => false,
    }
}

} // verus!
