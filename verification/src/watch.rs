//! Validation of the watch targets.
//!
//! Every configured path (and, recursively, every walked entry) must
//! resolve when the watches are installed.  A path that does not exist is
//! a fatal, user-visible setup error, and so is any other kernel error
//! while installing a watch; the supervisor then exits with the setup
//! failure code.  The checking order is the configuration order, and the
//! first failure wins.

use vstd::prelude::*;

verus! {

/// The exit code of every setup failure: missing watch target, argument
/// error, or a kernel error during startup.
pub const SETUP_FAILURE_CODE: u8 = 1;

/// How installing the watch for one path (or one walked entry) went.
#[derive(Clone, Copy, Debug, PartialEq, Eq, Structural)]
pub enum PathProbe {
    /// The path resolved and its watch was installed.
    Watched,
    /// No such file or directory.
    Missing,
    /// The kernel refused the watch with some other error.
    Failed,
}

/// A fatal setup error, carrying the position of the offending path in
/// the probed order so the caller can name it.
#[derive(Clone, Copy, Debug, PartialEq, Eq, Structural)]
pub enum SetupError {
    /// The path at this position does not exist.
    MissingPath { index: usize },
    /// The watch for the path at this position failed for another reason.
    WatchFailed { index: usize },
}

/// The error a single probe stands for, if any.
pub open spec fn probe_error(p: PathProbe, i: int) -> Option<SetupError> {
    match p {
        PathProbe::Watched => None,
        PathProbe::Missing => Some(SetupError::MissingPath { index: i as usize }),
        PathProbe::Failed => Some(SetupError::WatchFailed { index: i as usize }),
    }
}

/// Whether watch setup succeeded, and otherwise which path broke it:
/// success exactly when every probe resolved, and on failure the error of
/// the first probe that did not.
pub fn check_watch_targets(probes: &Vec<PathProbe>) -> (r: Result<(), SetupError>)
    ensures
        r is Ok <==> (forall|i: int| 0 <= i < probes@.len() ==> probes@[i] is Watched),
        r matches Err(e) ==> exists|i: int|
            {
                &&& 0 <= i < probes@.len()
                &&& probe_error(probes@[i], i) == Some(e)
                &&& forall|j: int| 0 <= j < i ==> probes@[j] is Watched
            },
{
    let mut i: usize = 0;
    while i < probes.len()
        invariant
            i <= probes@.len(),
            forall|j: int| 0 <= j < i ==> probes@[j] is Watched,
        decreases probes@.len() - i,
    {
        match probes[i] {
            PathProbe::Watched => {
                i = i + 1;
            },
            PathProbe::Missing => {
                return Err(SetupError::MissingPath { index: i });
            },
            PathProbe::Failed => {
                return Err(SetupError::WatchFailed { index: i });
            },
        }
    }
    Ok(())
}

} // verus!
