//! The observable result of running an external command.
//!
//! The process-spawning facility itself is an external collaborator that
//! lives outside this crate; callers hand its captured result to the
//! service controllers as a plain value.

use vstd::prelude::*;

verus! {

/// What a finished external command left behind: whether it exited with
/// status zero, and its captured output streams.
///
/// A non-zero exit is not by itself an error: some status queries
/// legitimately exit non-zero while the service is inactive, so the
/// controllers inspect `exit_success` and `stderr` themselves.
pub struct CommandOutput {
    /// The command exited with status zero.
    pub exit_success: bool,
    /// Captured standard output.
    pub stdout: String,
    /// Captured standard error.
    pub stderr: String,
}

impl CommandOutput {
    /// Bundles a captured command result.
    pub fn new(exit_success: bool, stdout: String, stderr: String) -> (r: CommandOutput)
        ensures
            r.exit_success == exit_success,
            r.stdout == stdout,
            r.stderr == stderr,
    {
        CommandOutput { exit_success, stdout, stderr }
    }
}

} // verus!
