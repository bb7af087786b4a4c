//! The supervisor's immutable configuration.

use vstd::prelude::*;

verus! {

/// Grace period between SIGTERM and SIGKILL when no value is given on the
/// command line, in milliseconds.
pub const DEFAULT_KILL_TIMER_MS: i32 = 5000;

/// Configuration produced at startup and never changed afterwards.
///
/// `command` is the program to supervise with its arguments, at least one
/// token.  `files` are the paths to watch; an empty list is legal, the loop
/// is then driven by signals and child exits alone.  The four policy flags
/// decide what a child exit triggers; when none matches the exit's status,
/// the supervisor goes dormant.  `kill_timer` is the SIGTERM-to-SIGKILL
/// grace period in non-negative milliseconds.
#[derive(Clone, Debug)]
pub struct Options {
    /// Leave the loop when the child exits with status zero.
    pub exit_on_zero: bool,
    /// Leave the loop when the child exits with non-zero status.
    pub exit_on_error: bool,
    /// Restart the child when it exits with status zero.
    pub restart_on_zero: bool,
    /// Restart the child when it exits with non-zero status.
    pub restart_on_error: bool,
    /// Walk each watched directory and watch every entry found.
    pub recursive: bool,
    /// Write progress milestones to the diagnostics stream.
    pub verbose: bool,
    /// Milliseconds granted to the child's process group between SIGTERM
    /// and SIGKILL.
    pub kill_timer: i32,
    /// The command to run: program name followed by its arguments.
    pub command: Vec<String>,
    /// The paths to watch for changes.
    pub files: Vec<String>,
}

impl Options {
    /// What every well-formed configuration satisfies: there is a program
    /// to run, and the grace period is non-negative.
    pub open spec fn wf(&self) -> bool {
        &&& self.command@.len() >= 1
        &&& 0 <= self.kill_timer
    }
}

/// The mathematical shape of a configuration: token lists become
/// sequences of character sequences, the grace period a plain integer.
#[verifier::ext_equal]
pub struct OptionsView {
    pub exit_on_zero: bool,
    pub exit_on_error: bool,
    pub restart_on_zero: bool,
    pub restart_on_error: bool,
    pub recursive: bool,
    pub verbose: bool,
    pub kill_timer: int,
    pub command: Seq<Seq<char>>,
    pub files: Seq<Seq<char>>,
}

impl View for Options {
    type V = OptionsView;

    open spec fn view(&self) -> OptionsView {
        OptionsView {
            exit_on_zero: self.exit_on_zero,
            exit_on_error: self.exit_on_error,
            restart_on_zero: self.restart_on_zero,
            restart_on_error: self.restart_on_error,
            recursive: self.recursive,
            verbose: self.verbose,
            kill_timer: self.kill_timer as int,
            command: self.command.deep_view(),
            files: self.files.deep_view(),
        }
    }
}

} // verus!
