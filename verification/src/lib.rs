//! Decision core of a command supervisor.
//!
//! The supervisor launches a command as a child process, watches a set of
//! filesystem paths, and reacts to three kinds of events: file-change
//! notifications, child exit, and delivered signals.  Everything the
//! supervisor *decides* lives here, verified: the prioritized event domain,
//! the child-lifecycle state machine with its restart policy, the
//! SIGTERM-to-SIGKILL teardown protocol, the watch-target validation, and
//! the command-line grammar.  The surrounding binary performs the syscalls
//! (fork/exec, inotify, signalfd, epoll, kill, waitpid) and feeds their
//! outcomes to these functions as plain values.

pub mod event;
pub mod options;
pub mod parse;
pub mod supervisor;
pub mod teardown;
pub mod watch;
