//! Startup supervisor core: waits for a set of filesystem paths to appear
//! under an exponential-backoff schedule, races that wait against the
//! termination of a supervised child process, and decides the supervisor's
//! own notifications and exit code from whichever finishes first.

pub mod digits;
pub mod manifest;
pub mod poller;
pub mod race;
pub mod waiter;
