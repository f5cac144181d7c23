//! Running a process in a sandbox: the decisions, apart from the system calls.

pub mod cgroup;
pub mod child;
pub mod classify;
pub mod driver;
pub mod events;
pub mod landlock;
pub mod output;
pub mod plan;
pub mod procfs;
pub mod seccomp;
pub mod wait;

pub use plan::Runner;
