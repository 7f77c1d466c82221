//! Network enforcement by seccomp notification.
//!
//! A filter in the sandboxed process hands network system calls to a supervisor. The
//! supervisor reads the destination of the call once, holds it against an allowlist
//! that was pinned when the sandbox was created, and answers in place of the kernel.
pub mod address;
pub mod allowlist;
pub mod filter;
pub mod notify;
