//! Verified core of a Windows-side launcher for WSL commands.
//!
//! A single installed binary plays a dual role: invoked under its own name it
//! manages a directory of command entries (two-level symlink chains); invoked
//! through a link with another name it translates the Windows-style command
//! line into a `wsl` shell invocation and mirrors the child's exit status.
//!
//! This crate holds the decision logic of that launcher: path-name inspection,
//! the command-name grammar, argument translation, child command-line
//! synthesis and exit-status mapping, the link-registry rules over a directory
//! snapshot, and mode dispatch.  All filesystem and process work is left to
//! the surrounding program, which feeds plain values in and carries the
//! returned plans out.

pub mod argtrans;
pub mod dispatch;
pub mod invoker;
pub mod namecodec;
pub mod pathview;
pub mod registry;
