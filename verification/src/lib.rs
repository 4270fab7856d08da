//! Forking with a pseudo-terminal attached to the child.
//!
//! The library owns every decision of the fork-and-attach protocol and
//! makes none of its system calls itself. [`Fork::new`] runs the protocol
//! through a function that makes the calls. A [`Setup`] is the protocol
//! one call at a time: it names the call it is waiting for, and whoever
//! drives it makes that call and hands the answer back. A [`Wait`] decides
//! in the same way when a wait for the child is over.

pub mod descriptor;
pub mod err;
pub mod fork;
pub mod laws;
pub mod pty;
pub mod setup;
pub mod sys;
pub mod wait;

pub use descriptor::{Descriptor, DescriptorError, DescriptorView};
pub use sys::{Answer, AnswerView, Stream, Syscall, SyscallView};
pub use err::{ForkError, MasterError, SlaveError};
pub use pty::{Master, Slave};
pub use fork::{Fork, ForkView, DEFAULT_PTMX};
pub use setup::{Setup, SetupView};
pub use wait::Wait;
