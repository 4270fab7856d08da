//! Why a fork, or a call on its result, failed.

use crate::descriptor::DescriptorError;
use vstd::prelude::*;

verus! {

/// Why the master side of the terminal could not be prepared.
#[derive(Debug, Clone, Copy, PartialEq, Eq, Structural)]
pub enum MasterError {
    /// The multiplexer could not be opened.
    BadDescriptor(DescriptorError),
    /// Access to the paired slave could not be granted.
    GrantptError,
    /// The paired slave could not be unlocked.
    UnlockptError,
    /// The path of the paired slave could not be resolved.
    PtsnameError,
}

/// Why the slave side of the terminal could not be attached.
#[derive(Debug, Clone, Copy, PartialEq, Eq, Structural)]
pub enum SlaveError {
    /// The slave could not be opened.
    BadDescriptor(DescriptorError),
    /// The slave could not be duplicated onto a standard stream.
    Dup2Error,
}

/// Why a fork, or a call on its result, failed.
#[derive(Debug, Clone, Copy, PartialEq, Eq, Structural)]
pub enum ForkError {
    /// The master could not be opened or prepared.
    BadMaster(MasterError),
    /// The slave could not be opened or bound to a standard stream.
    BadSlave(SlaveError),
    /// The process could not be duplicated.
    Failure,
    /// The child could not become the leader of a new session.
    SetsidFail,
    /// Waiting for the child failed.
    WaitpidFail,
    /// The value is the parent's half, and the call is for the child's.
    IsParent,
    /// The value is the child's half, and the call is for the parent's.
    IsChild,
}

} // verus!
