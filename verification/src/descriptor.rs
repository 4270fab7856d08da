//! Ownership of one slot of the operating system's descriptor table.

use crate::sys::Syscall;
use vstd::prelude::*;

verus! {

/// Why a descriptor could not be had.
#[derive(Debug, Clone, Copy, PartialEq, Eq, Structural)]
pub enum DescriptorError {
    /// The device could not be opened.
    OpenFail,
}

/// What a [`Descriptor`] stands for: the number of the slot it owns, and
/// whether that slot is still to be closed.
pub struct DescriptorView {
    pub fd: i32,
    pub open: bool,
}

/// The owner of one descriptor.
///
/// A descriptor is made from the answer to a successful `open` and asks
/// for its `close` exactly once: the first [`Descriptor::close`] yields the
/// call to make, every later one yields nothing.
#[derive(Debug, PartialEq, Eq)]
pub struct Descriptor {
    fd: i32,
    open: bool,
}

impl View for Descriptor {
    type V = DescriptorView;

    closed spec fn view(&self) -> DescriptorView {
        DescriptorView { fd: self.fd, open: self.open }
    }
}

impl Descriptor {
    #[verifier::type_invariant]
    spec fn valid(self) -> bool {
        self.fd >= 0
    }

    /// Reads the answer to an `open`: a number below zero reports failure,
    /// any other is the descriptor that is now owned.
    pub fn open(answer: i32) -> (r: Result<Descriptor, DescriptorError>)
        ensures
            answer < 0 ==> r == Err::<Descriptor, DescriptorError>(DescriptorError::OpenFail),
            answer >= 0 ==> r is Ok && r->Ok_0@ == (DescriptorView { fd: answer, open: true }),
    {
        if answer < 0 {
            Err(DescriptorError::OpenFail)
        } else {
            Ok(Descriptor { fd: answer, open: true })
        }
    }

    /// The number of the slot.
    pub fn as_raw_fd(&self) -> (fd: i32)
        ensures
            fd == self@.fd,
            fd >= 0,
    {
        proof {
            use_type_invariant(self);
        }
        self.fd
    }

    /// Whether the slot is still to be closed.
    pub fn is_open(&self) -> (open: bool)
        ensures
            open == self@.open,
    {
        self.open
    }

    /// Gives up the slot. The first call returns the `Close` that must now
    /// be made; once closed, a descriptor stays closed and asks for nothing
    /// more.
    pub fn close(&mut self) -> (call: Option<Syscall>)
        ensures
            final(self)@ == (DescriptorView { fd: old(self)@.fd, open: false }),
            call == if old(self)@.open {
                Some(Syscall::Close { fd: old(self)@.fd })
            } else {
                None::<Syscall>
            },
    {
        proof {
            use_type_invariant(&*self);
        }
        if self.open {
            self.open = false;
            Some(Syscall::Close { fd: self.fd })
        } else {
            None
        }
    }
}

} // verus!
