//! The two ends of a pseudo-terminal.

use crate::descriptor::{Descriptor, DescriptorView};
use crate::sys::{Stream, Syscall};
use std::rc::Rc;
use vstd::prelude::*;

verus! {

/// `Rc::clone`: a second pointer to the allocation that `pty` points to,
/// hence to the same descriptor.
#[verifier::external_body]
fn alias(pty: &Rc<Descriptor>) -> (other: Rc<Descriptor>)
    ensures
        other == *pty,
{
    Rc::clone(pty)
}

/// The master end of a pseudo-terminal.
///
/// Clones of a master share one descriptor. Each of them is given up by
/// [`Master::release`], and only the last to go asks for the descriptor to
/// be closed.
#[derive(Debug, PartialEq, Eq)]
pub struct Master {
    pty: Rc<Descriptor>,
}

impl View for Master {
    type V = DescriptorView;

    closed spec fn view(&self) -> DescriptorView {
        (*self.pty)@
    }
}

impl Clone for Master {
    /// Another handle on the same descriptor.
    fn clone(&self) -> (other: Self)
        ensures
            other@ == self@,
    {
        Master { pty: alias(&self.pty) }
    }
}

impl Master {
    /// Starts to share `pty`.
    pub fn new(pty: Descriptor) -> (master: Master)
        ensures
            master@ == pty@,
    {
        Master { pty: Rc::new(pty) }
    }

    /// The number of the shared descriptor.
    pub fn as_raw_fd(&self) -> (fd: i32)
        ensures
            fd == self@.fd,
            fd >= 0,
    {
        self.pty.as_raw_fd()
    }

    /// What giving up a handle asks for, given the descriptor that the
    /// handle was the last to hold, if it was the last: the close of that
    /// descriptor where it is open, and nothing otherwise.
    pub fn released(last: Option<Descriptor>) -> (call: Option<Syscall>)
        ensures
            call == match last {
                Some(pty) if pty@.open => Some(Syscall::Close { fd: pty@.fd }),
                _ => None::<Syscall>,
            },
    {
        match last {
            Some(pty) => {
                let mut pty = pty;
                pty.close()
            },
            None => None,
        }
    }

    /// Gives up this handle. Where other handles remain, nothing is asked
    /// for and the descriptor stays as it is for them; the last handle to
    /// go asks for the close of the descriptor.
    pub fn release(self) -> (call: Option<Syscall>)
        ensures
            call is Some ==> self@.open && call == Some(Syscall::Close { fd: self@.fd }),
    {
        Master::released(Rc::into_inner(self.pty))
    }
}

/// The slave end of a pseudo-terminal, owned by one value.
#[derive(Debug, PartialEq, Eq)]
pub struct Slave {
    pty: Descriptor,
}

impl View for Slave {
    type V = DescriptorView;

    closed spec fn view(&self) -> DescriptorView {
        self.pty@
    }
}

impl Slave {
    /// Takes ownership of `pty`.
    pub fn new(pty: Descriptor) -> (slave: Slave)
        ensures
            slave@ == pty@,
    {
        Slave { pty }
    }

    /// The number of the descriptor.
    pub fn as_raw_fd(&self) -> (fd: i32)
        ensures
            fd == self@.fd,
            fd >= 0,
    {
        self.pty.as_raw_fd()
    }

    /// The call that duplicates the slave onto `stream`. The slave keeps
    /// its own descriptor.
    pub fn dup2(&self, stream: Stream) -> (call: Syscall)
        ensures
            call == (Syscall::Dup2 { fd: self@.fd, target: stream.spec_fileno() }),
    {
        Syscall::Dup2 { fd: self.pty.as_raw_fd(), target: stream.fileno() }
    }

    /// Gives up the slave: asks for the close of its descriptor where it
    /// is open.
    pub fn release(self) -> (call: Option<Syscall>)
        ensures
            call == if self@.open {
                Some(Syscall::Close { fd: self@.fd })
            } else {
                None::<Syscall>
            },
    {
        let mut pty = self.pty;
        pty.close()
    }
}

} // verus!
