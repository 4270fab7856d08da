//! The two halves of a fork, and what each of them answers.

use crate::descriptor::DescriptorView;
use crate::err::ForkError;
use crate::pty::{Master, Slave};
use crate::setup::{c_path, driven, outcome_view, Setup, SetupView};
use crate::sys::{Answer, Syscall};
use crate::wait::Wait;
use vstd::prelude::*;
use vstd::string::*;
use vstd::utf8::is_ascii_chars;

verus! {

/// The path of the multiplexer that [`Fork::from_ptmx`] opens.
pub const DEFAULT_PTMX: &'static str = "/dev/ptmx";

/// The bytes of [`DEFAULT_PTMX`].
pub open spec fn ptmx_path() -> Seq<u8> {
    seq![47u8, 100u8, 101u8, 118u8, 47u8, 112u8, 116u8, 109u8, 120u8]
}

/// The half of a fork that a process holds.
#[derive(Debug, PartialEq, Eq)]
pub enum Fork {
    /// The parent's half: the child's process id and the master.
    Parent(libc::pid_t, Master),
    /// The child's half: the slave, bound to the standard streams.
    Child(Slave),
}

/// A [`Fork`] as a plain value.
pub enum ForkView {
    Parent { pid: i32, master: DescriptorView },
    Child { slave: DescriptorView },
}

impl ForkView {
    /// The master of a parent; of a child, the error `IsChild`.
    pub open spec fn is_parent(self) -> Result<DescriptorView, ForkError> {
        match self {
            ForkView::Parent { pid, master } => Ok(master),
            ForkView::Child { slave } => Err(ForkError::IsChild),
        }
    }

    /// The slave of a child; of a parent, the error `IsParent`.
    pub open spec fn is_child(self) -> Result<DescriptorView, ForkError> {
        match self {
            ForkView::Parent { pid, master } => Err(ForkError::IsParent),
            ForkView::Child { slave } => Ok(slave),
        }
    }

    /// The process that a parent waits for; of a child, the error
    /// `IsChild`.
    pub open spec fn wait(self) -> Result<i32, ForkError> {
        match self {
            ForkView::Parent { pid, master } => Ok(pid),
            ForkView::Child { slave } => Err(ForkError::IsChild),
        }
    }
}

impl View for Fork {
    type V = ForkView;

    open spec fn view(&self) -> ForkView {
        match *self {
            Fork::Parent(pid, master) => ForkView::Parent { pid, master: master@ },
            Fork::Child(slave) => ForkView::Child { slave: slave@ },
        }
    }
}

impl Fork {
    /// Forks the process, with a terminal opened from the multiplexer at
    /// `path` attached to the child. Every call to the operating system
    /// is made through `os`. The parent gets the child's process id and
    /// the master; the child gets the slave, bound to its standard
    /// streams. A path that holds a zero byte cannot name a device and is
    /// opened as the empty path.
    pub fn new<F: Fn(&Syscall) -> Answer>(path: &str, os: F) -> (fork: Result<Fork, ForkError>)
        requires
            forall|call: Syscall| os.requires((&call,)),
        ensures
            exists|calls: Seq<Syscall>, answers: Seq<Answer>|
                driven(
                    SetupView::Opening { path: c_path(path.spec_bytes()) },
                    os,
                    calls,
                    answers,
                    outcome_view(fork),
                ),
    {
        Setup::new(path.as_bytes()).drive(os)
    }

    /// Forks the process on the multiplexer at [`DEFAULT_PTMX`].
    pub fn from_ptmx<F: Fn(&Syscall) -> Answer>(os: F) -> (fork: Result<Fork, ForkError>)
        requires
            forall|call: Syscall| os.requires((&call,)),
        ensures
            exists|calls: Seq<Syscall>, answers: Seq<Answer>|
                driven(
                    SetupView::Opening { path: ptmx_path() },
                    os,
                    calls,
                    answers,
                    outcome_view(fork),
                ),
    {
        proof {
            lemma_default_path();
        }
        Fork::new(DEFAULT_PTMX, os)
    }

    /// Begins to wait for the child. In the child there is nothing to
    /// wait for: the call fails with `IsChild` and asks for nothing.
    pub fn wait(&self) -> (wait: Result<Wait, ForkError>)
        ensures
            wait is Ok == self@.wait() is Ok,
            wait matches Ok(w) ==> self@.wait() == Ok::<i32, ForkError>(w.pid()),
            wait matches Err(e) ==> self@.wait() == Err::<i32, ForkError>(e),
    {
        match self {
            Fork::Child(_) => Err(ForkError::IsChild),
            Fork::Parent(pid, _) => Ok(Wait::new(*pid)),
        }
    }

    /// A handle on the parent's master, which shares its descriptor with
    /// the one held here. In the child the call fails with `IsChild`.
    pub fn is_parent(&self) -> (master: Result<Master, ForkError>)
        ensures
            master is Ok == self@.is_parent() is Ok,
            master matches Ok(m) ==> self@.is_parent() == Ok::<DescriptorView, ForkError>(m@),
            master matches Err(e) ==> self@.is_parent() == Err::<DescriptorView, ForkError>(e),
    {
        match self {
            Fork::Child(_) => Err(ForkError::IsChild),
            Fork::Parent(_, master) => Ok(master.clone()),
        }
    }

    /// The child's slave. In the parent the call fails with `IsParent`.
    pub fn is_child(&self) -> (slave: Result<&Slave, ForkError>)
        ensures
            slave is Ok == self@.is_child() is Ok,
            slave matches Ok(s) ==> self@.is_child() == Ok::<DescriptorView, ForkError>(s@),
            slave matches Err(e) ==> self@.is_child() == Err::<DescriptorView, ForkError>(e),
    {
        match self {
            Fork::Parent(_, _) => Err(ForkError::IsParent),
            Fork::Child(slave) => Ok(slave),
        }
    }

    /// Gives up this half. A child asks for the close of its slave. A
    /// parent gives up its handle on the master, which asks for a close
    /// only where no other handle remains.
    pub fn release(self) -> (call: Option<Syscall>)
        ensures
            self@ matches ForkView::Child { slave } ==> call == if slave.open {
                Some(Syscall::Close { fd: slave.fd })
            } else {
                None::<Syscall>
            },
            self@ matches ForkView::Parent { pid, master } ==> (call is Some ==> master.open
                && call == Some(Syscall::Close { fd: master.fd })),
    {
        match self {
            Fork::Parent(_, master) => master.release(),
            Fork::Child(slave) => slave.release(),
        }
    }
}

/// The default path is handed to `open` as it is written: it holds no
/// zero byte.
pub proof fn lemma_default_path()
    ensures
        DEFAULT_PTMX.spec_bytes() == ptmx_path(),
        c_path(DEFAULT_PTMX.spec_bytes()) == ptmx_path(),
{
    broadcast use is_ascii_spec_bytes;

    reveal_strlit("/dev/ptmx");
    assert(is_ascii(DEFAULT_PTMX)) by {
        assert(is_ascii_chars(DEFAULT_PTMX@));
    }
    assert(DEFAULT_PTMX.spec_bytes() =~= ptmx_path());
}

/// Of the two accessors of a fork exactly one succeeds, and the other
/// fails with the error that names the half the value is.
pub proof fn lemma_exactly_one_half(fork: ForkView)
    ensures
        fork.is_parent() is Ok != fork.is_child() is Ok,
        fork.is_parent() is Ok ==> fork.is_child() == Err::<DescriptorView, ForkError>(
            ForkError::IsParent,
        ),
        fork.is_child() is Ok ==> fork.is_parent() == Err::<DescriptorView, ForkError>(
            ForkError::IsChild,
        ),
{
}

} // verus!
