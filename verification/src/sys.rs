//! The calls that the library asks for, and the answers it reads.

use vstd::prelude::*;

verus! {

/// `libc::STDIN_FILENO`, the constant that numbers the standard input: 0.
#[verifier::external_body]
fn stdin_fileno() -> (fd: libc::c_int)
    ensures
        fd == 0,
{
    libc::STDIN_FILENO
}

/// `libc::STDOUT_FILENO`, the constant that numbers the standard output: 1.
#[verifier::external_body]
fn stdout_fileno() -> (fd: libc::c_int)
    ensures
        fd == 1,
{
    libc::STDOUT_FILENO
}

/// `libc::STDERR_FILENO`, the constant that numbers the standard error: 2.
#[verifier::external_body]
fn stderr_fileno() -> (fd: libc::c_int)
    ensures
        fd == 2,
{
    libc::STDERR_FILENO
}

/// One of the three standard streams of a process.
#[derive(Debug, Clone, Copy, PartialEq, Eq, Structural)]
pub enum Stream {
    Input,
    Output,
    Error,
}

impl Stream {
    /// The descriptor number of the stream.
    pub open spec fn spec_fileno(self) -> i32 {
        match self {
            Stream::Input => 0i32,
            Stream::Output => 1i32,
            Stream::Error => 2i32,
        }
    }

    /// The stream that is rebound after this one, if any.
    pub open spec fn spec_following(self) -> Option<Stream> {
        match self {
            Stream::Input => Some(Stream::Output),
            Stream::Output => Some(Stream::Error),
            Stream::Error => None,
        }
    }

    /// The descriptor number of the stream.
    #[verifier::when_used_as_spec(spec_fileno)]
    pub fn fileno(self) -> (fd: libc::c_int)
        ensures
            fd == self.spec_fileno(),
    {
        match self {
            Stream::Input => stdin_fileno(),
            Stream::Output => stdout_fileno(),
            Stream::Error => stderr_fileno(),
        }
    }

    /// The stream that is rebound after this one, if any.
    #[verifier::when_used_as_spec(spec_following)]
    pub fn following(self) -> (next: Option<Stream>)
        ensures
            next == self.spec_following(),
    {
        match self {
            Stream::Input => Some(Stream::Output),
            Stream::Output => Some(Stream::Error),
            Stream::Error => None,
        }
    }
}

/// A call to the operating system that the library asks its driver to make.
#[derive(Debug, PartialEq, Eq)]
pub enum Syscall {
    /// Open the device at `path` for reading and writing.
    Open { path: Vec<u8> },
    /// Grant access to the slave paired with the master `fd`.
    Grantpt { fd: libc::c_int },
    /// Unlock the slave paired with the master `fd`.
    Unlockpt { fd: libc::c_int },
    /// Duplicate the calling process.
    Fork,
    /// Resolve the path of the slave paired with the master `fd`.
    Ptsname { fd: libc::c_int },
    /// Make the calling process the leader of a new session.
    Setsid,
    /// Duplicate `fd` onto the descriptor number `target`.
    Dup2 { fd: libc::c_int, target: libc::c_int },
    /// Close `fd`.
    Close { fd: libc::c_int },
    /// Wait for a change of state of the process `pid`.
    Waitpid { pid: libc::pid_t },
}

/// A [`Syscall`] as a plain value.
pub enum SyscallView {
    Open { path: Seq<u8> },
    Grantpt { fd: i32 },
    Unlockpt { fd: i32 },
    Fork,
    Ptsname { fd: i32 },
    Setsid,
    Dup2 { fd: i32, target: i32 },
    Close { fd: i32 },
    Waitpid { pid: i32 },
}

impl View for Syscall {
    type V = SyscallView;

    open spec fn view(&self) -> SyscallView {
        match *self {
            Syscall::Open { path } => SyscallView::Open { path: path@ },
            Syscall::Grantpt { fd } => SyscallView::Grantpt { fd },
            Syscall::Unlockpt { fd } => SyscallView::Unlockpt { fd },
            Syscall::Fork => SyscallView::Fork,
            Syscall::Ptsname { fd } => SyscallView::Ptsname { fd },
            Syscall::Setsid => SyscallView::Setsid,
            Syscall::Dup2 { fd, target } => SyscallView::Dup2 { fd, target },
            Syscall::Close { fd } => SyscallView::Close { fd },
            Syscall::Waitpid { pid } => SyscallView::Waitpid { pid },
        }
    }
}

impl Clone for Syscall {
    /// The same call once more.
    fn clone(&self) -> (other: Self)
        ensures
            other@ == self@,
    {
        match self {
            Syscall::Open { path } => Syscall::Open { path: path.clone() },
            Syscall::Grantpt { fd } => Syscall::Grantpt { fd: *fd },
            Syscall::Unlockpt { fd } => Syscall::Unlockpt { fd: *fd },
            Syscall::Fork => Syscall::Fork,
            Syscall::Ptsname { fd } => Syscall::Ptsname { fd: *fd },
            Syscall::Setsid => Syscall::Setsid,
            Syscall::Dup2 { fd, target } => Syscall::Dup2 { fd: *fd, target: *target },
            Syscall::Close { fd } => Syscall::Close { fd: *fd },
            Syscall::Waitpid { pid } => Syscall::Waitpid { pid: *pid },
        }
    }
}

/// What the operating system answered to a [`Syscall`].
#[derive(Debug, PartialEq, Eq)]
pub enum Answer {
    /// The number that the call returned.
    Code(libc::c_int),
    /// The path that `Ptsname` resolved, or nothing where it failed.
    Name(Option<Vec<u8>>),
    /// What `Waitpid` returned, and the status that it stored.
    Status { ret: libc::pid_t, status: libc::c_int },
}

/// An [`Answer`] as a plain value.
pub enum AnswerView {
    Code(i32),
    Name(Option<Seq<u8>>),
    Status { ret: i32, status: i32 },
}

impl AnswerView {
    /// The answer read as a returned number. An answer of another shape
    /// reads as -1, the number that reports failure.
    pub open spec fn code(self) -> i32 {
        match self {
            AnswerView::Code(code) => code,
            _ => -1i32,
        }
    }

    /// The answer read as a resolved path. An answer of another shape reads
    /// as a failed resolution.
    pub open spec fn name(self) -> Option<Seq<u8>> {
        match self {
            AnswerView::Name(name) => name,
            _ => None,
        }
    }

    /// The answer read as what a wait returned. An answer of another shape
    /// reads as -1, the number that reports failure.
    pub open spec fn ret(self) -> i32 {
        match self {
            AnswerView::Status { ret, status } => ret,
            _ => -1i32,
        }
    }

    /// The answer read as the status that a wait stored. An answer of
    /// another shape reads as 0.
    pub open spec fn status(self) -> i32 {
        match self {
            AnswerView::Status { ret, status } => status,
            _ => 0i32,
        }
    }
}

impl View for Answer {
    type V = AnswerView;

    open spec fn view(&self) -> AnswerView {
        match *self {
            Answer::Code(code) => AnswerView::Code(code),
            Answer::Name(name) => AnswerView::Name(
                match name {
                    Some(bytes) => Some(bytes@),
                    None => None,
                },
            ),
            Answer::Status { ret, status } => AnswerView::Status { ret, status },
        }
    }
}

impl Clone for Answer {
    /// The same answer once more.
    fn clone(&self) -> (other: Self)
        ensures
            other@ == self@,
    {
        match self {
            Answer::Code(code) => Answer::Code(*code),
            Answer::Name(Some(bytes)) => Answer::Name(Some(bytes.clone())),
            Answer::Name(None) => Answer::Name(None),
            Answer::Status { ret, status } => Answer::Status { ret: *ret, status: *status },
        }
    }
}

impl Answer {
    /// The answer read as a returned number.
    pub fn code(&self) -> (code: libc::c_int)
        ensures
            code == self@.code(),
    {
        match self {
            Answer::Code(code) => *code,
            _ => -1,
        }
    }

    /// The answer read as a resolved path.
    pub fn name(self) -> (name: Option<Vec<u8>>)
        ensures
            name is Some == self@.name() is Some,
            name matches Some(bytes) ==> self@.name() == Some(bytes@),
    {
        match self {
            Answer::Name(name) => name,
            _ => None,
        }
    }

    /// The answer read as what a wait returned.
    pub fn ret(&self) -> (ret: libc::pid_t)
        ensures
            ret == self@.ret(),
    {
        match self {
            Answer::Status { ret, status: _ } => *ret,
            _ => -1,
        }
    }

    /// The answer read as the status that a wait stored.
    pub fn status(&self) -> (status: libc::c_int)
        ensures
            status == self@.status(),
    {
        match self {
            Answer::Status { ret: _, status } => *status,
            _ => 0,
        }
    }
}

} // verus!
