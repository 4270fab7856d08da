//! The fork-and-attach protocol, one call at a time.
//!
//! A setup opens the multiplexer, grants and unlocks the paired slave and
//! duplicates the process. The parent then holds the master. The child
//! resolves the slave's path, leads a new session, opens the slave, binds
//! it to the three standard streams in turn and closes its master. The
//! first call that fails ends the setup: what was opened is closed, and
//! the error says which stage failed.

use crate::descriptor::{Descriptor, DescriptorError, DescriptorView};
use crate::err::{ForkError, MasterError, SlaveError};
use crate::fork::{Fork, ForkView};
use crate::pty::{Master, Slave};
use crate::sys::{Answer, AnswerView, Stream, Syscall, SyscallView};
use vstd::prelude::*;
use vstd::slice::slice_to_vec;

verus! {

/// The path that is handed to `open` for the bytes given: the bytes
/// themselves, or the empty path where a zero byte is among them.
pub open spec fn c_path(bytes: Seq<u8>) -> Seq<u8> {
    if bytes.contains(0u8) {
        Seq::empty()
    } else {
        bytes
    }
}

/// The path handed to `open` holds no zero byte, and is the path given
/// wherever that holds none.
pub proof fn lemma_c_path(bytes: Seq<u8>)
    ensures
        !c_path(bytes).contains(0u8),
        !bytes.contains(0u8) ==> c_path(bytes) == bytes,
        bytes.contains(0u8) ==> c_path(bytes).len() == 0,
{
}

/// How a fork ended, as a plain value.
pub open spec fn outcome_view(outcome: Result<Fork, ForkError>) -> Result<ForkView, ForkError> {
    match outcome {
        Ok(fork) => Ok(fork@),
        Err(error) => Err(error),
    }
}

/// A descriptor that was opened and not yet closed.
pub open spec fn opened(fd: i32) -> DescriptorView {
    DescriptorView { fd, open: true }
}

/// The stage that a setup has reached, with what it holds there.
pub enum SetupView {
    /// The multiplexer at `path` is to be opened.
    Opening { path: Seq<u8> },
    /// Access to the slave is to be granted.
    Granting { master: i32 },
    /// The slave is to be unlocked.
    Unlocking { master: i32 },
    /// The process is to be duplicated.
    Forking { master: i32 },
    /// In the child: the slave's path is to be resolved.
    Naming { master: i32 },
    /// In the child: a new session is to be led.
    Leading { master: i32, name: Seq<u8> },
    /// In the child: the slave at `name` is to be opened.
    Attaching { master: i32, name: Seq<u8> },
    /// In the child: the slave is to be bound to `stream`.
    Binding { master: i32, slave: i32, stream: Stream },
    /// `closing` is to be closed, then `then`, and the setup ends with
    /// `outcome`.
    Closing { closing: i32, then: Option<i32>, outcome: Result<ForkView, ForkError> },
    /// The setup is over.
    Done { outcome: Result<ForkView, ForkError> },
}

impl SetupView {
    /// The setup that closes `master` and fails with `error`.
    pub open spec fn failing(master: i32, error: ForkError) -> SetupView {
        SetupView::Closing { closing: master, then: None, outcome: Err(error) }
    }

    /// Whether the setup is over.
    pub open spec fn is_done(self) -> bool {
        self is Done
    }

    /// The call that the setup waits for; none once it is over.
    pub open spec fn pending(self) -> Option<SyscallView> {
        match self {
            SetupView::Opening { path } => Some(SyscallView::Open { path }),
            SetupView::Granting { master } => Some(SyscallView::Grantpt { fd: master }),
            SetupView::Unlocking { master } => Some(SyscallView::Unlockpt { fd: master }),
            SetupView::Forking { master } => Some(SyscallView::Fork),
            SetupView::Naming { master } => Some(SyscallView::Ptsname { fd: master }),
            SetupView::Leading { master, name } => Some(SyscallView::Setsid),
            SetupView::Attaching { master, name } => Some(SyscallView::Open { path: name }),
            SetupView::Binding { master, slave, stream } => Some(
                SyscallView::Dup2 { fd: slave, target: stream.spec_fileno() },
            ),
            SetupView::Closing { closing, then, outcome } => Some(
                SyscallView::Close { fd: closing },
            ),
            SetupView::Done { outcome } => None,
        }
    }

    /// The setup after `answer` was given to the pending call.
    pub open spec fn advance(self, answer: AnswerView) -> SetupView {
        match self {
            SetupView::Opening { path } => if answer.code() < 0 {
                SetupView::Done {
                    outcome: Err(
                        ForkError::BadMaster(MasterError::BadDescriptor(DescriptorError::OpenFail)),
                    ),
                }
            } else {
                SetupView::Granting { master: answer.code() }
            },
            SetupView::Granting { master } => if answer.code() == -1 {
                SetupView::failing(master, ForkError::BadMaster(MasterError::GrantptError))
            } else {
                SetupView::Unlocking { master }
            },
            SetupView::Unlocking { master } => if answer.code() == -1 {
                SetupView::failing(master, ForkError::BadMaster(MasterError::UnlockptError))
            } else {
                SetupView::Forking { master }
            },
            SetupView::Forking { master } => if answer.code() == -1 {
                SetupView::failing(master, ForkError::Failure)
            } else if answer.code() == 0 {
                SetupView::Naming { master }
            } else {
                SetupView::Done {
                    outcome: Ok(ForkView::Parent { pid: answer.code(), master: opened(master) }),
                }
            },
            SetupView::Naming { master } => match answer.name() {
                None => SetupView::failing(
                    master,
                    ForkError::BadMaster(MasterError::PtsnameError),
                ),
                Some(name) => SetupView::Leading { master, name },
            },
            SetupView::Leading { master, name } => if answer.code() == -1 {
                SetupView::failing(master, ForkError::SetsidFail)
            } else {
                SetupView::Attaching { master, name }
            },
            SetupView::Attaching { master, name } => if answer.code() < 0 {
                SetupView::failing(
                    master,
                    ForkError::BadSlave(SlaveError::BadDescriptor(DescriptorError::OpenFail)),
                )
            } else {
                SetupView::Binding { master, slave: answer.code(), stream: Stream::Input }
            },
            SetupView::Binding { master, slave, stream } => if answer.code() == -1 {
                SetupView::Closing {
                    closing: slave,
                    then: Some(master),
                    outcome: Err(ForkError::BadSlave(SlaveError::Dup2Error)),
                }
            } else {
                match stream.spec_following() {
                    Some(next) => SetupView::Binding { master, slave, stream: next },
                    None => SetupView::Closing {
                        closing: master,
                        then: None,
                        outcome: Ok(ForkView::Child { slave: opened(slave) }),
                    },
                }
            },
            SetupView::Closing { closing, then, outcome } => match then {
                Some(next) => SetupView::Closing { closing: next, then: None, outcome },
                None => SetupView::Done { outcome },
            },
            SetupView::Done { outcome } => self,
        }
    }

    /// The setup after each of `answers` was given in turn to the call
    /// then pending.
    pub open spec fn run(self, answers: Seq<AnswerView>) -> SetupView
        decreases answers.len(),
    {
        if answers.len() == 0 {
            self
        } else {
            self.run(answers.drop_last()).advance(answers.last())
        }
    }

    /// The call that is pending when the answer of index `i` is given;
    /// with `i` the number of answers, the call pending after all of them.
    pub open spec fn asked(self, answers: Seq<AnswerView>, i: int) -> Option<SyscallView> {
        self.run(answers.take(i)).pending()
    }

    /// An upper bound on the calls that the setup may still ask for.
    pub open spec fn remaining(self) -> nat {
        match self {
            SetupView::Opening { path } => 12,
            SetupView::Granting { master } => 11,
            SetupView::Unlocking { master } => 10,
            SetupView::Forking { master } => 9,
            SetupView::Naming { master } => 8,
            SetupView::Leading { master, name } => 7,
            SetupView::Attaching { master, name } => 6,
            SetupView::Binding { master, slave, stream } => match stream {
                Stream::Input => 5,
                Stream::Output => 4,
                Stream::Error => 3,
            },
            SetupView::Closing { closing, then, outcome } => match then {
                Some(next) => 2,
                None => 1,
            },
            SetupView::Done { outcome } => 0,
        }
    }
}

/// A series of answers as plain values.
pub open spec fn views(answers: Seq<Answer>) -> Seq<AnswerView> {
    answers.map_values(|answer: Answer| answer@)
}

/// Whether `setup`, driven by `os`, may have asked for `calls`, got
/// `answers` to them and ended with `outcome`: each call is the one that
/// was pending after the answers before it, each answer is one that `os`
/// gives to its call, and the answers bring the setup to its end.
pub open spec fn driven<F: Fn(&Syscall) -> Answer>(
    setup: SetupView,
    os: F,
    calls: Seq<Syscall>,
    answers: Seq<Answer>,
    outcome: Result<ForkView, ForkError>,
) -> bool {
    &&& calls.len() == answers.len()
    &&& answers.len() <= setup.remaining()
    &&& forall|i: int|
        0 <= i < calls.len() ==> setup.asked(views(answers), i) == Some((#[trigger] calls[i])@)
            && os.ensures((&calls[i],), answers[i])
    &&& setup.run(views(answers)) == SetupView::Done { outcome }
}

#[derive(Debug)]
enum Stage {
    Opening { path: Vec<u8> },
    Granting { master: Descriptor },
    Unlocking { master: Descriptor },
    Forking { master: Descriptor },
    Naming { master: Descriptor },
    Leading { master: Descriptor, name: Vec<u8> },
    Attaching { master: Descriptor, name: Vec<u8> },
    Binding { master: Descriptor, slave: Slave, stream: Stream },
    Closing { closing: i32, then: Option<i32>, outcome: Result<Fork, ForkError> },
    Done { outcome: Result<Fork, ForkError> },
}

/// A fork in the making.
///
/// A setup names the call it waits for with [`Setup::pending`] and takes
/// the answer to it with [`Setup::advance`], until no call is pending and
/// [`Setup::finish`] hands out how the fork ended.
#[derive(Debug)]
pub struct Setup {
    stage: Stage,
}

impl View for Setup {
    type V = SetupView;

    closed spec fn view(&self) -> SetupView {
        match self.stage {
            Stage::Opening { path } => SetupView::Opening { path: path@ },
            Stage::Granting { master } => SetupView::Granting { master: master@.fd },
            Stage::Unlocking { master } => SetupView::Unlocking { master: master@.fd },
            Stage::Forking { master } => SetupView::Forking { master: master@.fd },
            Stage::Naming { master } => SetupView::Naming { master: master@.fd },
            Stage::Leading { master, name } => SetupView::Leading {
                master: master@.fd,
                name: name@,
            },
            Stage::Attaching { master, name } => SetupView::Attaching {
                master: master@.fd,
                name: name@,
            },
            Stage::Binding { master, slave, stream } => SetupView::Binding {
                master: master@.fd,
                slave: slave@.fd,
                stream,
            },
            Stage::Closing { closing, then, outcome } => SetupView::Closing {
                closing,
                then,
                outcome: outcome_view(outcome),
            },
            Stage::Done { outcome } => SetupView::Done { outcome: outcome_view(outcome) },
        }
    }
}

/// The descriptor that `call` closes, if it is a close.
spec fn spec_closed_by(call: Option<Syscall>) -> Option<i32> {
    match call {
        Some(Syscall::Close { fd }) => Some(fd),
        _ => None,
    }
}

/// The descriptor that `call` closes, if it is a close.
#[verifier::when_used_as_spec(spec_closed_by)]
fn closed_by(call: Option<Syscall>) -> (fd: Option<i32>)
    ensures
        fd == spec_closed_by(call),
{
    match call {
        Some(Syscall::Close { fd }) => Some(fd),
        _ => None,
    }
}

/// The stage that makes the closes asked for, `first` before `then`, and
/// ends with `outcome`.
fn releasing(
    first: Option<Syscall>,
    then: Option<Syscall>,
    outcome: Result<Fork, ForkError>,
) -> (stage: Stage)
    ensures
        stage == match (closed_by(first), closed_by(then)) {
            (Some(closing), then) => Stage::Closing { closing, then, outcome },
            (None, Some(closing)) => Stage::Closing { closing, then: None, outcome },
            (None, None) => Stage::Done { outcome },
        },
{
    match (closed_by(first), closed_by(then)) {
        (Some(closing), then) => Stage::Closing { closing, then, outcome },
        (None, Some(closing)) => Stage::Closing { closing, then: None, outcome },
        (None, None) => Stage::Done { outcome },
    }
}

impl Setup {
    #[verifier::type_invariant]
    spec fn holds_open(self) -> bool {
        match self.stage {
            Stage::Opening { path } => true,
            Stage::Granting { master } => master@.open,
            Stage::Unlocking { master } => master@.open,
            Stage::Forking { master } => master@.open,
            Stage::Naming { master } => master@.open,
            Stage::Leading { master, name } => master@.open,
            Stage::Attaching { master, name } => master@.open,
            Stage::Binding { master, slave, stream } => master@.open && slave@.open,
            Stage::Closing { closing, then, outcome } => true,
            Stage::Done { outcome } => true,
        }
    }

    /// The setup that is about to open the multiplexer at `path`, or at
    /// the empty path where `path` holds a zero byte.
    pub fn new(path: &[u8]) -> (setup: Setup)
        ensures
            setup@ == (SetupView::Opening { path: c_path(path@) }),
    {
        let mut i: usize = 0;
        while i < path.len()
            invariant
                i <= path.len(),
                forall|j: int| 0 <= j < i ==> path@[j] != 0u8,
            decreases path.len() - i,
        {
            if path[i] == 0 {
                assert(path@.contains(0u8));
                return Setup { stage: Stage::Opening { path: Vec::new() } };
            }
            i += 1;
        }
        Setup { stage: Stage::Opening { path: slice_to_vec(path) } }
    }

    /// Whether the setup is over.
    pub fn is_done(&self) -> (done: bool)
        ensures
            done == self@.is_done(),
    {
        match &self.stage {
            Stage::Done { outcome: _ } => true,
            _ => false,
        }
    }

    /// The call that the setup waits for; none once it is over.
    pub fn pending(&self) -> (call: Option<Syscall>)
        ensures
            call is Some == self@.pending() is Some,
            call matches Some(c) ==> self@.pending() == Some(c@),
    {
        match &self.stage {
            Stage::Opening { path } => Some(Syscall::Open { path: path.clone() }),
            Stage::Granting { master } => Some(Syscall::Grantpt { fd: master.as_raw_fd() }),
            Stage::Unlocking { master } => Some(Syscall::Unlockpt { fd: master.as_raw_fd() }),
            Stage::Forking { master: _ } => Some(Syscall::Fork),
            Stage::Naming { master } => Some(Syscall::Ptsname { fd: master.as_raw_fd() }),
            Stage::Leading { master: _, name: _ } => Some(Syscall::Setsid),
            Stage::Attaching { master: _, name } => Some(Syscall::Open { path: name.clone() }),
            Stage::Binding { master: _, slave, stream } => Some(slave.dup2(*stream)),
            Stage::Closing { closing, then: _, outcome: _ } => Some(
                Syscall::Close { fd: *closing },
            ),
            Stage::Done { outcome: _ } => None,
        }
    }

    /// Takes the answer to the pending call and moves on: to the next
    /// call, or, on a failure, to the closes that end the setup. An answer
    /// given when no call is pending changes nothing.
    pub fn advance(self, answer: Answer) -> (next: Setup)
        ensures
            next@ == self@.advance(answer@),
    {
        proof {
            use_type_invariant(&self);
        }
        let stage = match self.stage {
            Stage::Opening { path: _ } => match Descriptor::open(answer.code()) {
                Err(cause) => Stage::Done {
                    outcome: Err(ForkError::BadMaster(MasterError::BadDescriptor(cause))),
                },
                Ok(master) => Stage::Granting { master },
            },
            Stage::Granting { master } => if answer.code() == -1 {
                let mut master = master;
                releasing(
                    master.close(),
                    None,
                    Err(ForkError::BadMaster(MasterError::GrantptError)),
                )
            } else {
                Stage::Unlocking { master }
            },
            Stage::Unlocking { master } => if answer.code() == -1 {
                let mut master = master;
                releasing(
                    master.close(),
                    None,
                    Err(ForkError::BadMaster(MasterError::UnlockptError)),
                )
            } else {
                Stage::Forking { master }
            },
            Stage::Forking { master } => {
                let pid = answer.code();
                if pid == -1 {
                    let mut master = master;
                    releasing(master.close(), None, Err(ForkError::Failure))
                } else if pid == 0 {
                    Stage::Naming { master }
                } else {
                    Stage::Done { outcome: Ok(Fork::Parent(pid, Master::new(master))) }
                }
            },
            Stage::Naming { master } => match answer.name() {
                None => {
                    let mut master = master;
                    releasing(
                        master.close(),
                        None,
                        Err(ForkError::BadMaster(MasterError::PtsnameError)),
                    )
                },
                Some(name) => Stage::Leading { master, name },
            },
            Stage::Leading { master, name } => if answer.code() == -1 {
                let mut master = master;
                releasing(master.close(), None, Err(ForkError::SetsidFail))
            } else {
                Stage::Attaching { master, name }
            },
            Stage::Attaching { master, name: _ } => match Descriptor::open(answer.code()) {
                Err(cause) => {
                    let mut master = master;
                    releasing(
                        master.close(),
                        None,
                        Err(ForkError::BadSlave(SlaveError::BadDescriptor(cause))),
                    )
                },
                Ok(slave) => Stage::Binding {
                    master,
                    slave: Slave::new(slave),
                    stream: Stream::Input,
                },
            },
            Stage::Binding { master, slave, stream } => {
                let mut master = master;
                if answer.code() == -1 {
                    releasing(
                        slave.release(),
                        master.close(),
                        Err(ForkError::BadSlave(SlaveError::Dup2Error)),
                    )
                } else {
                    match stream.following() {
                        Some(next) => Stage::Binding { master, slave, stream: next },
                        None => releasing(master.close(), None, Ok(Fork::Child(slave))),
                    }
                }
            },
            Stage::Closing { closing: _, then, outcome } => match then {
                Some(next) => Stage::Closing { closing: next, then: None, outcome },
                None => Stage::Done { outcome },
            },
            Stage::Done { outcome } => Stage::Done { outcome },
        };
        Setup { stage }
    }

    /// Runs the setup to its end: makes every call it asks for through
    /// `os`, twelve at most, and returns how the fork ended.
    pub fn drive<F: Fn(&Syscall) -> Answer>(self, os: F) -> (outcome: Result<Fork, ForkError>)
        requires
            forall|call: Syscall| os.requires((&call,)),
        ensures
            exists|calls: Seq<Syscall>, answers: Seq<Answer>|
                driven(self@, os, calls, answers, outcome_view(outcome)),
    {
        let ghost start = self@;
        let ghost mut calls: Seq<Syscall> = Seq::empty();
        let ghost mut answers: Seq<Answer> = Seq::empty();
        let mut setup = self;
        proof {
            assert(views(answers) =~= Seq::empty());
        }
        while !setup.is_done()
            invariant
                forall|call: Syscall| os.requires((&call,)),
                calls.len() == answers.len(),
                setup@ == start.run(views(answers)),
                setup@.is_done() || setup@.remaining() + answers.len() <= start.remaining(),
                answers.len() <= start.remaining(),
                forall|i: int|
                    0 <= i < calls.len() ==> start.asked(views(answers), i) == Some(
                        (#[trigger] calls[i])@,
                    ) && os.ensures((&calls[i],), answers[i]),
            decreases setup@.remaining(),
        {
            match setup.pending() {
                Some(call) => {
                    let answer = os(&call);
                    proof {
                        let before = views(answers);
                        let after = views(answers.push(answer));
                        assert(after =~= before.push(answer@));
                        assert(after.drop_last() =~= before);
                        assert(before.take(before.len() as int) =~= before);
                        assert forall|i: int| 0 <= i < calls.len() + 1 implies start.asked(
                            after,
                            i,
                        ) == Some((#[trigger] calls.push(call)[i])@) && os.ensures(
                            (&calls.push(call)[i],),
                            answers.push(answer)[i],
                        ) by {
                            assert(after.take(i) =~= before.take(i));
                            if i < calls.len() {
                                assert(calls[i] == calls.push(call)[i]);
                            }
                        }
                        calls = calls.push(call);
                        answers = answers.push(answer);
                    }
                    setup = setup.advance(answer);
                },
                None => {},
            }
        }
        let outcome = match setup.finish() {
            Some(outcome) => outcome,
            None => Err(ForkError::Failure),
        };
        proof {
            assert(driven(start, os, calls, answers, outcome_view(outcome)));
        }
        outcome
    }

    /// How the fork ended, once the setup is over; nothing before that.
    pub fn finish(self) -> (outcome: Option<Result<Fork, ForkError>>)
        ensures
            outcome is Some == self@.is_done(),
            outcome matches Some(o) ==> self@ == (SetupView::Done { outcome: outcome_view(o) }),
    {
        match self.stage {
            Stage::Done { outcome } => Some(outcome),
            _ => None,
        }
    }
}

} // verus!
