//! Waiting for the child of a fork.

use crate::err::ForkError;
use crate::sys::{Answer, AnswerView, Syscall};
use vstd::prelude::*;

verus! {

/// A wait for one child, from its start to the answer that ends it.
#[derive(Debug, PartialEq, Eq)]
pub struct Wait {
    pid: libc::pid_t,
}

/// What an answer to `Waitpid` means for a wait: 0 reports no change yet
/// and decides nothing, -1 reports that the wait failed, and any other
/// number ends the wait with the status that was stored.
pub open spec fn settled(answer: AnswerView) -> Option<Result<i32, ForkError>> {
    if answer.ret() == 0 {
        None
    } else if answer.ret() == -1 {
        Some(Err(ForkError::WaitpidFail))
    } else {
        Some(Ok(answer.status()))
    }
}

/// Where a wait stands after a series of answers: once an answer has
/// decided, the wait is over and later answers change nothing; until then
/// the latest answer is read.
pub open spec fn waited(answers: Seq<AnswerView>) -> Option<Result<i32, ForkError>>
    decreases answers.len(),
{
    if answers.len() == 0 {
        None
    } else {
        match waited(answers.drop_last()) {
            Some(end) => Some(end),
            None => settled(answers.last()),
        }
    }
}

/// Whether none of the answers reports a change of state.
pub open spec fn all_quiet(answers: Seq<AnswerView>) -> bool {
    forall|i: int| 0 <= i < answers.len() ==> (#[trigger] answers[i]).ret() == 0
}

impl Wait {
    /// The process waited for.
    pub closed spec fn spec_pid(&self) -> i32 {
        self.pid
    }

    /// A wait for the process `pid`.
    pub fn new(pid: libc::pid_t) -> (wait: Wait)
        ensures
            wait.pid() == pid,
    {
        Wait { pid }
    }

    /// The process waited for.
    #[verifier::when_used_as_spec(spec_pid)]
    pub fn pid(&self) -> (pid: libc::pid_t)
        ensures
            pid == self.pid(),
    {
        self.pid
    }

    /// The call to make, now and after every answer that decides nothing.
    pub fn pending(&self) -> (call: Syscall)
        ensures
            call == (Syscall::Waitpid { pid: self.pid() }),
    {
        Syscall::Waitpid { pid: self.pid }
    }

    /// Reads an answer to the pending call. `None` says that the child has
    /// not changed state and that the call is to be made again; otherwise
    /// the wait is over, with the child's status or with `WaitpidFail`.
    pub fn settle(&self, answer: &Answer) -> (end: Option<Result<libc::c_int, ForkError>>)
        ensures
            end == settled(answer@),
    {
        let ret = answer.ret();
        if ret == 0 {
            None
        } else if ret == -1 {
            Some(Err(ForkError::WaitpidFail))
        } else {
            Some(Ok(answer.status()))
        }
    }
}

/// A wait goes on exactly as long as every answer returns 0, however
/// many they are.
pub proof fn lemma_wait_goes_on_while_quiet(answers: Seq<AnswerView>)
    ensures
        waited(answers) is None <==> all_quiet(answers),
    decreases answers.len(),
{
    if answers.len() > 0 {
        let before = answers.drop_last();
        lemma_wait_goes_on_while_quiet(before);
        if all_quiet(answers) {
            assert forall|i: int| 0 <= i < before.len() implies (#[trigger] before[i]).ret()
                == 0 by {
                assert(before[i] == answers[i]);
            }
            assert(answers.last() == answers[answers.len() - 1]);
        } else {
            let i = choose|i: int| 0 <= i < answers.len() && (#[trigger] answers[i]).ret() != 0;
            if i < before.len() {
                assert(before[i] == answers[i]);
            }
        }
    }
}

/// A wait ends as the first answer that returns a number other than 0
/// decides: with `WaitpidFail` where that number is -1, and with the
/// status stored otherwise.
pub proof fn lemma_wait_ends_at_first_change(answers: Seq<AnswerView>, first: int)
    requires
        0 <= first < answers.len(),
        answers[first].ret() != 0,
        all_quiet(answers.take(first)),
    ensures
        waited(answers) == settled(answers[first]),
    decreases answers.len(),
{
    let before = answers.drop_last();
    if first == answers.len() - 1 {
        assert(before =~= answers.take(first));
        lemma_wait_goes_on_while_quiet(before);
    } else {
        assert(before.take(first) =~= answers.take(first));
        lemma_wait_ends_at_first_change(before, first);
    }
}

} // verus!
