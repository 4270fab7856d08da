//! What holds of every setup, whatever the operating system answers.

use crate::descriptor::DescriptorError;
use crate::err::{ForkError, MasterError, SlaveError};
use crate::fork::ForkView;
use crate::setup::{driven, opened, views, SetupView};
use crate::sys::{Answer, AnswerView, Stream, Syscall, SyscallView};
use vstd::multiset::Multiset;
use vstd::prelude::*;

verus! {

/// Giving a setup two series of answers, one after the other, is giving
/// it the one series made of both.
pub proof fn lemma_run_concat(setup: SetupView, first: Seq<AnswerView>, second: Seq<AnswerView>)
    ensures
        setup.run(first + second) == setup.run(first).run(second),
    decreases second.len(),
{
    if second.len() == 0 {
        assert(first + second =~= first);
    } else {
        lemma_run_concat(setup, first, second.drop_last());
        assert((first + second).drop_last() =~= first + second.drop_last());
        assert((first + second).last() == second.last());
    }
}

/// One more answer advances the setup that the answers before it led to.
pub proof fn lemma_run_step(setup: SetupView, answers: Seq<AnswerView>, i: int)
    requires
        0 <= i < answers.len(),
    ensures
        setup.run(answers.take(i + 1)) == setup.run(answers.take(i)).advance(answers[i]),
{
    assert(answers.take(i + 1).drop_last() =~= answers.take(i));
}

/// A setup that is over stays as it is, whatever it is given.
pub proof fn lemma_done_is_final(setup: SetupView, answers: Seq<AnswerView>)
    requires
        setup.is_done(),
    ensures
        setup.run(answers) == setup,
    decreases answers.len(),
{
    if answers.len() > 0 {
        lemma_done_is_final(setup, answers.drop_last());
    }
}

/// Every answer brings a setup that is not over nearer to its end.
pub proof fn lemma_advance_nears_end(setup: SetupView, answer: AnswerView)
    ensures
        setup.is_done() <==> setup.remaining() == 0,
        setup.is_done() <==> setup.pending() is None,
        !setup.is_done() ==> setup.advance(answer).remaining() < setup.remaining(),
{
}

/// After as many answers as a setup may still ask for, it is over. From
/// its start a setup is over after twelve answers at most.
pub proof fn lemma_setup_ends(setup: SetupView, answers: Seq<AnswerView>)
    ensures
        setup.run(answers).remaining() + answers.len() <= setup.remaining()
            || setup.run(answers).is_done(),
        answers.len() >= setup.remaining() ==> setup.run(answers).is_done(),
    decreases answers.len(),
{
    if answers.len() > 0 {
        lemma_setup_ends(setup, answers.drop_last());
        lemma_advance_nears_end(setup.run(answers.drop_last()), answers.last());
    }
    lemma_advance_nears_end(setup.run(answers), arbitrary());
}

/// Once a series of answers has brought a setup to its end, more answers
/// leave it there.
pub proof fn lemma_done_stays(setup: SetupView, answers: Seq<AnswerView>, end: int, later: int)
    requires
        0 <= end <= later <= answers.len(),
        setup.run(answers.take(end)).is_done(),
    ensures
        setup.run(answers.take(later)) == setup.run(answers.take(end)),
{
    let more = answers.subrange(end, later);
    assert(answers.take(later) =~= answers.take(end) + more);
    lemma_run_concat(setup, answers.take(end), more);
    lemma_done_is_final(setup.run(answers.take(end)), more);
}

/// The setup that has called nothing yet and will open `path`.
pub open spec fn start(path: Seq<u8>) -> SetupView {
    SetupView::Opening { path }
}

/// Whether `answer`, given to the call of index `i` on the child's way
/// through a setup, lets the setup go on along that way. The calls on
/// that way are, in order: open the multiplexer, grant, unlock, duplicate
/// the process, resolve the slave's path, lead a session, open the slave,
/// bind it to the input, the output and the error stream, and close the
/// master.
pub open spec fn goes_on(i: int, answer: AnswerView) -> bool {
    if i == 0 || i == 6 {
        answer.code() >= 0
    } else if i == 3 {
        answer.code() == 0
    } else if i == 4 {
        answer.name() is Some
    } else if i >= 10 {
        true
    } else {
        answer.code() != -1
    }
}

/// Whether the first `n` answers all let the setup go on along the
/// child's way.
pub open spec fn goes_well(answers: Seq<AnswerView>, n: int) -> bool {
    &&& 0 <= n <= answers.len()
    &&& forall|i: int| 0 <= i < n ==> goes_on(i, #[trigger] answers[i])
}

/// The stage on the child's way that `n` answers lead to: the master is
/// what the first call returned, the slave's path what the fifth resolved,
/// the slave what the seventh returned.
pub open spec fn on_the_way(path: Seq<u8>, answers: Seq<AnswerView>, n: int) -> SetupView {
    let master = answers[0].code();
    let name = answers[4].name()->Some_0;
    let slave = answers[6].code();
    if n <= 0 {
        SetupView::Opening { path }
    } else if n == 1 {
        SetupView::Granting { master }
    } else if n == 2 {
        SetupView::Unlocking { master }
    } else if n == 3 {
        SetupView::Forking { master }
    } else if n == 4 {
        SetupView::Naming { master }
    } else if n == 5 {
        SetupView::Leading { master, name }
    } else if n == 6 {
        SetupView::Attaching { master, name }
    } else if n == 7 {
        SetupView::Binding { master, slave, stream: Stream::Input }
    } else if n == 8 {
        SetupView::Binding { master, slave, stream: Stream::Output }
    } else if n == 9 {
        SetupView::Binding { master, slave, stream: Stream::Error }
    } else if n == 10 {
        SetupView::Closing {
            closing: master,
            then: None,
            outcome: Ok(ForkView::Child { slave: opened(slave) }),
        }
    } else {
        SetupView::Done { outcome: Ok(ForkView::Child { slave: opened(slave) }) }
    }
}

/// The error of a setup whose call of index `i` on the child's way failed.
pub open spec fn error_at(i: int) -> ForkError {
    if i <= 0 {
        ForkError::BadMaster(MasterError::BadDescriptor(DescriptorError::OpenFail))
    } else if i == 1 {
        ForkError::BadMaster(MasterError::GrantptError)
    } else if i == 2 {
        ForkError::BadMaster(MasterError::UnlockptError)
    } else if i == 3 {
        ForkError::Failure
    } else if i == 4 {
        ForkError::BadMaster(MasterError::PtsnameError)
    } else if i == 5 {
        ForkError::SetsidFail
    } else if i == 6 {
        ForkError::BadSlave(SlaveError::BadDescriptor(DescriptorError::OpenFail))
    } else {
        ForkError::BadSlave(SlaveError::Dup2Error)
    }
}

/// The descriptors that a setup closes, in this order, when its call of
/// index `i` on the child's way has failed: those that the calls before it
/// had opened, the slave before the master.
pub open spec fn closed_after(answers: Seq<AnswerView>, i: int) -> Seq<i32> {
    if i <= 0 {
        seq![]
    } else if i <= 6 {
        seq![answers[0].code()]
    } else {
        seq![answers[6].code(), answers[0].code()]
    }
}

/// The stage that a setup is in when `k` answers have followed the one
/// that reported the failure of the call of index `i`: it closes what is
/// open, one descriptor for each answer, and is over with the error of
/// that call.
pub open spec fn after_failure(answers: Seq<AnswerView>, i: int, k: int) -> SetupView {
    let closing = closed_after(answers, i);
    let outcome = Err(error_at(i));
    if 0 <= k < closing.len() {
        SetupView::Closing {
            closing: closing[k],
            then: if k + 1 < closing.len() {
                Some(closing[k + 1])
            } else {
                None
            },
            outcome,
        }
    } else {
        SetupView::Done { outcome }
    }
}

/// Whether `answer` reports that the call of index `i` on the child's way
/// failed. The duplication of the process fails with -1 only: any other
/// number that does not let the child's way go on is the parent's.
pub open spec fn fails(i: int, answer: AnswerView) -> bool {
    !goes_on(i, answer) && (i == 3 ==> answer.code() == -1)
}

/// As long as the answers let it, a setup goes the child's way, stage by
/// stage: it asks for the calls of that way in their order and for no
/// other, and after the eleventh answer it is over with the child's half.
pub proof fn lemma_child_way(path: Seq<u8>, answers: Seq<AnswerView>, n: int)
    requires
        goes_well(answers, n),
    ensures
        start(path).run(answers.take(n)) == on_the_way(path, answers, n),
    decreases n,
{
    if n <= 0 {
        assert(answers.take(0) =~= Seq::empty());
    } else if n <= 11 {
        lemma_child_way(path, answers, n - 1);
        lemma_run_step(start(path), answers, n - 1);
        assert(goes_on(n - 1, answers[n - 1]));
        if n > 4 {
            assert(goes_on(4, answers[4]));
        }
    } else {
        assert(goes_well(answers, 11)) by {
            assert forall|i: int| 0 <= i < 11 implies goes_on(i, #[trigger] answers[i]) by {}
        }
        lemma_child_way(path, answers, 11);
        lemma_done_stays(start(path), answers, 11, n);
    }
}

/// Where the duplication of the process returns the number of a child,
/// the setup is over at once with the parent's half: that number and the
/// master, open. Nothing more is asked for, and nothing is closed.
pub proof fn lemma_parent_way(path: Seq<u8>, answers: Seq<AnswerView>, n: int)
    requires
        goes_well(answers, 3),
        4 <= n <= answers.len(),
        answers[3].code() != 0,
        answers[3].code() != -1,
    ensures
        start(path).run(answers.take(n)) == (SetupView::Done {
            outcome: Ok(
                ForkView::Parent { pid: answers[3].code(), master: opened(answers[0].code()) },
            ),
        }),
{
    lemma_child_way(path, answers, 3);
    lemma_run_step(start(path), answers, 3);
    lemma_done_stays(start(path), answers, 4, n);
}

/// Where a call fails after all before it went well, the setup asks for
/// no further call of the child's way: it closes what it had opened, the
/// slave before the master, and is over with the error of the call that
/// failed.
pub proof fn lemma_failure(path: Seq<u8>, answers: Seq<AnswerView>, i: int, k: int)
    requires
        goes_well(answers, i),
        i <= 9,
        i + 1 + k <= answers.len(),
        0 <= k,
        fails(i, answers[i]),
    ensures
        start(path).run(answers.take(i + 1 + k)) == after_failure(answers, i, k),
    decreases k,
{
    lemma_child_way(path, answers, i);
    lemma_run_step(start(path), answers, i);
    if i > 0 {
        assert(goes_on(0, answers[0]));
    }
    if i > 6 {
        assert(goes_on(6, answers[6]));
    }
    if k > 0 {
        lemma_failure(path, answers, i, k - 1);
        lemma_run_step(start(path), answers, i + k);
    }
}

/// The index of the first answer, from `from` on, that does not let the
/// setup go on along the child's way; the number of answers, or 10, where
/// there is none among the first ten.
pub open spec fn stops_at(answers: Seq<AnswerView>, from: int) -> int
    decreases 10 - from,
{
    if from >= 10 || from >= answers.len() || !goes_on(from, answers[from]) {
        from
    } else {
        stops_at(answers, from + 1)
    }
}

/// How a setup ends that `answers` bring to its end: with the child's
/// half where the first ten let it go the child's way; with the parent's
/// half where the first to stop it is the number of a child, returned by
/// the duplication of the process; and otherwise with the error of the
/// first call that failed.
pub open spec fn outcome_of(answers: Seq<AnswerView>) -> Result<ForkView, ForkError> {
    let stop = stops_at(answers, 0);
    if stop >= 10 {
        Ok(ForkView::Child { slave: opened(answers[6].code()) })
    } else if stop == 3 && answers[3].code() != -1 {
        Ok(ForkView::Parent { pid: answers[3].code(), master: opened(answers[0].code()) })
    } else {
        Err(error_at(stop))
    }
}

/// Up to where they stop it, the answers let the setup go on.
pub proof fn lemma_stop(answers: Seq<AnswerView>, from: int)
    requires
        goes_well(answers, from),
        from <= 10,
    ensures
        goes_well(answers, stops_at(answers, from)),
        from <= stops_at(answers, from) <= 10,
        stops_at(answers, from) < 10 && stops_at(answers, from) < answers.len() ==> !goes_on(
            stops_at(answers, from),
            answers[stops_at(answers, from)],
        ),
    decreases 10 - from,
{
    if !(from >= 10 || from >= answers.len() || !goes_on(from, answers[from])) {
        lemma_stop(answers, from + 1);
    }
}

/// How a setup ends is decided by the first answer that stops the
/// child's way, and by nothing that follows it. Twelve answers end every
/// setup.
pub proof fn lemma_outcome(path: Seq<u8>, answers: Seq<AnswerView>)
    requires
        start(path).run(answers).is_done() || answers.len() >= 12,
    ensures
        start(path).run(answers) == (SetupView::Done { outcome: outcome_of(answers) }),
{
    let stop = stops_at(answers, 0);
    let all = answers.len() as int;
    lemma_stop(answers, 0);
    lemma_setup_ends(start(path), answers);
    assert(answers.take(all) =~= answers);
    if stop >= all {
        lemma_child_way(path, answers, all);
    } else if stop >= 10 {
        assert(goes_well(answers, all));
        lemma_child_way(path, answers, all);
    } else if stop == 3 && answers[3].code() != -1 {
        lemma_parent_way(path, answers, all);
    } else {
        lemma_failure(path, answers, stop, all - stop - 1);
    }
}

/// What a driven setup returns is what the answers of the operating
/// system decide, and the calls made to it are, up to the first that
/// fails, the calls of the child's way in their order.
pub proof fn lemma_driven<F: Fn(&Syscall) -> Answer>(
    path: Seq<u8>,
    os: F,
    calls: Seq<Syscall>,
    answers: Seq<Answer>,
    outcome: Result<ForkView, ForkError>,
)
    requires
        driven(start(path), os, calls, answers, outcome),
    ensures
        outcome == outcome_of(views(answers)),
        1 <= calls.len() <= 12,
        forall|i: int|
            0 <= i < calls.len() && !((#[trigger] calls[i]) is Close) ==> goes_well(
                views(answers),
                i,
            ) && i <= 9 && Some(calls[i]@) == on_the_way(path, views(answers), i).pending(),
{
    lemma_outcome(path, views(answers));
    if calls.len() == 0 {
        assert(views(answers) =~= Seq::empty());
    }
    assert forall|i: int|
        0 <= i < calls.len() && !((#[trigger] calls[i]) is Close) implies goes_well(
        views(answers),
        i,
    ) && i <= 9 && Some(calls[i]@) == on_the_way(path, views(answers), i).pending() by {
        lemma_calls_in_order(path, views(answers), i);
    }
}

/// Whatever the answers, a setup asks for the calls of the child's way in
/// their order and only while all before went well: a call that is not a
/// close is the call of its index on that way. So the process is
/// duplicated only after the slave was granted and unlocked, and the slave
/// is bound to the input, the output and the error stream in this order,
/// to each only after the binding before it succeeded.
pub proof fn lemma_calls_in_order(path: Seq<u8>, answers: Seq<AnswerView>, i: int)
    requires
        0 <= i <= answers.len(),
    ensures
        start(path).asked(answers, i) matches Some(call) && !(call is Close) ==> goes_well(
            answers,
            i,
        ) && i <= 9 && start(path).asked(answers, i) == on_the_way(path, answers, i).pending(),
{
    let stop = stops_at(answers, 0);
    lemma_stop(answers, 0);
    if i <= stop {
        lemma_child_way(path, answers, i);
    } else if stop >= 10 {
        assert(goes_well(answers, i));
        lemma_child_way(path, answers, i);
    } else if stop == 3 && answers[3].code() != -1 {
        lemma_parent_way(path, answers, i);
    } else {
        lemma_failure(path, answers, stop, i - stop - 1);
    }
}

/// Where the grant fails, the process is never duplicated: the setup
/// closes the master and is over with `BadMaster`, never with a parent's
/// or a child's half.
pub proof fn lemma_failed_grant_forks_nothing(path: Seq<u8>, answers: Seq<AnswerView>, i: int)
    requires
        answers.len() >= 2,
        answers[0].code() >= 0,
        answers[1].code() == -1,
        0 <= i <= answers.len(),
    ensures
        start(path).asked(answers, i) != Some(SyscallView::Fork),
        start(path).run(answers.take(i)) matches SetupView::Done { outcome } ==> outcome == Err::<
            ForkView,
            ForkError,
        >(ForkError::BadMaster(MasterError::GrantptError)),
        i == 2 ==> start(path).asked(answers, i) == Some(
            SyscallView::Close { fd: answers[0].code() },
        ),
        i >= 3 ==> start(path).run(answers.take(i)).is_done(),
{
    assert(goes_well(answers, 1));
    if i <= 1 {
        lemma_child_way(path, answers, i);
    } else {
        lemma_failure(path, answers, 1, i - 2);
    }
}

/// Where a binding of the slave to a standard stream fails, no further
/// binding is attempted: the bindings up to it were asked for in order,
/// and after it the setup closes the slave and the master and is over
/// with `BadSlave`.
pub proof fn lemma_failed_rebinding_is_the_last(
    path: Seq<u8>,
    answers: Seq<AnswerView>,
    failed: int,
    i: int,
)
    requires
        7 <= failed <= 9,
        goes_well(answers, failed),
        failed < answers.len(),
        answers[failed].code() == -1,
        7 <= i <= answers.len(),
    ensures
        i <= failed ==> start(path).asked(answers, i) == Some(
            SyscallView::Dup2 { fd: answers[6].code(), target: (i - 7) as i32 },
        ),
        i > failed ==> !(start(path).asked(answers, i) matches Some(call) && call is Dup2),
        i == failed + 1 ==> start(path).asked(answers, i) == Some(
            SyscallView::Close { fd: answers[6].code() },
        ),
        i == failed + 2 ==> start(path).asked(answers, i) == Some(
            SyscallView::Close { fd: answers[0].code() },
        ),
        i >= failed + 3 ==> start(path).run(answers.take(i)) == (SetupView::Done {
            outcome: Err(ForkError::BadSlave(SlaveError::Dup2Error)),
        }),
{
    if i <= failed {
        lemma_child_way(path, answers, i);
    } else {
        lemma_failure(path, answers, failed, i - failed - 1);
    }
}

/// The descriptors that the halves of a fork hold.
pub open spec fn held_in(outcome: Result<ForkView, ForkError>) -> Multiset<i32> {
    match outcome {
        Ok(ForkView::Parent { pid, master }) => Multiset::singleton(master.fd),
        Ok(ForkView::Child { slave }) => Multiset::singleton(slave.fd),
        Err(error) => Multiset::empty(),
    }
}

/// The descriptors that a setup holds: those it opened and has not yet
/// asked to close, and those in the half that it will hand out.
pub open spec fn held(setup: SetupView) -> Multiset<i32> {
    match setup {
        SetupView::Opening { path } => Multiset::empty(),
        SetupView::Granting { master } => Multiset::singleton(master),
        SetupView::Unlocking { master } => Multiset::singleton(master),
        SetupView::Forking { master } => Multiset::singleton(master),
        SetupView::Naming { master } => Multiset::singleton(master),
        SetupView::Leading { master, name } => Multiset::singleton(master),
        SetupView::Attaching { master, name } => Multiset::singleton(master),
        SetupView::Binding { master, slave, stream } => Multiset::singleton(master).insert(slave),
        SetupView::Closing { closing, then, outcome } => match then {
            Some(next) => held_in(outcome).insert(next).insert(closing),
            None => held_in(outcome).insert(closing),
        },
        SetupView::Done { outcome } => held_in(outcome),
    }
}

/// The descriptor that `answer` hands to `setup`, if it does: what a
/// successful open returned.
pub open spec fn gained(setup: SetupView, answer: AnswerView) -> Multiset<i32> {
    if (setup is Opening || setup is Attaching) && answer.code() >= 0 {
        Multiset::singleton(answer.code())
    } else {
        Multiset::empty()
    }
}

/// The descriptor that `setup` asks to close, if it asks for a close.
pub open spec fn let_go(setup: SetupView) -> Multiset<i32> {
    match setup {
        SetupView::Closing { closing, then, outcome } => Multiset::singleton(closing),
        _ => Multiset::empty(),
    }
}

/// All descriptors handed to `setup` by the answers of a series.
pub open spec fn gained_along(setup: SetupView, answers: Seq<AnswerView>) -> Multiset<i32>
    decreases answers.len(),
{
    if answers.len() == 0 {
        Multiset::empty()
    } else {
        gained_along(setup, answers.drop_last()).add(
            gained(setup.run(answers.drop_last()), answers.last()),
        )
    }
}

/// All descriptors that `setup` asked to close while it was given the
/// answers of a series.
pub open spec fn let_go_along(setup: SetupView, answers: Seq<AnswerView>) -> Multiset<i32>
    decreases answers.len(),
{
    if answers.len() == 0 {
        Multiset::empty()
    } else {
        let_go_along(setup, answers.drop_last()).add(let_go(setup.run(answers.drop_last())))
    }
}

/// An answer changes what a setup holds by the descriptor that it hands
/// over and by the one whose close was pending, and by nothing else.
pub proof fn lemma_step_accounts(setup: SetupView, answer: AnswerView)
    ensures
        held(setup.advance(answer)).add(let_go(setup)) =~= held(setup).add(gained(setup, answer)),
{
}

/// Nothing gets lost on the way: what a setup holds after a series of
/// answers, together with what it asked to close, is what it held before
/// together with what the answers handed to it.
pub proof fn lemma_run_accounts(setup: SetupView, answers: Seq<AnswerView>)
    ensures
        held(setup.run(answers)).add(let_go_along(setup, answers)) =~= held(setup).add(
            gained_along(setup, answers),
        ),
    decreases answers.len(),
{
    if answers.len() > 0 {
        let before = setup.run(answers.drop_last());
        lemma_run_accounts(setup, answers.drop_last());
        lemma_step_accounts(before, answers.last());
        let until = held(before).add(let_go_along(setup, answers.drop_last()));
        let since = held(setup).add(gained_along(setup, answers.drop_last()));
        let after = held(before.advance(answers.last())).add(let_go(before));
        let from = held(before).add(gained(before, answers.last()));
        assert forall|fd: i32|
            held(setup.run(answers)).add(let_go_along(setup, answers)).count(fd) == held(
                setup,
            ).add(gained_along(setup, answers)).count(fd) by {
            assert(until.count(fd) == since.count(fd));
            assert(after.count(fd) == from.count(fd));
        }
    }
}

/// A setup that has failed leaves nothing open: it asked to close every
/// descriptor that was opened for it. One that succeeded asked to close
/// all of them but the one in the half it hands out.
pub proof fn lemma_nothing_leaks(path: Seq<u8>, answers: Seq<AnswerView>)
    requires
        start(path).run(answers).is_done(),
    ensures
        start(path).run(answers) matches SetupView::Done { outcome } && gained_along(
            start(path),
            answers,
        ) =~= let_go_along(start(path), answers).add(held_in(outcome)),
        start(path).run(answers) matches SetupView::Done { outcome } && outcome is Err
            ==> gained_along(start(path), answers) =~= let_go_along(start(path), answers),
{
    lemma_run_accounts(start(path), answers);
    let outcome = start(path).run(answers)->Done_outcome;
    let all = held(start(path).run(answers)).add(let_go_along(start(path), answers));
    let got = held(start(path)).add(gained_along(start(path), answers));
    assert forall|fd: i32|
        gained_along(start(path), answers).count(fd) == let_go_along(start(path), answers).add(
            held_in(outcome),
        ).count(fd) by {
        assert(all.count(fd) == got.count(fd));
    }
    if outcome is Err {
        assert(let_go_along(start(path), answers).add(held_in(outcome)) =~= let_go_along(
            start(path),
            answers,
        ));
    }
}

} // verus!
