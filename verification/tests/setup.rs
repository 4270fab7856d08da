use pty::{
    Answer, DescriptorError, Fork, ForkError, MasterError, Setup, SlaveError, Syscall,
    DEFAULT_PTMX,
};
use std::cell::RefCell;
use std::rc::Rc;

fn drive(mut setup: Setup, answers: Vec<Answer>) -> (Setup, Vec<Syscall>) {
    let mut calls = Vec::new();
    for answer in answers {
        match setup.pending() {
            Some(call) => calls.push(call),
            None => break,
        }
        setup = setup.advance(answer);
    }
    (setup, calls)
}

fn name() -> Answer {
    Answer::Name(Some(b"/dev/pts/7".to_vec()))
}

fn child_way() -> Vec<Syscall> {
    vec![
        Syscall::Open { path: b"/dev/ptmx".to_vec() },
        Syscall::Grantpt { fd: 3 },
        Syscall::Unlockpt { fd: 3 },
        Syscall::Fork,
        Syscall::Ptsname { fd: 3 },
        Syscall::Setsid,
        Syscall::Open { path: b"/dev/pts/7".to_vec() },
        Syscall::Dup2 { fd: 4, target: 0 },
        Syscall::Dup2 { fd: 4, target: 1 },
        Syscall::Dup2 { fd: 4, target: 2 },
        Syscall::Close { fd: 3 },
    ]
}

#[test]
fn setup_starts_by_opening_the_path() {
    let setup = Setup::new("/dev/ptmx".as_bytes());
    assert!(!setup.is_done());
    assert_eq!(setup.pending(), Some(Syscall::Open { path: b"/dev/ptmx".to_vec() }));
}

#[test]
fn setup_keeps_bytes_beyond_ascii() {
    let setup = Setup::new("/dev/pt\u{e9}".as_bytes());
    let path = vec![47, 100, 101, 118, 47, 112, 116, 0xc3, 0xa9];
    assert_eq!(setup.pending(), Some(Syscall::Open { path }));
}

#[test]
fn default_path_is_the_multiplexer() {
    assert_eq!(DEFAULT_PTMX, "/dev/ptmx");
    let setup = Setup::new(DEFAULT_PTMX.as_bytes());
    assert_eq!(setup.pending(), Some(Syscall::Open { path: b"/dev/ptmx".to_vec() }));
}

#[test]
fn path_with_a_zero_byte_is_opened_as_the_empty_path() {
    let setup = Setup::new("/dev/\0ptmx".as_bytes());
    assert_eq!(setup.pending(), Some(Syscall::Open { path: Vec::new() }));
    let setup = Setup::new(b"\0");
    assert_eq!(setup.pending(), Some(Syscall::Open { path: Vec::new() }));
    let setup = Setup::new(b"");
    assert_eq!(setup.pending(), Some(Syscall::Open { path: Vec::new() }));
}

#[test]
fn unopenable_path_is_a_bad_master_and_forks_nothing() {
    let (setup, calls) = drive(Setup::new("/no/such/ptmx".as_bytes()), vec![Answer::Code(-1)]);
    assert_eq!(calls, vec![Syscall::Open { path: b"/no/such/ptmx".to_vec() }]);
    assert!(setup.is_done());
    assert_eq!(setup.pending(), None);
    assert_eq!(
        setup.finish(),
        Some(Err(ForkError::BadMaster(MasterError::BadDescriptor(DescriptorError::OpenFail))))
    );
}

#[test]
fn parent_gets_the_pid_and_the_master() {
    let answers = vec![Answer::Code(3), Answer::Code(0), Answer::Code(0), Answer::Code(1234)];
    let (setup, calls) = drive(Setup::new(DEFAULT_PTMX.as_bytes()), answers);
    assert_eq!(calls, child_way()[..4].to_vec());
    assert!(setup.is_done());
    match setup.finish() {
        Some(Ok(Fork::Parent(pid, master))) => {
            assert_eq!(pid, 1234);
            assert_eq!(master.as_raw_fd(), 3);
            assert_eq!(master.release(), Some(Syscall::Close { fd: 3 }));
        }
        other => panic!("not a parent: {:?}", other),
    }
}

fn well(n: usize) -> Vec<Answer> {
    let all = vec![
        Answer::Code(3),
        Answer::Code(0),
        Answer::Code(0),
        Answer::Code(0),
        name(),
        Answer::Code(1234),
        Answer::Code(4),
        Answer::Code(0),
        Answer::Code(1),
        Answer::Code(2),
        Answer::Code(0),
    ];
    all.into_iter().take(n).collect()
}

fn failing_at(n: usize, failure: Answer, closes: usize) -> (Setup, Vec<Syscall>) {
    let mut answers = well(n);
    answers.push(failure);
    for _ in 0..closes {
        answers.push(Answer::Code(0));
    }
    drive(Setup::new(DEFAULT_PTMX.as_bytes()), answers)
}

#[test]
fn child_gets_the_slave_on_its_standard_streams() {
    let (setup, calls) = drive(Setup::new(DEFAULT_PTMX.as_bytes()), well(11));
    assert_eq!(calls, child_way());
    assert_eq!(setup.pending(), None);
    match setup.finish() {
        Some(Ok(Fork::Child(slave))) => {
            assert_eq!(slave.as_raw_fd(), 4);
            assert_eq!(slave.release(), Some(Syscall::Close { fd: 4 }));
        }
        other => panic!("not a child: {:?}", other),
    }
}

#[test]
fn child_is_not_done_before_its_master_is_closed() {
    let (setup, calls) = drive(Setup::new(DEFAULT_PTMX.as_bytes()), well(10));
    assert_eq!(calls.len(), 10);
    assert!(!setup.is_done());
    assert_eq!(setup.pending(), Some(Syscall::Close { fd: 3 }));
    assert_eq!(setup.finish(), None);
}

#[test]
fn failed_grant_closes_the_master_and_forks_nothing() {
    let (setup, calls) = failing_at(1, Answer::Code(-1), 1);
    assert_eq!(
        calls,
        vec![
            Syscall::Open { path: b"/dev/ptmx".to_vec() },
            Syscall::Grantpt { fd: 3 },
            Syscall::Close { fd: 3 },
        ]
    );
    assert!(!calls.contains(&Syscall::Fork));
    assert_eq!(setup.pending(), None);
    assert_eq!(setup.finish(), Some(Err(ForkError::BadMaster(MasterError::GrantptError))));
}

#[test]
fn failed_grant_is_not_followed_by_an_unlock() {
    let (setup, _) = failing_at(1, Answer::Code(-1), 0);
    assert_eq!(setup.pending(), Some(Syscall::Close { fd: 3 }));
}

#[test]
fn failed_unlock_closes_the_master() {
    let (setup, calls) = failing_at(2, Answer::Code(-1), 1);
    assert_eq!(calls.len(), 4);
    assert_eq!(calls[2], Syscall::Unlockpt { fd: 3 });
    assert_eq!(calls[3], Syscall::Close { fd: 3 });
    assert!(!calls.contains(&Syscall::Fork));
    assert_eq!(setup.finish(), Some(Err(ForkError::BadMaster(MasterError::UnlockptError))));
}

#[test]
fn failed_duplication_is_a_failure() {
    let (setup, calls) = failing_at(3, Answer::Code(-1), 1);
    assert_eq!(calls.len(), 5);
    assert_eq!(calls[3], Syscall::Fork);
    assert_eq!(calls[4], Syscall::Close { fd: 3 });
    assert_eq!(setup.finish(), Some(Err(ForkError::Failure)));
}

#[test]
fn unresolved_slave_is_a_bad_master() {
    let (setup, calls) = failing_at(4, Answer::Name(None), 1);
    assert_eq!(calls.len(), 6);
    assert_eq!(calls[4], Syscall::Ptsname { fd: 3 });
    assert_eq!(calls[5], Syscall::Close { fd: 3 });
    assert_eq!(setup.finish(), Some(Err(ForkError::BadMaster(MasterError::PtsnameError))));
}

#[test]
fn failed_session_is_a_setsid_fail() {
    let (setup, calls) = failing_at(5, Answer::Code(-1), 1);
    assert_eq!(calls.len(), 7);
    assert_eq!(calls[5], Syscall::Setsid);
    assert_eq!(calls[6], Syscall::Close { fd: 3 });
    assert_eq!(setup.finish(), Some(Err(ForkError::SetsidFail)));
}

#[test]
fn unopenable_slave_is_a_bad_slave() {
    let (setup, calls) = failing_at(6, Answer::Code(-1), 1);
    assert_eq!(calls.len(), 8);
    assert_eq!(calls[6], Syscall::Open { path: b"/dev/pts/7".to_vec() });
    assert_eq!(calls[7], Syscall::Close { fd: 3 });
    assert_eq!(
        setup.finish(),
        Some(Err(ForkError::BadSlave(SlaveError::BadDescriptor(DescriptorError::OpenFail))))
    );
}

#[test]
fn failed_first_rebinding_attempts_no_other() {
    let (setup, calls) = failing_at(7, Answer::Code(-1), 2);
    assert_eq!(calls.len(), 10);
    assert_eq!(calls[7], Syscall::Dup2 { fd: 4, target: 0 });
    assert_eq!(calls[8], Syscall::Close { fd: 4 });
    assert_eq!(calls[9], Syscall::Close { fd: 3 });
    assert_eq!(setup.finish(), Some(Err(ForkError::BadSlave(SlaveError::Dup2Error))));
}

#[test]
fn failed_second_rebinding_does_not_attempt_the_third() {
    let (setup, calls) = failing_at(8, Answer::Code(-1), 2);
    assert_eq!(
        calls[7..].to_vec(),
        vec![
            Syscall::Dup2 { fd: 4, target: 0 },
            Syscall::Dup2 { fd: 4, target: 1 },
            Syscall::Close { fd: 4 },
            Syscall::Close { fd: 3 },
        ]
    );
    assert!(!calls.contains(&Syscall::Dup2 { fd: 4, target: 2 }));
    assert_eq!(setup.pending(), None);
    assert_eq!(setup.finish(), Some(Err(ForkError::BadSlave(SlaveError::Dup2Error))));
}

#[test]
fn failed_third_rebinding_takes_twelve_calls() {
    let (setup, calls) = failing_at(9, Answer::Code(-1), 2);
    assert_eq!(calls.len(), 12);
    assert_eq!(calls[9], Syscall::Dup2 { fd: 4, target: 2 });
    assert_eq!(calls[10], Syscall::Close { fd: 4 });
    assert_eq!(calls[11], Syscall::Close { fd: 3 });
    assert!(setup.is_done());
    assert_eq!(setup.finish(), Some(Err(ForkError::BadSlave(SlaveError::Dup2Error))));
}

#[test]
fn every_setup_is_over_after_twelve_answers() {
    let shapes = [-7, -1, 0, 1, 5];
    for first in shapes {
        for second in shapes {
            let mut setup = Setup::new(DEFAULT_PTMX.as_bytes());
            let mut calls = 0;
            while setup.pending().is_some() {
                let code = if calls % 2 == 0 { first } else { second };
                let answer = if calls == 4 { name() } else { Answer::Code(code) };
                setup = setup.advance(answer);
                calls += 1;
                assert!(calls <= 12);
            }
            assert!(setup.is_done());
        }
    }
}

#[test]
fn what_was_opened_is_closed_when_the_setup_fails() {
    for n in 0..10 {
        let failure = if n == 4 { Answer::Name(None) } else { Answer::Code(-1) };
        let (setup, calls) = failing_at(n, failure, 2);
        let mut opened = Vec::new();
        if n > 0 {
            opened.push(3);
        }
        if n > 6 {
            opened.push(4);
        }
        let mut closed: Vec<i32> = calls
            .iter()
            .filter_map(|call| match call {
                Syscall::Close { fd } => Some(*fd),
                _ => None,
            })
            .collect();
        closed.sort();
        assert_eq!(closed, opened);
        assert!(matches!(setup.finish(), Some(Err(_))));
    }
}

#[test]
fn other_numbers_below_zero_fail_an_open_only() {
    let (setup, calls) = drive(Setup::new(DEFAULT_PTMX.as_bytes()), vec![Answer::Code(-2)]);
    assert_eq!(calls.len(), 1);
    assert_eq!(
        setup.finish(),
        Some(Err(ForkError::BadMaster(MasterError::BadDescriptor(DescriptorError::OpenFail))))
    );
    let answers = vec![Answer::Code(3), Answer::Code(-2)];
    let (setup, _) = drive(Setup::new(DEFAULT_PTMX.as_bytes()), answers);
    assert_eq!(setup.pending(), Some(Syscall::Unlockpt { fd: 3 }));
}

#[test]
fn an_answer_of_another_shape_reads_as_a_failure() {
    let (setup, _) = drive(Setup::new(DEFAULT_PTMX.as_bytes()), vec![name()]);
    assert_eq!(
        setup.finish(),
        Some(Err(ForkError::BadMaster(MasterError::BadDescriptor(DescriptorError::OpenFail))))
    );
    let (setup, _) = failing_at(4, Answer::Code(0), 1);
    assert_eq!(setup.finish(), Some(Err(ForkError::BadMaster(MasterError::PtsnameError))));
    let (setup, _) = failing_at(5, Answer::Status { ret: 1, status: 0 }, 1);
    assert_eq!(setup.finish(), Some(Err(ForkError::SetsidFail)));
}

#[test]
fn finish_before_the_end_hands_out_nothing() {
    assert_eq!(Setup::new(DEFAULT_PTMX.as_bytes()).finish(), None);
    let (setup, _) = drive(Setup::new(DEFAULT_PTMX.as_bytes()), well(3));
    assert_eq!(setup.pending(), Some(Syscall::Fork));
    assert_eq!(setup.finish(), None);
}

#[test]
fn answers_after_the_end_change_nothing() {
    let (setup, _) = failing_at(5, Answer::Code(-1), 1);
    let setup = setup.advance(Answer::Code(9)).advance(name()).advance(Answer::Code(-1));
    assert_eq!(setup.pending(), None);
    assert_eq!(setup.finish(), Some(Err(ForkError::SetsidFail)));
}

fn answering(answers: Vec<Answer>) -> (impl Fn(&Syscall) -> Answer, Rc<RefCell<Vec<Syscall>>>) {
    let calls = Rc::new(RefCell::new(Vec::new()));
    let seen = Rc::clone(&calls);
    let script = RefCell::new(answers.into_iter());
    let os = move |call: &Syscall| {
        seen.borrow_mut().push(call.clone());
        script.borrow_mut().next().unwrap_or(Answer::Code(-1))
    };
    (os, calls)
}

#[test]
fn fork_in_the_parent() {
    let (os, calls) = answering(vec![
        Answer::Code(3),
        Answer::Code(0),
        Answer::Code(0),
        Answer::Code(1234),
    ]);
    let fork = Fork::new("/dev/ptmx", os).unwrap();
    assert_eq!(*calls.borrow(), child_way()[..4].to_vec());
    assert_eq!(fork.is_parent().map(|master| master.as_raw_fd()), Ok(3));
    assert_eq!(fork.wait().map(|wait| wait.pid()), Ok(1234));
    assert_eq!(fork.is_child(), Err(ForkError::IsParent));
}

#[test]
fn fork_in_the_child() {
    let (os, calls) = answering(well(11));
    let fork = Fork::from_ptmx(os).unwrap();
    assert_eq!(*calls.borrow(), child_way());
    assert_eq!(fork.is_child().map(|slave| slave.as_raw_fd()), Ok(4));
    assert_eq!(fork.is_parent(), Err(ForkError::IsChild));
    assert_eq!(fork.wait(), Err(ForkError::IsChild));
}

#[test]
fn fork_on_a_path_that_cannot_be_opened() {
    let (os, calls) = answering(vec![Answer::Code(-1)]);
    let fork = Fork::new("/no/such/ptmx", os);
    assert_eq!(
        fork,
        Err(ForkError::BadMaster(MasterError::BadDescriptor(DescriptorError::OpenFail)))
    );
    assert_eq!(*calls.borrow(), vec![Syscall::Open { path: b"/no/such/ptmx".to_vec() }]);
}

#[test]
fn fork_on_a_path_beyond_ascii() {
    let (os, calls) = answering(vec![Answer::Code(-1)]);
    let fork = Fork::new("/dev/pt\u{e9}", os);
    assert!(fork.is_err());
    let path = vec![47, 100, 101, 118, 47, 112, 116, 0xc3, 0xa9];
    assert_eq!(*calls.borrow(), vec![Syscall::Open { path }]);
}

#[test]
fn fork_on_a_path_with_a_zero_byte() {
    let (os, calls) = answering(vec![Answer::Code(-1)]);
    let fork = Fork::new("/dev/ptmx\0", os);
    assert!(matches!(fork, Err(ForkError::BadMaster(_))));
    assert_eq!(*calls.borrow(), vec![Syscall::Open { path: Vec::new() }]);
}

#[test]
fn fork_with_a_failed_grant_never_duplicates_the_process() {
    let (os, calls) = answering(vec![Answer::Code(3), Answer::Code(-1), Answer::Code(0)]);
    let fork = Fork::from_ptmx(os);
    assert_eq!(fork, Err(ForkError::BadMaster(MasterError::GrantptError)));
    assert!(!calls.borrow().contains(&Syscall::Fork));
    assert_eq!(calls.borrow().last(), Some(&Syscall::Close { fd: 3 }));
}

#[test]
fn fork_with_a_failed_second_rebinding_leaves_the_third() {
    let mut answers = well(8);
    answers.push(Answer::Code(-1));
    let (os, calls) = answering(answers);
    let fork = Fork::from_ptmx(os);
    assert_eq!(fork, Err(ForkError::BadSlave(SlaveError::Dup2Error)));
    assert_eq!(
        calls.borrow()[7..].to_vec(),
        vec![
            Syscall::Dup2 { fd: 4, target: 0 },
            Syscall::Dup2 { fd: 4, target: 1 },
            Syscall::Close { fd: 4 },
            Syscall::Close { fd: 3 },
        ]
    );
}

#[test]
fn fork_makes_twelve_calls_at_most() {
    for n in 0..10 {
        let mut answers = well(n);
        answers.push(if n == 4 { Answer::Name(None) } else { Answer::Code(-1) });
        let (os, calls) = answering(answers);
        let fork = Fork::from_ptmx(os);
        assert!(fork.is_err());
        assert!(calls.borrow().len() <= 12);
    }
}
