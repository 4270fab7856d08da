use pty::{Answer, ForkError, Syscall, Wait};

#[test]
fn wait_asks_for_its_own_child() {
    let wait = Wait::new(1234);
    assert_eq!(wait.pid(), 1234);
    assert_eq!(wait.pending(), Syscall::Waitpid { pid: 1234 });
}

#[test]
fn no_change_yet_decides_nothing() {
    let wait = Wait::new(1234);
    assert_eq!(wait.settle(&Answer::Status { ret: 0, status: 0 }), None);
    assert_eq!(wait.settle(&Answer::Status { ret: 0, status: 77 }), None);
}

#[test]
fn exit_ends_the_wait_with_the_raw_status() {
    let wait = Wait::new(1234);
    assert_eq!(wait.settle(&Answer::Status { ret: 1234, status: 0 }), Some(Ok(0)));
    assert_eq!(wait.settle(&Answer::Status { ret: 1234, status: 0x0100 }), Some(Ok(0x0100)));
}

#[test]
fn kill_ends_the_wait_with_the_signal_in_the_status() {
    let wait = Wait::new(1234);
    assert_eq!(wait.settle(&Answer::Status { ret: 1234, status: 9 }), Some(Ok(9)));
}

#[test]
fn failed_wait_is_a_waitpid_fail() {
    let wait = Wait::new(1234);
    assert_eq!(
        wait.settle(&Answer::Status { ret: -1, status: 0 }),
        Some(Err(ForkError::WaitpidFail))
    );
    assert_eq!(
        wait.settle(&Answer::Status { ret: -1, status: 5 }),
        Some(Err(ForkError::WaitpidFail))
    );
}

#[test]
fn an_answer_that_is_no_status_fails_the_wait() {
    let wait = Wait::new(1234);
    assert_eq!(wait.settle(&Answer::Code(0)), Some(Err(ForkError::WaitpidFail)));
    assert_eq!(wait.settle(&Answer::Name(None)), Some(Err(ForkError::WaitpidFail)));
}

#[test]
fn the_first_change_ends_the_wait() {
    let wait = Wait::new(7);
    let answers = [
        Answer::Status { ret: 0, status: 0 },
        Answer::Status { ret: 0, status: 0 },
        Answer::Status { ret: 7, status: 15 },
        Answer::Status { ret: -1, status: 0 },
    ];
    let mut asked = 0;
    let mut end = None;
    for answer in &answers {
        asked += 1;
        end = wait.settle(answer);
        if end.is_some() {
            break;
        }
    }
    assert_eq!(asked, 3);
    assert_eq!(end, Some(Ok(15)));
}
