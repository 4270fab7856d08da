use pty::{Answer, Descriptor, Fork, ForkError, Master, Slave, Syscall};

fn parent(pid: i32, fd: i32) -> Fork {
    Fork::Parent(pid, Master::new(Descriptor::open(fd).unwrap()))
}

fn child(fd: i32) -> Fork {
    Fork::Child(Slave::new(Descriptor::open(fd).unwrap()))
}

#[test]
fn parent_is_parent_and_not_child() {
    let fork = parent(42, 3);
    assert_eq!(fork.is_parent().map(|master| master.as_raw_fd()), Ok(3));
    assert_eq!(fork.is_child(), Err(ForkError::IsParent));
}

#[test]
fn child_is_child_and_not_parent() {
    let fork = child(4);
    assert_eq!(fork.is_child().map(|slave| slave.as_raw_fd()), Ok(4));
    assert_eq!(fork.is_parent(), Err(ForkError::IsChild));
}

#[test]
fn probes_of_the_other_half_change_nothing() {
    let fork = child(4);
    assert_eq!(fork.is_parent(), Err(ForkError::IsChild));
    assert_eq!(fork.is_parent(), Err(ForkError::IsChild));
    assert_eq!(fork, child(4));
    let fork = parent(42, 3);
    assert_eq!(fork.is_child(), Err(ForkError::IsParent));
    assert_eq!(fork.is_child(), Err(ForkError::IsParent));
    assert_eq!(fork.release(), Some(Syscall::Close { fd: 3 }));
}

#[test]
fn wait_in_the_child_fails_and_asks_for_nothing() {
    assert_eq!(child(4).wait(), Err(ForkError::IsChild));
}

#[test]
fn wait_in_the_parent_asks_for_the_child() {
    let fork = parent(42, 3);
    let wait = fork.wait().unwrap();
    assert_eq!(wait.pid(), 42);
    assert_eq!(wait.pending(), Syscall::Waitpid { pid: 42 });
}

#[test]
fn wait_right_after_the_fork_goes_on_until_the_child_ends() {
    let fork = Fork::from_ptmx(|call: &Syscall| match call {
        Syscall::Open { path: _ } => Answer::Code(3),
        Syscall::Fork => Answer::Code(77),
        _ => Answer::Code(0),
    })
    .unwrap();
    let wait = fork.wait().unwrap();
    assert_eq!(wait.pending(), Syscall::Waitpid { pid: 77 });
    assert_eq!(wait.settle(&Answer::Status { ret: 0, status: 0 }), None);
    assert_eq!(wait.pending(), Syscall::Waitpid { pid: 77 });
    assert_eq!(wait.settle(&Answer::Status { ret: 77, status: 0x0300 }), Some(Ok(0x0300)));
}

#[test]
fn clone_of_the_master_outlives_the_fork() {
    let fork = parent(42, 3);
    let kept = fork.is_parent().unwrap();
    assert_eq!(fork.release(), None);
    assert_eq!(kept.as_raw_fd(), 3);
    let second = kept.clone();
    assert_eq!(kept.release(), None);
    assert_eq!(second.as_raw_fd(), 3);
    assert_eq!(second.release(), Some(Syscall::Close { fd: 3 }));
}

#[test]
fn clone_of_the_master_may_go_first() {
    let fork = parent(42, 3);
    let clone = fork.is_parent().unwrap();
    assert_eq!(clone.release(), None);
    assert_eq!(fork.is_parent().map(|master| master.as_raw_fd()), Ok(3));
    assert_eq!(fork.release(), Some(Syscall::Close { fd: 3 }));
}

#[test]
fn parent_without_clones_closes_its_master() {
    assert_eq!(parent(42, 3).release(), Some(Syscall::Close { fd: 3 }));
}

#[test]
fn child_closes_its_slave() {
    assert_eq!(child(4).release(), Some(Syscall::Close { fd: 4 }));
}

#[test]
fn master_of_a_closed_descriptor_asks_for_no_close() {
    let mut pty = Descriptor::open(3).unwrap();
    assert_eq!(pty.close(), Some(Syscall::Close { fd: 3 }));
    assert_eq!(Master::new(pty).release(), None);
    assert_eq!(Master::released(None), None);
    assert_eq!(
        Master::released(Some(Descriptor::open(8).unwrap())),
        Some(Syscall::Close { fd: 8 })
    );
}
