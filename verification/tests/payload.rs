use zombieland::payload::{decode, PayloadFault, Peek, RawPeek};

const CHILD: i32 = 17;

fn raw(returned: i32, signo: i32, pid: i32) -> RawPeek {
    RawPeek { returned, errno: 0, signo, pid }
}

fn failed(errno: i32, signo: i32, pid: i32) -> RawPeek {
    RawPeek { returned: -1, errno, signo, pid }
}

#[test]
fn a_reported_child_is_decoded_with_its_identifier() {
    assert_eq!(decode(raw(0, CHILD, 4711), CHILD), Ok(Peek::Terminated(4711)));
    assert_eq!(decode(raw(0, 20, 1), 20), Ok(Peek::Terminated(1)));
}

#[test]
fn no_signal_number_means_no_terminated_child() {
    assert_eq!(decode(raw(0, 0, 0), CHILD), Ok(Peek::Idle));
    assert_eq!(decode(raw(0, 0, 4711), CHILD), Ok(Peek::Idle));
    assert_eq!(decode(raw(0, 0, 4711), 0), Ok(Peek::Idle));
}

#[test]
fn minus_one_is_a_failed_query() {
    assert_eq!(decode(raw(-1, 0, 0), CHILD), Ok(Peek::Failed(0)));
    assert_eq!(decode(failed(4, CHILD, 4711), CHILD), Ok(Peek::Failed(4)));
    assert_eq!(decode(failed(22, 2, 4711), CHILD), Ok(Peek::Failed(22)));
}

#[test]
fn a_failed_query_keeps_its_error_number() {
    assert_eq!(decode(failed(libc::ECHILD, 0, 0), libc::SIGCHLD), Ok(Peek::Failed(libc::ECHILD)));
    assert_ne!(decode(failed(libc::ECHILD, 0, 0), libc::SIGCHLD), Ok(Peek::Failed(libc::EINTR)));
    assert_eq!(decode(failed(libc::EINTR, 0, 0), libc::SIGCHLD), Ok(Peek::Failed(libc::EINTR)));
    assert_eq!(decode(failed(i32::MIN, 0, 0), CHILD), Ok(Peek::Failed(i32::MIN)));
}

#[test]
fn the_error_number_counts_only_where_the_query_failed() {
    let mut answer = raw(0, CHILD, 4711);
    answer.errno = libc::ECHILD;
    assert_eq!(decode(answer, CHILD), Ok(Peek::Terminated(4711)));
    answer.signo = 0;
    assert_eq!(decode(answer, CHILD), Ok(Peek::Idle));
    answer.returned = 7;
    assert_eq!(decode(answer, CHILD), Err(PayloadFault::Returned(7)));
}

#[test]
fn another_return_value_is_a_fault() {
    assert_eq!(decode(raw(1, CHILD, 4711), CHILD), Err(PayloadFault::Returned(1)));
    assert_eq!(decode(raw(-2, 0, 0), CHILD), Err(PayloadFault::Returned(-2)));
    assert_eq!(decode(raw(i32::MIN, 0, 0), CHILD), Err(PayloadFault::Returned(i32::MIN)));
}

#[test]
fn another_signal_is_a_fault() {
    assert_eq!(decode(raw(0, 2, 4711), CHILD), Err(PayloadFault::Signal(2)));
    assert_eq!(decode(raw(0, -1, 4711), CHILD), Err(PayloadFault::Signal(-1)));
    assert_eq!(decode(raw(0, CHILD, 4711), 20), Err(PayloadFault::Signal(CHILD)));
}
