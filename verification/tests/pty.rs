use nix::errno::Errno;
use termion_core::pty::{classify_read, Liveness, OpenAttempt, PtySession};
use termion_core::pty::{ReadAttempt, ReadOutcome, READ_CHUNK_SIZE};
use termion_core::spawn::SpawnError;

#[test]
fn a_ready_attempt_opens_a_session() {
    match PtySession::open(OpenAttempt::Ready(77)) {
        Ok(session) => {
            assert_eq!(session.child(), 77);
            assert_eq!(session.liveness(), Liveness::Open);
            assert_eq!(session.read_request(), Some(READ_CHUNK_SIZE));
        }
        Err(error) => panic!("refused: {:?}", error),
    }
}

#[test]
fn a_failed_fork_opens_no_session() {
    let result = PtySession::open(OpenAttempt::ForkFailed(Errno::ENOMEM as i32));
    assert_eq!(result.err(), Some(SpawnError::ForkPty(Errno::ENOMEM as i32)));
}

#[test]
fn a_descriptor_that_stays_blocking_opens_no_session() {
    let result = PtySession::open(OpenAttempt::NonBlockingFailed(Errno::EBADF as i32));
    assert_eq!(result.err(), Some(SpawnError::NonBlocking(Errno::EBADF as i32)));
}

#[test]
fn new_session_is_open() {
    let session = PtySession::new(4242);
    assert_eq!(session.liveness(), Liveness::Open);
    assert_eq!(session.child(), 4242);
    assert_eq!(session.read_request(), Some(4096));
    assert_eq!(READ_CHUNK_SIZE, 4096);
}

#[test]
fn bytes_read_are_a_raw_chunk() {
    let mut session = PtySession::new(1);
    let outcome = session.complete_read(ReadAttempt::Read(b"$ ".to_vec()));
    assert_eq!(outcome, Some(ReadOutcome::RawChunk(b"$ ".to_vec())));
    assert_eq!(session.liveness(), Liveness::Open);
    assert_eq!(session.read_request(), Some(READ_CHUNK_SIZE));
}

#[test]
fn zero_length_read_is_end_of_file() {
    let mut session = PtySession::new(1);
    let outcome = session.complete_read(ReadAttempt::Read(Vec::new()));
    assert_eq!(outcome, Some(ReadOutcome::EndOfFile));
    assert_eq!(session.liveness(), Liveness::EndOfFile);
}

#[test]
fn no_read_is_attempted_after_end_of_file() {
    let mut session = PtySession::new(1);
    session.complete_read(ReadAttempt::Read(Vec::new()));
    assert_eq!(session.read_request(), None);
    assert_eq!(session.complete_read(ReadAttempt::Read(b"late".to_vec())), None);
    assert_eq!(session.complete_read(ReadAttempt::Failed(Errno::EIO as i32)), None);
    assert_eq!(session.liveness(), Liveness::EndOfFile);
    assert_eq!(session.read_request(), None);
}

#[test]
fn would_block_is_no_failure() {
    let mut session = PtySession::new(1);
    let outcome = session.complete_read(ReadAttempt::Failed(Errno::EAGAIN as i32));
    assert_eq!(outcome, Some(ReadOutcome::WouldBlock));
    assert_eq!(session.liveness(), Liveness::Open);
    let outcome = session.complete_read(ReadAttempt::Failed(Errno::EWOULDBLOCK as i32));
    assert_eq!(outcome, Some(ReadOutcome::WouldBlock));
    assert_eq!(session.read_request(), Some(READ_CHUNK_SIZE));
}

#[test]
fn other_errors_are_reported_and_leave_the_session_open() {
    let mut session = PtySession::new(1);
    let outcome = session.complete_read(ReadAttempt::Failed(Errno::EIO as i32));
    assert_eq!(outcome, Some(ReadOutcome::IoError(Errno::EIO as i32)));
    assert_eq!(session.liveness(), Liveness::Open);
    let outcome = session.complete_read(ReadAttempt::Failed(Errno::EBADF as i32));
    assert_eq!(outcome, Some(ReadOutcome::IoError(Errno::EBADF as i32)));
    let outcome = session.complete_read(ReadAttempt::Failed(0));
    assert_eq!(outcome, Some(ReadOutcome::IoError(0)));
    let outcome = session.complete_read(ReadAttempt::Failed(-1));
    assert_eq!(outcome, Some(ReadOutcome::IoError(-1)));
    assert_eq!(session.read_request(), Some(READ_CHUNK_SIZE));
}

#[test]
fn the_caller_may_give_the_session_up() {
    let mut session = PtySession::new(9);
    session.complete_read(ReadAttempt::Failed(Errno::EIO as i32));
    session.mark_errored();
    assert_eq!(session.liveness(), Liveness::Errored);
    assert_eq!(session.read_request(), None);
    assert_eq!(session.complete_read(ReadAttempt::Read(b"x".to_vec())), None);
    assert_eq!(session.child(), 9);
}

#[test]
fn giving_up_an_ended_session_changes_nothing() {
    let mut session = PtySession::new(9);
    session.complete_read(ReadAttempt::Read(Vec::new()));
    session.mark_errored();
    assert_eq!(session.liveness(), Liveness::EndOfFile);
}

#[test]
fn close_hands_back_the_child() {
    let session = PtySession::new(314);
    assert_eq!(session.close(), 314);
}

#[test]
fn classify_read_goes_by_the_flag_it_is_given() {
    assert_eq!(
        classify_read(ReadAttempt::Failed(5), true),
        ReadOutcome::WouldBlock
    );
    assert_eq!(
        classify_read(ReadAttempt::Failed(5), false),
        ReadOutcome::IoError(5)
    );
    assert_eq!(
        classify_read(ReadAttempt::Read(b"ab".to_vec()), true),
        ReadOutcome::RawChunk(b"ab".to_vec())
    );
    assert_eq!(classify_read(ReadAttempt::Read(Vec::new()), false), ReadOutcome::EndOfFile);
}

#[test]
fn complete_read_with_goes_by_the_flag_it_is_given() {
    let mut session = PtySession::new(1);
    assert_eq!(
        session.complete_read_with(ReadAttempt::Failed(Errno::EIO as i32), true),
        Some(ReadOutcome::WouldBlock)
    );
    assert_eq!(
        session.complete_read_with(ReadAttempt::Failed(Errno::EAGAIN as i32), false),
        Some(ReadOutcome::IoError(Errno::EAGAIN as i32))
    );
    assert_eq!(
        session.complete_read_with(ReadAttempt::Read(Vec::new()), true),
        Some(ReadOutcome::EndOfFile)
    );
    assert_eq!(session.complete_read_with(ReadAttempt::Failed(1), true), None);
}
