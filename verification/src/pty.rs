//! The decisions of a pseudo-terminal session.
//!
//! The session itself reads and writes a descriptor; that is done by the
//! caller. What is decided here is when a read may be attempted, what the
//! result of an attempt means, and what becomes of the session.

use vstd::prelude::*;
use crate::errno::{errno_is_again, is_again};
use crate::spawn::SpawnError;

verus! {

/// The largest number of bytes asked of one read.
pub const READ_CHUNK_SIZE: usize = 4096;

/// Whether the session can still be read.
#[derive(Clone, Copy, Debug, PartialEq, Eq, Structural)]
pub enum Liveness {
    /// The child may still write.
    Open,
    /// The child closed its side. This is final.
    EndOfFile,
    /// The caller gave the session up after an error. This is final.
    Errored,
}

/// What came of starting the child in a new pseudo-terminal and switching
/// the descriptor to non-blocking mode.
#[derive(Clone, Copy, Debug, PartialEq, Eq, Structural)]
pub enum OpenAttempt {
    /// Allocating the pseudo-terminal or forking failed with this error
    /// code.
    ForkFailed(i32),
    /// The child runs, but the descriptor could not be switched to
    /// non-blocking mode, for this error code.
    NonBlockingFailed(i32),
    /// The child of this identifier runs and the descriptor is
    /// non-blocking.
    Ready(i32),
}

/// The session that an attempt to open one gives, or why it gives none.
pub open spec fn open_outcome(attempt: OpenAttempt) -> Result<SessionState, SpawnError> {
    match attempt {
        OpenAttempt::ForkFailed(code) => Err(SpawnError::ForkPty(code)),
        OpenAttempt::NonBlockingFailed(code) => Err(SpawnError::NonBlocking(code)),
        OpenAttempt::Ready(child) => Ok(SessionState { child, liveness: Liveness::Open }),
    }
}

/// What one read of the descriptor returned: the bytes read, none at all at
/// the end of the stream, or the raw error code.
#[derive(Debug, PartialEq, Eq)]
pub enum ReadAttempt {
    Read(Vec<u8>),
    Failed(i32),
}

/// What a read attempt means.
#[derive(Debug, PartialEq, Eq)]
pub enum ReadOutcome {
    /// Bytes for the decoder; never empty.
    RawChunk(Vec<u8>),
    /// Nothing to read for now. This is no failure.
    WouldBlock,
    /// The child closed its side.
    EndOfFile,
    /// The read failed with this error code.
    IoError(i32),
}

/// The mathematical state of a [`PtySession`].
pub struct SessionState {
    /// The identifier of the child process.
    pub child: i32,
    pub liveness: Liveness,
}

/// Whether `attempt` failed with the would-block error code.
pub open spec fn would_block(attempt: ReadAttempt) -> bool {
    attempt matches ReadAttempt::Failed(code) && errno_is_again(code)
}

/// What a read attempt means, given whether its error code, if it has one,
/// is the would-block code.
pub open spec fn read_outcome(attempt: ReadAttempt, again: bool) -> ReadOutcome {
    match attempt {
        ReadAttempt::Read(bytes) => if bytes@.len() == 0 {
            ReadOutcome::EndOfFile
        } else {
            ReadOutcome::RawChunk(bytes)
        },
        ReadAttempt::Failed(code) => if again {
            ReadOutcome::WouldBlock
        } else {
            ReadOutcome::IoError(code)
        },
    }
}

/// The session after a read attempt, and what is reported. An open session
/// reports the outcome of the attempt and ends at the end of the stream; an
/// error leaves it open. A session that is not open reports nothing and
/// stays as it is.
pub open spec fn read_step(s: SessionState, attempt: ReadAttempt, again: bool) -> (
    SessionState,
    Option<ReadOutcome>,
) {
    if s.liveness is Open {
        let outcome = read_outcome(attempt, again);
        (
            SessionState {
                liveness: if outcome is EndOfFile {
                    Liveness::EndOfFile
                } else {
                    Liveness::Open
                },
                ..s
            },
            Some(outcome),
        )
    } else {
        (s, None)
    }
}

/// How many bytes the next read may ask for; none if the session is not
/// open.
pub open spec fn read_request(s: SessionState) -> Option<usize> {
    if s.liveness is Open {
        Some(READ_CHUNK_SIZE)
    } else {
        None
    }
}

/// A read that returns no bytes ends the session: no read is asked for
/// afterwards, and whatever is handed in as the result of one changes
/// nothing.
pub proof fn lemma_end_of_file_is_final(
    s: SessionState,
    attempt: ReadAttempt,
    again: bool,
    later: ReadAttempt,
    later_again: bool,
)
    requires
        s.liveness is Open,
        attempt matches ReadAttempt::Read(bytes) && bytes@.len() == 0,
    ensures
        read_step(s, attempt, again).1 == Some(ReadOutcome::EndOfFile),
        read_step(s, attempt, again).0.liveness == Liveness::EndOfFile,
        read_request(read_step(s, attempt, again).0) is None,
        read_step(read_step(s, attempt, again).0, later, later_again) == (
            read_step(s, attempt, again).0,
            None::<ReadOutcome>,
        ),
{
}

/// What the caller knows of a session: the child it runs and whether it can
/// still be read.
pub struct PtySession {
    child: i32,
    liveness: Liveness,
}

impl View for PtySession {
    type V = SessionState;

    closed spec fn view(&self) -> SessionState {
        SessionState { child: self.child, liveness: self.liveness }
    }
}

impl PtySession {
    /// The session of a child that was just started.
    pub fn new(child: i32) -> (session: PtySession)
        ensures
            session@ == (SessionState { child, liveness: Liveness::Open }),
    {
        PtySession { child, liveness: Liveness::Open }
    }

    /// The session that an attempt to open one gives: an open session when
    /// the child runs behind a non-blocking descriptor, else the error of
    /// the step that failed.
    pub fn open(attempt: OpenAttempt) -> (result: Result<PtySession, SpawnError>)
        ensures
            match result {
                Ok(session) => open_outcome(attempt) == Ok::<SessionState, SpawnError>(session@),
                Err(error) => open_outcome(attempt) == Err::<SessionState, SpawnError>(error),
            },
    {
        match attempt {
            OpenAttempt::ForkFailed(code) => Err(SpawnError::ForkPty(code)),
            OpenAttempt::NonBlockingFailed(code) => Err(SpawnError::NonBlocking(code)),
            OpenAttempt::Ready(child) => Ok(PtySession::new(child)),
        }
    }

    /// The identifier of the child process.
    pub fn child(&self) -> (child: i32)
        ensures
            child == self@.child,
    {
        self.child
    }

    pub fn liveness(&self) -> (liveness: Liveness)
        ensures
            liveness == self@.liveness,
    {
        self.liveness
    }

    /// How many bytes to ask of the descriptor now, or `None` if no read may
    /// be attempted any more.
    pub fn read_request(&self) -> (request: Option<usize>)
        ensures
            request == read_request(self@),
    {
        match self.liveness {
            Liveness::Open => Some(READ_CHUNK_SIZE),
            _ => None,
        }
    }

    /// Takes the result of the read that [`PtySession::read_request`] asked
    /// for.
    pub fn complete_read(&mut self, attempt: ReadAttempt) -> (outcome: Option<ReadOutcome>)
        ensures
            final(self)@ == read_step(old(self)@, attempt, would_block(attempt)).0,
            outcome == read_step(old(self)@, attempt, would_block(attempt)).1,
    {
        let again: bool = match &attempt {
            ReadAttempt::Failed(code) => is_again(*code),
            ReadAttempt::Read(_) => false,
        };
        self.complete_read_with(attempt, again)
    }

    /// Takes the result of a read, with `again` telling whether its error
    /// code, if it has one, is the would-block code.
    pub fn complete_read_with(&mut self, attempt: ReadAttempt, again: bool) -> (outcome: Option<
        ReadOutcome,
    >)
        ensures
            final(self)@ == read_step(old(self)@, attempt, again).0,
            outcome == read_step(old(self)@, attempt, again).1,
    {
        match self.liveness {
            Liveness::Open => {
                let outcome = classify_read(attempt, again);
                if let ReadOutcome::EndOfFile = outcome {
                    self.liveness = Liveness::EndOfFile;
                }
                Some(outcome)
            },
            _ => None,
        }
    }

    /// Gives the session up, as a caller may after an error. An open session
    /// becomes errored; one that has ended stays as it is.
    pub fn mark_errored(&mut self)
        ensures
            final(self)@.child == old(self)@.child,
            final(self)@.liveness == if old(self)@.liveness is Open {
                Liveness::Errored
            } else {
                old(self)@.liveness
            },
    {
        if let Liveness::Open = self.liveness {
            self.liveness = Liveness::Errored;
        }
    }

    /// Ends the session and hands back the child to reap.
    pub fn close(self) -> (child: i32)
        ensures
            child == self@.child,
    {
        self.child
    }
}

/// What a read attempt means, given whether its error code, if it has one,
/// is the would-block code.
pub fn classify_read(attempt: ReadAttempt, again: bool) -> (outcome: ReadOutcome)
    ensures
        outcome == read_outcome(attempt, again),
{
    match attempt {
        ReadAttempt::Read(bytes) => {
            if bytes.len() == 0 {
                ReadOutcome::EndOfFile
            } else {
                ReadOutcome::RawChunk(bytes)
            }
        },
        ReadAttempt::Failed(code) => {
            if again {
                ReadOutcome::WouldBlock
            } else {
                ReadOutcome::IoError(code)
            }
        },
    }
}

} // verus!
