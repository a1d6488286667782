//! Writing a whole buffer through a descriptor that may take only part of
//! it at a time.
//!
//! The caller offers the unwritten tail to the descriptor and reports what
//! came of it, until the write is complete or has failed. An attempt that
//! makes no progress (no byte taken, or the descriptor would block) is a
//! stall; only so many stalls in a row are borne, so a descriptor that never
//! takes a byte cannot keep the caller forever.

use vstd::prelude::*;
use crate::errno::{errno_is_again, is_again};

verus! {

/// What one write of the descriptor returned: the number of bytes it took,
/// or the raw error code.
#[derive(Clone, Copy, Debug, PartialEq, Eq, Structural)]
pub enum WriteAttempt {
    Accepted(usize),
    Failed(i32),
}

/// Why a write was given up.
#[derive(Clone, Copy, Debug, PartialEq, Eq, Structural)]
pub enum WriteError {
    /// The descriptor failed with this error code.
    Os(i32),
    /// Too many attempts in a row made no progress.
    Stalled,
}

/// Where a write stands after an attempt.
#[derive(Clone, Copy, Debug, PartialEq, Eq, Structural)]
pub enum WriteStatus {
    /// Every byte is written.
    Written,
    /// Bytes are left: offer the tail again.
    Pending,
    /// The attempt failed; nothing of it was written.
    IoError(WriteError),
}

/// The mathematical state of a [`PendingWrite`].
pub struct WriteState {
    /// The whole buffer.
    pub data: Seq<u8>,
    /// How many of its bytes are written.
    pub sent: nat,
    /// How many attempts in a row made no progress.
    pub stalls: nat,
    /// How many such attempts in a row are borne.
    pub stall_limit: nat,
}

pub open spec fn valid(w: WriteState) -> bool {
    w.sent <= w.data.len() && w.stalls <= w.stall_limit
}

/// The state of a write of `data` before its first attempt.
pub open spec fn begin(data: Seq<u8>, stall_limit: nat) -> WriteState {
    WriteState { data, sent: 0, stalls: 0, stall_limit }
}

/// The bytes written so far.
pub open spec fn delivered(w: WriteState) -> Seq<u8> {
    w.data.take(w.sent as int)
}

/// The unwritten tail.
pub open spec fn remaining(w: WriteState) -> Seq<u8> {
    w.data.skip(w.sent as int)
}

pub open spec fn is_complete(w: WriteState) -> bool {
    w.sent == w.data.len()
}

/// A descriptor takes no more bytes than it was offered.
pub open spec fn admissible(w: WriteState, attempt: WriteAttempt) -> bool {
    attempt matches WriteAttempt::Accepted(n) ==> n <= remaining(w).len()
}

/// Whether `attempt` failed with the would-block error code.
pub open spec fn would_block(attempt: WriteAttempt) -> bool {
    attempt matches WriteAttempt::Failed(code) && errno_is_again(code)
}

/// One more attempt without progress: borne while the limit is not reached.
pub open spec fn stall(w: WriteState) -> (WriteState, WriteStatus) {
    if w.stalls < w.stall_limit {
        (WriteState { stalls: w.stalls + 1, ..w }, WriteStatus::Pending)
    } else {
        (w, WriteStatus::IoError(WriteError::Stalled))
    }
}

/// The state after an attempt, and where the write stands, given whether
/// the error code of the attempt, if it has one, is the would-block code.
/// Bytes taken move from the tail to what is written and end a run of
/// stalls; an error other than would-block changes nothing.
pub open spec fn write_step(w: WriteState, attempt: WriteAttempt, again: bool) -> (
    WriteState,
    WriteStatus,
) {
    if is_complete(w) {
        (w, WriteStatus::Written)
    } else {
        match attempt {
            WriteAttempt::Accepted(n) => if n == 0 {
                stall(w)
            } else {
                let next = WriteState { sent: w.sent + n as nat, stalls: 0, ..w };
                (
                    next,
                    if is_complete(next) {
                        WriteStatus::Written
                    } else {
                        WriteStatus::Pending
                    },
                )
            },
            WriteAttempt::Failed(code) => if again {
                stall(w)
            } else {
                (w, WriteStatus::IoError(WriteError::Os(code)))
            },
        }
    }
}

/// The state after a series of attempts that each took the given number of
/// bytes.
pub open spec fn after_accepts(w: WriteState, counts: Seq<usize>) -> WriteState
    decreases counts.len(),
{
    if counts.len() == 0 {
        w
    } else {
        write_step(
            after_accepts(w, counts.drop_last()),
            WriteAttempt::Accepted(counts.last()),
            false,
        ).0
    }
}

/// The sum of `counts`.
pub open spec fn total(counts: Seq<usize>) -> nat
    decreases counts.len(),
{
    if counts.len() == 0 {
        0
    } else {
        total(counts.drop_last()) + counts.last() as nat
    }
}

/// While a write is pending it gets nearer its end: either the tail is
/// shorter, or it is the same with one stall more, within the limit.
pub proof fn lemma_pending_is_progress(w: WriteState, attempt: WriteAttempt, again: bool)
    requires
        valid(w),
        admissible(w, attempt),
        write_step(w, attempt, again).1 is Pending,
    ensures
        valid(write_step(w, attempt, again).0),
        remaining(write_step(w, attempt, again).0).len() < remaining(w).len() || (remaining(
            write_step(w, attempt, again).0,
        ) == remaining(w) && write_step(w, attempt, again).0.stalls == w.stalls + 1),
{
}

/// Partial writes lose nothing and repeat nothing: after attempts that took
/// `counts` bytes in turn, none more than was left, what is written is the
/// buffer up to their sum and the tail is the rest; once the sum reaches
/// the end of the tail the write is complete.
pub proof fn lemma_partial_writes_complete(w: WriteState, counts: Seq<usize>)
    requires
        valid(w),
        total(counts) <= remaining(w).len(),
    ensures
        valid(after_accepts(w, counts)),
        after_accepts(w, counts).data == w.data,
        delivered(after_accepts(w, counts)) == delivered(w) + remaining(w).take(
            total(counts) as int,
        ),
        remaining(after_accepts(w, counts)) == remaining(w).skip(total(counts) as int),
        total(counts) == remaining(w).len() ==> is_complete(after_accepts(w, counts)),
    decreases counts.len(),
{
    if counts.len() > 0 {
        let head = counts.drop_last();
        lemma_partial_writes_complete(w, head);
        let before = after_accepts(w, head);
        assert(before.sent == w.sent + total(head)) by {
            assert(remaining(before).len() == remaining(w).skip(total(head) as int).len());
        }
    }
}

/// A buffer on its way through a descriptor.
pub struct PendingWrite {
    data: Vec<u8>,
    sent: usize,
    stalls: u32,
    stall_limit: u32,
}

impl View for PendingWrite {
    type V = WriteState;

    closed spec fn view(&self) -> WriteState {
        WriteState {
            data: self.data@,
            sent: self.sent as nat,
            stalls: self.stalls as nat,
            stall_limit: self.stall_limit as nat,
        }
    }
}

impl PendingWrite {
    #[verifier::type_invariant]
    spec fn well_formed(&self) -> bool {
        valid(self@)
    }

    /// A write of `data` that bears `stall_limit` attempts without progress
    /// in a row.
    pub fn new(data: Vec<u8>, stall_limit: u32) -> (job: PendingWrite)
        ensures
            job@ == begin(data@, stall_limit as nat),
    {
        PendingWrite { data, sent: 0, stalls: 0, stall_limit }
    }

    /// Whether every byte is written. The state of a write is always valid.
    pub fn is_complete(&self) -> (done: bool)
        ensures
            done == is_complete(self@),
            valid(self@),
    {
        proof {
            use_type_invariant(self);
        }
        self.sent == self.data.len()
    }

    /// The unwritten tail: what to offer to the descriptor next.
    pub fn remaining(&self) -> (tail: &[u8])
        ensures
            tail@ == remaining(self@),
            valid(self@),
    {
        proof {
            use_type_invariant(self);
        }
        let tail = vstd::slice::slice_subrange(self.data.as_slice(), self.sent, self.data.len());
        tail
    }

    /// Takes the result of offering the tail to the descriptor.
    pub fn record(&mut self, attempt: WriteAttempt) -> (status: WriteStatus)
        requires
            admissible(old(self)@, attempt),
        ensures
            final(self)@ == write_step(old(self)@, attempt, would_block(attempt)).0,
            status == write_step(old(self)@, attempt, would_block(attempt)).1,
    {
        let again: bool = match attempt {
            WriteAttempt::Failed(code) => is_again(code),
            WriteAttempt::Accepted(_) => false,
        };
        self.record_with(attempt, again)
    }

    /// Takes the result of an attempt, with `again` telling whether its
    /// error code, if it has one, is the would-block code.
    pub fn record_with(&mut self, attempt: WriteAttempt, again: bool) -> (status: WriteStatus)
        requires
            admissible(old(self)@, attempt),
        ensures
            final(self)@ == write_step(old(self)@, attempt, again).0,
            status == write_step(old(self)@, attempt, again).1,
    {
        proof {
            use_type_invariant(&*self);
        }
        if self.sent == self.data.len() {
            return WriteStatus::Written;
        }
        match attempt {
            WriteAttempt::Accepted(n) => {
                if n == 0 {
                    self.stalled()
                } else {
                    self.sent = self.sent + n;
                    self.stalls = 0;
                    if self.sent == self.data.len() {
                        WriteStatus::Written
                    } else {
                        WriteStatus::Pending
                    }
                }
            },
            WriteAttempt::Failed(code) => {
                if again {
                    self.stalled()
                } else {
                    WriteStatus::IoError(WriteError::Os(code))
                }
            },
        }
    }

    fn stalled(&mut self) -> (status: WriteStatus)
        ensures
            final(self)@ == stall(old(self)@).0,
            status == stall(old(self)@).1,
    {
        proof {
            use_type_invariant(&*self);
        }
        if self.stalls < self.stall_limit {
            self.stalls = self.stalls + 1;
            WriteStatus::Pending
        } else {
            WriteStatus::IoError(WriteError::Stalled)
        }
    }
}

} // verus!
