//! The cursor tracker: the emulator's notion of where the cursor is.
//!
//! Positions are zero-based character cells: column 0 is the first column and
//! row 0 the first row. A cursor-placement event carries one-based
//! coordinates, as the control sequence does; the tracker shifts each down by
//! one, taking 0 for 1 as terminals do.

use vstd::prelude::*;
use crate::event::{DecodeAnomaly, EventView, TerminalEvent};
use crate::lines::{count_newlines, lemma_trailing_without_newline, saturate, trailing_bytes};
use crate::lines::NEWLINE;

verus! {

/// A cursor position in zero-based character cells.
#[derive(Clone, Copy, Debug, PartialEq, Eq, Structural)]
pub struct CursorPosition {
    pub column: usize,
    pub row: usize,
}

/// The mathematical state of a [`CursorTracker`].
pub struct TrackerState {
    /// Where the cursor is.
    pub position: CursorPosition,
    /// The anomaly of the last unsupported sequence seen, if any.
    pub last_anomaly: Option<DecodeAnomaly>,
    /// How many unsupported sequences were seen, up to the largest `usize`.
    pub anomalies: usize,
}

/// The position after one literal byte: a newline starts the next row, any
/// other byte moves one column on. Both stop at the largest `usize`.
pub open spec fn advance(pos: CursorPosition, b: u8) -> CursorPosition {
    if b == NEWLINE {
        CursorPosition { column: 0, row: saturate(pos.row + 1) }
    } else {
        CursorPosition { column: saturate(pos.column + 1), row: pos.row }
    }
}

/// The position after a run of literal bytes.
pub open spec fn advance_over(pos: CursorPosition, bytes: Seq<u8>) -> CursorPosition
    decreases bytes.len(),
{
    if bytes.len() == 0 {
        pos
    } else {
        advance(advance_over(pos, bytes.drop_last()), bytes.last())
    }
}

/// The cell that one-based coordinates name.
pub open spec fn placed(row: usize, col: usize) -> CursorPosition {
    CursorPosition { column: saturate(col - 1), row: saturate(row - 1) }
}

/// The state after one event.
pub open spec fn apply_event(t: TrackerState, event: EventView) -> TrackerState {
    match event {
        EventView::Literal(bytes) => TrackerState { position: advance_over(t.position, bytes), ..t },
        EventView::SetCursorPosition { row, col } => TrackerState { position: placed(row, col), ..t },
        EventView::UnsupportedSequence(anomaly) => TrackerState {
            position: t.position,
            last_anomaly: Some(anomaly),
            anomalies: saturate(t.anomalies + 1),
        },
    }
}

/// The state after a sequence of events, in order.
pub open spec fn apply_events(t: TrackerState, events: Seq<EventView>) -> TrackerState
    decreases events.len(),
{
    if events.len() == 0 {
        t
    } else {
        apply_event(apply_events(t, events.drop_last()), events.last())
    }
}

/// A run of literal bytes moves the cursor by its newlines alone: down by
/// their number, and to the column that the bytes after the last of them
/// reach; without a newline, on by the length of the run.
pub proof fn lemma_literal_counts_newlines(pos: CursorPosition, bytes: Seq<u8>)
    ensures
        advance_over(pos, bytes).row == saturate(pos.row + count_newlines(bytes)),
        advance_over(pos, bytes).column == if count_newlines(bytes) == 0 {
            saturate(pos.column + bytes.len())
        } else {
            saturate(trailing_bytes(bytes) as int)
        },
    decreases bytes.len(),
{
    if bytes.len() > 0 {
        lemma_literal_counts_newlines(pos, bytes.drop_last());
        if bytes.last() != NEWLINE && count_newlines(bytes) == 0 {
            lemma_trailing_without_newline(bytes);
        }
    }
}

/// Moving over two runs in turn is moving over them put together.
pub proof fn lemma_advance_over_concat(pos: CursorPosition, a: Seq<u8>, b: Seq<u8>)
    ensures
        advance_over(pos, a + b) == advance_over(advance_over(pos, a), b),
    decreases b.len(),
{
    if b.len() > 0 {
        lemma_advance_over_concat(pos, a, b.drop_last());
        assert((a + b).drop_last() =~= a + b.drop_last());
    }
}

/// Applying two sequences of events in turn is applying them put together.
pub proof fn lemma_apply_events_concat(t: TrackerState, x: Seq<EventView>, y: Seq<EventView>)
    ensures
        apply_events(t, x + y) == apply_events(apply_events(t, x), y),
    decreases y.len(),
{
    if y.len() > 0 {
        lemma_apply_events_concat(t, x, y.drop_last());
        assert((x + y).drop_last() =~= x + y.drop_last());
    }
}

/// Follows the cursor through the decoded events.
pub struct CursorTracker {
    position: CursorPosition,
    last_anomaly: Option<DecodeAnomaly>,
    anomalies: usize,
}

impl View for CursorTracker {
    type V = TrackerState;

    closed spec fn view(&self) -> TrackerState {
        TrackerState {
            position: self.position,
            last_anomaly: self.last_anomaly,
            anomalies: self.anomalies,
        }
    }
}

impl CursorTracker {
    /// A tracker with the cursor in the first cell and nothing seen.
    pub fn new() -> (tracker: CursorTracker)
        ensures
            tracker@ == (TrackerState {
                position: CursorPosition { column: 0, row: 0 },
                last_anomaly: None,
                anomalies: 0,
            }),
    {
        CursorTracker {
            position: CursorPosition { column: 0, row: 0 },
            last_anomaly: None,
            anomalies: 0,
        }
    }

    /// Takes one event into account.
    pub fn apply(&mut self, event: &TerminalEvent)
        ensures
            final(self)@ == apply_event(old(self)@, event@),
    {
        match event {
            TerminalEvent::Literal(bytes) => {
                let mut i: usize = 0;
                while i < bytes.len()
                    invariant
                        0 <= i <= bytes.len(),
                        self.position == advance_over(old(self).position, bytes@.take(i as int)),
                        self.last_anomaly == old(self).last_anomaly,
                        self.anomalies == old(self).anomalies,
                    decreases bytes.len() - i,
                {
                    assert(bytes@.take(i + 1).drop_last() =~= bytes@.take(i as int));
                    if bytes[i] == NEWLINE {
                        self.position = CursorPosition {
                            column: 0,
                            row: self.position.row.saturating_add(1),
                        };
                    } else {
                        self.position = CursorPosition {
                            column: self.position.column.saturating_add(1),
                            row: self.position.row,
                        };
                    }
                    i += 1;
                }
                assert(bytes@.take(i as int) =~= bytes@);
            },
            TerminalEvent::SetCursorPosition { row, col } => {
                self.position = CursorPosition {
                    column: col.saturating_sub(1),
                    row: row.saturating_sub(1),
                };
            },
            TerminalEvent::UnsupportedSequence(anomaly) => {
                self.last_anomaly = Some(*anomaly);
                self.anomalies = self.anomalies.saturating_add(1);
            },
        }
    }

    /// Where the cursor is.
    pub fn position(&self) -> (pos: CursorPosition)
        ensures
            pos == self@.position,
    {
        self.position
    }

    /// The anomaly of the last unsupported sequence seen, if any.
    pub fn last_anomaly(&self) -> (anomaly: Option<DecodeAnomaly>)
        ensures
            anomaly == self@.last_anomaly,
    {
        self.last_anomaly
    }

    /// How many unsupported sequences were seen.
    pub fn anomalies(&self) -> (n: usize)
        ensures
            n == self@.anomalies,
    {
        self.anomalies
    }
}

} // verus!
