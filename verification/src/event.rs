//! What the decoder hands to a front end.

use vstd::prelude::*;

verus! {

/// Why an escape sequence was reported instead of interpreted. Each kind
/// carries the byte that decided it.
#[derive(Clone, Copy, Debug, PartialEq, Eq, Structural)]
pub enum DecodeAnomaly {
    /// `ESC` was followed by a byte other than `[`.
    UnsupportedEscape(u8),
    /// A byte inside a CSI sequence was neither a digit, a separator in its
    /// place, nor a terminator.
    MalformedParameter(u8),
    /// The sequence was complete, with a terminator that is not interpreted.
    UnsupportedTerminator(u8),
}

/// One decoded event.
#[derive(Debug, PartialEq, Eq)]
pub enum TerminalEvent {
    /// A run of plain bytes.
    Literal(Vec<u8>),
    /// Absolute cursor placement, one-based.
    SetCursorPosition { row: usize, col: usize },
    /// An escape sequence that is recognised but not interpreted.
    UnsupportedSequence(DecodeAnomaly),
}

/// The mathematical value of a [`TerminalEvent`].
pub enum EventView {
    Literal(Seq<u8>),
    SetCursorPosition { row: usize, col: usize },
    UnsupportedSequence(DecodeAnomaly),
}

impl View for TerminalEvent {
    type V = EventView;

    open spec fn view(&self) -> EventView {
        match *self {
            TerminalEvent::Literal(bytes) => EventView::Literal(bytes@),
            TerminalEvent::SetCursorPosition { row, col } => EventView::SetCursorPosition {
                row,
                col,
            },
            TerminalEvent::UnsupportedSequence(anomaly) => EventView::UnsupportedSequence(anomaly),
        }
    }
}

/// The values of a sequence of events, in order.
pub open spec fn event_views(events: Seq<TerminalEvent>) -> Seq<EventView> {
    events.map_values(|e: TerminalEvent| e@)
}

/// Appending an event appends its value.
pub proof fn lemma_event_views_push(events: Seq<TerminalEvent>, event: TerminalEvent)
    ensures
        event_views(events.push(event)) == event_views(events).push(event@),
{
    assert(event_views(events.push(event)) =~= event_views(events).push(event@));
}

} // verus!
