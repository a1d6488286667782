//! The emulator: decoder, cursor tracker and scrollback store fed from one
//! stream. Every chunk is decoded; every event moves the cursor; every
//! literal run is appended to the transcript.

use vstd::prelude::*;
use crate::chunking::{has_no_escape, join};
use crate::chunking::{lemma_feed_in_two_chunks, lemma_plain_chunk_is_one_literal};
use crate::cursor::{apply_event, apply_events, lemma_advance_over_concat};
use crate::cursor::{lemma_apply_events_concat, lemma_literal_counts_newlines};
use crate::cursor::{CursorPosition, CursorTracker, TrackerState};
use crate::decoder::{decode, DecoderState, OutputBuffer};
use crate::event::{event_views, EventView, TerminalEvent};
use crate::lines::{count_newlines, saturate, trailing_bytes};
use crate::scrollback::{line_count, ScrollbackStore};

verus! {

/// The mathematical state of an [`Emulator`].
pub struct EmulatorState {
    pub decoder: DecoderState,
    pub tracker: TrackerState,
    pub scrollback: Seq<u8>,
}

/// The bytes of an event that belong to the transcript: those of a literal
/// run, none of a control event.
pub open spec fn event_bytes(event: EventView) -> Seq<u8> {
    match event {
        EventView::Literal(bytes) => bytes,
        _ => Seq::empty(),
    }
}

/// The literal runs of `events`, put together in order.
pub open spec fn literal_bytes(events: Seq<EventView>) -> Seq<u8>
    decreases events.len(),
{
    if events.len() == 0 {
        Seq::empty()
    } else {
        literal_bytes(events.drop_last()) + event_bytes(events.last())
    }
}

/// The state after a chunk.
pub open spec fn ingest(s: EmulatorState, chunk: Seq<u8>) -> EmulatorState {
    let decoded = decode(s.decoder, chunk);
    EmulatorState {
        decoder: decoded.state,
        tracker: apply_events(s.tracker, decoded.events),
        scrollback: s.scrollback + literal_bytes(decoded.events),
    }
}

/// The literal bytes of two sequences of events put together are those of
/// each.
pub proof fn lemma_literal_bytes_concat(x: Seq<EventView>, y: Seq<EventView>)
    ensures
        literal_bytes(x + y) == literal_bytes(x) + literal_bytes(y),
    decreases y.len(),
{
    if y.len() > 0 {
        lemma_literal_bytes_concat(x, y.drop_last());
        assert((x + y).drop_last() =~= x + y.drop_last());
    }
}

/// Joining the events of two chunks changes neither where they take the
/// cursor nor what they add to the transcript.
proof fn lemma_join_is_unobservable(t: TrackerState, x: Seq<EventView>, y: Seq<EventView>)
    ensures
        apply_events(t, join(x, y)) == apply_events(apply_events(t, x), y),
        literal_bytes(join(x, y)) == literal_bytes(x) + literal_bytes(y),
{
    lemma_apply_events_concat(t, x, y);
    lemma_literal_bytes_concat(x, y);
    if x.len() > 0 && y.len() > 0 && x.last() is Literal && y.first() is Literal {
        let xs = x.drop_last();
        let ys = y.drop_first();
        let xl = x.last()->Literal_0;
        let yf = y.first()->Literal_0;
        let merged = EventView::Literal(xl + yf);
        assert(y =~= seq![y.first()] + ys);
        assert(seq![y.first()].drop_last() =~= Seq::<EventView>::empty());
        assert(xs.push(merged).drop_last() =~= xs);
        let before = apply_events(t, xs);

        lemma_apply_events_concat(t, xs.push(merged), ys);
        lemma_apply_events_concat(apply_events(t, x), seq![y.first()], ys);
        lemma_advance_over_concat(before.position, xl, yf);
        assert(apply_events(apply_events(t, x), seq![y.first()]) == apply_event(
            apply_events(t, x),
            y.first(),
        )) by {
            assert(apply_events(apply_events(t, x), Seq::<EventView>::empty()) == apply_events(
                t,
                x,
            ));
        }

        lemma_literal_bytes_concat(xs.push(merged), ys);
        lemma_literal_bytes_concat(seq![y.first()], ys);
        assert(literal_bytes(seq![y.first()]) =~= yf) by {
            assert(literal_bytes(Seq::<EventView>::empty()) =~= Seq::<u8>::empty());
        }
    }
}

/// The emulator does not see where its stream is cut: two chunks fed one
/// after the other leave it in the state of the two fed as one.
pub proof fn lemma_ingest_in_two_chunks(s: EmulatorState, a: Seq<u8>, b: Seq<u8>)
    ensures
        ingest(ingest(s, a), b) == ingest(s, a + b),
{
    let first = decode(s.decoder, a);
    let second = decode(first.state, b);
    lemma_feed_in_two_chunks(s.decoder, a, b);
    lemma_join_is_unobservable(s.tracker, first.events, second.events);
    assert(ingest(ingest(s, a), b).scrollback =~= ingest(s, a + b).scrollback);
}

/// A chunk without the escape byte, fed to an emulator whose decoder is in
/// the ground state, goes to the transcript as it is and moves the cursor by
/// its newlines alone: down by their number, and to the column that the
/// bytes after the last of them reach; without a newline, on by the length
/// of the chunk.
pub proof fn lemma_plain_chunk_is_text(s: EmulatorState, chunk: Seq<u8>)
    requires
        s.decoder is Ground,
        chunk.len() > 0,
        has_no_escape(chunk),
    ensures
        ingest(s, chunk).decoder is Ground,
        ingest(s, chunk).scrollback == s.scrollback + chunk,
        ingest(s, chunk).tracker.position.row == saturate(
            s.tracker.position.row + count_newlines(chunk),
        ),
        ingest(s, chunk).tracker.position.column == if count_newlines(chunk) == 0 {
            saturate(s.tracker.position.column + chunk.len())
        } else {
            saturate(trailing_bytes(chunk) as int)
        },
        ingest(s, chunk).tracker.last_anomaly == s.tracker.last_anomaly,
        ingest(s, chunk).tracker.anomalies == s.tracker.anomalies,
{
    lemma_plain_chunk_is_one_literal(chunk);
    lemma_literal_counts_newlines(s.tracker.position, chunk);
    let events = seq![EventView::Literal(chunk)];
    assert(apply_events(s.tracker, events.drop_last()) == s.tracker);
    assert(literal_bytes(events.drop_last()) =~= Seq::<u8>::empty());
}

/// A terminal emulator without its window.
pub struct Emulator {
    decoder: OutputBuffer,
    tracker: CursorTracker,
    scrollback: ScrollbackStore,
}

impl View for Emulator {
    type V = EmulatorState;

    closed spec fn view(&self) -> EmulatorState {
        EmulatorState {
            decoder: self.decoder@,
            tracker: self.tracker@,
            scrollback: self.scrollback@,
        }
    }
}

impl Emulator {
    /// An emulator that has seen nothing: the decoder in the ground state,
    /// the cursor in the first cell, the transcript empty.
    pub fn new() -> (emulator: Emulator)
        ensures
            emulator@.decoder == DecoderState::Ground,
            emulator@.tracker == (TrackerState {
                position: CursorPosition { column: 0, row: 0 },
                last_anomaly: None,
                anomalies: 0,
            }),
            emulator@.scrollback == Seq::<u8>::empty(),
    {
        Emulator {
            decoder: OutputBuffer::new(),
            tracker: CursorTracker::new(),
            scrollback: ScrollbackStore::new(),
        }
    }

    /// Takes one chunk of the stream and returns its events.
    pub fn ingest(&mut self, chunk: &[u8]) -> (events: Vec<TerminalEvent>)
        ensures
            final(self)@ == ingest(old(self)@, chunk@),
            event_views(events@) == decode(old(self)@.decoder, chunk@).events,
    {
        let events = self.decoder.feed(chunk);
        let ghost views = event_views(events@);
        let mut i: usize = 0;
        while i < events.len()
            invariant
                0 <= i <= events.len(),
                views == event_views(events@),
                self.decoder@ == decode(old(self).decoder@, chunk@).state,
                self.tracker@ == apply_events(old(self).tracker@, views.take(i as int)),
                self.scrollback@ == old(self).scrollback@ + literal_bytes(views.take(i as int)),
            decreases events.len() - i,
        {
            assert(views.take(i + 1).drop_last() =~= views.take(i as int));
            self.tracker.apply(&events[i]);
            match &events[i] {
                TerminalEvent::Literal(bytes) => {
                    self.scrollback.append(bytes.as_slice());
                },
                _ => {},
            }
            assert(self.scrollback@ =~= old(self).scrollback@ + literal_bytes(
                views.take(i + 1),
            ));
            i += 1;
        }
        assert(views.take(i as int) =~= views);
        events
    }

    /// Where the cursor is.
    pub fn cursor(&self) -> (pos: CursorPosition)
        ensures
            pos == self@.tracker.position,
    {
        self.tracker.position()
    }

    /// The cursor tracker.
    pub fn tracker(&self) -> (tracker: &CursorTracker)
        ensures
            tracker@ == self@.tracker,
    {
        &self.tracker
    }

    /// The transcript.
    pub fn scrollback(&self) -> (store: &ScrollbackStore)
        ensures
            store@ == self@.scrollback,
    {
        &self.scrollback
    }

    /// The offset of the cursor's cell from the bottom-left corner of the
    /// rendered transcript, for cells `cell_width` by `cell_height`.
    pub fn render_offset(&self, cell_width: u32, cell_height: u32) -> (offset: (i128, i128))
        ensures
            offset.0 == self@.tracker.position.column * cell_width,
            offset.1 == (self@.tracker.position.row - line_count(self@.scrollback)) * cell_height,
    {
        self.scrollback.render_offset(self.tracker.position(), cell_width, cell_height)
    }
}

} // verus!
