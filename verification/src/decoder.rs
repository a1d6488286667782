//! The escape-sequence decoder: a byte-level state machine that turns a
//! stream of chunks into literal runs and control events.

use vstd::prelude::*;
use crate::csi::{csi_step, fresh_parser, CsiParser, CsiParserView, CsiStep};
use crate::event::{event_views, lemma_event_views_push, DecodeAnomaly, EventView, TerminalEvent};

verus! {

/// The escape byte.
pub const ESC: u8 = 0x1B;

/// The byte that, after `ESC`, introduces a control sequence: `[`.
pub const CSI_INTRODUCER: u8 = 0x5B;

/// The terminator of the cursor-position sequence: `H`.
pub const CUP_TERMINATOR: u8 = 0x48;

/// The mathematical state of the decoder between two bytes.
pub enum DecoderState {
    /// Outside any escape sequence.
    Ground,
    /// `ESC` was read.
    Escape,
    /// `ESC [` was read; the parameters are being collected.
    Csi(CsiParserView),
}

/// What one byte contributes to the output.
pub enum Emit {
    /// Nothing yet: the byte belongs to a sequence under way.
    Nothing,
    /// A literal byte.
    Byte(u8),
    /// A control event.
    Control(EventView),
}

/// The event of a complete CSI sequence: a cursor placement for `H`, with 1
/// for each parameter left unset, and a report for any other terminator.
pub open spec fn finish_event(terminator: u8, first: Option<usize>, second: Option<usize>)
    -> EventView {
    if terminator == CUP_TERMINATOR {
        EventView::SetCursorPosition {
            row: if first is Some { first->0 } else { 1 },
            col: if second is Some { second->0 } else { 1 },
        }
    } else {
        EventView::UnsupportedSequence(DecodeAnomaly::UnsupportedTerminator(terminator))
    }
}

/// The transition on one byte.
pub open spec fn step(s: DecoderState, b: u8) -> (DecoderState, Emit) {
    match s {
        DecoderState::Ground => if b == ESC {
            (DecoderState::Escape, Emit::Nothing)
        } else {
            (DecoderState::Ground, Emit::Byte(b))
        },
        DecoderState::Escape => if b == CSI_INTRODUCER {
            (DecoderState::Csi(fresh_parser()), Emit::Nothing)
        } else {
            (
                DecoderState::Ground,
                Emit::Control(EventView::UnsupportedSequence(DecodeAnomaly::UnsupportedEscape(b))),
            )
        },
        DecoderState::Csi(p) => match csi_step(p, b).1 {
            CsiStep::Pending => (DecoderState::Csi(csi_step(p, b).0), Emit::Nothing),
            CsiStep::Finished { terminator, first, second } => (
                DecoderState::Ground,
                Emit::Control(finish_event(terminator, first, second)),
            ),
            CsiStep::Invalid { byte } => (
                DecoderState::Ground,
                Emit::Control(
                    EventView::UnsupportedSequence(DecodeAnomaly::MalformedParameter(byte)),
                ),
            ),
        },
    }
}

/// The events so far, with one more contribution: a literal byte extends a
/// literal run that ends the events, and starts a run otherwise.
pub open spec fn append_emit(events: Seq<EventView>, e: Emit) -> Seq<EventView> {
    match e {
        Emit::Nothing => events,
        Emit::Byte(b) => if events.len() > 0 && events.last() is Literal {
            events.drop_last().push(EventView::Literal(events.last()->Literal_0.push(b)))
        } else {
            events.push(EventView::Literal(seq![b]))
        },
        Emit::Control(c) => events.push(c),
    }
}

/// The result of decoding a chunk.
pub struct Decoded {
    /// The state after the last byte.
    pub state: DecoderState,
    /// The events of the chunk, plain bytes gathered into maximal runs.
    pub events: Seq<EventView>,
}

/// Decodes `bytes` from state `s`.
pub open spec fn decode(s: DecoderState, bytes: Seq<u8>) -> Decoded
    decreases bytes.len(),
{
    if bytes.len() == 0 {
        Decoded { state: s, events: Seq::empty() }
    } else {
        let before = decode(s, bytes.drop_last());
        let (state, emit) = step(before.state, bytes.last());
        Decoded { state, events: append_emit(before.events, emit) }
    }
}

/// Where the decoder stands in the stream.
pub enum ParserState {
    Ground,
    Escape,
    CsiParam(CsiParser),
}

impl View for ParserState {
    type V = DecoderState;

    open spec fn view(&self) -> DecoderState {
        match *self {
            ParserState::Ground => DecoderState::Ground,
            ParserState::Escape => DecoderState::Escape,
            ParserState::CsiParam(parser) => DecoderState::Csi(parser@),
        }
    }
}

/// The contribution of one byte, as the decoder computes it.
enum ByteEffect {
    Nothing,
    Byte(u8),
    Control(TerminalEvent),
}

impl View for ByteEffect {
    type V = Emit;

    closed spec fn view(&self) -> Emit {
        match *self {
            ByteEffect::Nothing => Emit::Nothing,
            ByteEffect::Byte(b) => Emit::Byte(b),
            ByteEffect::Control(event) => Emit::Control(event@),
        }
    }
}

/// The events flushed so far, followed by the literal run being gathered.
spec fn with_run(flushed: Seq<EventView>, run: Seq<u8>) -> Seq<EventView> {
    if run.len() > 0 {
        flushed.push(EventView::Literal(run))
    } else {
        flushed
    }
}

/// The decoder. It keeps its state from one chunk to the next, so a sequence
/// may be split between chunks at any byte.
pub struct OutputBuffer {
    current_state: ParserState,
}

impl View for OutputBuffer {
    type V = DecoderState;

    closed spec fn view(&self) -> DecoderState {
        self.current_state@
    }
}

impl OutputBuffer {
    pub fn new() -> (decoder: OutputBuffer)
        ensures
            decoder@ == DecoderState::Ground,
    {
        OutputBuffer { current_state: ParserState::Ground }
    }

    /// Where the decoder stands in the stream.
    pub fn state(&self) -> (state: &ParserState)
        ensures
            state@ == self@,
    {
        &self.current_state
    }

    /// Whether the decoder is outside any escape sequence.
    pub fn is_ground(&self) -> (r: bool)
        ensures
            r == (self@ is Ground),
    {
        matches!(self.current_state, ParserState::Ground)
    }

    /// Decodes one chunk and returns its events in order.
    pub fn feed(&mut self, raw_chunk: &[u8]) -> (events: Vec<TerminalEvent>)
        ensures
            final(self)@ == decode(old(self)@, raw_chunk@).state,
            event_views(events@) == decode(old(self)@, raw_chunk@).events,
    {
        let mut flushed: Vec<TerminalEvent> = Vec::new();
        let mut run: Vec<u8> = Vec::new();
        let mut i: usize = 0;
        while i < raw_chunk.len()
            invariant
                0 <= i <= raw_chunk.len(),
                self@ == decode(old(self)@, raw_chunk@.take(i as int)).state,
                with_run(event_views(flushed@), run@) == decode(
                    old(self)@,
                    raw_chunk@.take(i as int),
                ).events,
                !(self@ is Ground) ==> run@.len() == 0,
                self@ is Ground && run@.len() == 0 ==> flushed@.len() == 0 || !(event_views(
                    flushed@,
                ).last() is Literal),
            decreases raw_chunk.len() - i,
        {
            let b: u8 = raw_chunk[i];
            assert(raw_chunk@.take(i + 1).drop_last() =~= raw_chunk@.take(i as int));
            match self.advance(b) {
                ByteEffect::Nothing => {
                    if run.len() > 0 {
                        let bytes = run;
                        run = Vec::new();
                        proof {
                            lemma_event_views_push(flushed@, TerminalEvent::Literal(bytes));
                        }
                        flushed.push(TerminalEvent::Literal(bytes));
                    }
                },
                ByteEffect::Byte(byte) => {
                    assert(run@.len() == 0 ==> run@.push(byte) =~= seq![byte]);
                    run.push(byte);
                },
                ByteEffect::Control(event) => {
                    proof {
                        lemma_event_views_push(flushed@, event);
                    }
                    flushed.push(event);
                },
            }
            i += 1;
        }
        assert(raw_chunk@.take(i as int) =~= raw_chunk@);
        if run.len() > 0 {
            proof {
                lemma_event_views_push(flushed@, TerminalEvent::Literal(run));
            }
            flushed.push(TerminalEvent::Literal(run));
        }
        flushed
    }

    /// Takes one byte.
    fn advance(&mut self, b: u8) -> (effect: ByteEffect)
        ensures
            final(self)@ == step(old(self)@, b).0,
            effect@ == step(old(self)@, b).1,
            effect is Byte ==> old(self)@ is Ground && final(self)@ is Ground,
            effect is Control ==> final(self)@ is Ground && !(effect@->Control_0 is Literal),
            effect is Nothing ==> !(final(self)@ is Ground),
    {
        match &mut self.current_state {
            ParserState::Ground => {
                if b == ESC {
                    self.current_state = ParserState::Escape;
                    ByteEffect::Nothing
                } else {
                    ByteEffect::Byte(b)
                }
            },
            ParserState::Escape => {
                if b == CSI_INTRODUCER {
                    self.current_state = ParserState::CsiParam(CsiParser::new());
                    ByteEffect::Nothing
                } else {
                    self.current_state = ParserState::Ground;
                    ByteEffect::Control(
                        TerminalEvent::UnsupportedSequence(DecodeAnomaly::UnsupportedEscape(b)),
                    )
                }
            },
            ParserState::CsiParam(parser) => {
                match parser.push(b) {
                    CsiStep::Pending => ByteEffect::Nothing,
                    CsiStep::Finished { terminator, first, second } => {
                        self.current_state = ParserState::Ground;
                        ByteEffect::Control(finish(terminator, first, second))
                    },
                    CsiStep::Invalid { byte } => {
                        self.current_state = ParserState::Ground;
                        ByteEffect::Control(
                            TerminalEvent::UnsupportedSequence(
                                DecodeAnomaly::MalformedParameter(byte),
                            ),
                        )
                    },
                }
            },
        }
    }
}

/// The event of a complete CSI sequence.
fn finish(terminator: u8, first: Option<usize>, second: Option<usize>) -> (event: TerminalEvent)
    ensures
        event@ == finish_event(terminator, first, second),
{
    if terminator == CUP_TERMINATOR {
        let row: usize = match first {
            Some(n) => n,
            None => 1,
        };
        let col: usize = match second {
            Some(m) => m,
            None => 1,
        };
        TerminalEvent::SetCursorPosition { row, col }
    } else {
        TerminalEvent::UnsupportedSequence(DecodeAnomaly::UnsupportedTerminator(terminator))
    }
}

} // verus!
