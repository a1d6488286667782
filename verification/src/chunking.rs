//! Chunk-boundary safety of the decoder: what a stream decodes to does not
//! depend on where it is cut into chunks.

use vstd::prelude::*;
use crate::csi::{all_digits, fresh_parser, is_terminator, parse_param};
use crate::csi::{CsiParserView, CsiStage};
use crate::decoder::{append_emit, decode, finish_event, step};
use crate::decoder::{DecoderState, Emit, CSI_INTRODUCER, ESC};
use crate::event::EventView;

verus! {

/// The parameter separator: `;`.
pub const SEPARATOR: u8 = 0x3B;

/// No byte of `bytes` is the escape byte.
pub open spec fn has_no_escape(bytes: Seq<u8>) -> bool {
    forall|i: int| 0 <= i < bytes.len() ==> #[trigger] bytes[i] != ESC
}

/// The events of two consecutive chunks as one stream: a literal run that
/// ends the first chunk and one that starts the second are one run.
pub open spec fn join(x: Seq<EventView>, y: Seq<EventView>) -> Seq<EventView> {
    if x.len() > 0 && y.len() > 0 && x.last() is Literal && y.first() is Literal {
        x.drop_last().push(EventView::Literal(x.last()->Literal_0 + y.first()->Literal_0))
            + y.drop_first()
    } else {
        x + y
    }
}

/// Decoding one more byte is one more step.
pub proof fn lemma_decode_push(s: DecoderState, bytes: Seq<u8>, b: u8)
    ensures
        decode(s, bytes.push(b)).state == step(decode(s, bytes).state, b).0,
        decode(s, bytes.push(b)).events == append_emit(
            decode(s, bytes).events,
            step(decode(s, bytes).state, b).1,
        ),
{
    assert(bytes.push(b).drop_last() =~= bytes);
}

/// A chunk without the escape byte, fed to a decoder in the ground state,
/// is one literal run equal to the chunk, and leaves the decoder in the
/// ground state.
pub proof fn lemma_plain_chunk_is_one_literal(bytes: Seq<u8>)
    requires
        bytes.len() > 0,
        has_no_escape(bytes),
    ensures
        decode(DecoderState::Ground, bytes).state == DecoderState::Ground,
        decode(DecoderState::Ground, bytes).events == seq![EventView::Literal(bytes)],
    decreases bytes.len(),
{
    let head = bytes.drop_last();
    let b = bytes.last();
    if head.len() == 0 {
        assert(seq![b] =~= bytes);
        assert(decode(DecoderState::Ground, head).state == DecoderState::Ground);
    } else {
        lemma_plain_chunk_is_one_literal(head);
        assert(head.push(b) =~= bytes);
    }
}

/// Literal runs are maximal: none is empty, and no two stand side by side.
pub open spec fn runs_are_maximal(events: Seq<EventView>) -> bool {
    &&& forall|i: int|
        0 <= i < events.len() && #[trigger] events[i] is Literal ==> events[i]->Literal_0.len() > 0
    &&& forall|i: int|
        0 <= i < events.len() - 1 && #[trigger] events[i] is Literal ==> !(events[i + 1] is Literal)
}

/// The literal runs of a decoded chunk are maximal.
pub proof fn lemma_runs_are_maximal(s: DecoderState, bytes: Seq<u8>)
    ensures
        runs_are_maximal(decode(s, bytes).events),
    decreases bytes.len(),
{
    if bytes.len() > 0 {
        lemma_runs_are_maximal(s, bytes.drop_last());
        let before = decode(s, bytes.drop_last());
        lemma_control_is_no_literal(before.state, bytes.last());
    }
}

/// A step never hands out a literal run as a control event.
pub proof fn lemma_control_is_no_literal(s: DecoderState, b: u8)
    ensures
        step(s, b).1 is Control ==> !(step(s, b).1->Control_0 is Literal),
{
}

/// One more contribution to the second of two chunks is one more
/// contribution to the stream.
proof fn lemma_join_append(x: Seq<EventView>, y: Seq<EventView>, e: Emit)
    requires
        e is Control ==> !(e->Control_0 is Literal),
    ensures
        append_emit(join(x, y), e) == join(x, append_emit(y, e)),
{
    if e is Byte && y.len() == 0 && x.len() > 0 && x.last() is Literal {
        let run = x.last()->Literal_0;
        assert(run.push(e->Byte_0) =~= run + seq![e->Byte_0]);
    }
}

/// Feeding a stream in two chunks, cut at any byte, ends in the state of
/// feeding it in one, with the events of the two chunks joined.
pub proof fn lemma_feed_in_two_chunks(s: DecoderState, a: Seq<u8>, b: Seq<u8>)
    ensures
        decode(s, a + b).state == decode(decode(s, a).state, b).state,
        decode(s, a + b).events == join(
            decode(s, a).events,
            decode(decode(s, a).state, b).events,
        ),
    decreases b.len(),
{
    let mid = decode(s, a).state;
    if b.len() > 0 {
        let head = b.drop_last();
        lemma_feed_in_two_chunks(s, a, head);
        assert((a + b).drop_last() =~= a + head);
        let e = step(decode(mid, head).state, b.last()).1;
        lemma_control_is_no_literal(decode(mid, head).state, b.last());
        lemma_join_append(decode(s, a).events, decode(mid, head).events, e);
    }
}

/// A CSI sequence written out: `ESC [`, the digits of the first parameter,
/// then, if there is a second one, `;` and its digits, then the terminator.
pub open spec fn csi_sequence(first: Seq<u8>, second: Option<Seq<u8>>, terminator: u8) -> Seq<u8> {
    let head = seq![ESC, CSI_INTRODUCER] + first;
    match second {
        Some(digits) => head.push(SEPARATOR) + digits.push(terminator),
        None => head.push(terminator),
    }
}

/// The parts make up a well-formed CSI sequence.
pub open spec fn is_csi_sequence(first: Seq<u8>, second: Option<Seq<u8>>, terminator: u8) -> bool {
    &&& all_digits(first)
    &&& second is Some ==> all_digits(second->0)
    &&& is_terminator(terminator)
}

/// The event that a well-formed CSI sequence stands for.
pub open spec fn csi_event(first: Seq<u8>, second: Option<Seq<u8>>, terminator: u8) -> EventView {
    finish_event(
        terminator,
        parse_param(first),
        match second {
            Some(digits) => parse_param(digits),
            None => None,
        },
    )
}

/// Digits fed to a parser under way are collected, and nothing is emitted.
proof fn lemma_decode_digits(p: CsiParserView, digits: Seq<u8>)
    requires
        all_digits(digits),
    ensures
        decode(DecoderState::Csi(p), digits).state == DecoderState::Csi(
            CsiParserView { digits: p.digits + digits, ..p },
        ),
        decode(DecoderState::Csi(p), digits).events == Seq::<EventView>::empty(),
    decreases digits.len(),
{
    if digits.len() > 0 {
        let head = digits.drop_last();
        lemma_decode_digits(p, head);
        assert((p.digits + head).push(digits.last()) =~= p.digits + digits);
    }
}

/// A well-formed CSI sequence, fed to a decoder in the ground state, is
/// exactly its event, and leaves the decoder in the ground state.
pub proof fn lemma_csi_sequence_decodes(first: Seq<u8>, second: Option<Seq<u8>>, terminator: u8)
    requires
        is_csi_sequence(first, second, terminator),
    ensures
        decode(DecoderState::Ground, csi_sequence(first, second, terminator)).state
            == DecoderState::Ground,
        decode(DecoderState::Ground, csi_sequence(first, second, terminator)).events
            == seq![csi_event(first, second, terminator)],
{
    let ground = DecoderState::Ground;
    let none = Seq::<EventView>::empty();
    let intro = seq![ESC, CSI_INTRODUCER];
    assert(decode(ground, intro).state == DecoderState::Csi(fresh_parser()) && decode(
        ground,
        intro,
    ).events == none) by {
        let empty = Seq::<u8>::empty();
        lemma_decode_push(ground, empty, ESC);
        lemma_decode_push(ground, empty.push(ESC), CSI_INTRODUCER);
        assert(empty.push(ESC).push(CSI_INTRODUCER) =~= intro);
    }
    let head = intro + first;
    let collected = CsiParserView { digits: first, ..fresh_parser() };
    assert(decode(ground, head).state == DecoderState::Csi(collected) && decode(
        ground,
        head,
    ).events == none) by {
        lemma_decode_digits(fresh_parser(), first);
        lemma_feed_in_two_chunks(ground, intro, first);
    }
    match second {
        None => {
            lemma_decode_push(ground, head, terminator);
            assert(none.push(csi_event(first, second, terminator)) =~= seq![
                csi_event(first, second, terminator),
            ]);
        },
        Some(digits) => {
            let separated = head.push(SEPARATOR);
            let second_stage = CsiParserView {
                stage: CsiStage::SecondParam,
                digits: Seq::empty(),
                first: parse_param(first),
            };
            lemma_decode_push(ground, head, SEPARATOR);
            let body = separated + digits;
            assert(decode(ground, body).state == DecoderState::Csi(
                CsiParserView { digits, ..second_stage },
            ) && decode(ground, body).events == none) by {
                lemma_decode_digits(second_stage, digits);
                lemma_feed_in_two_chunks(ground, separated, digits);
            }
            lemma_decode_push(ground, body, terminator);
            assert(none.push(csi_event(first, second, terminator)) =~= seq![
                csi_event(first, second, terminator),
            ]);
        },
    }
}

/// A well-formed CSI sequence cut in two at any byte, the two parts fed one
/// after the other to a decoder in the ground state, gives the event of the
/// whole sequence and leaves the decoder in the ground state.
pub proof fn lemma_csi_sequence_split(
    first: Seq<u8>,
    second: Option<Seq<u8>>,
    terminator: u8,
    a: Seq<u8>,
    b: Seq<u8>,
)
    requires
        is_csi_sequence(first, second, terminator),
        a + b == csi_sequence(first, second, terminator),
    ensures
        decode(decode(DecoderState::Ground, a).state, b).state == DecoderState::Ground,
        decode(DecoderState::Ground, a).events + decode(
            decode(DecoderState::Ground, a).state,
            b,
        ).events == seq![csi_event(first, second, terminator)],
{
    let x = decode(DecoderState::Ground, a).events;
    let y = decode(decode(DecoderState::Ground, a).state, b).events;
    lemma_csi_sequence_decodes(first, second, terminator);
    lemma_feed_in_two_chunks(DecoderState::Ground, a, b);
    if x.len() > 0 && y.len() > 0 && x.last() is Literal && y.first() is Literal {
        assert(join(x, y)[x.len() - 1] is Literal);
    }
}

} // verus!
