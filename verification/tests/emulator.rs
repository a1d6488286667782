use termion_core::cursor::CursorPosition;
use termion_core::emulator::Emulator;
use termion_core::event::{DecodeAnomaly, TerminalEvent};

fn at(column: usize, row: usize) -> CursorPosition {
    CursorPosition { column, row }
}

#[test]
fn new_emulator_has_seen_nothing() {
    let emulator = Emulator::new();
    assert_eq!(emulator.cursor(), at(0, 0));
    assert_eq!(emulator.scrollback().as_bytes(), b"");
    assert_eq!(emulator.scrollback().line_count(), 1);
    assert_eq!(emulator.tracker().anomalies(), 0);
}

#[test]
fn plain_output_goes_to_the_transcript_and_moves_the_cursor() {
    let mut emulator = Emulator::new();
    let events = emulator.ingest(b"$ ls\na b\n$ ");
    assert_eq!(events, vec![TerminalEvent::Literal(b"$ ls\na b\n$ ".to_vec())]);
    assert_eq!(emulator.scrollback().as_bytes(), b"$ ls\na b\n$ ");
    assert_eq!(emulator.cursor(), at(2, 2));
    assert_eq!(emulator.scrollback().line_count(), 3);
}

#[test]
fn a_cursor_placement_moves_the_cursor_and_adds_nothing_to_the_transcript() {
    let mut emulator = Emulator::new();
    let events = emulator.ingest(b"ab\x1b[5;10Hcd");
    assert_eq!(
        events,
        vec![
            TerminalEvent::Literal(b"ab".to_vec()),
            TerminalEvent::SetCursorPosition { row: 5, col: 10 },
            TerminalEvent::Literal(b"cd".to_vec()),
        ]
    );
    assert_eq!(emulator.scrollback().as_bytes(), b"abcd");
    assert_eq!(emulator.cursor(), at(11, 4));
}

#[test]
fn an_unsupported_sequence_leaves_cursor_and_transcript_alone() {
    let mut emulator = Emulator::new();
    emulator.ingest(b"ab\ncd");
    let events = emulator.ingest(b"\x1b[2J");
    assert_eq!(
        events,
        vec![TerminalEvent::UnsupportedSequence(DecodeAnomaly::UnsupportedTerminator(b'J'))]
    );
    assert_eq!(emulator.cursor(), at(2, 1));
    assert_eq!(emulator.scrollback().as_bytes(), b"ab\ncd");
    assert_eq!(emulator.tracker().anomalies(), 1);
    assert_eq!(
        emulator.tracker().last_anomaly(),
        Some(DecodeAnomaly::UnsupportedTerminator(b'J'))
    );
    let events = emulator.ingest(b"e");
    assert_eq!(events, vec![TerminalEvent::Literal(b"e".to_vec())]);
    assert_eq!(emulator.cursor(), at(3, 1));
}

#[test]
fn the_state_does_not_depend_on_where_the_stream_is_cut() {
    let stream: &[u8] = b"one\ntwo\x1b[3;4Hthree\x1b[2J\x1b[?2004hfour\n\x1bxfive";
    let mut whole = Emulator::new();
    whole.ingest(stream);
    for cut in 0..=stream.len() {
        let mut parts = Emulator::new();
        parts.ingest(&stream[..cut]);
        parts.ingest(&stream[cut..]);
        assert_eq!(parts.cursor(), whole.cursor(), "cut at {}", cut);
        assert_eq!(parts.scrollback().as_bytes(), whole.scrollback().as_bytes());
        assert_eq!(parts.tracker().anomalies(), whole.tracker().anomalies());
        assert_eq!(parts.tracker().last_anomaly(), whole.tracker().last_anomaly());
    }
    assert_eq!(whole.tracker().anomalies(), 3);
}

#[test]
fn render_offset_is_that_of_the_cursor_in_the_transcript() {
    let mut emulator = Emulator::new();
    emulator.ingest(b"one\ntwo\nthr");
    assert_eq!(emulator.cursor(), at(3, 2));
    assert_eq!(emulator.render_offset(7, 14), (21, -14));
    emulator.ingest(b"\x1b[1;1H");
    assert_eq!(emulator.render_offset(7, 14), (0, -42));
    assert_eq!(
        emulator.render_offset(7, 14),
        emulator.scrollback().render_offset(emulator.cursor(), 7, 14)
    );
}
