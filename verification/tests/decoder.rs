use termion_core::csi::CsiStage;
use termion_core::decoder::{OutputBuffer, ParserState};
use termion_core::event::{DecodeAnomaly, TerminalEvent};

fn literal(text: &[u8]) -> TerminalEvent {
    TerminalEvent::Literal(text.to_vec())
}

fn unsupported(anomaly: DecodeAnomaly) -> TerminalEvent {
    TerminalEvent::UnsupportedSequence(anomaly)
}

#[test]
fn new_decoder_is_in_ground_state() {
    let decoder = OutputBuffer::new();
    assert!(decoder.is_ground());
}

#[test]
fn empty_chunk_gives_no_event() {
    let mut decoder = OutputBuffer::new();
    assert_eq!(decoder.feed(b""), Vec::<TerminalEvent>::new());
    assert!(decoder.is_ground());
}

#[test]
fn plain_bytes_are_one_literal_run() {
    let mut decoder = OutputBuffer::new();
    let events = decoder.feed(b"hello\nworld\r\n\t$ ");
    assert_eq!(events, vec![literal(b"hello\nworld\r\n\t$ ")]);
    assert!(decoder.is_ground());
}

#[test]
fn every_byte_but_escape_is_literal() {
    let mut input: Vec<u8> = Vec::new();
    for b in 0..=255u8 {
        if b != 0x1b {
            input.push(b);
        }
    }
    let mut decoder = OutputBuffer::new();
    assert_eq!(decoder.feed(&input), vec![TerminalEvent::Literal(input.clone())]);
}

#[test]
fn cursor_home_defaults_both_parameters_to_one() {
    let mut decoder = OutputBuffer::new();
    let events = decoder.feed(b"\x1b[H");
    assert_eq!(events, vec![TerminalEvent::SetCursorPosition { row: 1, col: 1 }]);
    assert!(decoder.is_ground());
}

#[test]
fn cursor_position_reads_both_parameters() {
    let mut decoder = OutputBuffer::new();
    let events = decoder.feed(b"\x1b[5;10H");
    assert_eq!(events, vec![TerminalEvent::SetCursorPosition { row: 5, col: 10 }]);
}

#[test]
fn cursor_position_with_one_parameter_defaults_the_column() {
    let mut decoder = OutputBuffer::new();
    assert_eq!(
        decoder.feed(b"\x1b[7H"),
        vec![TerminalEvent::SetCursorPosition { row: 7, col: 1 }]
    );
}

#[test]
fn cursor_position_with_empty_first_parameter_defaults_the_row() {
    let mut decoder = OutputBuffer::new();
    assert_eq!(
        decoder.feed(b"\x1b[;12H"),
        vec![TerminalEvent::SetCursorPosition { row: 1, col: 12 }]
    );
}

#[test]
fn cursor_position_with_empty_second_parameter_defaults_the_column() {
    let mut decoder = OutputBuffer::new();
    assert_eq!(
        decoder.feed(b"\x1b[3;H"),
        vec![TerminalEvent::SetCursorPosition { row: 3, col: 1 }]
    );
}

#[test]
fn zero_parameters_are_kept_as_given() {
    let mut decoder = OutputBuffer::new();
    assert_eq!(
        decoder.feed(b"\x1b[0;0H"),
        vec![TerminalEvent::SetCursorPosition { row: 0, col: 0 }]
    );
}

#[test]
fn a_parameter_too_large_for_the_machine_is_unset() {
    let mut decoder = OutputBuffer::new();
    assert_eq!(
        decoder.feed(b"\x1b[99999999999999999999999999999999999999999;4H"),
        vec![TerminalEvent::SetCursorPosition { row: 1, col: 4 }]
    );
}

#[test]
fn erase_display_is_reported_as_unsupported() {
    let mut decoder = OutputBuffer::new();
    let events = decoder.feed(b"\x1b[2J");
    assert_eq!(events, vec![unsupported(DecodeAnomaly::UnsupportedTerminator(b'J'))]);
    assert!(decoder.is_ground());
    let events = decoder.feed(b"ok\x1b[3;4H");
    assert_eq!(
        events,
        vec![literal(b"ok"), TerminalEvent::SetCursorPosition { row: 3, col: 4 }]
    );
}

#[test]
fn every_terminator_but_h_is_unsupported() {
    for t in b"ABCDEFGJKSTf" {
        let mut decoder = OutputBuffer::new();
        let input = [0x1b, b'[', b'1', b';', b'2', *t];
        assert_eq!(
            decoder.feed(&input),
            vec![unsupported(DecodeAnomaly::UnsupportedTerminator(*t))]
        );
        assert!(decoder.is_ground());
    }
}

#[test]
fn escape_followed_by_another_byte_is_reported() {
    let mut decoder = OutputBuffer::new();
    assert_eq!(
        decoder.feed(b"a\x1bcb"),
        vec![
            literal(b"a"),
            unsupported(DecodeAnomaly::UnsupportedEscape(b'c')),
            literal(b"b"),
        ]
    );
    assert!(decoder.is_ground());
}

#[test]
fn escape_followed_by_escape_is_reported() {
    let mut decoder = OutputBuffer::new();
    assert_eq!(
        decoder.feed(b"\x1b\x1b[H"),
        vec![unsupported(DecodeAnomaly::UnsupportedEscape(0x1b)), literal(b"[H")]
    );
}

#[test]
fn bracketed_paste_switch_is_reported_and_decoding_goes_on() {
    let mut decoder = OutputBuffer::new();
    assert_eq!(
        decoder.feed(b"\x1b[?2004h$ "),
        vec![
            unsupported(DecodeAnomaly::MalformedParameter(b'?')),
            literal(b"2004h$ "),
        ]
    );
    assert!(decoder.is_ground());
}

#[test]
fn a_second_separator_is_malformed() {
    let mut decoder = OutputBuffer::new();
    assert_eq!(
        decoder.feed(b"\x1b[1;2;3H"),
        vec![
            unsupported(DecodeAnomaly::MalformedParameter(b';')),
            literal(b"3H"),
        ]
    );
}

#[test]
fn a_letter_that_is_no_terminator_is_malformed() {
    let mut decoder = OutputBuffer::new();
    assert_eq!(
        decoder.feed(b"\x1b[12m"),
        vec![unsupported(DecodeAnomaly::MalformedParameter(b'm'))]
    );
    assert_eq!(
        decoder.feed(b"\x1b[1;2m"),
        vec![unsupported(DecodeAnomaly::MalformedParameter(b'm'))]
    );
}

#[test]
fn literal_runs_on_both_sides_of_a_sequence() {
    let mut decoder = OutputBuffer::new();
    assert_eq!(
        decoder.feed(b"ab\x1b[2;3Hcd\x1b[Kef"),
        vec![
            literal(b"ab"),
            TerminalEvent::SetCursorPosition { row: 2, col: 3 },
            literal(b"cd"),
            unsupported(DecodeAnomaly::UnsupportedTerminator(b'K')),
            literal(b"ef"),
        ]
    );
}

#[test]
fn two_sequences_in_a_row_give_no_literal_between_them() {
    let mut decoder = OutputBuffer::new();
    assert_eq!(
        decoder.feed(b"\x1b[H\x1b[2J"),
        vec![
            TerminalEvent::SetCursorPosition { row: 1, col: 1 },
            unsupported(DecodeAnomaly::UnsupportedTerminator(b'J')),
        ]
    );
}

#[test]
fn the_state_follows_the_sequence() {
    let mut decoder = OutputBuffer::new();
    assert!(matches!(decoder.state(), ParserState::Ground));
    decoder.feed(b"\x1b");
    assert!(matches!(decoder.state(), ParserState::Escape));
    decoder.feed(b"[12");
    match decoder.state() {
        ParserState::CsiParam(parser) => {
            assert_eq!(parser.stage(), CsiStage::FirstParam);
            assert_eq!(parser.digits(), b"12");
        }
        _ => panic!("not in a control sequence"),
    }
    decoder.feed(b";3");
    match decoder.state() {
        ParserState::CsiParam(parser) => {
            assert_eq!(parser.stage(), CsiStage::SecondParam);
            assert_eq!(parser.digits(), b"3");
        }
        _ => panic!("not in a control sequence"),
    }
    decoder.feed(b"H");
    assert!(matches!(decoder.state(), ParserState::Ground));
}

#[test]
fn a_chunk_that_ends_inside_a_sequence_leaves_the_decoder_there() {
    let mut decoder = OutputBuffer::new();
    assert_eq!(decoder.feed(b"ab\x1b"), vec![literal(b"ab")]);
    assert!(!decoder.is_ground());
    assert_eq!(decoder.feed(b"["), Vec::<TerminalEvent>::new());
    assert!(!decoder.is_ground());
    assert_eq!(decoder.feed(b"12"), Vec::<TerminalEvent>::new());
    assert_eq!(
        decoder.feed(b";34Hcd"),
        vec![TerminalEvent::SetCursorPosition { row: 12, col: 34 }, literal(b"cd")]
    );
    assert!(decoder.is_ground());
}

#[test]
fn a_sequence_split_at_any_byte_gives_the_event_of_the_whole() {
    let sequence: &[u8] = b"\x1b[5;10H";
    for cut in 0..=sequence.len() {
        let mut decoder = OutputBuffer::new();
        let mut events = decoder.feed(&sequence[..cut]);
        events.extend(decoder.feed(&sequence[cut..]));
        assert_eq!(events, vec![TerminalEvent::SetCursorPosition { row: 5, col: 10 }]);
        assert!(decoder.is_ground());
    }
}

#[test]
fn an_unsupported_sequence_split_at_any_byte_gives_the_event_of_the_whole() {
    let sequence: &[u8] = b"\x1b[2J";
    for cut in 0..=sequence.len() {
        let mut decoder = OutputBuffer::new();
        let mut events = decoder.feed(&sequence[..cut]);
        events.extend(decoder.feed(&sequence[cut..]));
        assert_eq!(events, vec![unsupported(DecodeAnomaly::UnsupportedTerminator(b'J'))]);
        assert!(decoder.is_ground());
    }
}

#[test]
fn a_stream_fed_byte_by_byte_gives_the_controls_and_bytes_of_the_whole() {
    let stream: &[u8] = b"one\x1b[3;4Htwo\x1b[2J\x1bxthree\n";
    let mut whole = OutputBuffer::new();
    let expected = whole.feed(stream);
    let mut decoder = OutputBuffer::new();
    let mut controls: Vec<TerminalEvent> = Vec::new();
    let mut bytes: Vec<u8> = Vec::new();
    for b in stream {
        for event in decoder.feed(&[*b]) {
            match event {
                TerminalEvent::Literal(run) => bytes.extend(run),
                other => controls.push(other),
            }
        }
    }
    let mut expected_controls: Vec<TerminalEvent> = Vec::new();
    let mut expected_bytes: Vec<u8> = Vec::new();
    for event in expected {
        match event {
            TerminalEvent::Literal(run) => expected_bytes.extend(run),
            other => expected_controls.push(other),
        }
    }
    assert_eq!(controls, expected_controls);
    assert_eq!(bytes, expected_bytes);
    assert_eq!(bytes, b"onetwothree\n".to_vec());
}
