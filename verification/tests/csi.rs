use termion_core::csi::{accumulate_csi_buf, is_csi_terminator, CsiParser, CsiStep};

#[test]
fn terminators_are_the_thirteen_letters() {
    for b in 0..=255u8 {
        assert_eq!(is_csi_terminator(b), b"ABCDEFGHJKSTf".contains(&b), "byte {}", b);
    }
}

#[test]
fn no_digits_are_no_parameter() {
    assert_eq!(accumulate_csi_buf(b""), None);
}

#[test]
fn digits_are_read_in_base_ten() {
    assert_eq!(accumulate_csi_buf(b"0"), Some(0));
    assert_eq!(accumulate_csi_buf(b"7"), Some(7));
    assert_eq!(accumulate_csi_buf(b"42"), Some(42));
    assert_eq!(accumulate_csi_buf(b"007"), Some(7));
    assert_eq!(accumulate_csi_buf(b"2004"), Some(2004));
}

#[test]
fn the_largest_number_is_read_and_the_next_is_not() {
    let largest = format!("{}", usize::MAX);
    assert_eq!(accumulate_csi_buf(largest.as_bytes()), Some(usize::MAX));
    let mut next = largest.into_bytes();
    let last = next.len() - 1;
    next[last] += 1;
    assert_eq!(accumulate_csi_buf(&next), None);
    assert_eq!(accumulate_csi_buf(b"99999999999999999999999999"), None);
}

#[test]
fn bytes_that_are_no_digits_are_no_parameter() {
    assert_eq!(accumulate_csi_buf(b"12a"), None);
    assert_eq!(accumulate_csi_buf(b"+5"), None);
    assert_eq!(accumulate_csi_buf(b"-5"), None);
    assert_eq!(accumulate_csi_buf(b" 5"), None);
    assert_eq!(accumulate_csi_buf(b"5;"), None);
}

#[test]
fn parser_collects_two_parameters() {
    let mut parser = CsiParser::new();
    assert_eq!(parser.push(b'1'), CsiStep::Pending);
    assert_eq!(parser.push(b'2'), CsiStep::Pending);
    assert_eq!(parser.push(b';'), CsiStep::Pending);
    assert_eq!(parser.push(b'3'), CsiStep::Pending);
    assert_eq!(
        parser.push(b'H'),
        CsiStep::Finished { terminator: b'H', first: Some(12), second: Some(3) }
    );
}

#[test]
fn parser_finishes_at_once_with_the_first_parameter_alone() {
    let mut parser = CsiParser::new();
    assert_eq!(parser.push(b'2'), CsiStep::Pending);
    assert_eq!(
        parser.push(b'J'),
        CsiStep::Finished { terminator: b'J', first: Some(2), second: None }
    );
}

#[test]
fn parser_without_digits_leaves_both_parameters_unset() {
    let mut parser = CsiParser::new();
    assert_eq!(
        parser.push(b'H'),
        CsiStep::Finished { terminator: b'H', first: None, second: None }
    );
    let mut parser = CsiParser::new();
    assert_eq!(parser.push(b';'), CsiStep::Pending);
    assert_eq!(
        parser.push(b'f'),
        CsiStep::Finished { terminator: b'f', first: None, second: None }
    );
}

#[test]
fn parser_rejects_a_byte_out_of_place() {
    let mut parser = CsiParser::new();
    assert_eq!(parser.push(b'?'), CsiStep::Invalid { byte: b'?' });
    let mut parser = CsiParser::new();
    assert_eq!(parser.push(b'1'), CsiStep::Pending);
    assert_eq!(parser.push(b';'), CsiStep::Pending);
    assert_eq!(parser.push(b';'), CsiStep::Invalid { byte: b';' });
}

#[test]
fn parser_is_fresh_after_a_sequence_ends() {
    let mut parser = CsiParser::new();
    assert_eq!(parser.push(b'9'), CsiStep::Pending);
    assert_eq!(parser.push(b';'), CsiStep::Pending);
    assert_eq!(parser.push(b'8'), CsiStep::Pending);
    assert_eq!(
        parser.push(b'H'),
        CsiStep::Finished { terminator: b'H', first: Some(9), second: Some(8) }
    );
    assert_eq!(
        parser.push(b'H'),
        CsiStep::Finished { terminator: b'H', first: None, second: None }
    );
    assert_eq!(parser.push(b'4'), CsiStep::Pending);
    assert_eq!(parser.push(b'x'), CsiStep::Invalid { byte: b'x' });
    assert_eq!(
        parser.push(b'A'),
        CsiStep::Finished { terminator: b'A', first: None, second: None }
    );
}
