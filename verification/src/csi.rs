//! The numeric grammar of a Control Sequence Introducer sequence:
//! `ESC [ digits ; digits terminator`.

use vstd::prelude::*;

verus! {

/// The bytes that end a CSI sequence: `A` to `H`, `J`, `K`, `S`, `T` and `f`.
pub open spec fn is_terminator(b: u8) -> bool {
    ||| 0x41 <= b <= 0x48
    ||| b == 0x4A
    ||| b == 0x4B
    ||| b == 0x53
    ||| b == 0x54
    ||| b == 0x66
}

/// An ASCII decimal digit.
pub open spec fn is_digit(b: u8) -> bool {
    0x30 <= b <= 0x39
}

/// Every byte of `s` is an ASCII decimal digit.
pub open spec fn all_digits(s: Seq<u8>) -> bool {
    forall|i: int| 0 <= i < s.len() ==> is_digit(#[trigger] s[i])
}

/// The number that the digits of `s` write in base ten; zero for no digits.
pub open spec fn decimal_value(s: Seq<u8>) -> nat
    decreases s.len(),
{
    if s.len() == 0 {
        0
    } else {
        decimal_value(s.drop_last()) * 10 + (s.last() - 0x30) as nat
    }
}

/// The value of a numeric parameter: set when `s` is a non-empty run of
/// digits whose number fits in `usize`, unset otherwise.
pub open spec fn parse_param(s: Seq<u8>) -> Option<usize> {
    if s.len() > 0 && all_digits(s) && decimal_value(s) <= usize::MAX {
        Some(decimal_value(s) as usize)
    } else {
        None
    }
}

/// A run of digits never writes a smaller number than one of its prefixes.
pub proof fn lemma_decimal_value_grows(s: Seq<u8>, n: int)
    requires
        all_digits(s),
        0 <= n <= s.len(),
    ensures
        decimal_value(s.take(n)) <= decimal_value(s),
    decreases s.len() - n,
{
    if n == s.len() {
        assert(s.take(n) =~= s);
    } else {
        lemma_decimal_value_grows(s, n + 1);
        let longer = s.take(n + 1);
        assert(longer.drop_last() =~= s.take(n));
    }
}

pub fn is_csi_terminator(b: u8) -> (r: bool)
    ensures
        r == is_terminator(b),
{
    (0x41 <= b && b <= 0x48) || b == 0x4A || b == 0x4B || b == 0x53 || b == 0x54 || b == 0x66
}

/// Reads a numeric parameter from the digits collected for it.
pub fn accumulate_csi_buf(buf: &[u8]) -> (r: Option<usize>)
    ensures
        r == parse_param(buf@),
{
    if buf.len() == 0 {
        return None;
    }
    let mut value: usize = 0;
    let mut i: usize = 0;
    while i < buf.len()
        invariant
            0 <= i <= buf.len(),
            all_digits(buf@.take(i as int)),
            value == decimal_value(buf@.take(i as int)),
        decreases buf.len() - i,
    {
        let b: u8 = buf[i];
        if b < 0x30 || b > 0x39 {
            return None;
        }
        proof {
            let longer = buf@.take(i + 1);
            assert(longer.drop_last() =~= buf@.take(i as int));
            assert(all_digits(longer));
            if all_digits(buf@) {
                lemma_decimal_value_grows(buf@, i + 1);
            }
        }
        let shifted: usize = match value.checked_mul(10) {
            Some(v) => v,
            None => {
                return None;
            },
        };
        value = match shifted.checked_add((b - 0x30) as usize) {
            Some(v) => v,
            None => {
                return None;
            },
        };
        i += 1;
    }
    assert(buf@.take(i as int) =~= buf@);
    Some(value)
}

/// Which of the two numeric parameters is being collected.
#[derive(Clone, Copy, Debug, PartialEq, Eq, Structural)]
pub enum CsiStage {
    FirstParam,
    SecondParam,
}

/// What one byte did to a sequence under way.
#[derive(Clone, Copy, Debug, PartialEq, Eq, Structural)]
pub enum CsiStep {
    /// The byte was taken; the sequence goes on.
    Pending,
    /// The byte was a terminator: the sequence is complete.
    Finished { terminator: u8, first: Option<usize>, second: Option<usize> },
    /// The byte cannot stand at this place: the sequence is abandoned.
    Invalid { byte: u8 },
}

/// The mathematical state of a [`CsiParser`].
pub struct CsiParserView {
    pub stage: CsiStage,
    pub digits: Seq<u8>,
    pub first: Option<usize>,
}

/// The state right after `ESC [`.
pub open spec fn fresh_parser() -> CsiParserView {
    CsiParserView { stage: CsiStage::FirstParam, digits: Seq::empty(), first: None }
}

/// The transition of the parameter grammar on one byte: the next state and
/// what the byte did. After `Finished` or `Invalid` the state is fresh again.
pub open spec fn csi_step(p: CsiParserView, b: u8) -> (CsiParserView, CsiStep) {
    if is_terminator(b) {
        match p.stage {
            CsiStage::FirstParam => (
                fresh_parser(),
                CsiStep::Finished { terminator: b, first: parse_param(p.digits), second: None },
            ),
            CsiStage::SecondParam => (
                fresh_parser(),
                CsiStep::Finished { terminator: b, first: p.first, second: parse_param(p.digits) },
            ),
        }
    } else if is_digit(b) {
        (CsiParserView { digits: p.digits.push(b), ..p }, CsiStep::Pending)
    } else if b == 0x3B && p.stage == CsiStage::FirstParam {
        (
            CsiParserView {
                stage: CsiStage::SecondParam,
                digits: Seq::empty(),
                first: parse_param(p.digits),
            },
            CsiStep::Pending,
        )
    } else {
        (fresh_parser(), CsiStep::Invalid { byte: b })
    }
}

/// Collects the parameters of one CSI sequence, byte by byte.
pub struct CsiParser {
    stage: CsiStage,
    digits: Vec<u8>,
    first: Option<usize>,
}

impl View for CsiParser {
    type V = CsiParserView;

    closed spec fn view(&self) -> CsiParserView {
        CsiParserView { stage: self.stage, digits: self.digits@, first: self.first }
    }
}

impl CsiParser {
    pub fn new() -> (parser: CsiParser)
        ensures
            parser@ == fresh_parser(),
    {
        CsiParser { stage: CsiStage::FirstParam, digits: Vec::new(), first: None }
    }

    /// Which parameter is being collected.
    pub fn stage(&self) -> (stage: CsiStage)
        ensures
            stage == self@.stage,
    {
        self.stage
    }

    /// The digits collected for that parameter so far.
    pub fn digits(&self) -> (digits: &[u8])
        ensures
            digits@ == self@.digits,
    {
        self.digits.as_slice()
    }

    /// Takes the next byte of the sequence.
    pub fn push(&mut self, b: u8) -> (step: CsiStep)
        ensures
            final(self)@ == csi_step(old(self)@, b).0,
            step == csi_step(old(self)@, b).1,
    {
        if is_csi_terminator(b) {
            let param: Option<usize> = accumulate_csi_buf(self.digits.as_slice());
            let step = match self.stage {
                CsiStage::FirstParam => CsiStep::Finished {
                    terminator: b,
                    first: param,
                    second: None,
                },
                CsiStage::SecondParam => CsiStep::Finished {
                    terminator: b,
                    first: self.first,
                    second: param,
                },
            };
            self.reset();
            step
        } else if 0x30 <= b && b <= 0x39 {
            self.digits.push(b);
            CsiStep::Pending
        } else if b == 0x3B && matches!(self.stage, CsiStage::FirstParam) {
            self.first = accumulate_csi_buf(self.digits.as_slice());
            self.digits.clear();
            self.stage = CsiStage::SecondParam;
            CsiStep::Pending
        } else {
            self.reset();
            CsiStep::Invalid { byte: b }
        }
    }

    fn reset(&mut self)
        ensures
            final(self)@ == fresh_parser(),
    {
        self.stage = CsiStage::FirstParam;
        self.digits.clear();
        self.first = None;
    }
}

} // verus!
