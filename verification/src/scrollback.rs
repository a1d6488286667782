//! The scrollback store: the append-only transcript of what the shell wrote.

use vstd::prelude::*;
use crate::cursor::CursorPosition;
use crate::lines::{count_newlines, lemma_count_newlines_concat, saturate, NEWLINE};

verus! {

/// The number of newline-delimited segments of `content`: one more than its
/// newlines, so an empty transcript is one empty line. It stops at the
/// largest `usize`.
pub open spec fn line_count(content: Seq<u8>) -> usize {
    saturate(count_newlines(content) as int + 1)
}

/// A byte that is shown: an ASCII graphic character, or a space, tab, line
/// feed, form feed or carriage return.
pub open spec fn is_visible(b: u8) -> bool {
    ||| 0x21 <= b <= 0x7E
    ||| b == 0x20
    ||| b == 0x09
    ||| b == 0x0A
    ||| b == 0x0C
    ||| b == 0x0D
}

/// Appending never takes a line away.
pub proof fn lemma_append_keeps_lines(content: Seq<u8>, bytes: Seq<u8>)
    ensures
        line_count(content + bytes) >= line_count(content),
{
    lemma_count_newlines_concat(content, bytes);
}

/// The transcript. Its view is the bytes appended so far, in order.
pub struct ScrollbackStore {
    content: Vec<u8>,
}

impl View for ScrollbackStore {
    type V = Seq<u8>;

    closed spec fn view(&self) -> Seq<u8> {
        self.content@
    }
}

impl ScrollbackStore {
    /// An empty transcript.
    pub fn new() -> (store: ScrollbackStore)
        ensures
            store@ == Seq::<u8>::empty(),
    {
        ScrollbackStore { content: Vec::new() }
    }

    /// Adds `bytes` at the end. Nothing already stored changes.
    pub fn append(&mut self, bytes: &[u8])
        ensures
            final(self)@ == old(self)@ + bytes@,
            line_count(final(self)@) >= line_count(old(self)@),
    {
        self.content.extend_from_slice(bytes);
        proof {
            assert(self.content@ =~= old(self).content@ + bytes@);
            lemma_append_keeps_lines(old(self)@, bytes@);
        }
    }

    /// The bytes stored.
    pub fn as_bytes(&self) -> (bytes: &[u8])
        ensures
            bytes@ == self@,
    {
        self.content.as_slice()
    }

    /// The number of newline-delimited segments of the transcript.
    pub fn line_count(&self) -> (n: usize)
        ensures
            n == line_count(self@),
    {
        let mut newlines: usize = 0;
        let mut i: usize = 0;
        while i < self.content.len()
            invariant
                0 <= i <= self.content.len(),
                newlines == count_newlines(self.content@.take(i as int)),
                newlines <= i,
            decreases self.content.len() - i,
        {
            assert(self.content@.take(i + 1).drop_last() =~= self.content@.take(i as int));
            if self.content[i] == NEWLINE {
                newlines += 1;
            }
            i += 1;
        }
        assert(self.content@.take(i as int) =~= self.content@);
        newlines.saturating_add(1)
    }

    /// The offset of the cursor's cell from the bottom-left corner of the
    /// rendered transcript, for cells `cell_width` by `cell_height`: the
    /// column scaled by the width, and the rows between the cursor and the
    /// line count scaled by the height. A cursor above the last line has a
    /// negative vertical offset.
    pub fn render_offset(&self, cursor: CursorPosition, cell_width: u32, cell_height: u32) -> (offset:
        (i128, i128))
        ensures
            offset.0 == cursor.column * cell_width,
            offset.1 == (cursor.row - line_count(self@)) * cell_height,
    {
        let lines: usize = self.line_count();
        let column: i128 = cursor.column as i128;
        let rows: i128 = cursor.row as i128 - lines as i128;
        let width: i128 = cell_width as i128;
        let height: i128 = cell_height as i128;
        assert(0 <= column * width <= 0xFFFF_FFFF_FFFF_FFFF * 0xFFFF_FFFF) by (nonlinear_arith)
            requires
                0 <= column <= 0xFFFF_FFFF_FFFF_FFFF,
                0 <= width <= 0xFFFF_FFFF,
        ;
        assert(-0xFFFF_FFFF_FFFF_FFFF * 0xFFFF_FFFF <= rows * height <= 0xFFFF_FFFF_FFFF_FFFF
            * 0xFFFF_FFFF) by (nonlinear_arith)
            requires
                -0xFFFF_FFFF_FFFF_FFFF <= rows <= 0xFFFF_FFFF_FFFF_FFFF,
                0 <= height <= 0xFFFF_FFFF,
        ;
        (column * width, rows * height)
    }

    /// The bytes of the transcript that are shown, in order.
    pub fn visible_text(&self) -> (text: Vec<u8>)
        ensures
            text@ == self@.filter(|b: u8| is_visible(b)),
    {
        let ghost shown = |b: u8| is_visible(b);
        let mut text: Vec<u8> = Vec::new();
        let mut i: usize = 0;
        proof {
            reveal(Seq::filter);
        }
        while i < self.content.len()
            invariant
                0 <= i <= self.content.len(),
                shown == |b: u8| is_visible(b),
                text@ == self.content@.take(i as int).filter(shown),
            decreases self.content.len() - i,
        {
            let b: u8 = self.content[i];
            proof {
                reveal(Seq::filter);
                assert(self.content@.take(i + 1).drop_last() =~= self.content@.take(i as int));
            }
            if (0x21 <= b && b <= 0x7E) || b == 0x20 || b == 0x09 || b == 0x0A || b == 0x0C || b
                == 0x0D {
                text.push(b);
            }
            i += 1;
        }
        assert(self.content@.take(i as int) =~= self.content@);
        text
    }
}

} // verus!
