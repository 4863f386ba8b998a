//! The byte-indexed command line and its cursor-aware editing primitives.
use crate::ascii::CURSOR_MARK;
use crate::cmd_line::{StrRepr, ToStrRepr};
use crate::unicode::{decode_lossy, lossy_text};
use std::ops::Range;
use vstd::prelude::*;
use vstd::utf8::*;

verus! {

/// A command line held as raw bytes. The cursor sits immediately before the
/// byte at `cursor_pos`, or at the end of the text when the two are equal.
#[derive(PartialEq, Eq, Debug)]
pub struct Bytes {
    pub text: Vec<u8>,
    pub cursor_pos: usize,
}

/// The mathematical value of a [`Bytes`].
pub struct BytesView {
    pub text: Seq<u8>,
    pub cursor_pos: int,
}

impl View for Bytes {
    type V = BytesView;

    open spec fn view(&self) -> BytesView {
        BytesView { text: self.text@, cursor_pos: self.cursor_pos as int }
    }
}

impl Clone for Bytes {
    fn clone(&self) -> (copy: Bytes)
        ensures
            copy@ == self@,
    {
        let text = self.text.clone();
        assert(text@ =~= self.text@);
        Bytes { text, cursor_pos: self.cursor_pos }
    }
}

impl BytesView {
    /// The cursor lies within the text or at its end.
    pub open spec fn wf(self) -> bool {
        0 <= self.cursor_pos <= self.text.len()
    }

    /// One byte put in at `pos`. A cursor behind `pos` moves right with the
    /// text; a cursor exactly at `pos` moves only when `push_cursor` is set,
    /// and otherwise stays in front of the new byte.
    pub open spec fn inserted(self, pos: int, byte: u8, push_cursor: bool) -> BytesView {
        BytesView {
            text: self.text.insert(pos, byte),
            cursor_pos: if pos < self.cursor_pos || (push_cursor && pos == self.cursor_pos) {
                self.cursor_pos + 1
            } else {
                self.cursor_pos
            },
        }
    }

    /// The byte at `pos` taken out; `pos` at the end of the text takes out the
    /// last byte, if there is one. The cursor moves left under the same rule
    /// by which [`Self::inserted`] moves it right.
    pub open spec fn deleted(self, pos: int, pull_cursor: bool) -> BytesView {
        BytesView {
            text: if pos < self.text.len() {
                self.text.remove(pos)
            } else if self.text.len() > 0 {
                self.text.drop_last()
            } else {
                self.text
            },
            cursor_pos: if pos < self.cursor_pos || (pull_cursor && pos == self.cursor_pos) {
                self.cursor_pos - 1
            } else {
                self.cursor_pos
            },
        }
    }

    /// The bytes from `start` up to `end` replaced by `replacement`. A cursor
    /// at or behind `end` keeps its distance to the text that follows; any
    /// other cursor keeps its offset.
    pub open spec fn overwritten(self, start: int, end: int, replacement: Seq<u8>) -> BytesView {
        BytesView {
            text: self.text.subrange(0, start) + replacement + self.text.subrange(
                end,
                self.text.len() as int,
            ),
            cursor_pos: if self.cursor_pos >= end {
                self.cursor_pos - (end - start) + replacement.len()
            } else {
                self.cursor_pos
            },
        }
    }

    /// Whether taking out the byte at `pos` leaves the cursor within the text.
    /// It does not when the last byte goes, addressed by the end of the text,
    /// while the cursor stands at that end and is not pulled.
    pub open spec fn delete_keeps_cursor(self, pos: int, pull_cursor: bool) -> bool {
        !(!pull_cursor && self.text.len() > 0 && pos == self.text.len() && self.cursor_pos
            == self.text.len())
    }

    /// Whether replacing `start..end` by `replacement` leaves the cursor
    /// within the text. It always does for a cursor outside the span.
    pub open spec fn overwrite_keeps_cursor(self, start: int, end: int, replacement: Seq<u8>) -> bool {
        self.cursor_pos >= end || self.cursor_pos <= self.text.len() - (end - start)
            + replacement.len()
    }
}

impl Bytes {
    /// The cursor lies within the text or at its end.
    pub open spec fn wf(&self) -> bool {
        self@.wf()
    }

    /// Inserts `byte` at `pos`; a cursor at `pos` ends up behind the new byte.
    pub fn insert_push_cursor(&mut self, pos: usize, byte: u8)
        requires
            old(self).wf(),
            pos <= old(self).text@.len(),
        ensures
            final(self)@ == old(self)@.inserted(pos as int, byte, true),
            final(self).wf(),
    {
        self.insert_wrt_cursor(pos, byte, true);
    }

    /// Inserts `byte` at `pos`; a cursor at `pos` stays in front of the new byte.
    pub fn insert_no_push_cursor(&mut self, pos: usize, byte: u8)
        requires
            old(self).wf(),
            pos <= old(self).text@.len(),
        ensures
            final(self)@ == old(self)@.inserted(pos as int, byte, false),
            final(self).wf(),
    {
        self.insert_wrt_cursor(pos, byte, false);
    }

    /// Inserts `byte` at `pos`, which may be the end of the text.
    pub fn insert_wrt_cursor(&mut self, pos: usize, byte: u8, push_cursor: bool)
        requires
            old(self).wf(),
            pos <= old(self).text@.len(),
        ensures
            final(self)@ == old(self)@.inserted(pos as int, byte, push_cursor),
            final(self).wf(),
    {
        if pos == self.text.len() {
            self.text.push(byte);
            assert(self.text@ =~= old(self).text@.insert(pos as int, byte));
        } else {
            self.text.insert(pos, byte);
        }
        let moves = if push_cursor {
            pos <= self.cursor_pos
        } else {
            pos < self.cursor_pos
        };
        if moves {
            assert(self.cursor_pos < self.text.len());
            self.cursor_pos += 1;
        }
    }

    /// Deletes the byte at `pos`; a cursor at `pos` moves left.
    pub fn delete_pull_cursor(&mut self, pos: usize)
        requires
            old(self).wf(),
            pos <= old(self).text@.len(),
            !(pos == 0 && old(self).cursor_pos == 0),
        ensures
            final(self)@ == old(self)@.deleted(pos as int, true),
            final(self).wf(),
    {
        self.delete_wrt_cursor(pos, true);
    }

    /// Deletes the byte at `pos`; a cursor at `pos` stays.
    pub fn delete_no_pull_cursor(&mut self, pos: usize)
        requires
            old(self).wf(),
            pos <= old(self).text@.len(),
        ensures
            final(self)@ == old(self)@.deleted(pos as int, false),
            final(self).wf() <==> old(self)@.delete_keeps_cursor(pos as int, false),
    {
        self.delete_wrt_cursor(pos, false);
    }

    /// Deletes the byte at `pos`, or the last byte when `pos` is the end of
    /// the text. A cursor at offset 0 cannot be pulled.
    pub fn delete_wrt_cursor(&mut self, pos: usize, pull_cursor: bool)
        requires
            old(self).wf(),
            pos <= old(self).text@.len(),
            !(pull_cursor && pos == 0 && old(self).cursor_pos == 0),
        ensures
            final(self)@ == old(self)@.deleted(pos as int, pull_cursor),
            final(self).wf() <==> old(self)@.delete_keeps_cursor(pos as int, pull_cursor),
    {
        if pos == self.text.len() {
            self.text.pop();
            assert(self.text@ =~= old(self)@.deleted(pos as int, pull_cursor).text);
        } else {
            self.text.remove(pos);
        }
        let moves = if pull_cursor {
            pos <= self.cursor_pos
        } else {
            pos < self.cursor_pos
        };
        if moves {
            self.cursor_pos -= 1;
        }
    }
}

impl Bytes {
    /// Replaces the bytes in `chars_to_replace` by `replacement`; an empty
    /// span at the end of the text appends. A cursor at or behind the end of
    /// the span moves with the text behind it; any other cursor keeps its
    /// offset, also one inside the span.
    pub fn overwrite_range(&mut self, chars_to_replace: Range<usize>, replacement: &[u8])
        requires
            old(self).wf(),
            chars_to_replace.start <= chars_to_replace.end <= old(self).text@.len(),
        ensures
            final(self)@ == old(self)@.overwritten(
                chars_to_replace.start as int,
                chars_to_replace.end as int,
                replacement@,
            ),
            final(self).wf() <==> old(self)@.overwrite_keeps_cursor(
                chars_to_replace.start as int,
                chars_to_replace.end as int,
                replacement@,
            ),
            old(self).cursor_pos <= chars_to_replace.start || old(self).cursor_pos
                >= chars_to_replace.end ==> final(self).wf(),
    {
        let len = self.text.len();
        if chars_to_replace.start == len && chars_to_replace.end == len {
            push_span(&mut self.text, replacement, 0, replacement.len());
            assert(replacement@.subrange(0, replacement@.len() as int) =~= replacement@);
            assert(self.text@ =~= old(self)@.overwritten(
                len as int,
                len as int,
                replacement@,
            ).text);
        } else {
            self.text = Self::overwrite_range_iter(
                self.text.as_slice(),
                &chars_to_replace,
                replacement,
            );
        }
        if self.cursor_pos >= chars_to_replace.end {
            assert(self.cursor_pos - (chars_to_replace.end - chars_to_replace.start)
                + replacement.len() <= self.text.len());
            self.cursor_pos = self.cursor_pos - (chars_to_replace.end - chars_to_replace.start)
                + replacement.len();
        }
    }

    /// The text of `source` with the bytes in `replacement_range` replaced by
    /// `replacement`.
    fn overwrite_range_iter(
        source: &[u8],
        replacement_range: &Range<usize>,
        replacement: &[u8],
    ) -> (spliced: Vec<u8>)
        requires
            replacement_range.start <= replacement_range.end <= source@.len(),
        ensures
            spliced@ == source@.subrange(0, replacement_range.start as int) + replacement@
                + source@.subrange(replacement_range.end as int, source@.len() as int),
    {
        let mut spliced: Vec<u8> = Vec::new();
        push_span(&mut spliced, source, 0, replacement_range.start);
        push_span(&mut spliced, replacement, 0, replacement.len());
        push_span(&mut spliced, source, replacement_range.end, source.len());
        assert(replacement@.subrange(0, replacement@.len() as int) =~= replacement@);
        spliced
    }
}

/// Appends the bytes of `source` from `from` up to `to` to `out`.
pub(crate) fn push_span(out: &mut Vec<u8>, source: &[u8], from: usize, to: usize)
    requires
        from <= to <= source@.len(),
    ensures
        final(out)@ == old(out)@ + source@.subrange(from as int, to as int),
{
    let mut idx: usize = from;
    while idx < to
        invariant
            from <= idx <= to <= source@.len(),
            out@ == old(out)@ + source@.subrange(from as int, idx as int),
        decreases to - idx,
    {
        out.push(source[idx]);
        idx += 1;
        assert(out@ =~= old(out)@ + source@.subrange(from as int, idx as int));
    }
}

/// The first cursor mark of `lit` stands at `i`.
pub open spec fn first_mark_at(lit: Seq<u8>, i: int) -> bool {
    &&& 0 <= i < lit.len()
    &&& lit[i] == CURSOR_MARK
    &&& forall|j: int| 0 <= j < i ==> lit[j] != CURSOR_MARK
}

/// The line that the marked bytes `lit` stand for: the cursor stands where
/// the first mark does, and the text is what is left without that mark.
pub open spec fn unmarked(lit: Seq<u8>) -> BytesView {
    let at = choose|i: int| first_mark_at(lit, i);
    BytesView { text: lit.remove(at), cursor_pos: at }
}

/// Bytes that hold a cursor mark at `i` hold a first one.
proof fn lemma_first_mark_exists(lit: Seq<u8>, i: int)
    requires
        0 <= i < lit.len(),
        lit[i] == CURSOR_MARK,
    ensures
        exists|k: int| first_mark_at(lit, k),
    decreases i,
{
    if exists|j: int| 0 <= j < i && lit[j] == CURSOR_MARK {
        let j = choose|j: int| 0 <= j < i && lit[j] == CURSOR_MARK;
        lemma_first_mark_exists(lit, j);
    } else {
        assert(first_mark_at(lit, i));
    }
}

/// The line that marked bytes stand for has its cursor within its text, and
/// putting the mark back gives the marked bytes.
pub proof fn lemma_unmarked_wf(lit: Seq<u8>)
    requires
        lit.contains(CURSOR_MARK),
    ensures
        unmarked(lit).wf(),
        unmarked(lit).marked() == lit,
{
    let i = choose|i: int| 0 <= i < lit.len() && lit[i] == CURSOR_MARK;
    lemma_first_mark_exists(lit, i);
    let at = choose|k: int| first_mark_at(lit, k);
    assert(lit.remove(at).insert(at, CURSOR_MARK) =~= lit);
}

impl BytesView {
    /// The text with a cursor mark put in where the cursor stands.
    pub open spec fn marked(self) -> Seq<u8> {
        self.text.insert(self.cursor_pos, CURSOR_MARK)
    }
}

impl Bytes {
    /// Reads the line that the marked bytes `lit` stand for, if they hold a
    /// cursor mark.
    pub fn from_marked(lit: &[u8]) -> (line: Option<Bytes>)
        ensures
            match line {
                Some(line) => lit@.contains(CURSOR_MARK) && line@ == unmarked(lit@) && line.wf(),
                None => !lit@.contains(CURSOR_MARK),
            },
    {
        let mut idx: usize = 0;
        while idx < lit.len()
            invariant
                idx <= lit@.len(),
                forall|j: int| 0 <= j < idx ==> lit@[j] != CURSOR_MARK,
            decreases lit@.len() - idx,
        {
            if lit[idx] == CURSOR_MARK {
                let mut text: Vec<u8> = Vec::new();
                push_span(&mut text, lit, 0, idx);
                push_span(&mut text, lit, idx + 1, lit.len());
                proof {
                    assert(first_mark_at(lit@, idx as int));
                    assert(forall|i: int| first_mark_at(lit@, i) ==> i == idx);
                    assert(text@ =~= lit@.remove(idx as int));
                }
                return Some(Bytes { text, cursor_pos: idx });
            }
            idx += 1;
        }
        None
    }
}

impl ToStrRepr for Bytes {
    /// A line has a marked string when its cursor lies within the text.
    open spec fn has_repr(&self) -> bool {
        self.wf()
    }

    /// The marked bytes, decoded lossily: bytes that are no UTF-8 show as
    /// U+FFFD.
    open spec fn repr(&self) -> Seq<char> {
        lossy_text(self@.marked())
    }

    fn to_str_repr(&self) -> (repr: String) {
        let mut marked: Vec<u8> = Vec::new();
        push_span(&mut marked, self.text.as_slice(), 0, self.cursor_pos);
        marked.push(CURSOR_MARK);
        push_span(&mut marked, self.text.as_slice(), self.cursor_pos, self.text.len());
        assert(marked@ =~= self@.marked());
        decode_lossy(marked.as_slice())
    }
}

impl<'a> StrRepr<&'a [u8]> for Bytes {
    /// Marked bytes hold at least one cursor mark; the first one counts.
    open spec fn is_marked(lit: &'a [u8]) -> bool {
        lit@.contains(CURSOR_MARK)
    }

    open spec fn marked_line(lit: &'a [u8]) -> BytesView {
        unmarked(lit@)
    }

    fn str_repr(lit: &'a [u8]) -> (line: Bytes) {
        match Bytes::from_marked(lit) {
            Some(line) => line,
            None => vstd::pervasive::unreached(),
        }
    }
}

impl<'a> StrRepr<&'a str> for Bytes {
    /// A marked string holds at least one cursor mark; the first one counts.
    open spec fn is_marked(lit: &'a str) -> bool {
        encode_utf8(lit@).contains(CURSOR_MARK)
    }

    open spec fn marked_line(lit: &'a str) -> BytesView {
        unmarked(encode_utf8(lit@))
    }

    fn str_repr(lit: &'a str) -> (line: Bytes) {
        <Bytes as StrRepr<&[u8]>>::str_repr(lit.as_bytes())
    }
}

} // verus!
