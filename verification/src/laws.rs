//! What holds across the functions of this crate.
use crate::ascii::CURSOR_MARK;
use crate::cmd_line::bytes::{first_mark_at, unmarked, BytesView};
use crate::cmd_line::utf8::{
    first_starting_at, mark_cluster, one_mark_cluster, unmarked_text, ConversionError, Utf8View,
};
use crate::locate::Located;
use crate::unicode::{clusters, lemma_clusters_cut, lemma_encode_ascii, lossy_text};
use vstd::prelude::*;
use vstd::utf8::*;

verus! {

/// Putting a byte in leaves the cursor within the text, wherever the byte
/// goes and whether or not it pushes the cursor.
pub proof fn lemma_insert_keeps_cursor(line: BytesView, pos: int, byte: u8, push_cursor: bool)
    requires
        line.wf(),
        0 <= pos <= line.text.len(),
    ensures
        line.inserted(pos, byte, push_cursor).wf(),
{
}

/// Taking a byte out leaves the cursor within the text, but for the one way
/// of taking out the last byte from under a cursor that is not pulled.
pub proof fn lemma_delete_keeps_cursor(line: BytesView, pos: int, pull_cursor: bool)
    requires
        line.wf(),
        0 <= pos <= line.text.len(),
        !(pull_cursor && pos == 0 && line.cursor_pos == 0),
    ensures
        line.deleted(pos, pull_cursor).wf() <==> line.delete_keeps_cursor(pos, pull_cursor),
{
}

/// Replacing a span leaves a cursor outside the span within the text.
pub proof fn lemma_overwrite_keeps_cursor(
    line: BytesView,
    start: int,
    end: int,
    replacement: Seq<u8>,
)
    requires
        line.wf(),
        0 <= start <= end <= line.text.len(),
    ensures
        line.overwritten(start, end, replacement).wf() <==> line.overwrite_keeps_cursor(
            start,
            end,
            replacement,
        ),
        line.cursor_pos <= start || line.cursor_pos >= end ==> line.overwritten(
            start,
            end,
            replacement,
        ).wf(),
{
}

/// Rewriting a line in which no quoted string was found changes nothing.
pub proof fn lemma_no_match_changes_nothing(line: BytesView)
    ensures
        line.rewritten(Located::NoMatch) == line,
{
}

/// The marked bytes of a line whose text holds no cursor mark stand for
/// that line.
pub proof fn lemma_marked_bytes_round_trip(line: BytesView)
    requires
        line.wf(),
        !line.text.contains(CURSOR_MARK),
    ensures
        line.marked().contains(CURSOR_MARK),
        unmarked(line.marked()) == line,
{
    let marked = line.marked();
    let at = line.cursor_pos;
    assert(marked[at] == CURSOR_MARK);
    assert forall|j: int| 0 <= j < marked.len() && j != at implies marked[j] != CURSOR_MARK by {
        if j < at {
            assert(marked[j] == line.text[j]);
            assert(line.text.contains(line.text[j]));
        } else {
            assert(marked[j] == line.text[j - 1]);
            assert(line.text.contains(line.text[j - 1]));
        }
    }
    assert(first_mark_at(marked, at));
    assert(forall|i: int| first_mark_at(marked, i) ==> i == at);
    assert(marked.remove(at) =~= line.text);
}

/// The marked string of a byte-indexed line whose text holds no cursor mark
/// stands for that line, provided that the line is UTF-8 around its cursor:
/// bytes that are no UTF-8 do not survive the lossy decoding that makes the
/// string.
pub proof fn lemma_marked_string_round_trip(line: BytesView)
    requires
        line.wf(),
        !line.text.contains(CURSOR_MARK),
        valid_utf8(line.marked()),
    ensures
        encode_utf8(lossy_text(line.marked())).contains(CURSOR_MARK),
        unmarked(encode_utf8(lossy_text(line.marked()))) == line,
{
    decode_utf8_encode_utf8(line.marked());
    lemma_marked_bytes_round_trip(line);
}

/// In the marked string of `line`, the cursor mark is a grapheme cluster of
/// its own, and as many clusters come before it as come before the cursor of
/// `line`. A mark next to a character that joins its neighbour, such as a
/// combining accent, is no cluster of its own.
pub open spec fn mark_stands_alone(line: Utf8View) -> bool {
    let marked = decode_utf8(line.marked());
    &&& mark_cluster(marked, line.cursor_pos_grapheme)
    &&& clusters(marked)[line.cursor_pos_grapheme] == line.cursor_byte_offset()
}

/// The marked bytes of a text line are UTF-8.
pub proof fn lemma_marked_text_is_utf8(line: Utf8View)
    ensures
        valid_utf8(line.marked()),
        encode_utf8(decode_utf8(line.marked())) == line.marked(),
{
    let bytes = encode_utf8(line.text);
    let offset = line.cursor_byte_offset();
    encode_utf8_valid_utf8(line.text);
    lemma_clusters_cut(line.text);
    is_char_boundary_start_end_of_seq(bytes);
    assert(is_char_boundary(bytes, offset));
    valid_utf8_split(bytes, offset);
    let front = bytes.subrange(0, offset);
    let back = bytes.subrange(offset, bytes.len() as int);
    let mark = seq![CURSOR_MARK];
    lemma_encode_ascii('|');
    encode_utf8_valid_utf8(seq!['|']);
    assert(valid_utf8(mark));
    valid_utf8_concat(front, mark);
    valid_utf8_concat(front + mark, back);
    assert(line.marked() =~= front + mark + back);
    decode_utf8_encode_utf8(line.marked());
}

/// The marked string of a text line whose text holds no cursor mark stands
/// for that line, provided that the mark stands alone in it.
pub proof fn lemma_marked_text_round_trip(line: Utf8View)
    requires
        line.wf(),
        !encode_utf8(line.text).contains(CURSOR_MARK),
        mark_stands_alone(line),
    ensures
        one_mark_cluster(decode_utf8(line.marked())),
        unmarked_text(decode_utf8(line.marked())) == line,
{
    let bytes = encode_utf8(line.text);
    let offset = line.cursor_byte_offset();
    let marked = decode_utf8(line.marked());
    let at = line.cursor_pos_grapheme;
    let starts = clusters(marked);
    lemma_marked_text_is_utf8(line);
    lemma_clusters_cut(marked);
    lemma_clusters_cut(line.text);
    assert(encode_utf8(marked) == bytes.insert(offset, CURSOR_MARK));
    assert forall|j: int| mark_cluster(marked, j) implies j == at by {
        let other = starts[j] as int;
        if other != offset {
            if other < offset {
                assert(bytes.insert(offset, CURSOR_MARK)[other] == bytes[other]);
                assert(bytes.contains(bytes[other]));
            } else {
                assert(bytes.insert(offset, CURSOR_MARK)[other] == bytes[other - 1]);
                assert(bytes.contains(bytes[other - 1]));
            }
        }
        if j < at {
            assert(starts[j] < starts[at]);
        } else if at < j {
            assert(starts[at] < starts[j]);
        }
    }
    assert(mark_cluster(marked, at));
    assert(bytes.insert(offset, CURSOR_MARK).remove(offset) =~= bytes);
    encode_utf8_decode_utf8(line.text);
}

/// A text line made byte-indexed and made text again is the same line.
pub proof fn lemma_text_bytes_round_trip(line: Utf8View)
    requires
        line.wf(),
    ensures
        line.as_bytes().as_text() == Ok::<Utf8View, ConversionError>(line),
{
    let bytes = encode_utf8(line.text);
    let offset = line.cursor_byte_offset();
    let starts = clusters(line.text);
    encode_utf8_valid_utf8(line.text);
    encode_utf8_decode_utf8(line.text);
    lemma_clusters_cut(line.text);
    if offset != bytes.len() {
        assert(first_starting_at(starts, offset, line.cursor_pos_grapheme));
        assert(forall|i: int|
            first_starting_at(starts, offset, i) ==> i == line.cursor_pos_grapheme);
    }
}

/// A byte-indexed line made text and made byte-indexed again is the same
/// line.
pub proof fn lemma_bytes_text_round_trip(line: BytesView)
    requires
        line.as_text() is Ok,
    ensures
        line.as_text().unwrap().wf(),
        line.as_text().unwrap().as_bytes() == line,
{
    let text = decode_utf8(line.text);
    decode_utf8_encode_utf8(line.text);
    lemma_clusters_cut(text);
}

} // verus!
