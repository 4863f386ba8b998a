//! The command line as text, with the cursor counted in extended grapheme
//! clusters, and its conversions from and to the byte-indexed line.
use crate::ascii::CURSOR_MARK;
use crate::cmd_line::bytes::{Bytes, BytesView};
use crate::cmd_line::{str_repr, StrRepr, ToStrRepr};
use crate::unicode::{
    cluster_end, clusters, cuts, into_string, lemma_encode_ascii, lemma_encode_utf8_concat,
    str_grapheme_starts,
};
use vstd::prelude::*;
use vstd::string::*;
use vstd::utf8::*;

verus! {

/// A command line held as text. The cursor sits before the grapheme cluster
/// number `cursor_pos_grapheme`, or at the end of the text when that many
/// clusters or fewer are there.
#[derive(PartialEq, Eq, Debug)]
pub struct Utf8 {
    pub text: String,
    pub cursor_pos_grapheme: usize,
}

/// The mathematical value of a [`Utf8`].
pub struct Utf8View {
    pub text: Seq<char>,
    pub cursor_pos_grapheme: int,
}

impl View for Utf8 {
    type V = Utf8View;

    open spec fn view(&self) -> Utf8View {
        Utf8View { text: self.text@, cursor_pos_grapheme: self.cursor_pos_grapheme as int }
    }
}

impl Clone for Utf8 {
    fn clone(&self) -> (copy: Utf8)
        ensures
            copy@ == self@,
    {
        Utf8 { text: self.text.clone(), cursor_pos_grapheme: self.cursor_pos_grapheme }
    }
}

/// Why a byte-indexed line is no text line.
#[derive(Clone, Copy, PartialEq, Eq, Debug)]
pub enum ConversionError {
    /// The bytes are no UTF-8.
    InvalidText,
    /// The cursor, at byte offset `cursor_pos` of `len` bytes, stands inside
    /// a grapheme cluster.
    MisalignedCursor { cursor_pos: usize, len: usize },
}

/// Cluster number `i` is the first to start at `offset`.
pub open spec fn first_starting_at(starts: Seq<usize>, offset: int, i: int) -> bool {
    &&& 0 <= i < starts.len()
    &&& starts[i] == offset
    &&& forall|j: int| 0 <= j < i ==> starts[j] != offset
}

impl Utf8View {
    /// The cursor stands at a cluster or at the end of the text.
    pub open spec fn wf(self) -> bool {
        0 <= self.cursor_pos_grapheme <= clusters(self.text).len()
    }

    /// The byte offset of the cursor: where its cluster starts, or the end
    /// of the text for a cursor behind the last cluster.
    pub open spec fn cursor_byte_offset(self) -> int {
        let starts = clusters(self.text);
        if 0 <= self.cursor_pos_grapheme < starts.len() {
            starts[self.cursor_pos_grapheme] as int
        } else {
            encode_utf8(self.text).len() as int
        }
    }

    /// The same line, byte-indexed.
    pub open spec fn as_bytes(self) -> BytesView {
        BytesView { text: encode_utf8(self.text), cursor_pos: self.cursor_byte_offset() }
    }
}

impl BytesView {
    /// The same line as text, where there is one: the bytes have to be UTF-8,
    /// and the cursor has to stand where a grapheme cluster starts, or at the
    /// end of the text. Bytes that are no UTF-8 are reported before a cursor
    /// inside a cluster is.
    pub open spec fn as_text(self) -> Result<Utf8View, ConversionError> {
        let starts = clusters(decode_utf8(self.text));
        if !valid_utf8(self.text) {
            Err(ConversionError::InvalidText)
        } else if self.cursor_pos == self.text.len() {
            Ok(Utf8View { text: decode_utf8(self.text), cursor_pos_grapheme: starts.len() as int })
        } else if exists|i: int| first_starting_at(starts, self.cursor_pos, i) {
            Ok(
                Utf8View {
                    text: decode_utf8(self.text),
                    cursor_pos_grapheme: choose|i: int|
                        first_starting_at(starts, self.cursor_pos, i),
                },
            )
        } else {
            Err(
                ConversionError::MisalignedCursor {
                    cursor_pos: self.cursor_pos as usize,
                    len: self.text.len() as usize,
                },
            )
        }
    }
}

/// The number of the first cluster that starts at `offset`.
fn cluster_starting_at(starts: &Vec<usize>, offset: usize) -> (found: Option<usize>)
    ensures
        match found {
            Some(i) => first_starting_at(starts@, offset as int, i as int),
            None => forall|i: int| !first_starting_at(starts@, offset as int, i),
        },
{
    let mut idx: usize = 0;
    while idx < starts.len()
        invariant
            idx <= starts@.len(),
            forall|j: int| 0 <= j < idx ==> starts@[j] != offset,
        decreases starts@.len() - idx,
    {
        if starts[idx] == offset {
            return Some(idx);
        }
        idx += 1;
    }
    None
}

impl Utf8 {
    /// The cursor stands at a cluster or at the end of the text.
    pub open spec fn wf(&self) -> bool {
        self@.wf()
    }

    /// The same line, byte-indexed. Every text line has one.
    pub fn to_bytes(self) -> (bytes: Bytes)
        ensures
            bytes@ == self@.as_bytes(),
            bytes.wf(),
    {
        let starts = str_grapheme_starts(self.text.as_str());
        let text = self.text.as_str().as_bytes_vec();
        let cursor_pos = if self.cursor_pos_grapheme < starts.len() {
            starts[self.cursor_pos_grapheme]
        } else {
            text.len()
        };
        Bytes { cursor_pos, text }
    }

    /// The same line as text. Fails on bytes that are no UTF-8, and on a
    /// cursor that stands inside a grapheme cluster.
    pub fn from_bytes(bytes: Bytes) -> (converted: Result<Utf8, ConversionError>)
        ensures
            match converted {
                Ok(line) => bytes@.as_text() == Ok::<Utf8View, ConversionError>(line@),
                Err(error) => bytes@.as_text() == Err::<Utf8View, ConversionError>(error),
            },
            converted matches Ok(line) ==> line.wf(),
    {
        let cursor_pos = bytes.cursor_pos;
        let len = bytes.text.len();
        let text = match into_string(bytes.text) {
            Ok(text) => text,
            Err(_) => {
                return Err(ConversionError::InvalidText);
            },
        };
        proof {
            encode_utf8_valid_utf8(text@);
            encode_utf8_decode_utf8(text@);
        }
        let starts = str_grapheme_starts(text.as_str());
        if cursor_pos == len {
            let cursor_pos_grapheme = starts.len();
            return Ok(Utf8 { text, cursor_pos_grapheme });
        }
        match cluster_starting_at(&starts, cursor_pos) {
            Some(cursor_pos_grapheme) => {
                assert(forall|i: int|
                    first_starting_at(starts@, cursor_pos as int, i) ==> i
                        == cursor_pos_grapheme);
                Ok(Utf8 { text, cursor_pos_grapheme })
            },
            None => Err(ConversionError::MisalignedCursor { cursor_pos, len }),
        }
    }
}

/// Cluster number `i` of the text `bytes`, cut at `starts`, is a cursor mark
/// and nothing else.
pub open spec fn lone_mark(bytes: Seq<u8>, starts: Seq<usize>, i: int) -> bool {
    &&& 0 <= i < starts.len()
    &&& bytes[starts[i] as int] == CURSOR_MARK
    &&& cluster_end(starts, bytes.len(), i) == starts[i] + 1
}

/// Cluster number `i` of `text` is a cursor mark and nothing else.
pub open spec fn mark_cluster(text: Seq<char>, i: int) -> bool {
    lone_mark(encode_utf8(text), clusters(text), i)
}

/// Exactly one cluster of `text` is a cursor mark and nothing else.
pub open spec fn one_mark_cluster(text: Seq<char>) -> bool {
    exists|i: int| #[trigger]
        mark_cluster(text, i) && forall|j: int| #[trigger] mark_cluster(text, j) ==> j == i
}

/// The line that the marked string `text` stands for: the cursor stands at
/// the cluster that is a cursor mark, and the text is what is left without
/// that cluster.
pub open spec fn unmarked_text(text: Seq<char>) -> Utf8View {
    let at = choose|i: int| mark_cluster(text, i);
    Utf8View {
        text: decode_utf8(encode_utf8(text).remove(clusters(text)[at] as int)),
        cursor_pos_grapheme: at,
    }
}

impl Utf8View {
    /// The bytes of the text with a cursor mark put in where the cursor
    /// stands.
    pub open spec fn marked(self) -> Seq<u8> {
        encode_utf8(self.text).insert(self.cursor_byte_offset(), CURSOR_MARK)
    }
}

/// Whether cluster number `idx` is a cursor mark and nothing else.
fn is_lone_mark(bytes: &[u8], starts: &Vec<usize>, idx: usize) -> (yes: bool)
    requires
        idx < starts@.len(),
        cuts(starts@, bytes@.len()),
    ensures
        yes == lone_mark(bytes@, starts@, idx as int),
{
    let start = starts[idx];
    let count = starts.len();
    let end = if idx + 1 < count {
        starts[idx + 1]
    } else {
        bytes.len()
    };
    assert(start < bytes.len());
    bytes[start] == CURSOR_MARK && end == start + 1
}

/// The number of the first cluster from `from` on that is a cursor mark and
/// nothing else.
fn next_lone_mark(bytes: &[u8], starts: &Vec<usize>, from: usize) -> (found: Option<usize>)
    requires
        cuts(starts@, bytes@.len()),
    ensures
        match found {
            Some(at) => from <= at && lone_mark(bytes@, starts@, at as int) && forall|j: int|
                from <= j < at ==> !lone_mark(bytes@, starts@, j),
            None => forall|j: int| from <= j ==> !lone_mark(bytes@, starts@, j),
        },
{
    let mut idx: usize = from;
    while idx < starts.len()
        invariant
            from <= idx,
            cuts(starts@, bytes@.len()),
            forall|j: int| from <= j < idx ==> !lone_mark(bytes@, starts@, j),
        decreases starts@.len() - idx,
    {
        if is_lone_mark(bytes, starts, idx) {
            return Some(idx);
        }
        idx += 1;
    }
    None
}

impl Utf8 {
    /// Reads the line that the marked string `lit` stands for, if exactly
    /// one of its grapheme clusters is a cursor mark.
    pub fn from_marked(lit: &str) -> (line: Option<Utf8>)
        ensures
            match line {
                Some(line) => one_mark_cluster(lit@) && line@ == unmarked_text(lit@),
                None => !one_mark_cluster(lit@),
            },
    {
        let starts = str_grapheme_starts(lit);
        let bytes = lit.as_bytes();
        let first = match next_lone_mark(bytes, &starts, 0) {
            Some(first) => first,
            None => {
                return None;
            },
        };
        assert(first < starts.len());
        assert(mark_cluster(lit@, first as int));
        match next_lone_mark(bytes, &starts, first + 1) {
            Some(second) => {
                assert(mark_cluster(lit@, second as int));
                None
            },
            None => {
                assert(forall|j: int| mark_cluster(lit@, j) ==> j == first);
                Some(str_repr(lit))
            },
        }
    }
}

impl ToStrRepr for Utf8 {
    /// Every text line has a marked string.
    open spec fn has_repr(&self) -> bool {
        true
    }

    /// The text with `|` in front of the cluster that the cursor stands at,
    /// or at the end of the text for a cursor behind the last cluster.
    open spec fn repr(&self) -> Seq<char> {
        decode_utf8(self@.marked())
    }

    fn to_str_repr(&self) -> (repr: String) {
        let text = self.text.as_str();
        let starts = str_grapheme_starts(text);
        let offset = if self.cursor_pos_grapheme < starts.len() {
            starts[self.cursor_pos_grapheme]
        } else {
            text.as_bytes().len()
        };
        proof {
            encode_utf8_valid_utf8(text@);
            is_char_boundary_start_end_of_seq(encode_utf8(text@));
        }
        let (before, after) = text.split_at(offset);
        let mut repr = String::from_str(before);
        repr.append("|");
        repr.append(after);
        proof {
            reveal_strlit("|");
            assert("|"@ =~= seq!['|']);
            lemma_encode_ascii('|');
            lemma_encode_utf8_concat(before@ + "|"@, after@);
            lemma_encode_utf8_concat(before@, "|"@);
            assert(encode_utf8(repr@) =~= self@.marked());
            encode_utf8_decode_utf8(repr@);
        }
        repr
    }
}

impl<'a> StrRepr<&'a str> for Utf8 {
    /// A marked string holds exactly one cluster that is a cursor mark and
    /// nothing else.
    open spec fn is_marked(lit: &'a str) -> bool {
        one_mark_cluster(lit@)
    }

    open spec fn marked_line(lit: &'a str) -> Utf8View {
        unmarked_text(lit@)
    }

    fn str_repr(lit: &'a str) -> (line: Utf8) {
        let starts = str_grapheme_starts(lit);
        let bytes = lit.as_bytes();
        let at = match next_lone_mark(bytes, &starts, 0) {
            Some(at) => at,
            None => vstd::pervasive::unreached(),
        };
        let offset = starts[at];
        proof {
            assert(offset < bytes.len());
            assert(mark_cluster(lit@, at as int));
            assert(forall|i: int| mark_cluster(lit@, i) ==> i == at);
            encode_utf8_valid_utf8(lit@);
            is_char_boundary_start_end_of_seq(encode_utf8(lit@));
        }
        let (before, _) = lit.split_at(offset);
        let (_, after) = lit.split_at(offset + 1);
        let mut text = String::from_str(before);
        text.append(after);
        proof {
            lemma_encode_utf8_concat(before@, after@);
            assert(encode_utf8(text@) =~= encode_utf8(lit@).remove(offset as int));
            encode_utf8_decode_utf8(text@);
        }
        Utf8 { text, cursor_pos_grapheme: at }
    }
}

impl From<Utf8> for Bytes {
    /// The same line, byte-indexed.
    fn from(value: Utf8) -> (bytes: Bytes)
        ensures
            bytes@ == value@.as_bytes(),
            bytes.wf(),
    {
        value.to_bytes()
    }
}

/// What `from` returns is stated by its own `ensures`, over views: lines with
/// the same view need not be the same value.
impl vstd::std_specs::convert::FromSpecImpl<Utf8> for Bytes {
    open spec fn obeys_from_spec() -> bool {
        false
    }

    open spec fn from_spec(value: Utf8) -> Bytes {
        choose|bytes: Bytes| bytes@ == value@.as_bytes()
    }
}

impl TryFrom<Bytes> for Utf8 {
    type Error = ConversionError;

    /// The same line as text.
    fn try_from(bytes: Bytes) -> (converted: Result<Utf8, ConversionError>)
        ensures
            match converted {
                Ok(line) => bytes@.as_text() == Ok::<Utf8View, ConversionError>(line@),
                Err(error) => bytes@.as_text() == Err::<Utf8View, ConversionError>(error),
            },
            converted matches Ok(line) ==> line.wf(),
    {
        Utf8::from_bytes(bytes)
    }
}

/// What `try_from` returns is stated by its own `ensures`, over views.
impl vstd::std_specs::convert::TryFromSpecImpl<Bytes> for Utf8 {
    open spec fn obeys_try_from_spec() -> bool {
        false
    }

    open spec fn try_from_spec(bytes: Bytes) -> Result<Utf8, ConversionError> {
        match bytes@.as_text() {
            Ok(line) => Ok(choose|text: Utf8| text@ == line),
            Err(error) => Err(error),
        }
    }
}

} // verus!
