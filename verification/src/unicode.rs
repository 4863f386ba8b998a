//! What outside code knows of Unicode: where the extended grapheme clusters
//! of a text start, and how bytes turn into text.
//!
//! Where clusters start takes the Unicode tables to say, so the segmenter's
//! answer has a name here, and only what holds of every answer is stated:
//! the clusters cut the text into consecutive pieces.
use vstd::prelude::*;
use vstd::utf8::*;

verus! {

#[verifier::external_type_specification]
#[verifier::external_body]
pub struct ExFromUtf8Error(bstr::FromUtf8Error);

/// The byte offsets at which the extended grapheme clusters of `text` start,
/// in order, as `unicode_segmentation` reports them.
pub uninterp spec fn str_cluster_starts(text: Seq<char>) -> Seq<usize>;

/// The text that lossy decoding makes of bytes that are no UTF-8, with
/// U+FFFD in place of what cannot be decoded.
pub uninterp spec fn replaced_text(bytes: Seq<u8>) -> Seq<char>;

/// The offsets `starts` cut a text of `len` bytes into consecutive pieces,
/// none of them empty: they begin at 0, rise strictly and stay below `len`.
pub open spec fn cuts(starts: Seq<usize>, len: nat) -> bool {
    &&& len > 0 ==> starts.len() > 0 && starts[0] == 0
    &&& forall|i: int| 0 <= i < starts.len() ==> (#[trigger] starts[i]) < len
    &&& forall|i: int, j: int| 0 <= i < j < starts.len() ==> starts[i] < starts[j]
}

/// Every offset of `starts` lies between two characters of the UTF-8 text
/// `bytes`.
pub open spec fn on_char_boundaries(starts: Seq<usize>, bytes: Seq<u8>) -> bool {
    forall|i: int| 0 <= i < starts.len() ==> is_char_boundary(bytes, (#[trigger] starts[i]) as int)
}

/// A text of `len` bytes as one cluster.
pub open spec fn sole_cluster(len: nat) -> Seq<usize> {
    if len > 0 {
        seq![0usize]
    } else {
        Seq::empty()
    }
}

/// Where the extended grapheme clusters of `text` start: what the segmenter
/// reports. Every report cuts the text between characters; were
/// one not to, the text would count as a single cluster, so that the
/// clusters of any text cut it.
pub open spec fn clusters(text: Seq<char>) -> Seq<usize> {
    let reported = str_cluster_starts(text);
    let bytes = encode_utf8(text);
    if cuts(reported, bytes.len()) && on_char_boundaries(reported, bytes) {
        reported
    } else {
        sole_cluster(bytes.len())
    }
}

/// Where cluster number `i` ends: where the next one starts, or at the end
/// of the text.
pub open spec fn cluster_end(starts: Seq<usize>, len: nat, i: int) -> int {
    if i + 1 < starts.len() {
        starts[i + 1] as int
    } else {
        len as int
    }
}

/// The text that lossy decoding makes of `bytes`: UTF-8 is decoded as it
/// stands.
pub open spec fn lossy_text(bytes: Seq<u8>) -> Seq<char> {
    if valid_utf8(bytes) {
        decode_utf8(bytes)
    } else {
        replaced_text(bytes)
    }
}

/// The clusters of any text cut it between characters.
pub proof fn lemma_clusters_cut(text: Seq<char>)
    ensures
        cuts(clusters(text), encode_utf8(text).len()),
        on_char_boundaries(clusters(text), encode_utf8(text)),
{
    encode_utf8_valid_utf8(text);
}

/// The encoding of a text is the encoding of its parts, one after the other.
pub proof fn lemma_encode_utf8_concat(front: Seq<char>, back: Seq<char>)
    ensures
        encode_utf8(front + back) == encode_utf8(front) + encode_utf8(back),
    decreases front.len(),
{
    if front.len() == 0 {
        assert(front + back =~= back);
        assert(encode_utf8(front) + encode_utf8(back) =~= encode_utf8(back));
    } else {
        lemma_encode_utf8_concat(front.drop_first(), back);
        assert((front + back).drop_first() =~= front.drop_first() + back);
        assert((front + back)[0] == front[0]);
        assert(encode_utf8(front + back) =~= encode_utf8(front) + encode_utf8(back));
    }
}

/// An ASCII character is encoded as the one byte of its number.
pub proof fn lemma_encode_ascii(c: char)
    requires
        c <= '\u{7f}',
    ensures
        encode_utf8(seq![c]) == seq![c as u8],
{
    let chars = seq![c];
    assert(is_ascii_chars(chars));
    is_ascii_chars_encode_utf8(chars);
    assert(encode_utf8(chars) =~= seq![c as u8]);
}

/// `unicode_segmentation::UnicodeSegmentation::grapheme_indices`, extended
/// clusters, of which only the offsets are kept. The iterator hands out
/// consecutive, non-empty string slices that cover the text from its start:
/// so the offsets cut the text, and each lies between two characters.
#[verifier::external_body]
pub(crate) fn str_grapheme_starts(text: &str) -> (starts: Vec<usize>)
    ensures
        starts@ == str_cluster_starts(text@),
        cuts(starts@, encode_utf8(text@).len()),
        on_char_boundaries(starts@, encode_utf8(text@)),
{
    unicode_segmentation::UnicodeSegmentation::grapheme_indices(text, true).map(
        |(start, _)| start,
    ).collect()
}

/// The conversion of a `bstr::BString` into a `String`, which succeeds on
/// UTF-8 and on nothing else, and keeps the bytes.
#[verifier::external_body]
pub(crate) fn into_string(bytes: Vec<u8>) -> (converted: Result<String, bstr::FromUtf8Error>)
    ensures
        match converted {
            Ok(text) => encode_utf8(text@) == bytes@,
            Err(_) => !valid_utf8(bytes@),
        },
{
    String::try_from(bstr::BString::from(bytes))
}

/// `String::from_utf8_lossy`, made an owned `String`. UTF-8 is decoded as it
/// stands; of other bytes the result has a name only.
#[verifier::external_body]
pub(crate) fn decode_lossy(bytes: &[u8]) -> (text: String)
    ensures
        text@ == if valid_utf8(bytes@) {
            decode_utf8(bytes@)
        } else {
            replaced_text(bytes@)
        },
{
    String::from_utf8_lossy(bytes).into_owned()
}

} // verus!
