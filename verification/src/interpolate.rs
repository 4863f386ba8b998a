//! Rewriting a quoted string in place into an interpolated one: parentheses
//! that were literal stay literal, and an empty hole opens at the cursor.
use crate::ascii::{BACKSLASH, CLOSE_PAREN, DOLLAR, OPEN_PAREN, SINGLE_QUOTE};
use crate::cmd_line::bytes::{Bytes, BytesView};
use std::ops::Range;
use vstd::prelude::*;

verus! {

/// The two quote styles that can be rewritten.
#[derive(Clone, Copy, PartialEq, Eq, Debug)]
pub enum Quote {
    Single,
    Double,
}

/// What stands for a literal `(` inside an interpolated single-quoted
/// string: a hole that evaluates to the one-character string, `('(')`.
pub open spec fn single_quote_paren() -> Seq<u8> {
    seq![OPEN_PAREN, SINGLE_QUOTE, OPEN_PAREN, SINGLE_QUOTE, CLOSE_PAREN]
}

/// What stands for a literal `(` inside an interpolated double-quoted
/// string: `\(`.
pub open spec fn double_quote_paren() -> Seq<u8> {
    seq![BACKSLASH, OPEN_PAREN]
}

/// Single-quoted content with every `(` made literal. Single quotes know no
/// escape character, so every `(` is one.
pub open spec fn escaped_single(content: Seq<u8>) -> Seq<u8>
    decreases content.len(),
{
    if content.len() == 0 {
        Seq::empty()
    } else {
        escaped_single(content.drop_last()) + if content.last() == OPEN_PAREN {
            single_quote_paren()
        } else {
            seq![content.last()]
        }
    }
}

/// Whether double-quoted content ends in a backslash that escapes what
/// follows it, that is, in one that is not itself escaped.
pub open spec fn ends_escaping(content: Seq<u8>) -> bool
    decreases content.len(),
{
    content.len() > 0 && content.last() == BACKSLASH && !ends_escaping(content.drop_last())
}

/// Double-quoted content with every `(` made literal that is not escaped
/// already.
pub open spec fn escaped_double(content: Seq<u8>) -> Seq<u8>
    decreases content.len(),
{
    if content.len() == 0 {
        Seq::empty()
    } else {
        escaped_double(content.drop_last()) + if content.last() == OPEN_PAREN && !ends_escaping(
            content.drop_last(),
        ) {
            double_quote_paren()
        } else {
            seq![content.last()]
        }
    }
}

/// Quoted content with its parentheses made literal, by the rules of its quote style.
pub open spec fn escaped(quote: Quote, content: Seq<u8>) -> Seq<u8> {
    match quote {
        Quote::Single => escaped_single(content),
        Quote::Double => escaped_double(content),
    }
}

impl BytesView {
    /// The line with the parentheses between `start` and `end` made literal.
    /// A cursor inside the span stays behind the image of what it stood
    /// behind; a cursor behind the span keeps its distance to the end of the
    /// text.
    pub open spec fn with_escaped_span(self, start: int, end: int, quote: Quote) -> BytesView {
        BytesView {
            text: self.text.subrange(0, start) + escaped(quote, self.text.subrange(start, end))
                + self.text.subrange(end, self.text.len() as int),
            cursor_pos: if self.cursor_pos <= start {
                self.cursor_pos
            } else {
                let inside = if self.cursor_pos < end {
                    self.cursor_pos
                } else {
                    end
                };
                start + escaped(quote, self.text.subrange(start, inside)).len() + (self.cursor_pos
                    - inside)
            },
        }
    }

    /// The line with `$` put before the quote at `start` and an empty hole
    /// `()` opened at the cursor, which ends up inside the hole.
    pub open spec fn with_hole(self, start: int) -> BytesView {
        let sigil = self.inserted(start, DOLLAR, true);
        let opened = sigil.inserted(sigil.cursor_pos, OPEN_PAREN, true);
        opened.inserted(opened.cursor_pos, CLOSE_PAREN, false)
    }

    /// The line with the string literal between `start` and `end` turned
    /// into an interpolated string.
    pub open spec fn interpolated(self, start: int, end: int, quote: Quote) -> BytesView {
        self.with_escaped_span(start, end, quote).with_hole(start)
    }
}

/// The content read up to and including `src` is the content read before
/// `src`, followed by the byte at `src`.
proof fn lemma_read_one_more(text: Seq<u8>, start: int, src: int)
    requires
        0 <= start <= src < text.len(),
    ensures
        text.subrange(start, src + 1).drop_last() == text.subrange(start, src),
        text.subrange(start, src + 1).last() == text[src],
{
    assert(text.subrange(start, src + 1).drop_last() =~= text.subrange(start, src));
}

fn single_quote_paren_bytes() -> (bytes: Vec<u8>)
    ensures
        bytes@ == single_quote_paren(),
{
    let mut bytes: Vec<u8> = Vec::new();
    bytes.push(OPEN_PAREN);
    bytes.push(SINGLE_QUOTE);
    bytes.push(OPEN_PAREN);
    bytes.push(SINGLE_QUOTE);
    bytes.push(CLOSE_PAREN);
    assert(bytes@ =~= single_quote_paren());
    bytes
}

fn double_quote_paren_bytes() -> (bytes: Vec<u8>)
    ensures
        bytes@ == double_quote_paren(),
{
    let mut bytes: Vec<u8> = Vec::new();
    bytes.push(BACKSLASH);
    bytes.push(OPEN_PAREN);
    assert(bytes@ =~= double_quote_paren());
    bytes
}

/// Puts the sigil before the quote at `start` and opens the hole at the
/// cursor.
fn open_hole(line: &mut Bytes, start: usize)
    requires
        old(line).wf(),
        start <= old(line).text@.len(),
    ensures
        final(line)@ == old(line)@.with_hole(start as int),
        final(line).wf(),
{
    line.insert_push_cursor(start, DOLLAR);
    let at_cursor = line.cursor_pos;
    line.insert_push_cursor(at_cursor, OPEN_PAREN);
    let at_cursor = line.cursor_pos;
    line.insert_no_push_cursor(at_cursor, CLOSE_PAREN);
}

/// Turns the single-quoted string that occupies `existing_single_quote_range`
/// into an interpolated string with an empty hole at the cursor.
pub fn dwim_single_quote(input: Bytes, existing_single_quote_range: Range<usize>) -> (output: Bytes)
    requires
        input.wf(),
        existing_single_quote_range.start <= existing_single_quote_range.end
            <= input.text@.len(),
    ensures
        output@ == input@.interpolated(
            existing_single_quote_range.start as int,
            existing_single_quote_range.end as int,
            Quote::Single,
        ),
        output.wf(),
{
    let ghost orig = input@;
    let ghost start = existing_single_quote_range.start as int;
    let ghost stop = existing_single_quote_range.end as int;
    let mut input = input;
    let replacement = single_quote_paren_bytes();
    let mut idx: usize = existing_single_quote_range.start;
    let mut end: usize = existing_single_quote_range.end;
    let ghost mut src: int = start;
    proof {
        assert(orig.text.subrange(start, start) =~= Seq::<u8>::empty());
        assert(input@.text =~= orig.text.subrange(0, start) + escaped_single(
            orig.text.subrange(start, src),
        ) + orig.text.subrange(src, orig.text.len() as int));
    }
    while idx < end
        invariant
            input.wf(),
            replacement@ == single_quote_paren(),
            orig.wf(),
            0 <= start <= src <= stop <= orig.text.len(),
            start == existing_single_quote_range.start,
            idx == start + escaped_single(orig.text.subrange(start, src)).len(),
            end == idx + (stop - src),
            input@.text == orig.text.subrange(0, start) + escaped_single(
                orig.text.subrange(start, src),
            ) + orig.text.subrange(src, orig.text.len() as int),
            orig.cursor_pos <= start ==> input@.cursor_pos == orig.cursor_pos,
            start < orig.cursor_pos <= src ==> input@.cursor_pos == start + escaped_single(
                orig.text.subrange(start, orig.cursor_pos),
            ).len(),
            start < orig.cursor_pos && src < orig.cursor_pos ==> input@.cursor_pos == idx + (
            orig.cursor_pos - src),
            orig.cursor_pos <= src ==> input@.cursor_pos <= idx,
        decreases stop - src,
    {
        proof {
            lemma_read_one_more(orig.text, start, src);
        }
        let ghost before = input@;
        if input.text[idx] == OPEN_PAREN {
            input.overwrite_range(idx..idx + 1, replacement.as_slice());
            assert(input.text.len() == before.text.len() + 4);
            idx += 5;
            end += 4;
        } else {
            idx += 1;
        }
        proof {
            src = src + 1;
            assert(input@.text =~= orig.text.subrange(0, start) + escaped_single(
                orig.text.subrange(start, src),
            ) + orig.text.subrange(src, orig.text.len() as int));
        }
    }
    proof {
        assert(src == stop);
        assert(input@ == orig.with_escaped_span(start, stop, Quote::Single));
    }
    open_hole(&mut input, existing_single_quote_range.start);
    input
}

/// Turns the double-quoted string that occupies `existing_double_quote_range`
/// into an interpolated string with an empty hole at the cursor.
pub fn dwim_double_quote(input: Bytes, existing_double_quote_range: Range<usize>) -> (output: Bytes)
    requires
        input.wf(),
        existing_double_quote_range.start <= existing_double_quote_range.end
            <= input.text@.len(),
    ensures
        output@ == input@.interpolated(
            existing_double_quote_range.start as int,
            existing_double_quote_range.end as int,
            Quote::Double,
        ),
        output.wf(),
{
    let ghost orig = input@;
    let ghost start = existing_double_quote_range.start as int;
    let ghost stop = existing_double_quote_range.end as int;
    let mut input = input;
    let replacement = double_quote_paren_bytes();
    let mut idx: usize = existing_double_quote_range.start;
    let mut end: usize = existing_double_quote_range.end;
    let mut escaping = false;
    let ghost mut src: int = start;
    proof {
        assert(orig.text.subrange(start, start) =~= Seq::<u8>::empty());
        assert(input@.text =~= orig.text.subrange(0, start) + escaped_double(
            orig.text.subrange(start, src),
        ) + orig.text.subrange(src, orig.text.len() as int));
    }
    while idx < end
        invariant
            input.wf(),
            replacement@ == double_quote_paren(),
            orig.wf(),
            0 <= start <= src <= stop <= orig.text.len(),
            start == existing_double_quote_range.start,
            escaping == ends_escaping(orig.text.subrange(start, src)),
            idx == start + escaped_double(orig.text.subrange(start, src)).len(),
            end == idx + (stop - src),
            input@.text == orig.text.subrange(0, start) + escaped_double(
                orig.text.subrange(start, src),
            ) + orig.text.subrange(src, orig.text.len() as int),
            orig.cursor_pos <= start ==> input@.cursor_pos == orig.cursor_pos,
            start < orig.cursor_pos <= src ==> input@.cursor_pos == start + escaped_double(
                orig.text.subrange(start, orig.cursor_pos),
            ).len(),
            start < orig.cursor_pos && src < orig.cursor_pos ==> input@.cursor_pos == idx + (
            orig.cursor_pos - src),
            orig.cursor_pos <= src ==> input@.cursor_pos <= idx,
        decreases stop - src,
    {
        proof {
            lemma_read_one_more(orig.text, start, src);
        }
        let ghost before = input@;
        let byte = input.text[idx];
        if !escaping && byte == BACKSLASH {
            escaping = true;
            idx += 1;
        } else if !escaping && byte == OPEN_PAREN {
            input.overwrite_range(idx..idx + 1, replacement.as_slice());
            assert(input.text.len() == before.text.len() + 1);
            escaping = false;
            idx += 2;
            end += 1;
        } else {
            escaping = false;
            idx += 1;
        }
        proof {
            src = src + 1;
            assert(input@.text =~= orig.text.subrange(0, start) + escaped_double(
                orig.text.subrange(start, src),
            ) + orig.text.subrange(src, orig.text.len() as int));
        }
    }
    proof {
        assert(src == stop);
        assert(input@ == orig.with_escaped_span(start, stop, Quote::Double));
    }
    open_hole(&mut input, existing_double_quote_range.start);
    input
}

/// Escaping reads from left to right: what it makes of the first `k` bytes
/// of the content stands at the front of what it makes of all of it.
pub proof fn lemma_escaped_prefix(quote: Quote, content: Seq<u8>, k: int)
    requires
        0 <= k <= content.len(),
    ensures
        escaped(quote, content.subrange(0, k)).len() <= escaped(quote, content).len(),
        escaped(quote, content.subrange(0, k)) == escaped(quote, content).subrange(
            0,
            escaped(quote, content.subrange(0, k)).len() as int,
        ),
    decreases content.len(),
{
    if k == content.len() {
        assert(content.subrange(0, k) =~= content);
        assert(escaped(quote, content) =~= escaped(quote, content).subrange(
            0,
            escaped(quote, content).len() as int,
        ));
    } else {
        lemma_escaped_prefix(quote, content.drop_last(), k);
        assert(content.drop_last().subrange(0, k) =~= content.subrange(0, k));
        let front = escaped(quote, content.subrange(0, k));
        assert(front =~= escaped(quote, content).subrange(0, front.len() as int));
    }
}

/// The shape of the rewritten line for a cursor within the string: the sigil
/// stands before the string, the parentheses of the string are literal, and
/// the empty hole stands right behind what stood before the cursor, with the
/// cursor inside it.
pub proof fn lemma_interpolated_shape(line: BytesView, start: int, end: int, quote: Quote)
    requires
        line.wf(),
        0 <= start <= line.cursor_pos <= end <= line.text.len(),
    ensures
        ({
            let content = escaped(quote, line.text.subrange(start, end));
            let before = escaped(quote, line.text.subrange(start, line.cursor_pos)).len() as int;
            let rewritten = line.interpolated(start, end, quote);
            &&& before <= content.len()
            &&& rewritten.text == line.text.subrange(0, start) + seq![DOLLAR] + content.subrange(
                0,
                before,
            ) + seq![OPEN_PAREN, CLOSE_PAREN] + content.subrange(before, content.len() as int)
                + line.text.subrange(end, line.text.len() as int)
            &&& rewritten.cursor_pos == start + before + 2
        }),
{
    let span = line.text.subrange(start, end);
    let content = escaped(quote, span);
    let before = escaped(quote, line.text.subrange(start, line.cursor_pos)).len() as int;
    lemma_escaped_prefix(quote, span, line.cursor_pos - start);
    assert(span.subrange(0, line.cursor_pos - start) =~= line.text.subrange(
        start,
        line.cursor_pos,
    ));
    assert(line.text.subrange(start, start) =~= Seq::<u8>::empty());
    let escaped_line = line.with_escaped_span(start, end, quote);
    assert(escaped_line.cursor_pos == start + before);
    let rewritten = line.interpolated(start, end, quote);
    assert(rewritten.text =~= line.text.subrange(0, start) + seq![DOLLAR] + content.subrange(
        0,
        before,
    ) + seq![OPEN_PAREN, CLOSE_PAREN] + content.subrange(before, content.len() as int)
        + line.text.subrange(end, line.text.len() as int));
}

} // verus!
