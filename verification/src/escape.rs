//! Backslash escaping for text that moves into a double-quoted string.
use crate::ascii::{BACKSLASH, DOUBLE_QUOTE, OPEN_PAREN};
use crate::cmd_line::bytes::{Bytes, BytesView};
use std::ops::Range;
use vstd::prelude::*;

verus! {

impl BytesView {
    /// The line after a scan from offset `idx` up to offset `end` that puts
    /// a backslash before every `target` byte it meets, and steps over both.
    /// The scan stops at the offset `end` of the growing line, so that what
    /// the backslashes push behind `end` is not read.
    pub open spec fn backslashed(self, idx: int, end: int, target: u8) -> BytesView
        decreases
                (if idx < end {
                    end - idx
                } else {
                    0
                }),
    {
        if idx >= end || idx < 0 || idx >= self.text.len() {
            self
        } else if self.text[idx] == target {
            self.inserted(idx, BACKSLASH, true).backslashed(idx + 2, end, target)
        } else {
            self.backslashed(idx + 1, end, target)
        }
    }
}

/// Scans `cmd_line` over `range` and puts a backslash before every `target`
/// byte that the scan meets.
fn backslash_before(cmd_line: Bytes, range: Range<usize>, target: u8) -> (escaped: Bytes)
    requires
        cmd_line.wf(),
        range.end <= cmd_line.text@.len(),
    ensures
        escaped@ == cmd_line@.backslashed(range.start as int, range.end as int, target),
        escaped.wf(),
{
    let ghost orig = cmd_line@;
    let mut cmd_line = cmd_line;
    let mut idx: usize = range.start;
    while idx < range.end
        invariant
            cmd_line.wf(),
            range.end <= cmd_line.text@.len(),
            cmd_line@.backslashed(idx as int, range.end as int, target) == orig.backslashed(
                range.start as int,
                range.end as int,
                target,
            ),
        decreases
                (if idx < range.end {
                    range.end - idx
                } else {
                    0
                }),
    {
        if cmd_line.text[idx] == target {
            cmd_line.insert_push_cursor(idx, BACKSLASH);
            assert(idx < cmd_line.text.len());
            idx += 1;
        }
        idx += 1;
    }
    cmd_line
}

/// Escapes the `(` of double-quoted content for a double-quoted
/// interpolated string: the scan over `range` puts a backslash before each.
pub fn double_to_double_interpolate(cmd_line: Bytes, range: Range<usize>) -> (escaped: Bytes)
    requires
        cmd_line.wf(),
        range.end <= cmd_line.text@.len(),
    ensures
        escaped@ == cmd_line@.backslashed(range.start as int, range.end as int, OPEN_PAREN),
        escaped.wf(),
{
    backslash_before(cmd_line, range, OPEN_PAREN)
}

/// Escapes the `"` of single-quoted content for a double-quoted string: the
/// scan over `range` puts a backslash before each.
pub fn single_to_double(cmd_line: Bytes, range: Range<usize>) -> (escaped: Bytes)
    requires
        cmd_line.wf(),
        range.end <= cmd_line.text@.len(),
    ensures
        escaped@ == cmd_line@.backslashed(range.start as int, range.end as int, DOUBLE_QUOTE),
        escaped.wf(),
{
    backslash_before(cmd_line, range, DOUBLE_QUOTE)
}

} // verus!
