//! The ASCII bytes that carry meaning on a command line.
use vstd::prelude::*;

verus! {

/// `|`, which stands for the cursor in a marked string.
pub const CURSOR_MARK: u8 = 0x7c;

/// `$`, the sigil that opens an interpolated string.
pub const DOLLAR: u8 = 0x24;

/// `(`, which opens an interpolation hole.
pub const OPEN_PAREN: u8 = 0x28;

/// `)`, which closes an interpolation hole.
pub const CLOSE_PAREN: u8 = 0x29;

/// `\`, the escape character of double-quoted strings.
pub const BACKSLASH: u8 = 0x5c;

/// `'`
pub const SINGLE_QUOTE: u8 = 0x27;

/// `"`
pub const DOUBLE_QUOTE: u8 = 0x22;

} // verus!
