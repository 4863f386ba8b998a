//! Command lines with a cursor, as raw bytes and as text, and their marked
//! strings: the text of a line with `|` where the cursor stands.
pub mod bytes;
pub mod utf8;

pub use bytes::{Bytes, BytesView};
pub use utf8::{ConversionError, Utf8, Utf8View};

use vstd::prelude::*;

verus! {

/// A command line that can be written as a marked string.
pub trait ToStrRepr {
    /// Whether this line has a marked string.
    spec fn has_repr(&self) -> bool;

    /// The marked string of this line.
    spec fn repr(&self) -> Seq<char>;

    /// Writes the line with `|` at the cursor.
    fn to_str_repr(&self) -> (repr: String)
        requires
            self.has_repr(),
        ensures
            repr@ == self.repr(),
    ;
}

/// A command line that can be read from a marked string held in a `Src`.
pub trait StrRepr<Src>: ToStrRepr + View + Sized {
    /// Whether `lit` marks a cursor in the way that lines of this type read
    /// it.
    spec fn is_marked(lit: Src) -> bool;

    /// The line that `lit` stands for.
    spec fn marked_line(lit: Src) -> Self::V;

    /// Reads the line that `lit` stands for.
    fn str_repr(lit: Src) -> (line: Self)
        requires
            Self::is_marked(lit),
        ensures
            line@ == Self::marked_line(lit),
    ;
}

/// Reads the line that the marked string `lit` stands for.
pub fn str_repr<Src, Cli: StrRepr<Src>>(lit: Src) -> (line: Cli)
    requires
        Cli::is_marked(lit),
    ensures
        line@ == Cli::marked_line(lit),
{
    Cli::str_repr(lit)
}

} // verus!
