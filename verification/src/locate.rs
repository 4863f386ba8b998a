//! Finding the quoted string that the cursor stands in, from what the syntax
//! oracle says of the node under the cursor and of its ancestors.
use crate::ascii::{DOUBLE_QUOTE, SINGLE_QUOTE};
use crate::cmd_line::bytes::{Bytes, BytesView};
use crate::interpolate::Quote;
use crate::syntax::{
    ancestors_of, describe, grammar_fits, has_tree, named_descendant_at, named_path_at, new_parser,
    node_path, parse_text, root_node, set_language, SyntaxNode,
};
use vstd::prelude::*;

verus! {

/// The kind ids under which the grammar files string literals and regions
/// that it could not parse.
#[derive(Clone, Copy, PartialEq, Eq, Debug)]
pub struct NodeKinds {
    pub string: u16,
    pub error: u16,
}

/// The bytes of a quoted string, and the quote that opens it.
#[derive(Clone, Copy, PartialEq, Eq, Debug)]
pub struct TargetRange {
    pub start: usize,
    pub end: usize,
    pub quote: Quote,
}

/// What the locator found at the cursor.
#[derive(Clone, Copy, PartialEq, Eq, Debug)]
pub enum Located {
    /// The line is empty: there is no string yet, and a new one is due.
    EmptyLine,
    /// The cursor stands in, or at the edge of, this quoted string.
    Quoted(TargetRange),
    /// The cursor stands in no quoted string.
    NoMatch,
}

/// Why the locator could not answer.
#[derive(Clone, Copy, PartialEq, Eq, Debug)]
pub enum LocateError {
    /// The parser refused the grammar.
    IncompatibleGrammar,
    /// The parser produced no tree.
    ParseFailure,
    /// The tree holds no node at the byte offset `pos`.
    NoTargetFound { pos: usize },
}

/// The quote that opens `node`, if its first byte is one. A node whose
/// extent does not lie within the text has no first byte.
pub open spec fn opening_quote(text: Seq<u8>, node: SyntaxNode) -> Option<Quote> {
    if node.start_byte <= node.end_byte <= text.len() && node.start_byte < text.len() {
        if text[node.start_byte as int] == SINGLE_QUOTE {
            Some(Quote::Single)
        } else if text[node.start_byte as int] == DOUBLE_QUOTE {
            Some(Quote::Double)
        } else {
            None
        }
    } else {
        None
    }
}

/// The first node of `path` that is of kind `kind`.
pub open spec fn first_of_kind(path: Seq<SyntaxNode>, kind: u16) -> Option<SyntaxNode>
    decreases path.len(),
{
    if path.len() == 0 {
        None
    } else if path[0].kind_id == kind {
        Some(path[0])
    } else {
        first_of_kind(path.drop_first(), kind)
    }
}

/// The extent of `node` as the string that `quote` opens.
pub open spec fn target_of(node: SyntaxNode, quote: Quote) -> TargetRange {
    TargetRange { start: node.start_byte, end: node.end_byte, quote }
}

/// What the innermost node at the cursor and its ancestors, nearest first,
/// say of the cursor's surroundings.
///
/// A string literal, or an unparsed region, that opens with a quote is the
/// target. Failing that, the nearest unparsed region among the node and its
/// ancestors is, provided that it runs to the end of the text and opens with
/// a quote: a string that is still being typed.
pub open spec fn classified(
    text: Seq<u8>,
    kinds: NodeKinds,
    node: SyntaxNode,
    ancestors: Seq<SyntaxNode>,
) -> Located {
    if (node.kind_id == kinds.string || node.kind_id == kinds.error) && opening_quote(text, node)
        is Some {
        Located::Quoted(target_of(node, opening_quote(text, node).unwrap()))
    } else {
        match first_of_kind(seq![node] + ancestors, kinds.error) {
            Some(region) => if region.end_byte == text.len() && opening_quote(text, region)
                is Some {
                Located::Quoted(target_of(region, opening_quote(text, region).unwrap()))
            } else {
                Located::NoMatch
            },
            None => Located::NoMatch,
        }
    }
}

impl Located {
    /// Whether this can be the locator's answer for `text`: only an empty
    /// text is an empty line, and a quoted string lies within the text.
    pub open spec fn fits(self, text: Seq<u8>) -> bool {
        match self {
            Located::EmptyLine => text.len() == 0,
            Located::Quoted(target) => target.start <= target.end <= text.len(),
            Located::NoMatch => true,
        }
    }
}

/// What the parser for `language` says of the byte at `pos` of `text`, and
/// what that says of the cursor's surroundings.
///
/// The parser has to take the grammar and to make a tree of the text, and
/// the tree has to hold a named node at `pos`; the innermost such node and
/// its ancestors are then classified.
pub open spec fn located_by(
    language: tree_sitter::Language,
    text: Seq<u8>,
    kinds: NodeKinds,
    pos: usize,
) -> Result<Located, LocateError> {
    if !grammar_fits(language) {
        Err(LocateError::IncompatibleGrammar)
    } else if !has_tree(language, text) {
        Err(LocateError::ParseFailure)
    } else {
        match named_path_at(language, text, pos) {
            None => Err(LocateError::NoTargetFound { pos }),
            Some(path) => Ok(classified(text, kinds, path[0], path.skip(1))),
        }
    }
}

impl BytesView {
    /// The byte offset at which the syntax tree is asked: the cursor, or the
    /// last byte when the cursor stands at the end of the text.
    pub open spec fn effective_cursor_pos(self) -> int {
        if self.cursor_pos == self.text.len() {
            self.cursor_pos - 1
        } else {
            self.cursor_pos
        }
    }

    /// Where the cursor of this line stands, by the parser for `language`.
    /// An empty line is an empty line whatever the parser would say; any
    /// other line is asked about at the effective cursor position.
    pub open spec fn located(self, language: tree_sitter::Language, kinds: NodeKinds) -> Result<
        Located,
        LocateError,
    > {
        if self.text.len() == 0 {
            Ok(Located::EmptyLine)
        } else {
            located_by(language, self.text, kinds, self.effective_cursor_pos() as usize)
        }
    }
}

/// The quote that opens `node`, if its first byte is one.
pub fn quote_at(text: &[u8], node: &SyntaxNode) -> (quote: Option<Quote>)
    ensures
        quote == opening_quote(text@, *node),
{
    if node.start_byte <= node.end_byte && node.end_byte <= text.len() && node.start_byte
        < text.len() {
        let first = text[node.start_byte];
        if first == SINGLE_QUOTE {
            Some(Quote::Single)
        } else if first == DOUBLE_QUOTE {
            Some(Quote::Double)
        } else {
            None
        }
    } else {
        None
    }
}

/// The nearest node of kind `kind` among `node` and its `ancestors`, which
/// come nearest first.
pub fn parent_with_kind(node: &SyntaxNode, ancestors: &[SyntaxNode], kind: u16) -> (found: Option<
    SyntaxNode,
>)
    ensures
        found == first_of_kind(seq![*node] + ancestors@, kind),
{
    let ghost path = seq![*node] + ancestors@;
    assert(path[0] == *node);
    if node.kind_id == kind {
        return Some(*node);
    }
    assert(path.drop_first() =~= ancestors@);
    assert(ancestors@.skip(0) =~= ancestors@);
    let mut idx: usize = 0;
    while idx < ancestors.len()
        invariant
            idx <= ancestors@.len(),
            path == seq![*node] + ancestors@,
            first_of_kind(path, kind) == first_of_kind(ancestors@.skip(idx as int), kind),
        decreases ancestors@.len() - idx,
    {
        assert(ancestors@.skip(idx as int)[0] == ancestors@[idx as int]);
        assert(ancestors@.skip(idx as int).drop_first() =~= ancestors@.skip(idx + 1));
        if ancestors[idx].kind_id == kind {
            return Some(ancestors[idx]);
        }
        idx += 1;
    }
    assert(ancestors@.skip(idx as int).len() == 0);
    None
}

/// Decides what the innermost node at the cursor and its ancestors, nearest
/// first, say of the cursor's surroundings.
pub fn classify(text: &[u8], kinds: &NodeKinds, node: &SyntaxNode, ancestors: &[SyntaxNode]) -> (located:
    Located)
    ensures
        located == classified(text@, *kinds, *node, ancestors@),
        located.fits(text@),
        located !is EmptyLine,
{
    if node.kind_id == kinds.string || node.kind_id == kinds.error {
        if let Some(quote) = quote_at(text, node) {
            return Located::Quoted(
                TargetRange { start: node.start_byte, end: node.end_byte, quote },
            );
        }
    }
    if let Some(region) = parent_with_kind(node, ancestors, kinds.error) {
        if region.end_byte == text.len() {
            if let Some(quote) = quote_at(text, &region) {
                return Located::Quoted(
                    TargetRange { start: region.start_byte, end: region.end_byte, quote },
                );
            }
        }
    }
    Located::NoMatch
}

/// Asks the syntax oracle where the cursor of `line` stands.
///
/// An empty line is answered without the oracle. For any other line a fresh
/// parser for `language` parses the text, and the answer is what [`classify`]
/// makes of the innermost named node at the effective cursor position and of
/// its ancestors. The call fails where the parser refuses the grammar, makes
/// no tree, or has no node at that position.
pub fn locate(line: &Bytes, language: &tree_sitter::Language, kinds: &NodeKinds) -> (outcome:
    Result<Located, LocateError>)
    requires
        line.wf(),
    ensures
        outcome == line@.located(*language, *kinds),
        line@.text.len() == 0 ==> outcome == Ok::<Located, LocateError>(Located::EmptyLine),
        line@.text.len() > 0 ==> outcome == located_by(
            *language,
            line@.text,
            *kinds,
            line@.effective_cursor_pos() as usize,
        ),
        outcome matches Ok(located) ==> located.fits(line@.text),
{
    if line.text.len() == 0 {
        return Ok(Located::EmptyLine);
    }
    let mut parser = new_parser();
    if set_language(&mut parser, language).is_err() {
        return Err(LocateError::IncompatibleGrammar);
    }
    let tree = match parse_text(&mut parser, line.text.as_slice()) {
        Some(tree) => tree,
        None => {
            return Err(LocateError::ParseFailure);
        },
    };
    let effective_cursor_pos = if line.cursor_pos == line.text.len() {
        line.cursor_pos - 1
    } else {
        line.cursor_pos
    };
    let root = root_node(&tree);
    let innermost = match named_descendant_at(&root, effective_cursor_pos) {
        Some(innermost) => innermost,
        None => {
            return Err(LocateError::NoTargetFound { pos: effective_cursor_pos });
        },
    };
    let node = describe(&innermost);
    let ancestors = ancestors_of(&innermost);
    assert(ancestors@ == node_path(innermost).skip(1));
    Ok(classify(line.text.as_slice(), kinds, &node, ancestors.as_slice()))
}

} // verus!
