//! The rewriter: locate the quoted string at the cursor, then turn it into
//! an interpolated string.
use crate::ascii::{CLOSE_PAREN, DOLLAR, DOUBLE_QUOTE, OPEN_PAREN};
use crate::cmd_line::bytes::{Bytes, BytesView};
use crate::interpolate::{dwim_double_quote, dwim_single_quote, Quote};
use crate::locate::{locate, Located, LocateError, NodeKinds};
use crate::syntax::{grammar_kinds, id_for_node_kind, kind_id_in};
use vstd::prelude::*;

verus! {

/// The name of a node kind that the grammar does not know.
#[derive(Clone, Copy, PartialEq, Eq, Debug)]
pub enum UnknownNodeKind {
    /// `val_string`, the kind of string literals.
    String,
    /// `ERROR`, the kind of regions that could not be parsed.
    Error,
}

/// What an empty line is rewritten to: an empty interpolated double-quoted
/// string, `$"()"`, with the cursor inside its hole.
pub open spec fn empty_interpolation() -> BytesView {
    BytesView {
        text: seq![DOLLAR, DOUBLE_QUOTE, OPEN_PAREN, CLOSE_PAREN, DOUBLE_QUOTE],
        cursor_pos: 3,
    }
}

impl BytesView {
    /// The line after the rewrite that `located` calls for. Where no quoted
    /// string was found the line stays as it is.
    pub open spec fn rewritten(self, located: Located) -> BytesView {
        match located {
            Located::EmptyLine => empty_interpolation(),
            Located::Quoted(target) => self.interpolated(
                target.start as int,
                target.end as int,
                target.quote,
            ),
            Located::NoMatch => self,
        }
    }
}

/// The kinds with the given ids, where 0 stands for a name that the grammar
/// does not know; the string kind is looked at first.
pub open spec fn kinds_of_ids(string_id: u16, error_id: u16) -> Result<NodeKinds, UnknownNodeKind> {
    if string_id == 0 {
        Err(UnknownNodeKind::String)
    } else if error_id == 0 {
        Err(UnknownNodeKind::Error)
    } else {
        Ok(NodeKinds { string: string_id, error: error_id })
    }
}

/// The kinds with the given ids. The grammar answers 0 for a name that it
/// does not know; the string kind is looked at first.
pub fn node_kinds_from_ids(string_id: u16, error_id: u16) -> (kinds: Result<
    NodeKinds,
    UnknownNodeKind,
>)
    ensures
        kinds == kinds_of_ids(string_id, error_id),
{
    if string_id == 0 {
        Err(UnknownNodeKind::String)
    } else if error_id == 0 {
        Err(UnknownNodeKind::Error)
    } else {
        Ok(NodeKinds { string: string_id, error: error_id })
    }
}

/// Looks up, once and ahead of any rewrite, the ids that `language` gives to
/// the named node kinds `val_string` and `ERROR`. The lookup fails on a
/// grammar that does not know one of the two names, and on no other.
pub fn resolve_node_kinds(language: &tree_sitter::Language) -> (kinds: Result<
    NodeKinds,
    UnknownNodeKind,
>)
    ensures
        kinds == kinds_of_ids(
            kind_id_in(grammar_kinds(*language), "val_string"@, true),
            kind_id_in(grammar_kinds(*language), "ERROR"@, true),
        ),
        kinds matches Ok(known) ==> known.string != 0 && known.error != 0,
{
    let string_id = id_for_node_kind(language, "val_string", true);
    let error_id = id_for_node_kind(language, "ERROR", true);
    node_kinds_from_ids(string_id, error_id)
}

fn empty_interpolation_bytes() -> (line: Bytes)
    ensures
        line@ == empty_interpolation(),
        line.wf(),
{
    let mut text: Vec<u8> = Vec::new();
    text.push(DOLLAR);
    text.push(DOUBLE_QUOTE);
    text.push(OPEN_PAREN);
    text.push(CLOSE_PAREN);
    text.push(DOUBLE_QUOTE);
    assert(text@ =~= empty_interpolation().text);
    Bytes { text, cursor_pos: 3 }
}

/// Rewrites `input` as `located` calls for. Where the locator found no
/// quoted string, `input` comes back unchanged.
pub fn rewrite(input: Bytes, located: &Located) -> (output: Bytes)
    requires
        input.wf(),
        located.fits(input@.text),
    ensures
        output@ == input@.rewritten(*located),
        located is NoMatch ==> output@ == input@,
        output.wf(),
{
    match located {
        Located::EmptyLine => empty_interpolation_bytes(),
        Located::Quoted(target) => match target.quote {
            Quote::Single => dwim_single_quote(input, target.start..target.end),
            Quote::Double => dwim_double_quote(input, target.start..target.end),
        },
        Located::NoMatch => input,
    }
}

/// Rewrites the quoted string at the cursor of `input` into an interpolated
/// string with an empty hole at the cursor.
///
/// An empty line becomes an empty interpolated string. Any other line is
/// rewritten as the locator's answer calls for: the string that it found is
/// interpolated, and a line in which it found none comes back unchanged.
/// Where the locator fails, so does the rewrite, with the same error. No
/// error leaves a line half rewritten: the line is either returned in full
/// or not at all.
pub fn dwim_interpolate_cli(
    input: Bytes,
    language: &tree_sitter::Language,
    kinds: &NodeKinds,
) -> (result: Result<Bytes, LocateError>)
    requires
        input.wf(),
    ensures
        match input@.located(*language, *kinds) {
            Ok(located) => result matches Ok(output) && output@ == input@.rewritten(located),
            Err(error) => result == Err::<Bytes, LocateError>(error),
        },
        input@.text.len() == 0 ==> (result matches Ok(output) && output@ == empty_interpolation()),
        input@.located(*language, *kinds) == Ok::<Located, LocateError>(Located::NoMatch) ==> (
        result matches Ok(output) && output@ == input@),
        result matches Ok(output) ==> output.wf(),
{
    match locate(&input, language, kinds) {
        Ok(located) => Ok(rewrite(input, &located)),
        Err(error) => Err(error),
    }
}

} // verus!
