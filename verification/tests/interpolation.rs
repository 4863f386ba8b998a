use yfnutool::cmd_line::{str_repr, Bytes};
use yfnutool::escape::{double_to_double_interpolate, single_to_double};
use yfnutool::interpolate::{dwim_double_quote, dwim_single_quote, Quote};
use yfnutool::locate::{classify, parent_with_kind, quote_at, Located, NodeKinds, TargetRange};
use yfnutool::rewrite::{node_kinds_from_ids, rewrite, UnknownNodeKind};
use yfnutool::syntax::SyntaxNode;

const STRING: u16 = 7;
const ERROR: u16 = 65535;
const OTHER: u16 = 3;

fn kinds() -> NodeKinds {
    NodeKinds {
        string: STRING,
        error: ERROR,
    }
}

fn marked(lit: &str) -> Bytes {
    str_repr::<&str, Bytes>(lit)
}

fn node(kind_id: u16, start_byte: usize, end_byte: usize) -> SyntaxNode {
    SyntaxNode {
        kind_id,
        start_byte,
        end_byte,
    }
}

/// Rewrites `before` as if the parser had reported `innermost` at the cursor,
/// below `ancestors`.
fn interpolate(before: &str, innermost: SyntaxNode, ancestors: &[SyntaxNode]) -> Bytes {
    let line = marked(before);
    let located = classify(&line.text, &kinds(), &innermost, ancestors);
    rewrite(line, &located)
}

#[test]
fn single_quote_simple() {
    assert_eq!(
        interpolate("'|'", node(STRING, 0, 2), &[node(OTHER, 0, 2)]),
        marked("$'(|)'")
    );
}

#[test]
fn single_quote_cursor_before_closing_quote() {
    assert_eq!(
        interpolate("foo 'ba|'", node(STRING, 4, 8), &[node(OTHER, 0, 8)]),
        marked("foo $'ba(|)'")
    );
}

#[test]
fn single_quote_later_in_cli() {
    assert_eq!(
        interpolate("foo 'ba| '", node(STRING, 4, 9), &[node(OTHER, 0, 9)]),
        marked("foo $'ba(|) '")
    );
}

#[test]
fn single_quote_escape_existing_paren() {
    assert_eq!(
        interpolate("'(ba| '", node(STRING, 0, 6), &[]),
        marked("$'('(')ba(|) '")
    );
}

#[test]
fn single_quote_just_started_string() {
    assert_eq!(
        interpolate("'|", node(ERROR, 0, 1), &[]),
        marked("$'(|)")
    );
}

#[test]
fn single_quote_escapes_every_paren_of_the_string() {
    assert_eq!(
        interpolate("'a(b(c|'", node(STRING, 0, 7), &[]),
        marked("$'a('(')b('(')c(|)'")
    );
}

#[test]
fn single_quote_leaves_parens_outside_the_string() {
    assert_eq!(
        interpolate("(x) 'a|' (y)", node(STRING, 4, 7), &[]),
        marked("(x) $'a(|)' (y)")
    );
}

#[test]
fn single_quote_paren_behind_the_cursor() {
    assert_eq!(
        interpolate("'a|(b'", node(STRING, 0, 5), &[]),
        marked("$'a(|)('(')b'")
    );
}

#[test]
fn double_quote_simple() {
    assert_eq!(
        interpolate("\"|\"", node(STRING, 0, 2), &[]),
        marked("$\"(|)\"")
    );
}

#[test]
fn double_quote_later_in_cli() {
    assert_eq!(
        interpolate("foo \"ba| \"", node(STRING, 4, 9), &[]),
        marked("foo $\"ba(|) \"")
    );
}

#[test]
fn double_quote_escape_existing_paren() {
    assert_eq!(
        interpolate("\"(ba| \"", node(STRING, 0, 6), &[]),
        marked("$\"\\(ba(|) \"")
    );
}

#[test]
fn double_quote_just_started_string() {
    assert_eq!(
        interpolate("\"|", node(ERROR, 0, 1), &[]),
        marked("$\"(|)")
    );
}

#[test]
fn double_quote_second_unfinished_double_quote_string() {
    assert_eq!(
        interpolate(
            "foo \"🍳\" \"hello () | ",
            node(OTHER, 18, 20),
            &[node(ERROR, 11, 22), node(OTHER, 0, 22)]
        ),
        marked("foo \"🍳\" $\"hello \\() (|) ")
    );
}

#[test]
fn double_quote_keeps_escaped_paren() {
    assert_eq!(
        interpolate("\"a\\(b(|\"", node(STRING, 0, 7), &[]),
        marked("$\"a\\(b\\((|)\"")
    );
}

#[test]
fn double_quote_escaped_backslash_does_not_escape() {
    assert_eq!(
        interpolate("\"\\\\(|\"", node(STRING, 0, 5), &[]),
        marked("$\"\\\\\\((|)\"")
    );
}

#[test]
fn empty_line_becomes_empty_interpolation() {
    let line = marked("|");
    assert_eq!(rewrite(line, &Located::EmptyLine), marked("$\"(|)\""));
}

#[test]
fn no_match_leaves_the_line_unchanged() {
    let line = marked("foo 'ba|r' (baz)");
    assert_eq!(rewrite(line.clone(), &Located::NoMatch), line);
}

#[test]
fn no_match_for_other_kinds() {
    let line = marked("foo b|ar");
    let located = classify(&line.text, &kinds(), &node(OTHER, 4, 7), &[node(OTHER, 0, 7)]);
    assert_eq!(located, Located::NoMatch);
    assert_eq!(rewrite(line.clone(), &located), line);
}

#[test]
fn classify_string_kind_with_quote() {
    let line = marked("x 'a|'");
    assert_eq!(
        classify(&line.text, &kinds(), &node(STRING, 2, 5), &[]),
        Located::Quoted(TargetRange {
            start: 2,
            end: 5,
            quote: Quote::Single
        })
    );
}

#[test]
fn classify_string_kind_without_quote_is_no_match() {
    let line = marked("x r#'a|'#");
    assert_eq!(
        classify(&line.text, &kinds(), &node(STRING, 2, 8), &[node(OTHER, 0, 8)]),
        Located::NoMatch
    );
}

#[test]
fn classify_recovers_trailing_error_region() {
    let line = marked("a \"b c|");
    assert_eq!(
        classify(
            &line.text,
            &kinds(),
            &node(OTHER, 5, 6),
            &[node(OTHER, 3, 6), node(ERROR, 2, 6), node(OTHER, 0, 6)]
        ),
        Located::Quoted(TargetRange {
            start: 2,
            end: 6,
            quote: Quote::Double
        })
    );
}

#[test]
fn classify_ignores_error_region_that_ends_early() {
    let line = marked("a \"b| c");
    assert_eq!(
        classify(&line.text, &kinds(), &node(OTHER, 3, 4), &[node(ERROR, 2, 4)]),
        Located::NoMatch
    );
}

#[test]
fn classify_takes_only_the_nearest_error_region() {
    let line = marked("\"a b|");
    assert_eq!(
        classify(
            &line.text,
            &kinds(),
            &node(OTHER, 3, 4),
            &[node(ERROR, 1, 4), node(ERROR, 0, 4)]
        ),
        Located::NoMatch
    );
}

#[test]
fn classify_node_outside_the_text_is_no_match() {
    let line = marked("'a|'");
    assert_eq!(
        classify(&line.text, &kinds(), &node(STRING, 0, 9), &[]),
        Located::NoMatch
    );
    assert_eq!(
        classify(&line.text, &kinds(), &node(STRING, 3, 3), &[]),
        Located::NoMatch
    );
}

#[test]
fn quote_at_reads_the_first_byte() {
    let text = b"'a' \"b\" c";
    assert_eq!(quote_at(text, &node(STRING, 0, 3)), Some(Quote::Single));
    assert_eq!(quote_at(text, &node(STRING, 4, 7)), Some(Quote::Double));
    assert_eq!(quote_at(text, &node(STRING, 8, 9)), None);
    assert_eq!(quote_at(text, &node(STRING, 9, 9)), None);
    assert_eq!(quote_at(text, &node(STRING, 2, 1)), None);
}

#[test]
fn parent_with_kind_finds_the_nearest() {
    let ancestors = [node(OTHER, 1, 5), node(ERROR, 1, 6), node(ERROR, 0, 7)];
    assert_eq!(
        parent_with_kind(&node(OTHER, 2, 3), &ancestors, ERROR),
        Some(node(ERROR, 1, 6))
    );
    assert_eq!(
        parent_with_kind(&node(ERROR, 2, 3), &ancestors, ERROR),
        Some(node(ERROR, 2, 3))
    );
    assert_eq!(parent_with_kind(&node(OTHER, 2, 3), &ancestors, STRING), None);
    assert_eq!(parent_with_kind(&node(OTHER, 2, 3), &[], ERROR), None);
}

#[test]
fn dwim_single_quote_with_cursor_outside_the_string() {
    assert_eq!(
        dwim_single_quote(marked("|a '('"), 2..5),
        marked("(|)a $'('(')'")
    );
    assert_eq!(
        dwim_single_quote(marked("a '(' b|"), 2..5),
        marked("a $'('(')' b(|)")
    );
}

#[test]
fn dwim_double_quote_with_cursor_outside_the_string() {
    assert_eq!(
        dwim_double_quote(marked("|a \"(\""), 2..5),
        marked("(|)a $\"\\(\"")
    );
    assert_eq!(
        dwim_double_quote(marked("a \"(\" b|"), 2..5),
        marked("a $\"\\(\" b(|)")
    );
}

#[test]
fn dwim_double_quote_trailing_backslash() {
    assert_eq!(
        dwim_double_quote(marked("\"a\\|"), 0..3),
        marked("$\"a\\(|)")
    );
}

#[test]
fn double_to_double_interpolate_escapes_parens() {
    assert_eq!(
        double_to_double_interpolate(marked("a(b|) c"), 0..3),
        marked("a\\(b|) c")
    );
    assert_eq!(
        double_to_double_interpolate(marked("|a(b"), 0..3),
        marked("|a\\(b")
    );
}

#[test]
fn double_to_double_interpolate_stops_at_the_end_offset() {
    assert_eq!(
        double_to_double_interpolate(marked("((|"), 0..2),
        marked("\\((|")
    );
}

#[test]
fn single_to_double_escapes_double_quotes() {
    assert_eq!(
        single_to_double(marked("'a\"b|' \"c\""), 0..5),
        marked("'a\\\"b|' \"c\"")
    );
    assert_eq!(single_to_double(marked("a\"|"), 1..1), marked("a\"|"));
}

#[test]
fn node_kinds_need_both_ids() {
    assert_eq!(
        node_kinds_from_ids(7, 65535),
        Ok(NodeKinds {
            string: 7,
            error: 65535
        })
    );
    assert_eq!(node_kinds_from_ids(0, 65535), Err(UnknownNodeKind::String));
    assert_eq!(node_kinds_from_ids(7, 0), Err(UnknownNodeKind::Error));
    assert_eq!(node_kinds_from_ids(0, 0), Err(UnknownNodeKind::String));
}
