use yfnutool::cmd_line::{str_repr, Bytes};
use yfnutool::interpolate::Quote;
use yfnutool::locate::{locate, Located, NodeKinds, TargetRange};
use yfnutool::rewrite::{dwim_interpolate_cli, resolve_node_kinds, UnknownNodeKind};

// These tests drive the parser with the JSON grammar, whose strings are
// double-quoted and of the kind `string`.

fn json() -> tree_sitter::Language {
    tree_sitter_json::LANGUAGE.into()
}

fn json_kinds(language: &tree_sitter::Language) -> NodeKinds {
    NodeKinds {
        string: language.id_for_node_kind("string", true),
        error: language.id_for_node_kind("ERROR", true),
    }
}

fn marked(lit: &str) -> Bytes {
    str_repr::<&str, Bytes>(lit)
}

fn rewritten(before: &str) -> Bytes {
    let language = json();
    let kinds = json_kinds(&language);
    dwim_interpolate_cli(marked(before), &language, &kinds).unwrap()
}

#[test]
fn resolve_node_kinds_fails_on_a_grammar_without_the_kinds() {
    assert_eq!(resolve_node_kinds(&json()), Err(UnknownNodeKind::String));
}

#[test]
fn locate_answers_an_empty_line_itself() {
    let language = json();
    let kinds = json_kinds(&language);
    assert_eq!(locate(&marked("|"), &language, &kinds), Ok(Located::EmptyLine));
}

#[test]
fn locate_finds_the_string_at_the_cursor() {
    let language = json();
    let kinds = json_kinds(&language);
    assert_eq!(
        locate(&marked("[\"(x\", \"|\"]"), &language, &kinds),
        Ok(Located::Quoted(TargetRange {
            start: 7,
            end: 9,
            quote: Quote::Double
        }))
    );
}

#[test]
fn locate_walks_up_to_the_enclosing_region() {
    // With the kind of strings in the place of the kind of unparsed regions,
    // the string is found from its content, one step up the tree.
    let language = json();
    let kinds = NodeKinds {
        string: language.id_for_node_kind("number", true),
        error: language.id_for_node_kind("string", true),
    };
    assert_eq!(
        locate(&marked("\"a|b\""), &language, &kinds),
        Ok(Located::Quoted(TargetRange {
            start: 0,
            end: 4,
            quote: Quote::Double
        }))
    );
    assert_eq!(
        locate(&marked("[\"a|b\"]"), &language, &kinds),
        Ok(Located::NoMatch)
    );
}

#[test]
fn locate_finds_no_string_in_a_number() {
    let language = json();
    let kinds = json_kinds(&language);
    assert_eq!(locate(&marked("12|3"), &language, &kinds), Ok(Located::NoMatch));
}

#[test]
fn oracle_empty_string() {
    assert_eq!(rewritten("|"), marked("$\"(|)\""));
}

#[test]
fn oracle_simple() {
    assert_eq!(rewritten("\"|\""), marked("$\"(|)\""));
}

#[test]
fn oracle_just_started_string() {
    assert_eq!(rewritten("\"|"), marked("$\"(|)"));
}

#[test]
fn oracle_escapes_existing_paren() {
    assert_eq!(rewritten("[\"(|\"]"), marked("[$\"\\((|)\"]"));
}

#[test]
fn oracle_keeps_escaped_paren() {
    assert_eq!(rewritten("\"a\\(b(|\""), marked("$\"a\\(b\\((|)\""));
}

#[test]
fn oracle_no_match_leaves_the_line_unchanged() {
    assert_eq!(rewritten("12|3"), marked("12|3"));
    assert_eq!(rewritten("tr|ue"), marked("tr|ue"));
}
