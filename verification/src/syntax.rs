//! The syntax oracle: a tree-sitter parser for the grammar that the caller
//! supplies. Nothing is known here of the grammar, so what the parser makes
//! of a text is not written out. It depends on the grammar and the text
//! alone, though, for a parser on which nothing but a grammar was set: so
//! each of the parser's answers has a name, and the rest of the crate
//! reasons on the plain values that the answers are copied into.
use std::ops::Range;
use vstd::prelude::*;

verus! {

#[verifier::external_type_specification]
#[verifier::external_body]
pub struct ExLanguage(tree_sitter::Language);

#[verifier::external_type_specification]
#[verifier::external_body]
pub struct ExLanguageError(tree_sitter::LanguageError);

#[verifier::external_type_specification]
#[verifier::external_body]
pub struct ExParser(tree_sitter::Parser);

#[verifier::external_type_specification]
#[verifier::external_body]
pub struct ExTree(tree_sitter::Tree);

#[verifier::external_type_specification]
#[verifier::external_body]
pub struct ExNode<'tree>(tree_sitter::Node<'tree>);

/// What the rewriter reads of one node of the syntax tree.
#[derive(Clone, Copy, PartialEq, Eq, Debug)]
pub struct SyntaxNode {
    pub kind_id: u16,
    pub start_byte: usize,
    pub end_byte: usize,
}

/// The ids that a lookup in `language` finds for node kinds, by the name of
/// the kind and by whether the kind is a named one. A name for which the
/// lookup finds no kind has no id.
pub uninterp spec fn grammar_kinds(language: tree_sitter::Language) -> Map<(Seq<char>, bool), u16>;

/// What `node` and its ancestors say of themselves: the kind and the extent
/// of the node itself, then those of its parent, and so on up to the root of
/// the tree.
pub uninterp spec fn node_path(node: tree_sitter::Node) -> Seq<SyntaxNode>;

/// The path begins with a node of the kind `kind_id`.
pub open spec fn begins_with_kind(path: Seq<SyntaxNode>, kind_id: u16) -> bool {
    path.len() > 0 && path[0].kind_id == kind_id
}

/// The path begins with a node that occupies `extent`.
pub open spec fn begins_with_extent(path: Seq<SyntaxNode>, extent: Range<usize>) -> bool {
    path.len() > 0 && path[0].start_byte == extent.start && path[0].end_byte == extent.end
}

/// The id under which `kinds` files the kind called `name`, and 0 where it
/// files none.
pub open spec fn kind_id_in(kinds: Map<(Seq<char>, bool), u16>, name: Seq<char>, named: bool) -> u16 {
    if kinds.dom().contains((name, named)) {
        kinds[(name, named)]
    } else {
        0
    }
}

/// The grammar that `parser` parses by, if one was set on it.
pub uninterp spec fn parser_grammar(parser: tree_sitter::Parser) -> Option<tree_sitter::Language>;

/// Nothing but a grammar was ever set on `parser`: no timeout, no
/// cancellation flag, no ranges to keep to. What such a parser makes of a
/// text depends on its grammar and on the text alone.
pub uninterp spec fn parser_plain(parser: tree_sitter::Parser) -> bool;

/// A parser takes `language`: the version of its tables is one that the
/// parser reads.
pub uninterp spec fn grammar_fits(language: tree_sitter::Language) -> bool;

/// A plain parser that parses by `language` makes a tree of `text`.
pub uninterp spec fn has_tree(language: tree_sitter::Language, text: Seq<u8>) -> bool;

/// The grammar and the text that `tree` was made of.
pub uninterp spec fn tree_source(tree: tree_sitter::Tree) -> (tree_sitter::Language, Seq<u8>);

/// The grammar and the text that the tree of `node` was made of.
pub uninterp spec fn node_source(node: tree_sitter::Node) -> (tree_sitter::Language, Seq<u8>);

/// `node` is the root of its tree.
pub uninterp spec fn is_root(node: tree_sitter::Node) -> bool;

/// The path of the innermost named node that spans the byte at `pos`, in the
/// tree that a plain parser makes of `text` by `language`; none where the
/// tree holds no such node.
pub uninterp spec fn named_path_at(
    language: tree_sitter::Language,
    text: Seq<u8>,
    pos: usize,
) -> Option<Seq<SyntaxNode>>;

/// `tree_sitter::Parser::new`, which makes a parser without a grammar, a
/// timeout, a cancellation flag or ranges to keep to.
#[verifier::external_body]
pub(crate) fn new_parser() -> (parser: tree_sitter::Parser)
    ensures
        parser_grammar(parser) is None,
        parser_plain(parser),
{
    tree_sitter::Parser::new()
}

/// `tree_sitter::Parser::set_language`, which refuses a grammar by the
/// version of its tables and by nothing else, and sets no more than the
/// grammar. (Grammars compiled to WebAssembly, which a parser can refuse for
/// more, are not read without the crate's `wasm` feature.)
#[verifier::external_body]
pub(crate) fn set_language(
    parser: &mut tree_sitter::Parser,
    language: &tree_sitter::Language,
) -> (outcome: Result<(), tree_sitter::LanguageError>)
    ensures
        outcome is Ok <==> grammar_fits(*language),
        outcome is Ok ==> parser_grammar(*final(parser)) == Some(*language),
        parser_plain(*final(parser)) == parser_plain(*old(parser)),
{
    parser.set_language(language)
}

/// `tree_sitter::Parser::parse`, from scratch. Whether a plain parser makes a
/// tree depends on its grammar and the text alone; nothing is claimed of
/// when it does, nor of what the tree holds.
#[verifier::external_body]
pub(crate) fn parse_text(parser: &mut tree_sitter::Parser, text: &[u8]) -> (tree: Option<
    tree_sitter::Tree,
>)
    ensures
        parser_plain(*old(parser)) ==> match (parser_grammar(*old(parser)), tree) {
            (Some(language), Some(made)) => has_tree(language, text@) && tree_source(made) == (
                language,
                text@,
            ),
            (Some(language), None) => !has_tree(language, text@),
            (None, _) => true,
        },
{
    parser.parse(text, None)
}

/// `tree_sitter::Tree::root_node`: the root of the tree, which comes of what
/// the tree was made of.
#[verifier::external_body]
pub(crate) fn root_node<'tree>(tree: &'tree tree_sitter::Tree) -> (root: tree_sitter::Node<
    'tree,
>)
    ensures
        is_root(root),
        node_source(root) == tree_source(*tree),
{
    tree.root_node()
}

/// `tree_sitter::Node::named_descendant_for_byte_range`, for the one byte at
/// `pos`. Asked of a root, it finds the innermost named node of the tree at
/// that byte. Nothing is claimed of which node that is, nor that there is
/// one.
#[verifier::external_body]
pub(crate) fn named_descendant_at<'tree>(
    node: &tree_sitter::Node<'tree>,
    pos: usize,
) -> (found: Option<tree_sitter::Node<'tree>>)
    ensures
        is_root(*node) ==> match found {
            Some(innermost) => named_path_at(node_source(*node).0, node_source(*node).1, pos)
                == Some(node_path(innermost)),
            None => named_path_at(node_source(*node).0, node_source(*node).1, pos) is None,
        },
{
    node.named_descendant_for_byte_range(pos, pos)
}

/// `tree_sitter::Node::parent`, which finds the parent by walking down from
/// the root of the tree. The root has none; the path of any other node goes
/// on with the path of its parent. Nothing is claimed of what the path holds.
#[verifier::external_body]
pub(crate) fn parent_node<'tree>(node: &tree_sitter::Node<'tree>) -> (parent: Option<
    tree_sitter::Node<'tree>,
>)
    ensures
        match parent {
            Some(above) => node_path(*node).len() > 1 && node_path(above) == node_path(
                *node,
            ).skip(1),
            None => node_path(*node).len() == 1,
        },
{
    node.parent()
}

/// `tree_sitter::Node::kind_id`: the kind that the node's path begins with.
/// Nothing is claimed of the number.
#[verifier::external_body]
pub(crate) fn node_kind_id(node: &tree_sitter::Node) -> (kind_id: u16)
    ensures
        begins_with_kind(node_path(*node), kind_id),
{
    node.kind_id()
}

/// `tree_sitter::Node::byte_range`: the extent that the node's path begins
/// with. Nothing is claimed of the range: not that it lies within the text,
/// nor that its start comes before its end.
#[verifier::external_body]
pub(crate) fn node_byte_range(node: &tree_sitter::Node) -> (range: Range<usize>)
    ensures
        begins_with_extent(node_path(*node), range),
{
    node.byte_range()
}

/// `tree_sitter::Language::id_for_node_kind`, which looks the name up among
/// the kinds of the grammar and answers 0 for a name that is not there.
/// Nothing is claimed of which names a grammar knows.
#[verifier::external_body]
pub(crate) fn id_for_node_kind(language: &tree_sitter::Language, kind: &str, named: bool) -> (id:
    u16)
    ensures
        id == kind_id_in(grammar_kinds(*language), kind@, named),
{
    language.id_for_node_kind(kind, named)
}

/// Copies what the rewriter reads of `node`: its kind and its extent.
pub(crate) fn describe(node: &tree_sitter::Node) -> (described: SyntaxNode)
    ensures
        node_path(*node).len() > 0,
        described == node_path(*node)[0],
{
    let range = node_byte_range(node);
    SyntaxNode { kind_id: node_kind_id(node), start_byte: range.start, end_byte: range.end }
}

/// The ancestors of `node`, nearest first and up to the root: its path
/// without the node itself.
pub(crate) fn ancestors_of<'tree>(node: &tree_sitter::Node<'tree>) -> (ancestors: Vec<SyntaxNode>)
    ensures
        ancestors@ == node_path(*node).skip(1),
{
    let mut ancestors: Vec<SyntaxNode> = Vec::new();
    let mut current = parent_node(node);
    proof {
        if current is None {
            assert(node_path(*node).skip(1) =~= Seq::<SyntaxNode>::empty());
        }
    }
    while current.is_some()
        invariant
            match current {
                Some(above) => node_path(above).len() > 0 && ancestors@ + node_path(above)
                    == node_path(*node).skip(1),
                None => ancestors@ == node_path(*node).skip(1),
            },
        decreases
                (match current {
                    Some(above) => node_path(above).len(),
                    None => 0,
                }),
    {
        let above = current.unwrap();
        let ghost collected = ancestors@;
        ancestors.push(describe(&above));
        current = parent_node(&above);
        proof {
            let rest = node_path(above).skip(1);
            assert(node_path(above) =~= seq![node_path(above)[0]] + rest);
            assert(ancestors@ + rest =~= collected + node_path(above));
            if current is None {
                assert(rest =~= Seq::<SyntaxNode>::empty());
                assert(ancestors@ =~= collected + node_path(above));
            }
        }
    }
    ancestors
}

} // verus!
