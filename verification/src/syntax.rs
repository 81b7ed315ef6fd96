//! A syntax tree as plain values: what the walkers read of a parsed source.
use vstd::prelude::*;
use crate::text::{chars_of, is_str};

verus! {

/// A node of a syntax tree.
#[derive(Debug)]
pub struct SyntaxNode {
    /// The kind of the node, as the grammar names it.
    pub kind: String,
    /// The name of the field under which the parent holds the node, where it has one.
    pub field: Option<String>,
    /// The source text that the node spans.
    pub text: String,
    /// The children of the node, in order, tokens included.
    pub children: Vec<SyntaxNode>,
}

/// What a `SyntaxNode` holds, as sequences.
pub struct SyntaxTree {
    pub kind: Seq<char>,
    pub field: Option<Seq<char>>,
    pub text: Seq<char>,
    pub children: Seq<SyntaxTree>,
}

/// The views of the children of `node` from child `from` on.
pub open spec fn child_views(node: SyntaxNode, from: int) -> Seq<SyntaxTree>
    decreases node, 0nat, node.children@.len() - from,
{
    if 0 <= from < node.children@.len() {
        seq![tree_of(node.children@[from])] + child_views(node, from + 1)
    } else {
        seq![]
    }
}

/// The view of `node`.
pub open spec fn tree_of(node: SyntaxNode) -> SyntaxTree
    decreases node, 1nat, 0nat,
{
    SyntaxTree {
        kind: node.kind@,
        field: match node.field {
            Some(f) => Some(f@),
            None => None,
        },
        text: node.text@,
        children: child_views(node, 0),
    }
}

impl View for SyntaxNode {
    type V = SyntaxTree;

    open spec fn view(&self) -> SyntaxTree {
        tree_of(*self)
    }
}

/// Whether the children of the view are the views of the children.
pub open spec fn children_agree(node: SyntaxNode) -> bool {
    &&& node@.children.len() == node.children@.len()
    &&& forall|i: int|
        0 <= i < node.children@.len() ==> #[trigger] node@.children[i] == node.children@[i]@
}

/// The children of the view are the views of the children.
pub proof fn lemma_children(node: SyntaxNode)
    ensures
        children_agree(node),
{
    lemma_child_views(node, 0);
}

proof fn lemma_child_views(node: SyntaxNode, from: int)
    requires
        0 <= from <= node.children@.len(),
    ensures
        child_views(node, from).len() == node.children@.len() - from,
        forall|i: int|
            0 <= i < node.children@.len() - from ==> #[trigger] child_views(node, from)[i]
                == node.children@[from + i]@,
    decreases node.children@.len() - from,
{
    if from < node.children@.len() {
        lemma_child_views(node, from + 1);
        assert forall|i: int| 0 <= i < node.children@.len() - from implies #[trigger] child_views(
            node,
            from,
        )[i] == node.children@[from + i]@ by {
            if i > 0 {
                assert(child_views(node, from)[i] == child_views(node, from + 1)[i - 1]);
            }
        }
    }
}

/// The position of the first of `children` that stands under the field `name`, at or
/// after `from`.
pub open spec fn field_index_from(children: Seq<SyntaxTree>, name: Seq<char>, from: int) -> Option<
    int,
>
    decreases children.len() - from,
{
    if from < 0 || from >= children.len() {
        None
    } else if children[from].field == Some(name) {
        Some(from)
    } else {
        field_index_from(children, name, from + 1)
    }
}

/// The position of the first of `children` that stands under the field `name`.
pub open spec fn field_index(children: Seq<SyntaxTree>, name: Seq<char>) -> Option<int> {
    field_index_from(children, name, 0)
}

/// A child that is found lies among the children.
pub proof fn lemma_field_index(children: Seq<SyntaxTree>, name: Seq<char>, from: int)
    requires
        0 <= from,
    ensures
        field_index_from(children, name, from) matches Some(i) ==> from <= i < children.len(),
    decreases children.len() - from,
{
    if from < children.len() {
        lemma_field_index(children, name, from + 1);
    }
}

impl SyntaxNode {
    /// Whether the node is of the kind `kind`.
    pub fn is_kind(&self, kind: &str) -> (b: bool)
        ensures
            b == (self@.kind == kind@),
    {
        is_str(&chars_of(self.kind.as_str()), kind)
    }

    /// The position of the first child under the field `name`.
    pub fn child_by_field_name(&self, name: &str) -> (r: Option<usize>)
        ensures
            match r {
                Some(i) => field_index(self@.children, name@) == Some(i as int) && i
                    < self.children.len(),
                None => field_index(self@.children, name@) is None,
            },
    {
        let mut i: usize = 0;
        proof {
            lemma_children(*self);
        }
        while i < self.children.len()
            invariant
                i <= self.children.len(),
                children_agree(*self),
                field_index(self@.children, name@) == field_index_from(
                    self@.children,
                    name@,
                    i as int,
                ),
            decreases self.children.len() - i,
        {
            let found = match &self.children[i].field {
                Some(f) => is_str(&chars_of(f.as_str()), name),
                None => false,
            };
            assert(self@.children[i as int].field == match self.children@[i as int].field {
                Some(f) => Some(f@),
                None => None,
            });
            if found {
                return Some(i);
            }
            i += 1;
        }
        None
    }
}

/// The grammars that sources are parsed with.
#[derive(Debug, Clone, Copy, PartialEq, Eq)]
pub enum Grammar {
    Go,
    Python,
    Tsx,
    Zig,
}

/// A node of a tree of the parser. The library copies what it reads of it into a
/// `SyntaxNode`.
#[verifier::external_type_specification]
#[verifier::external_body]
pub struct ExNode<'tree>(tree_sitter::Node<'tree>);

/// The view of the tree in `r`, where there is one.
pub open spec fn tree_view(r: Option<SyntaxNode>) -> Option<SyntaxTree> {
    match r {
        Some(node) => Some(node@),
        None => None,
    }
}

/// The syntax tree that the parser builds of `source` with `grammar`, where it builds one.
pub uninterp spec fn syntax_tree(grammar: Grammar, source: Seq<char>) -> Option<SyntaxTree>;

/// Copies the tree below `node`: kind, field name and text of each node, the children in
/// order. It walks the children with a `tree_sitter::TreeCursor` and reads
/// `Node::kind`, `TreeCursor::field_name` and `Node::byte_range`. Nothing is claimed of
/// the copy here; the parsing functions name their result as a whole.
#[verifier::external_body]
fn copy_tree(node: tree_sitter::Node, field: Option<String>, source: &[u8]) -> SyntaxNode {
    let mut cursor = node.walk();
    let mut children = Vec::new();
    if cursor.goto_first_child() {
        loop {
            let name = cursor.field_name().map(String::from);
            children.push(copy_tree(cursor.node(), name, source));
            if !cursor.goto_next_sibling() {
                break;
            }
        }
    }
    let text = String::from_utf8_lossy(&source[node.byte_range()]).into_owned();
    SyntaxNode { kind: node.kind().to_string(), field, text, children }
}

/// `tree_sitter::Parser::parse` with `tree_sitter_go::LANGUAGE` set: the tree of the
/// source, copied, or `None` where the language cannot be set or the parser gives no
/// tree. The result depends on the source alone.
#[verifier::external_body]
fn parse_go(source: &str) -> (r: Option<SyntaxNode>)
    ensures
        tree_view(r) == syntax_tree(Grammar::Go, source@),
{
    let mut parser = tree_sitter::Parser::new();
    parser.set_language(&tree_sitter_go::LANGUAGE.into()).ok()?;
    let tree = parser.parse(source, None)?;
    Some(copy_tree(tree.root_node(), None, source.as_bytes()))
}

/// `tree_sitter::Parser::parse` with `tree_sitter_python::LANGUAGE` set: the tree of the
/// source, copied, or `None` where the language cannot be set or the parser gives no
/// tree. The result depends on the source alone.
#[verifier::external_body]
fn parse_python(source: &str) -> (r: Option<SyntaxNode>)
    ensures
        tree_view(r) == syntax_tree(Grammar::Python, source@),
{
    let mut parser = tree_sitter::Parser::new();
    parser.set_language(&tree_sitter_python::LANGUAGE.into()).ok()?;
    let tree = parser.parse(source, None)?;
    Some(copy_tree(tree.root_node(), None, source.as_bytes()))
}

/// `tree_sitter::Parser::parse` with `tree_sitter_typescript::LANGUAGE_TSX` set: the tree
/// of the source, copied, or `None` where the language cannot be set or the parser gives
/// no tree. The result depends on the source alone.
#[verifier::external_body]
fn parse_tsx(source: &str) -> (r: Option<SyntaxNode>)
    ensures
        tree_view(r) == syntax_tree(Grammar::Tsx, source@),
{
    let mut parser = tree_sitter::Parser::new();
    parser.set_language(&tree_sitter_typescript::LANGUAGE_TSX.into()).ok()?;
    let tree = parser.parse(source, None)?;
    Some(copy_tree(tree.root_node(), None, source.as_bytes()))
}

/// `tree_sitter::Parser::parse` with `tree_sitter_zig::LANGUAGE` set: the tree of the
/// source, copied, or `None` where the language cannot be set or the parser gives no
/// tree. The result depends on the source alone.
#[verifier::external_body]
fn parse_zig(source: &str) -> (r: Option<SyntaxNode>)
    ensures
        tree_view(r) == syntax_tree(Grammar::Zig, source@),
{
    let mut parser = tree_sitter::Parser::new();
    parser.set_language(&tree_sitter_zig::LANGUAGE.into()).ok()?;
    let tree = parser.parse(source, None)?;
    Some(copy_tree(tree.root_node(), None, source.as_bytes()))
}

/// Parses `source` with `grammar`.
pub fn parse(grammar: Grammar, source: &str) -> (r: Option<SyntaxNode>)
    ensures
        tree_view(r) == syntax_tree(grammar, source@),
{
    match grammar {
        Grammar::Go => parse_go(source),
        Grammar::Python => parse_python(source),
        Grammar::Tsx => parse_tsx(source),
        Grammar::Zig => parse_zig(source),
    }
}

} // verus!
