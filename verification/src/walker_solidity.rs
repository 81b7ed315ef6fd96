//! From a Solidity contract to an outline in Rust.
use vstd::prelude::*;
use crate::text::{chars_of, string_of, push_all, push_str};
use crate::split::{repeat};
use crate::syntax::{SyntaxNode, SyntaxTree, children_agree, lemma_children, field_index};

verus! {

/// The indentation of level `depth`: two spaces for each level.
pub open spec fn indent(depth: nat) -> Seq<char> {
    repeat("  "@, depth)
}

/// The outline for the children of `node` from child `from` on.
pub open spec fn outline_children(node: SyntaxTree, from: int, depth: nat) -> Seq<char>
    decreases node, node.children.len() - from,
{
    if 0 <= from < node.children.len() {
        outline(node.children[from], depth) + outline_children(node, from + 1, depth)
    } else {
        seq![]
    }
}

/// The outline for `node`: a contract becomes a struct around the outline of its
/// children, a function an empty function, a state variable a comment; every other node
/// gives the outline of its children.
pub open spec fn outline(node: SyntaxTree, depth: nat) -> Seq<char>
    decreases node, node.children.len() + 1,
{
    let ind = indent(depth);
    let name = field_index(node.children, "name"@);
    if node.kind == "contract_declaration"@ {
        match name {
            Some(i) => ind + "pub struct "@ + node.children[i].text + " {\n"@ + outline_children(
                node,
                0,
                depth + 1,
            ) + ind + "}\n\n"@,
            None => seq![],
        }
    } else if node.kind == "function_definition"@ {
        match name {
            Some(i) => ind + "pub fn "@ + node.children[i].text + "() {\n"@ + ind
                + "  // UEG Lambda node\n"@ + ind + "}\n\n"@,
            None => seq![],
        }
    } else if node.kind == "state_variable_declaration"@ {
        ind + "// State: "@ + node.text + "\n"@
    } else {
        outline_children(node, 0, depth)
    }
}

/// The text of `ind` with one more level of indentation.
fn deeper(ind: &Vec<char>, Ghost(depth): Ghost<nat>) -> (r: Vec<char>)
    requires
        ind@ == indent(depth),
    ensures
        r@ == indent(depth + 1),
{
    let mut r: Vec<char> = Vec::new();
    push_all(&mut r, ind);
    push_str(&mut r, "  ");
    assert(Seq::<char>::empty() + ind@ == ind@);
    r
}

fn outline_children_of(node: &SyntaxNode, ind: &Vec<char>, Ghost(depth): Ghost<nat>) -> (r: Vec<
    char,
>)
    requires
        ind@ == indent(depth),
    ensures
        r@ == outline_children(node@, 0, depth),
    decreases node, 0nat,
{
    proof {
        lemma_children(*node);
    }
    let mut r: Vec<char> = Vec::new();
    let mut i: usize = node.children.len();
    while i > 0
        invariant
            children_agree(*node),
            i <= node.children.len(),
            ind@ == indent(depth),
            r@ == outline_children(node@, i as int, depth),
        decreases i,
    {
        i -= 1;
        let mut part = walk_solidity_node(&node.children[i], ind, Ghost(depth));
        push_all(&mut part, &r);
        r = part;
    }
    r
}

fn walk_solidity_node(node: &SyntaxNode, ind: &Vec<char>, Ghost(depth): Ghost<nat>) -> (r: Vec<
    char,
>)
    requires
        ind@ == indent(depth),
    ensures
        r@ == outline(node@, depth),
    decreases node, 1nat,
{
    proof {
        lemma_children(*node);
    }
    let name = node.child_by_field_name("name");
    let mut r: Vec<char> = Vec::new();
    assert(Seq::<char>::empty() + ind@ == ind@);
    if node.is_kind("contract_declaration") {
        match name {
            Some(i) => {
                push_all(&mut r, ind);
                push_str(&mut r, "pub struct ");
                push_str(&mut r, node.children[i].text.as_str());
                push_str(&mut r, " {\n");
                let inner = deeper(ind, Ghost(depth));
                push_all(&mut r, &outline_children_of(node, &inner, Ghost(depth + 1)));
                push_all(&mut r, ind);
                push_str(&mut r, "}\n\n");
                r
            },
            None => r,
        }
    } else if node.is_kind("function_definition") {
        match name {
            Some(i) => {
                push_all(&mut r, ind);
                push_str(&mut r, "pub fn ");
                push_str(&mut r, node.children[i].text.as_str());
                push_str(&mut r, "() {\n");
                push_all(&mut r, ind);
                push_str(&mut r, "  // UEG Lambda node\n");
                push_all(&mut r, ind);
                push_str(&mut r, "}\n\n");
                r
            },
            None => r,
        }
    } else if node.is_kind("state_variable_declaration") {
        push_all(&mut r, ind);
        push_str(&mut r, "// State: ");
        push_str(&mut r, node.text.as_str());
        push_str(&mut r, "\n");
        r
    } else {
        outline_children_of(node, ind, Ghost(depth))
    }
}

/// The Rust outline of a Solidity source: a heading, then the outline of the tree.
pub open spec fn solidity_outline(root: SyntaxTree) -> Seq<char> {
    "// UN1C\u{24EA} v0.2: Solidity \u{2192} UEG translation\n\n"@ + outline(root, 0)
}

/// The Rust outline of the Solidity source with the syntax tree `root`.
pub fn solidity_to_ueg(root: &SyntaxNode) -> (r: String)
    ensures
        r@ == solidity_outline(root@),
{
    proof {
        lemma_children(*root);
    }
    let mut out = chars_of("// UN1C\u{24EA} v0.2: Solidity \u{2192} UEG translation\n\n");
    let ind: Vec<char> = Vec::new();
    push_all(&mut out, &walk_solidity_node(root, &ind, Ghost(0)));
    string_of(&out)
}

} // verus!
