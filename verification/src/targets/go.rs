//! Lowering the graph to Go.
use vstd::prelude::*;
use crate::error::TranslateError;
use crate::text::{chars_of, string_of, push_all, push_str};
use crate::split::{join, join_of, concat, concat_of, texts, lemma_texts_push};
use crate::walker::{Ueg, NodeKind, LambdaNode, LambdaView, NodeView, pairs};
use crate::targets::{Target, target_type, target_type_of, denormalize, denormalize_of, body_text,
    body_of};

verus! {

/// One parameter in Go: its name, then its type.
pub open spec fn go_param(p: (Seq<char>, Seq<char>)) -> Seq<char> {
    p.0 + " "@ + target_type(p.1, Target::Go)
}

/// The return type with the space that follows it; nothing where none is declared.
pub open spec fn go_return_type(ret: Option<Seq<char>>) -> Seq<char> {
    match ret {
        Some(r) => target_type(r, Target::Go) + " "@,
        None => seq![],
    }
}

/// The line that opens the function.
pub open spec fn go_header(l: LambdaView) -> Seq<char> {
    "func "@ + l.name + "("@ + join(
        l.params.map_values(|p: (Seq<char>, Seq<char>)| go_param(p)),
        ", "@,
    ) + ") "@ + go_return_type(l.ret) + "{\n"@
}

/// The Go function for one unit: the header, the statements of the body, and the brace
/// that closes it.
pub open spec fn go_function(l: LambdaView) -> Seq<char> {
    go_header(l) + body_text(l.body, Target::Go) + "}\n"@
}

/// The Go text for the node `n`.
pub open spec fn go_node(n: NodeView) -> Seq<char> {
    match n {
        NodeView::Lambda(l) => go_function(l),
    }
}

/// The Go text for the graph: the package clause and the import, then the nodes in order.
pub open spec fn go_text(g: Seq<NodeView>) -> Seq<char> {
    "package main\n\nimport \"fmt\"\n\n"@ + concat(g.map_values(|n: NodeView| go_node(n)))
}

/// The Go spelling of the canonical type `ann`.
pub fn map_type_go(ann: &Vec<char>) -> (r: Vec<char>)
    ensures
        r@ == denormalize(ann@, Target::Go),
{
    denormalize_of(ann, Target::Go)
}

fn go_header_of(l: &LambdaNode) -> (r: Vec<char>)
    ensures
        r@ == go_header(l@),
{
    let ghost want = pairs(l.params@).map_values(|p: (Seq<char>, Seq<char>)| go_param(p));
    let mut parts: Vec<Vec<char>> = Vec::new();
    let mut i: usize = 0;
    while i < l.params.len()
        invariant
            i <= l.params.len(),
            want == pairs(l.params@).map_values(|p: (Seq<char>, Seq<char>)| go_param(p)),
            texts(parts@) == want.take(i as int),
        decreases l.params.len() - i,
    {
        let mut part = chars_of(l.params[i].0.as_str());
        push_str(&mut part, " ");
        push_all(&mut part, &target_type_of(l.params[i].1.as_str(), Target::Go));
        proof {
            lemma_texts_push(parts@, part);
            assert(want.take(i + 1) == want.take(i as int).push(want[i as int]));
        }
        parts.push(part);
        i += 1;
    }
    assert(want.take(l.params.len() as int) == want);
    let mut r = chars_of("func ");
    push_str(&mut r, l.name.as_str());
    push_str(&mut r, "(");
    push_all(&mut r, &join_of(&parts, &chars_of(", ")));
    push_str(&mut r, ") ");
    let mut ret: Vec<char> = Vec::new();
    match &l.ret {
        Some(t) => {
            push_all(&mut ret, &target_type_of(t.as_str(), Target::Go));
            push_str(&mut ret, " ");
            assert(ret@ == target_type(t@, Target::Go) + " "@);
        },
        None => {},
    }
    push_all(&mut r, &ret);
    push_str(&mut r, "{\n");
    r
}

fn go_function_of(l: &LambdaNode) -> (r: Vec<char>)
    ensures
        r@ == go_function(l@),
{
    let mut r = go_header_of(l);
    push_all(&mut r, &body_of(&l.body, Target::Go));
    push_str(&mut r, "}\n");
    r
}

/// Lowers the graph to Go: one function for each node, in order.
///
/// A graph without nodes has nothing to translate, and is refused.
pub fn lower_to_go(ueg: &Ueg) -> (r: Result<String, TranslateError>)
    ensures
        match r {
            Ok(out) => ueg.is_valid() && out@ == go_text(ueg@),
            Err(e) => !ueg.is_valid() && e == TranslateError::NoTranslatableUnit,
        },
{
    if ueg.nodes.len() == 0 {
        return Err(TranslateError::NoTranslatableUnit);
    }
    let ghost want = ueg@.map_values(|n: NodeView| go_node(n));
    let mut parts: Vec<Vec<char>> = Vec::new();
    let mut i: usize = 0;
    while i < ueg.nodes.len()
        invariant
            i <= ueg.nodes.len(),
            want == ueg@.map_values(|n: NodeView| go_node(n)),
            texts(parts@) == want.take(i as int),
        decreases ueg.nodes.len() - i,
    {
        let part = match &ueg.nodes[i] {
            NodeKind::Lambda(l) => go_function_of(l),
        };
        proof {
            lemma_texts_push(parts@, part);
            assert(want.take(i + 1) == want.take(i as int).push(want[i as int]));
        }
        parts.push(part);
        i += 1;
    }
    assert(want.take(ueg.nodes.len() as int) == want);
    let mut out = chars_of("package main\n\nimport \"fmt\"\n\n");
    push_all(&mut out, &concat_of(&parts));
    Ok(string_of(&out))
}

} // verus!
