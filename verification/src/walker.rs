//! The graph: the representation that every front end produces and every backend reads,
//! and its lowering to Rust.
pub use crate::driver::python_to_rust;
pub use crate::python::python_to_ueg;
pub use crate::statements::translate_body_to_rust_like;

use vstd::prelude::*;
use crate::error::TranslateError;
use crate::text::{chars_of, string_of, push_all, push_str, is_str};
use crate::split::{join, join_of, concat, concat_of, texts, lemma_texts_push};

verus! {

/// One callable unit: a free function.
#[derive(Debug, Clone)]
pub struct LambdaNode {
    pub name: String,
    /// Name and canonical type of each parameter; the type `"_"` stands for no annotation.
    pub params: Vec<(String, String)>,
    /// The canonical return type, where one is declared.
    pub ret: Option<String>,
    /// The body as statements of the core syntax.
    pub body: Vec<String>,
    /// The lines of the unit as they stood in the source.
    pub orig_body: Vec<String>,
    /// Name, parameters and return type once more, as one line of structured text.
    pub ast_fragment: Option<String>,
}

/// A node of the graph.
#[derive(Debug, Clone)]
pub enum NodeKind {
    Lambda(LambdaNode),
}

/// The graph: its nodes in the order in which they are emitted.
#[derive(Debug, Clone)]
pub struct Ueg {
    pub nodes: Vec<NodeKind>,
}

/// What a `LambdaNode` holds, as sequences of characters.
pub struct LambdaView {
    pub name: Seq<char>,
    pub params: Seq<(Seq<char>, Seq<char>)>,
    pub ret: Option<Seq<char>>,
    pub body: Seq<Seq<char>>,
    pub orig_body: Seq<Seq<char>>,
    pub ast_fragment: Option<Seq<char>>,
}

/// What a `NodeKind` holds.
pub enum NodeView {
    Lambda(LambdaView),
}

/// Whether every unit of the graph has a name.
pub open spec fn well_formed(g: Seq<NodeView>) -> bool {
    forall|i: int| 0 <= i < g.len() ==> (#[trigger] g[i])->Lambda_0.name.len() > 0
}

/// The views of the strings of `v`.
pub open spec fn strings(v: Seq<String>) -> Seq<Seq<char>> {
    v.map_values(|s: String| s@)
}

/// The views of the pairs of `v`.
pub open spec fn pairs(v: Seq<(String, String)>) -> Seq<(Seq<char>, Seq<char>)> {
    v.map_values(|p: (String, String)| (p.0@, p.1@))
}

/// The view of the string in `o`, where there is one.
pub open spec fn optional(o: Option<String>) -> Option<Seq<char>> {
    match o {
        Some(s) => Some(s@),
        None => None,
    }
}

impl View for LambdaNode {
    type V = LambdaView;

    open spec fn view(&self) -> LambdaView {
        LambdaView {
            name: self.name@,
            params: pairs(self.params@),
            ret: optional(self.ret),
            body: strings(self.body@),
            orig_body: strings(self.orig_body@),
            ast_fragment: optional(self.ast_fragment),
        }
    }
}

impl View for NodeKind {
    type V = NodeView;

    open spec fn view(&self) -> NodeView {
        match self {
            NodeKind::Lambda(l) => NodeView::Lambda(l@),
        }
    }
}

impl View for Ueg {
    type V = Seq<NodeView>;

    open spec fn view(&self) -> Seq<NodeView> {
        self.nodes@.map_values(|n: NodeKind| n@)
    }
}

impl Ueg {
    /// The empty graph.
    pub fn new() -> (g: Ueg)
        ensures
            g@ == Seq::<NodeView>::empty(),
    {
        let g = Ueg { nodes: Vec::new() };
        assert(g@ =~= Seq::<NodeView>::empty());
        g
    }

    /// Whether the graph can be lowered: it holds at least one node.
    pub open spec fn is_valid(&self) -> bool {
        self@.len() > 0
    }

    /// Whether the graph can be lowered.
    #[verifier::when_used_as_spec(is_valid)]
    pub fn validate(&self) -> (b: bool)
        ensures
            b == self.is_valid(),
    {
        self.nodes.len() > 0
    }
}

/// The characters of each string of `v`.
pub fn chars_of_each(v: &Vec<String>) -> (r: Vec<Vec<char>>)
    ensures
        texts(r@) == strings(v@),
{
    let mut r: Vec<Vec<char>> = Vec::new();
    let mut i: usize = 0;
    while i < v.len()
        invariant
            i <= v.len(),
            texts(r@) == strings(v@).take(i as int),
        decreases v.len() - i,
    {
        let line = chars_of(v[i].as_str());
        proof {
            lemma_texts_push(r@, line);
            assert(strings(v@).take(i + 1) == strings(v@).take(i as int).push(v@[i as int]@));
        }
        r.push(line);
        i += 1;
    }
    assert(strings(v@).take(v.len() as int) == strings(v@));
    r
}

/// The strings made of each text of `v`.
pub fn strings_of_each(v: &Vec<Vec<char>>) -> (r: Vec<String>)
    ensures
        strings(r@) == texts(v@),
{
    let mut r: Vec<String> = Vec::new();
    let mut i: usize = 0;
    while i < v.len()
        invariant
            i <= v.len(),
            strings(r@) == texts(v@).take(i as int),
        decreases v.len() - i,
    {
        let line = string_of(&v[i]);
        proof {
            assert(strings(r@.push(line)) == strings(r@).push(line@));
            assert(texts(v@).take(i + 1) == texts(v@).take(i as int).push(v@[i as int]@));
        }
        r.push(line);
        i += 1;
    }
    assert(texts(v@).take(v.len() as int) == texts(v@));
    r
}

/// One parameter in Rust: its name and type, or a generic bound where it has no annotation.
pub open spec fn rust_param(p: (Seq<char>, Seq<char>)) -> Seq<char> {
    if p.1 == "_"@ {
        p.0 + ": impl std::fmt::Debug"@
    } else {
        p.0 + ": "@ + p.1
    }
}

/// The return clause in Rust; nothing where no return type is declared.
pub open spec fn rust_return(ret: Option<Seq<char>>) -> Seq<char> {
    match ret {
        Some(r) => " -> "@ + r,
        None => seq![],
    }
}

/// A body line at one level of indentation.
pub open spec fn indented(line: Seq<char>) -> Seq<char> {
    "    "@ + line + "\n"@
}

/// The Rust function for one callable unit.
pub open spec fn rust_function(l: LambdaView) -> Seq<char> {
    "fn "@ + l.name + "("@ + join(
        l.params.map_values(|p: (Seq<char>, Seq<char>)| rust_param(p)),
        ", "@,
    ) + ")"@ + rust_return(l.ret) + " {\n"@ + concat(
        l.body.map_values(|b: Seq<char>| indented(b)),
    ) + "}\n"@
}

/// The Rust text for the node `n`.
pub open spec fn rust_node(n: NodeView) -> Seq<char> {
    match n {
        NodeView::Lambda(l) => rust_function(l),
    }
}

/// The Rust text for the graph: its nodes in order.
pub open spec fn rust_text(g: Seq<NodeView>) -> Seq<char> {
    concat(g.map_values(|n: NodeView| rust_node(n)))
}

fn rust_param_of(p: &(String, String)) -> (r: Vec<char>)
    ensures
        r@ == rust_param((p.0@, p.1@)),
{
    let mut r = chars_of(p.0.as_str());
    let ty = chars_of(p.1.as_str());
    if is_str(&ty, "_") {
        push_str(&mut r, ": impl std::fmt::Debug");
    } else {
        push_str(&mut r, ": ");
        push_all(&mut r, &ty);
    }
    r
}

fn rust_params_of(params: &Vec<(String, String)>) -> (r: Vec<char>)
    ensures
        r@ == join(
            pairs(params@).map_values(|p: (Seq<char>, Seq<char>)| rust_param(p)),
            ", "@,
        ),
{
    let ghost want = pairs(params@).map_values(|p: (Seq<char>, Seq<char>)| rust_param(p));
    let mut parts: Vec<Vec<char>> = Vec::new();
    let mut i: usize = 0;
    while i < params.len()
        invariant
            i <= params.len(),
            want == pairs(params@).map_values(|p: (Seq<char>, Seq<char>)| rust_param(p)),
            texts(parts@) == want.take(i as int),
        decreases params.len() - i,
    {
        let part = rust_param_of(&params[i]);
        proof {
            lemma_texts_push(parts@, part);
            assert(want.take(i + 1) == want.take(i as int).push(want[i as int]));
        }
        parts.push(part);
        i += 1;
    }
    assert(want.take(params.len() as int) == want);
    join_of(&parts, &chars_of(", "))
}

/// The lines of `body`, each at one level of indentation.
pub fn indented_lines_of(body: &Vec<String>) -> (r: Vec<char>)
    ensures
        r@ == concat(strings(body@).map_values(|b: Seq<char>| indented(b))),
{
    let ghost want = strings(body@).map_values(|b: Seq<char>| indented(b));
    let mut parts: Vec<Vec<char>> = Vec::new();
    let mut i: usize = 0;
    while i < body.len()
        invariant
            i <= body.len(),
            want == strings(body@).map_values(|b: Seq<char>| indented(b)),
            texts(parts@) == want.take(i as int),
        decreases body.len() - i,
    {
        let mut part = chars_of("    ");
        push_str(&mut part, body[i].as_str());
        push_str(&mut part, "\n");
        proof {
            lemma_texts_push(parts@, part);
            assert(want.take(i + 1) == want.take(i as int).push(want[i as int]));
        }
        parts.push(part);
        i += 1;
    }
    assert(want.take(body.len() as int) == want);
    concat_of(&parts)
}

fn rust_function_of(l: &LambdaNode) -> (r: Vec<char>)
    ensures
        r@ == rust_function(l@),
{
    let mut r = chars_of("fn ");
    push_str(&mut r, l.name.as_str());
    push_str(&mut r, "(");
    let params = rust_params_of(&l.params);
    push_all(&mut r, &params);
    push_str(&mut r, ")");
    match &l.ret {
        Some(ret) => {
            push_str(&mut r, " -> ");
            push_str(&mut r, ret.as_str());
        },
        None => {
            assert(r@ + Seq::<char>::empty() == r@);
        },
    }
    push_str(&mut r, " {\n");
    let body = indented_lines_of(&l.body);
    push_all(&mut r, &body);
    push_str(&mut r, "}\n");
    r
}

/// Lowers the graph to Rust: one function for each node, in order.
///
/// A graph without nodes has nothing to translate, and is refused.
pub fn lower_to_rust(ueg: &Ueg) -> (r: Result<String, TranslateError>)
    ensures
        match r {
            Ok(out) => ueg.is_valid() && out@ == rust_text(ueg@),
            Err(e) => !ueg.is_valid() && e == TranslateError::NoTranslatableUnit,
        },
{
    if ueg.nodes.len() == 0 {
        return Err(TranslateError::NoTranslatableUnit);
    }
    let ghost want = ueg@.map_values(|n: NodeView| rust_node(n));
    let mut parts: Vec<Vec<char>> = Vec::new();
    let mut i: usize = 0;
    while i < ueg.nodes.len()
        invariant
            i <= ueg.nodes.len(),
            want == ueg@.map_values(|n: NodeView| rust_node(n)),
            texts(parts@) == want.take(i as int),
        decreases ueg.nodes.len() - i,
    {
        let part = match &ueg.nodes[i] {
            NodeKind::Lambda(l) => rust_function_of(l),
        };
        proof {
            lemma_texts_push(parts@, part);
            assert(want.take(i + 1) == want.take(i as int).push(want[i as int]));
        }
        parts.push(part);
        i += 1;
    }
    assert(want.take(ueg.nodes.len() as int) == want);
    let out = concat_of(&parts);
    Ok(string_of(&out))
}

} // verus!
