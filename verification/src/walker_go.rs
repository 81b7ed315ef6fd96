//! From Go to Zig, along the syntax tree.
use vstd::prelude::*;
use crate::text::{chars_of, string_of, push_all, push_str, is_str, slice, trim, trim_of};
use crate::scan::{contains_sub, find_char, rfind_char, contains, find_char_in, rfind_char_in};
use crate::split::{join, join_of, texts, lemma_texts_push, replace, replace_of, repeat};
use crate::syntax::{SyntaxNode, SyntaxTree, children_agree, lemma_children, field_index,
    lemma_field_index};

verus! {

/// The indentation of level `depth`: two spaces for each level.
pub open spec fn indent(depth: nat) -> Seq<char> {
    repeat("  "@, depth)
}

/// The Zig name of a Go type: the primitives are mapped, a missing type is `void`, every
/// other type is kept.
pub open spec fn zig_type(go_type: Seq<char>) -> Seq<char> {
    let a = trim(go_type);
    if a == "int"@ || a == "int32"@ {
        "i32"@
    } else if a == "int64"@ {
        "i64"@
    } else if a == "float64"@ {
        "f64"@
    } else if a == "string"@ {
        "[]const u8"@
    } else if a == ""@ {
        "void"@
    } else {
        a
    }
}

/// The text of the child under the field `name`; empty where there is none.
pub open spec fn field_text(node: SyntaxTree, name: Seq<char>) -> Seq<char> {
    match field_index(node.children, name) {
        Some(i) => node.children[i].text,
        None => seq![],
    }
}

/// Name and type of each parameter declaration among the children of `list` from child
/// `from` on; a declaration without name or type is passed over.
pub open spec fn parameters(list: SyntaxTree, from: int) -> Seq<(Seq<char>, Seq<char>)>
    decreases list.children.len() - from,
{
    if 0 <= from < list.children.len() {
        let p = list.children[from];
        let name = field_text(p, "name"@);
        let ty = field_text(p, "type"@);
        if p.kind == "parameter_declaration"@ && name.len() > 0 && ty.len() > 0 {
            seq![(name, ty)] + parameters(list, from + 1)
        } else {
            parameters(list, from + 1)
        }
    } else {
        seq![]
    }
}

/// One parameter in Zig.
pub open spec fn zig_parameter(p: (Seq<char>, Seq<char>)) -> Seq<char> {
    p.0 + ": "@ + zig_type(p.1)
}

/// The parameter list of the function `node` in Zig.
pub open spec fn zig_parameters(node: SyntaxTree) -> Seq<char> {
    match field_index(node.children, "parameters"@) {
        Some(i) => join(
            parameters(node.children[i], 0).map_values(
                |p: (Seq<char>, Seq<char>)| zig_parameter(p),
            ),
            ", "@,
        ),
        None => seq![],
    }
}

/// The return type of the function `node` in Zig.
pub open spec fn zig_result(node: SyntaxTree) -> Seq<char> {
    match field_index(node.children, "result"@) {
        Some(i) => zig_type(node.children[i].text),
        None => "void"@,
    }
}

/// The texts of the children from child `from` on that are not the keyword `return`.
pub open spec fn returned_text(node: SyntaxTree, from: int) -> Seq<char>
    decreases node.children.len() - from,
{
    if 0 <= from < node.children.len() {
        let c = node.children[from];
        if c.kind == "return"@ {
            returned_text(node, from + 1)
        } else {
            c.text + returned_text(node, from + 1)
        }
    } else {
        seq![]
    }
}

/// The text of child `i`; empty where there is none.
pub open spec fn child_text(node: SyntaxTree, i: int) -> Seq<char> {
    if 0 <= i < node.children.len() {
        node.children[i].text
    } else {
        seq![]
    }
}

/// Whether `text` calls one of the print functions.
pub open spec fn is_print_call(text: Seq<char>) -> bool {
    contains_sub(text, "fmt.Printf"@) || contains_sub(text, "fmt.Println"@)
}

/// The arguments of a call: what stands after the first `(`, or after the first
/// character where there is none, up to the last `)`, or to the end where there is none.
/// Empty where the last `)` stands before that.
pub open spec fn call_arguments(text: Seq<char>) -> Seq<char> {
    let start = match find_char(text, '(') {
        Some(i) => i,
        None => 0,
    };
    let end = match rfind_char(text, ')') {
        Some(i) => i,
        None => text.len() as int,
    };
    if start + 1 <= end {
        text.subrange(start + 1, end)
    } else {
        seq![]
    }
}

/// The Zig text for the part of `node` under the field `name`, one level deeper; empty
/// where there is none.
pub open spec fn zig_of_field(node: SyntaxTree, name: Seq<char>, depth: nat) -> Seq<char>
    decreases node, 0nat, 0nat,
{
    match field_index(node.children, name) {
        Some(i) => {
            proof {
                lemma_field_index(node.children, name, 0);
            }
            zig_of(node.children[i], depth + 1)
        },
        None => seq![],
    }
}

/// The Zig text for the children of `node` from child `from` on; inside a block its
/// braces are passed over.
pub open spec fn zig_of_children(node: SyntaxTree, from: int, depth: nat, in_block: bool) -> Seq<
    char,
>
    decreases node, 0nat, node.children.len() - from,
{
    if 0 <= from < node.children.len() {
        let c = node.children[from];
        if in_block && (c.kind == "{"@ || c.kind == "}"@) {
            zig_of_children(node, from + 1, depth, in_block)
        } else {
            zig_of(c, depth) + zig_of_children(node, from + 1, depth, in_block)
        }
    } else {
        seq![]
    }
}

/// The else branch of a conditional, where it has one.
pub open spec fn zig_alternative(node: SyntaxTree, depth: nat) -> Seq<char>
    decreases node, 0nat, 1nat,
{
    if field_index(node.children, "alternative"@) is Some {
        " else {\n"@ + zig_of_field(node, "alternative"@, depth) + indent(depth) + "}"@
    } else {
        seq![]
    }
}

/// The Zig text for `node`.
///
/// A function becomes a public function around its body; a conditional and a loop keep
/// their condition in parentheses; a short declaration becomes a `var`; a print call
/// becomes a call of `std.debug.print`; package clause and imports become comments. A
/// function, a conditional or a loop without its name or condition gives nothing. Every
/// other node gives the text of its children.
pub open spec fn zig_of(node: SyntaxTree, depth: nat) -> Seq<char>
    decreases node, 1nat, 0nat,
{
    let ind = indent(depth);
    let kind = node.kind;
    if kind == "function_declaration"@ {
        if field_index(node.children, "name"@) is Some {
            ind + "pub fn "@ + field_text(node, "name"@) + "("@ + zig_parameters(node) + ") "@
                + zig_result(node) + " {\n"@ + zig_of_field(node, "body"@, depth) + ind
                + "}\n\n"@
        } else {
            seq![]
        }
    } else if kind == "block"@ {
        zig_of_children(node, 0, depth, true)
    } else if kind == "if_statement"@ {
        if field_index(node.children, "condition"@) is Some {
            ind + "if ("@ + field_text(node, "condition"@) + ") {\n"@ + zig_of_field(
                node,
                "consequence"@,
                depth,
            ) + ind + "}"@ + zig_alternative(node, depth) + "\n"@
        } else {
            seq![]
        }
    } else if kind == "short_var_declaration"@ {
        ind + "var "@ + replace(node.text, ":="@, "="@) + ";\n"@
    } else if kind == "assignment_statement"@ {
        ind + node.text + ";\n"@
    } else if kind == "for_statement"@ {
        if field_index(node.children, "condition"@) is Some {
            ind + "while ("@ + field_text(node, "condition"@) + ") {\n"@ + zig_of_field(
                node,
                "body"@,
                depth,
            ) + ind + "}\n"@
        } else {
            seq![]
        }
    } else if kind == "return_statement"@ {
        ind + "return "@ + trim(returned_text(node, 0)) + ";\n"@
    } else if kind == "binary_expression"@ {
        child_text(node, 0) + " "@ + child_text(node, 1) + " "@ + child_text(node, 2)
    } else if kind == "call_expression"@ {
        if is_print_call(node.text) {
            ind + "std.debug.print("@ + call_arguments(node.text) + ", .{});\n"@
        } else {
            ind + node.text
        }
    } else if kind == "package_clause"@ {
        "// "@ + node.text + "\n\n"@
    } else if kind == "import_declaration"@ {
        "// "@ + node.text + "\n"@
    } else {
        zig_of_children(node, 0, depth, false)
    }
}

/// The Zig text of a Go source: the import of `std`, then the text of the tree.
pub open spec fn zig_of_go(root: SyntaxTree) -> Seq<char> {
    "const std = @import(\"std\");\n\n"@ + zig_of(root, 0)
}

/// The Zig name of the Go type `go_type`.
pub fn map_go_type_to_zig(go_type: &str) -> (r: String)
    ensures
        r@ == zig_type(go_type@),
{
    string_of(&zig_type_of(&chars_of(go_type)))
}

fn zig_type_of(go_type: &Vec<char>) -> (r: Vec<char>)
    ensures
        r@ == zig_type(go_type@),
{
    let a = trim_of(go_type);
    if is_str(&a, "int") || is_str(&a, "int32") {
        chars_of("i32")
    } else if is_str(&a, "int64") {
        chars_of("i64")
    } else if is_str(&a, "float64") {
        chars_of("f64")
    } else if is_str(&a, "string") {
        chars_of("[]const u8")
    } else if is_str(&a, "") {
        chars_of("void")
    } else {
        a
    }
}

fn field_text_of(node: &SyntaxNode, name: &str) -> (r: Vec<char>)
    ensures
        r@ == field_text(node@, name@),
{
    proof {
        lemma_children(*node);
    }
    match node.child_by_field_name(name) {
        Some(i) => chars_of(node.children[i].text.as_str()),
        None => Vec::new(),
    }
}

/// Name and type of each parameter declaration among the children of `list`.
fn extract_params(list: &SyntaxNode) -> (r: Vec<(Vec<char>, Vec<char>)>)
    ensures
        r@.map_values(|p: (Vec<char>, Vec<char>)| (p.0@, p.1@)) == parameters(list@, 0),
{
    proof {
        lemma_children(*list);
    }
    let mut r: Vec<(Vec<char>, Vec<char>)> = Vec::new();
    let mut i: usize = list.children.len();
    let ghost view = |p: (Vec<char>, Vec<char>)| (p.0@, p.1@);
    assert(r@.map_values(view) == Seq::<(Seq<char>, Seq<char>)>::empty());
    while i > 0
        invariant
            children_agree(*list),
            i <= list.children.len(),
            view == |p: (Vec<char>, Vec<char>)| (p.0@, p.1@),
            r@.map_values(view) == parameters(list@, i as int),
        decreases i,
    {
        i -= 1;
        let p = &list.children[i];
        let name = field_text_of(p, "name");
        let ty = field_text_of(p, "type");
        if p.is_kind("parameter_declaration") && name.len() > 0 && ty.len() > 0 {
            let ghost before = r@;
            r.insert(0, (name, ty));
            assert(r@.map_values(view) == seq![(name@, ty@)] + before.map_values(view));
        }
    }
    r
}

fn zig_parameters_of(node: &SyntaxNode) -> (r: Vec<char>)
    ensures
        r@ == zig_parameters(node@),
{
    proof {
        lemma_children(*node);
    }
    match node.child_by_field_name("parameters") {
        Some(k) => {
            let params = extract_params(&node.children[k]);
            let ghost view = |p: (Vec<char>, Vec<char>)| (p.0@, p.1@);
            let ghost want = parameters(node@.children[k as int], 0).map_values(
                |p: (Seq<char>, Seq<char>)| zig_parameter(p),
            );
            let mut parts: Vec<Vec<char>> = Vec::new();
            let mut i: usize = 0;
            assert(params@.map_values(view).len() == params.len());
            while i < params.len()
                invariant
                    children_agree(*node),
                    i <= params.len(),
                    view == |p: (Vec<char>, Vec<char>)| (p.0@, p.1@),
                    params@.map_values(view) == parameters(node@.children[k as int], 0),
                    want == parameters(node@.children[k as int], 0).map_values(
                        |p: (Seq<char>, Seq<char>)| zig_parameter(p),
                    ),
                    texts(parts@) == want.take(i as int),
                decreases params.len() - i,
            {
                let mut part: Vec<char> = Vec::new();
                push_all(&mut part, &params[i].0);
                push_str(&mut part, ": ");
                push_all(&mut part, &zig_type_of(&params[i].1));
                proof {
                    assert(Seq::<char>::empty() + params@[i as int].0@ == params@[i as int].0@);
                    assert(params@.map_values(view)[i as int] == (
                        params@[i as int].0@,
                        params@[i as int].1@,
                    ));
                    lemma_texts_push(parts@, part);
                    assert(want.take(i + 1) == want.take(i as int).push(want[i as int]));
                }
                parts.push(part);
                i += 1;
            }
            assert(want.take(params.len() as int) == want);
            join_of(&parts, &chars_of(", "))
        },
        None => Vec::new(),
    }
}

fn returned_text_of(node: &SyntaxNode) -> (r: Vec<char>)
    ensures
        r@ == returned_text(node@, 0),
{
    proof {
        lemma_children(*node);
    }
    let mut r: Vec<char> = Vec::new();
    let mut i: usize = node.children.len();
    while i > 0
        invariant
            children_agree(*node),
            i <= node.children.len(),
            r@ == returned_text(node@, i as int),
        decreases i,
    {
        i -= 1;
        if !node.children[i].is_kind("return") {
            let mut part = chars_of(node.children[i].text.as_str());
            push_all(&mut part, &r);
            r = part;
        }
    }
    r
}

fn child_text_of(node: &SyntaxNode, i: usize) -> (r: Vec<char>)
    ensures
        r@ == child_text(node@, i as int),
{
    proof {
        lemma_children(*node);
    }
    if i < node.children.len() {
        chars_of(node.children[i].text.as_str())
    } else {
        Vec::new()
    }
}

fn call_arguments_of(text: &Vec<char>) -> (r: Vec<char>)
    ensures
        r@ == call_arguments(text@),
{
    let start: usize = match find_char_in(text, '(') {
        Some(i) => i,
        None => 0,
    };
    let end: usize = match rfind_char_in(text, ')') {
        Some(i) => i,
        None => text.len(),
    };
    if start < end {
        slice(text, start + 1, end)
    } else {
        Vec::new()
    }
}

fn deeper(ind: &Vec<char>, Ghost(depth): Ghost<nat>) -> (r: Vec<char>)
    requires
        ind@ == indent(depth),
    ensures
        r@ == indent(depth + 1),
{
    let mut r: Vec<char> = Vec::new();
    push_all(&mut r, ind);
    push_str(&mut r, "  ");
    assert(Seq::<char>::empty() + ind@ == ind@);
    r
}

fn zig_of_field_of(node: &SyntaxNode, name: &str, ind: &Vec<char>, Ghost(depth): Ghost<nat>) -> (r:
    Vec<char>)
    requires
        ind@ == indent(depth),
    ensures
        r@ == zig_of_field(node@, name@, depth),
    decreases node, 0nat, 0nat,
{
    proof {
        lemma_children(*node);
    }
    match node.child_by_field_name(name) {
        Some(i) => {
            let inner = deeper(ind, Ghost(depth));
            walk_go_node(&node.children[i], &inner, Ghost(depth + 1))
        },
        None => Vec::new(),
    }
}

fn zig_of_children_of(
    node: &SyntaxNode,
    ind: &Vec<char>,
    Ghost(depth): Ghost<nat>,
    in_block: bool,
) -> (r: Vec<char>)
    requires
        ind@ == indent(depth),
    ensures
        r@ == zig_of_children(node@, 0, depth, in_block),
    decreases node, 0nat, 0nat,
{
    proof {
        lemma_children(*node);
    }
    let mut r: Vec<char> = Vec::new();
    let mut i: usize = node.children.len();
    while i > 0
        invariant
            children_agree(*node),
            i <= node.children.len(),
            ind@ == indent(depth),
            r@ == zig_of_children(node@, i as int, depth, in_block),
        decreases i,
    {
        i -= 1;
        let c = &node.children[i];
        if !(in_block && (c.is_kind("{") || c.is_kind("}"))) {
            let mut part = walk_go_node(c, ind, Ghost(depth));
            push_all(&mut part, &r);
            r = part;
        }
    }
    r
}

/// The Zig text for `node`, at the indentation `ind`.
fn walk_go_node(node: &SyntaxNode, ind: &Vec<char>, Ghost(depth): Ghost<nat>) -> (r: Vec<char>)
    requires
        ind@ == indent(depth),
    ensures
        r@ == zig_of(node@, depth),
    decreases node, 1nat, 0nat,
{
    proof {
        lemma_children(*node);
    }
    let mut r: Vec<char> = Vec::new();
    assert(Seq::<char>::empty() + ind@ == ind@);
    if node.is_kind("function_declaration") {
        if node.child_by_field_name("name").is_some() {
            push_all(&mut r, ind);
            push_str(&mut r, "pub fn ");
            push_all(&mut r, &field_text_of(node, "name"));
            push_str(&mut r, "(");
            push_all(&mut r, &zig_parameters_of(node));
            push_str(&mut r, ") ");
            let result = match node.child_by_field_name("result") {
                Some(i) => zig_type_of(&chars_of(node.children[i].text.as_str())),
                None => chars_of("void"),
            };
            push_all(&mut r, &result);
            push_str(&mut r, " {\n");
            push_all(&mut r, &zig_of_field_of(node, "body", ind, Ghost(depth)));
            push_all(&mut r, ind);
            push_str(&mut r, "}\n\n");
        }
        r
    } else if node.is_kind("block") {
        zig_of_children_of(node, ind, Ghost(depth), true)
    } else if node.is_kind("if_statement") {
        if node.child_by_field_name("condition").is_some() {
            push_all(&mut r, ind);
            push_str(&mut r, "if (");
            push_all(&mut r, &field_text_of(node, "condition"));
            push_str(&mut r, ") {\n");
            push_all(&mut r, &zig_of_field_of(node, "consequence", ind, Ghost(depth)));
            push_all(&mut r, ind);
            push_str(&mut r, "}");
            let mut alternative: Vec<char> = Vec::new();
            if node.child_by_field_name("alternative").is_some() {
                push_str(&mut alternative, " else {\n");
                push_all(
                    &mut alternative,
                    &zig_of_field_of(node, "alternative", ind, Ghost(depth)),
                );
                push_all(&mut alternative, ind);
                push_str(&mut alternative, "}");
                assert(Seq::<char>::empty() + " else {\n"@ == " else {\n"@);
            }
            assert(alternative@ == zig_alternative(node@, depth));
            push_all(&mut r, &alternative);
            push_str(&mut r, "\n");
        }
        r
    } else if node.is_kind("short_var_declaration") {
        push_all(&mut r, ind);
        push_str(&mut r, "var ");
        push_all(
            &mut r,
            &replace_of(&chars_of(node.text.as_str()), &chars_of(":="), &chars_of("=")),
        );
        push_str(&mut r, ";\n");
        r
    } else if node.is_kind("assignment_statement") {
        push_all(&mut r, ind);
        push_str(&mut r, node.text.as_str());
        push_str(&mut r, ";\n");
        r
    } else if node.is_kind("for_statement") {
        if node.child_by_field_name("condition").is_some() {
            push_all(&mut r, ind);
            push_str(&mut r, "while (");
            push_all(&mut r, &field_text_of(node, "condition"));
            push_str(&mut r, ") {\n");
            push_all(&mut r, &zig_of_field_of(node, "body", ind, Ghost(depth)));
            push_all(&mut r, ind);
            push_str(&mut r, "}\n");
        }
        r
    } else if node.is_kind("return_statement") {
        push_all(&mut r, ind);
        push_str(&mut r, "return ");
        push_all(&mut r, &trim_of(&returned_text_of(node)));
        push_str(&mut r, ";\n");
        r
    } else if node.is_kind("binary_expression") {
        push_all(&mut r, &child_text_of(node, 0));
        push_str(&mut r, " ");
        push_all(&mut r, &child_text_of(node, 1));
        push_str(&mut r, " ");
        push_all(&mut r, &child_text_of(node, 2));
        assert(Seq::<char>::empty() + child_text(node@, 0) == child_text(node@, 0));
        r
    } else if node.is_kind("call_expression") {
        let text = chars_of(node.text.as_str());
        push_all(&mut r, ind);
        if contains(&text, &chars_of("fmt.Printf")) || contains(&text, &chars_of("fmt.Println")) {
            push_str(&mut r, "std.debug.print(");
            push_all(&mut r, &call_arguments_of(&text));
            push_str(&mut r, ", .{});\n");
        } else {
            push_all(&mut r, &text);
        }
        r
    } else if node.is_kind("package_clause") {
        push_str(&mut r, "// ");
        push_str(&mut r, node.text.as_str());
        push_str(&mut r, "\n\n");
        assert(Seq::<char>::empty() + "// "@ == "// "@);
        r
    } else if node.is_kind("import_declaration") {
        push_str(&mut r, "// ");
        push_str(&mut r, node.text.as_str());
        push_str(&mut r, "\n");
        assert(Seq::<char>::empty() + "// "@ == "// "@);
        r
    } else {
        zig_of_children_of(node, ind, Ghost(depth), false)
    }
}

/// The Zig text of the Go source with the syntax tree `root`.
pub fn go_to_ueg(root: &SyntaxNode) -> (r: String)
    ensures
        r@ == zig_of_go(root@),
{
    proof {
        lemma_children(*root);
    }
    let mut out = chars_of("const std = @import(\"std\");\n\n");
    let ind: Vec<char> = Vec::new();
    push_all(&mut out, &walk_go_node(root, &ind, Ghost(0)));
    string_of(&out)
}

} // verus!
