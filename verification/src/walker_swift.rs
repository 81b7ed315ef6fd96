//! From Swift to Rust: by rewriting the text, and along the syntax tree.
use vstd::prelude::*;
use crate::text::{chars_of, string_of, push_all, push_str, is_str, slice, trim, trim_of};
use crate::scan::{starts_with, ends_with, contains_sub, has_prefix, has_suffix, contains};
use crate::split::{replace, replace_of, repeat, strip_start, strip_start_of};
use crate::pattern::{rewritten, rewrite, substitute};
use crate::syntax::{SyntaxNode, SyntaxTree, children_agree, lemma_children, field_index};
use crate::types::{lemma_trim_is_shorter};

verus! {

/// The heading of a translation by rewriting.
pub open spec fn rewriting_heading() -> Seq<char> {
    "use std::sync::Arc;\nuse std::sync::Mutex;\n// Add: uuid = \"1.0\" to Cargo.toml\n// use uuid::Uuid;\n\n// Translated"@
        + " from Swift to Rust\n// SwiftUI \u{2192} Rust (UI framework: egui/iced/dioxus)\n// @Published \u{2192} Arc<Mutex<T>>\n// async/await \u{2192} tokio::spawn\n\n"@
}

/// The closing note of a translation by rewriting.
pub open spec fn rewriting_note() -> Seq<char> {
    "\n\n// Note: Swift async/await, Combine, SwiftUI require runtime support\n// Recommend: tokio for async, egui/iced for UI\n"@
}

/// The text without the property wrappers and actor attributes.
pub open spec fn without_attributes(text: Seq<char>) -> Seq<char> {
    replace(
        replace(replace(replace(text, "@MainActor"@, ""@), "@Published"@, ""@), "@StateObject"@, ""@),
        "@State"@,
        ""@,
    )
}

/// Classes and structs as Rust structs.
pub open spec fn swift_declarations(text: Seq<char>) -> Seq<char> {
    rewritten(
        "struct\\s+(\\w+):\\s*\\w+(\\s*,\\s*\\w+)*"@,
        rewritten(
            "class\\s+(\\w+)"@,
            rewritten("class\\s+(\\w+):\\s*ObservableObject"@, text, "pub struct $1"@),
            "pub struct $1"@,
        ),
        "#[derive(Clone, Debug)]\npub struct $1"@,
    )
}

/// Functions as Rust functions.
pub open spec fn swift_functions(text: Seq<char>) -> Seq<char> {
    replace(replace(text, "func "@, "pub fn "@), "private func "@, "fn "@)
}

/// The types of Swift as types of Rust.
pub open spec fn swift_types(text: Seq<char>) -> Seq<char> {
    replace(
        replace(
            replace(
                replace(replace(text, ": Bool"@, ": bool"@), ": Int"@, ": i64"@),
                ": UUID"@,
                ": Uuid"@,
            ),
            "[Task]"@,
            "Vec<Task>"@,
        ),
        "Set<AnyCancellable>"@,
        "Vec<()>"@,
    )
}

/// Variables as public fields, the set of cancellables as a vector, and no view model.
pub open spec fn swift_variables(text: Seq<char>) -> Seq<char> {
    replace(
        replace(replace(text, "var "@, "pub "@), " = Set<AnyCancellable>()"@, " = Vec::new()"@),
        "private var viewModel = "@,
        ""@,
    )
}

/// The Swift text rewritten as Rust, without heading and note.
pub open spec fn swift_rewritten(source: Seq<char>) -> Seq<char> {
    swift_variables(
        rewritten(
            ":\\s*(\\w+)\\?"@,
            swift_types(
                rewritten(
                    "pub fn init\\(\\)"@,
                    swift_functions(
                        swift_declarations(
                            without_attributes(rewritten("import\\s+\\w+\\s*\\n"@, source, ""@)),
                        ),
                    ),
                    "pub fn new() -> Self"@,
                ),
            ),
            ": Option<$1>"@,
        ),
    )
}

/// The Rust text for the Swift text `source`, by rewriting.
pub open spec fn rust_of_swift_text(source: Seq<char>) -> Seq<char> {
    rewriting_heading() + swift_rewritten(source) + rewriting_note()
}

/// Removes the property wrappers and actor attributes.
pub fn without_attributes_of(text: &str) -> (r: String)
    ensures
        r@ == without_attributes(text@),
{
    let a = substitute(text, "@MainActor", "");
    let b = substitute(a.as_str(), "@Published", "");
    let c = substitute(b.as_str(), "@StateObject", "");
    substitute(c.as_str(), "@State", "")
}

/// Rewrites the function keywords.
pub fn swift_functions_of(text: &str) -> (r: String)
    ensures
        r@ == swift_functions(text@),
{
    let a = substitute(text, "func ", "pub fn ");
    substitute(a.as_str(), "private func ", "fn ")
}

/// Rewrites the types.
pub fn swift_types_of(text: &str) -> (r: String)
    ensures
        r@ == swift_types(text@),
{
    let a = substitute(text, ": Bool", ": bool");
    let b = substitute(a.as_str(), ": Int", ": i64");
    let c = substitute(b.as_str(), ": UUID", ": Uuid");
    let d = substitute(c.as_str(), "[Task]", "Vec<Task>");
    substitute(d.as_str(), "Set<AnyCancellable>", "Vec<()>")
}

/// Rewrites the variables.
pub fn swift_variables_of(text: &str) -> (r: String)
    ensures
        r@ == swift_variables(text@),
{
    let a = substitute(text, "var ", "pub ");
    let b = substitute(a.as_str(), " = Set<AnyCancellable>()", " = Vec::new()");
    substitute(b.as_str(), "private var viewModel = ", "")
}

/// Puts heading and note around the rewritten text.
pub fn framed_rewriting(text: &str) -> (r: String)
    ensures
        r@ == rewriting_heading() + text@ + rewriting_note(),
{
    let mut out = chars_of(
        "use std::sync::Arc;\nuse std::sync::Mutex;\n// Add: uuid = \"1.0\" to Cargo.toml\n// use uuid::Uuid;\n\n// Translated",
    );
    push_str(
        &mut out,
        " from Swift to Rust\n// SwiftUI \u{2192} Rust (UI framework: egui/iced/dioxus)\n// @Published \u{2192} Arc<Mutex<T>>\n// async/await \u{2192} tokio::spawn\n\n",
    );
    push_str(&mut out, text);
    push_str(
        &mut out,
        "\n\n// Note: Swift async/await, Combine, SwiftUI require runtime support\n// Recommend: tokio for async, egui/iced for UI\n",
    );
    string_of(&out)
}

/// Translates Swift to Rust by rewriting the text.
pub fn swift_to_rust_regex(source: &str) -> (r: String)
    ensures
        r@ == rust_of_swift_text(source@),
{
    let a = rewrite("import\\s+\\w+\\s*\\n", source, "");
    let b = without_attributes_of(a.as_str());
    let c = rewrite("class\\s+(\\w+):\\s*ObservableObject", b.as_str(), "pub struct $1");
    let d = rewrite("class\\s+(\\w+)", c.as_str(), "pub struct $1");
    let e = rewrite(
        "struct\\s+(\\w+):\\s*\\w+(\\s*,\\s*\\w+)*",
        d.as_str(),
        "#[derive(Clone, Debug)]\npub struct $1",
    );
    let f = swift_functions_of(e.as_str());
    let g = rewrite("pub fn init\\(\\)", f.as_str(), "pub fn new() -> Self");
    let h = swift_types_of(g.as_str());
    let i = rewrite(":\\s*(\\w+)\\?", h.as_str(), ": Option<$1>");
    let j = swift_variables_of(i.as_str());
    framed_rewriting(j.as_str())
}

/// The Rust type for a type of Swift.
///
/// The primitives are mapped, with or without a question mark; an array in square
/// brackets becomes a vector, an optional type an option; every other type is kept.
pub open spec fn rust_type(swift_type: Seq<char>) -> Seq<char>
    decreases swift_type.len(),
{
    let t = trim(swift_type);
    if t == "String"@ || t == "String?"@ {
        "String"@
    } else if t == "Int"@ || t == "Int?"@ {
        "i64"@
    } else if t == "UInt"@ || t == "UInt?"@ {
        "u64"@
    } else if t == "Bool"@ || t == "Bool?"@ {
        "bool"@
    } else if t == "Double"@ || t == "Double?"@ {
        "f64"@
    } else if t == "Float"@ || t == "Float?"@ {
        "f32"@
    } else if t == "[Task]"@ {
        "Vec<Task>"@
    } else if t == "UUID"@ {
        "Uuid"@
    } else if t == "Set<AnyCancellable>"@ {
        "Vec<()> /* Combine cancellables */"@
    } else if starts_with(t, seq!['[']) && ends_with(t, seq![']']) && t.len() >= 2 {
        proof {
            lemma_trim_is_shorter(swift_type);
        }
        "Vec<"@ + rust_type(t.subrange(1, t.len() - 1)) + ">"@
    } else if ends_with(t, seq!['?']) {
        proof {
            lemma_trim_is_shorter(swift_type);
        }
        "Option<"@ + rust_type(t.take(t.len() - 1)) + ">"@
    } else {
        t
    }
}

fn rust_type_of(swift_type: &Vec<char>) -> (r: Vec<char>)
    ensures
        r@ == rust_type(swift_type@),
    decreases swift_type@.len(),
{
    let t = trim_of(swift_type);
    proof {
        lemma_trim_is_shorter(swift_type@);
    }
    let mut open: Vec<char> = Vec::new();
    open.push('[');
    let mut close: Vec<char> = Vec::new();
    close.push(']');
    let mut mark: Vec<char> = Vec::new();
    mark.push('?');
    assert(open@ == seq!['['] && close@ == seq![']'] && mark@ == seq!['?']);
    if is_str(&t, "String") || is_str(&t, "String?") {
        chars_of("String")
    } else if is_str(&t, "Int") || is_str(&t, "Int?") {
        chars_of("i64")
    } else if is_str(&t, "UInt") || is_str(&t, "UInt?") {
        chars_of("u64")
    } else if is_str(&t, "Bool") || is_str(&t, "Bool?") {
        chars_of("bool")
    } else if is_str(&t, "Double") || is_str(&t, "Double?") {
        chars_of("f64")
    } else if is_str(&t, "Float") || is_str(&t, "Float?") {
        chars_of("f32")
    } else if is_str(&t, "[Task]") {
        chars_of("Vec<Task>")
    } else if is_str(&t, "UUID") {
        chars_of("Uuid")
    } else if is_str(&t, "Set<AnyCancellable>") {
        chars_of("Vec<()> /* Combine cancellables */")
    } else if has_prefix(&t, &open) && has_suffix(&t, &close) && t.len() >= 2 {
        let mut r = chars_of("Vec<");
        push_all(&mut r, &rust_type_of(&slice(&t, 1, t.len() - 1)));
        push_str(&mut r, ">");
        r
    } else if has_suffix(&t, &mark) {
        let mut r = chars_of("Option<");
        push_all(&mut r, &rust_type_of(&slice(&t, 0, t.len() - 1)));
        push_str(&mut r, ">");
        r
    } else {
        t
    }
}

/// The Rust type for the Swift type `swift_type`.
pub fn map_swift_type_to_rust(swift_type: &str) -> (r: String)
    ensures
        r@ == rust_type(swift_type@),
{
    string_of(&rust_type_of(&chars_of(swift_type)))
}

/// The indentation of level `depth`: four spaces for each level.
pub open spec fn indent(depth: nat) -> Seq<char> {
    repeat("    "@, depth)
}

/// The text of the child under the field `name`, or `otherwise` where there is none.
pub open spec fn field_text_or(node: SyntaxTree, name: Seq<char>, otherwise: Seq<char>) -> Seq<
    char,
> {
    match field_index(node.children, name) {
        Some(i) => node.children[i].text,
        None => otherwise,
    }
}

/// The Swift type of a declaration: the text of its type, or a guess from its own text.
pub open spec fn swift_type_of(node: SyntaxTree) -> Seq<char> {
    let text = node.text;
    match field_index(node.children, "type"@) {
        Some(i) => node.children[i].text,
        None => if contains_sub(text, "[Task]"@) || contains_sub(text, "Array<Task>"@) {
            "[Task]"@
        } else if contains_sub(text, "Bool"@) {
            "Bool"@
        } else if contains_sub(text, "String"@) {
            "String"@
        } else if contains_sub(text, "Set<"@) {
            "Set"@
        } else {
            "Any"@
        },
    }
}

/// One field for each named property among the children of `node` from child `from` on.
pub open spec fn rust_fields(node: SyntaxTree, from: int, ind: Seq<char>) -> Seq<char>
    decreases node.children.len() - from,
{
    if 0 <= from < node.children.len() {
        let c = node.children[from];
        (if c.kind == "property_declaration"@ && field_index(c.children, "name"@) is Some {
            ind + "    pub "@ + strip_start(field_text_or(c, "name"@, seq![]), "@"@) + ": "@
                + rust_type(swift_type_of(c)) + ",\n"@
        } else {
            seq![]
        }) + rust_fields(node, from + 1, ind)
    } else {
        seq![]
    }
}

/// Name and Rust type of each named parameter among the children of `list` from child
/// `from` on.
pub open spec fn swift_parameters(list: SyntaxTree, from: int) -> Seq<Seq<char>>
    decreases list.children.len() - from,
{
    if 0 <= from < list.children.len() {
        let c = list.children[from];
        if c.kind == "parameter"@ && field_index(c.children, "name"@) is Some {
            seq![field_text_or(c, "name"@, seq![]) + ": "@ + rust_type(swift_type_of(c))]
                + swift_parameters(list, from + 1)
        } else {
            swift_parameters(list, from + 1)
        }
    } else {
        seq![]
    }
}

/// The parameters of the function `node`.
pub open spec fn function_parameters(node: SyntaxTree) -> Seq<Seq<char>> {
    match field_index(node.children, "parameters"@) {
        Some(i) => swift_parameters(node.children[i], 0),
        None => seq![],
    }
}

/// One statement of a body as a line that ends in a written-out `\n`.
pub open spec fn body_line(c: SyntaxTree, ind: Seq<char>) -> Seq<char> {
    let text = c.text;
    if c.kind == "property_declaration"@ || c.kind == "variable_declaration"@ {
        ind + replace(replace(text, "var "@, "let mut "@), "await "@, ".await"@) + ";\\n"@
    } else if c.kind == "call_expression"@ {
        ind + replace(text, "await "@, ".await "@) + ";\\n"@
    } else if c.kind == "return_statement"@ {
        ind + text + "\\n"@
    } else if c.kind == "if_statement"@ || c.kind == "guard_statement"@ {
        ind + replace(text, "guard"@, "if"@) + "\\n"@
    } else if trim(text).len() > 0 && trim(text) != "{"@ && trim(text) != "}"@ {
        ind + text + "\\n"@
    } else {
        seq![]
    }
}

/// The lines of the children of a body, from child `from` on.
pub open spec fn body_lines(node: SyntaxTree, from: int, ind: Seq<char>) -> Seq<char>
    decreases node.children.len() - from,
{
    if 0 <= from < node.children.len() {
        body_line(node.children[from], ind) + body_lines(node, from + 1, ind)
    } else {
        seq![]
    }
}

/// A body: the lines of its children, or a comment where they are blank.
pub open spec fn rust_body(node: SyntaxTree, ind: Seq<char>) -> Seq<char> {
    let lines = body_lines(node, 0, ind);
    if trim(lines).len() == 0 {
        lines + ind + "// empty body\\n"@
    } else {
        lines
    }
}

/// The position of the first body among `children`, at or after `from`.
pub open spec fn body_index(children: Seq<SyntaxTree>, from: int) -> Option<int>
    decreases children.len() - from,
{
    if from < 0 || from >= children.len() {
        None
    } else if children[from].kind == "function_body"@ || children[from].kind == "code_block"@ {
        Some(from)
    } else {
        body_index(children, from + 1)
    }
}

/// Whether the function is an initializer.
pub open spec fn is_init(node: SyntaxTree) -> bool {
    field_text_or(node, "name"@, "unnamed"@) == "init"@
}

/// Whether the text of the function speaks of asynchrony.
pub open spec fn is_async(node: SyntaxTree) -> bool {
    contains_sub(node.text, "async"@) || contains_sub(node.text, "await"@)
}

/// The head of a method: keywords, name and parameters, up to the opening brace.
pub open spec fn method_head(node: SyntaxTree, ind: Seq<char>) -> Seq<char> {
    let params = function_parameters(node);
    ind + "pub "@ + (if is_async(node) {
        "async "@
    } else {
        ""@
    }) + "fn "@ + (if is_init(node) {
        "new"@
    } else {
        field_text_or(node, "name"@, "unnamed"@)
    }) + "("@ + (if is_init(node) {
        ""@
    } else if params.len() > 0 {
        "&self, "@
    } else {
        "&self"@
    }) + crate::split::join(params, ", "@) + ")"@ + (if is_init(node) {
        " -> Self"@
    } else {
        ""@
    }) + " {\n"@
}

/// The body of a method: the translated body, or a stand-in where the function has none.
pub open spec fn method_body(node: SyntaxTree, ind: Seq<char>) -> Seq<char> {
    match body_index(node.children, 0) {
        Some(i) => rust_body(node.children[i], ind + "    "@),
        None => if is_init(node) {
            ind + "    Self { /* initialize fields */ }\n"@
        } else if is_async(node) {
            ind + "    Ok(()) // async implementation\n"@
        } else {
            ind + "    () // implementation\n"@
        },
    }
}

/// A method.
pub open spec fn rust_method(node: SyntaxTree, ind: Seq<char>) -> Seq<char> {
    method_head(node, ind) + method_body(node, ind) + ind + "}\n\n"@
}

/// One method for each function among the children of `node` from child `from` on.
pub open spec fn rust_methods(node: SyntaxTree, from: int, ind: Seq<char>) -> Seq<char>
    decreases node.children.len() - from,
{
    if 0 <= from < node.children.len() {
        let c = node.children[from];
        (if c.kind == "function_declaration"@ {
            rust_method(c, ind)
        } else {
            seq![]
        }) + rust_methods(node, from + 1, ind)
    } else {
        seq![]
    }
}

/// A class: a struct of its properties, and an impl of its methods.
pub open spec fn rust_class(node: SyntaxTree, depth: nat) -> Seq<char> {
    let ind = indent(depth);
    let name = field_text_or(node, "name"@, "UnnamedClass"@);
    (if contains_sub(node.text, "ObservableObject"@) {
        ind + "// ObservableObject \u{2192} shared mutable state\n"@
    } else {
        seq![]
    }) + ind + "pub struct "@ + name + " {\n"@ + rust_fields(node, 0, ind) + ind + "}\n\n"@ + ind
        + "impl "@ + name + " {\n"@ + rust_methods(node, 0, indent(depth + 1)) + ind + "}\n\n"@
}

/// A struct: a struct of its properties.
pub open spec fn rust_record(node: SyntaxTree, depth: nat) -> Seq<char> {
    let ind = indent(depth);
    ind + "#[derive(Clone"@ + (if contains_sub(node.text, "Identifiable"@) {
        ", Debug"@
    } else {
        ""@
    }) + ")]\n"@ + ind + "pub struct "@ + field_text_or(node, "name"@, "UnnamedStruct"@) + " {\n"@
        + rust_fields(node, 0, ind) + ind + "}\n\n"@
}

/// The Rust text for the children of `node` from child `from` on.
pub open spec fn rust_of_children(node: SyntaxTree, from: int, depth: nat) -> Seq<char>
    decreases node, 0nat, node.children.len() - from,
{
    if 0 <= from < node.children.len() {
        rust_of(node.children[from], depth) + rust_of_children(node, from + 1, depth)
    } else {
        seq![]
    }
}

/// The Rust text for `node`: a class, a struct, or the text of its children.
pub open spec fn rust_of(node: SyntaxTree, depth: nat) -> Seq<char>
    decreases node, 1nat, 0nat,
{
    if node.kind == "class_declaration"@ {
        rust_class(node, depth)
    } else if node.kind == "struct_declaration"@ {
        rust_record(node, depth)
    } else {
        rust_of_children(node, 0, depth)
    }
}

/// The heading of a translation along the tree.
pub open spec fn tree_heading() -> Seq<char> {
    "use std::sync::Arc;\nuse std::sync::Mutex;\nuse uuid::Uuid;\n\n// Translated"@
        + " from Swift to Rust\n// SwiftUI \u{2192} Rust (UI framework TBD: egui/iced/dioxus)\n\n"@
}

fn field_text_or_of(node: &SyntaxNode, name: &str, otherwise: &str) -> (r: Vec<char>)
    ensures
        r@ == field_text_or(node@, name@, otherwise@),
{
    proof {
        lemma_children(*node);
    }
    match node.child_by_field_name(name) {
        Some(i) => chars_of(node.children[i].text.as_str()),
        None => chars_of(otherwise),
    }
}

fn extract_swift_type(node: &SyntaxNode) -> (r: Vec<char>)
    ensures
        r@ == swift_type_of(node@),
{
    proof {
        lemma_children(*node);
    }
    let text = chars_of(node.text.as_str());
    match node.child_by_field_name("type") {
        Some(i) => chars_of(node.children[i].text.as_str()),
        None => if contains(&text, &chars_of("[Task]")) || contains(
            &text,
            &chars_of("Array<Task>"),
        ) {
            chars_of("[Task]")
        } else if contains(&text, &chars_of("Bool")) {
            chars_of("Bool")
        } else if contains(&text, &chars_of("String")) {
            chars_of("String")
        } else if contains(&text, &chars_of("Set<")) {
            chars_of("Set")
        } else {
            chars_of("Any")
        },
    }
}

fn extract_properties(node: &SyntaxNode, ind: &Vec<char>) -> (r: Vec<char>)
    ensures
        r@ == rust_fields(node@, 0, ind@),
{
    proof {
        lemma_children(*node);
    }
    let mut r: Vec<char> = Vec::new();
    let mut i: usize = node.children.len();
    while i > 0
        invariant
            children_agree(*node),
            i <= node.children.len(),
            r@ == rust_fields(node@, i as int, ind@),
        decreases i,
    {
        i -= 1;
        let c = &node.children[i];
        let mut line: Vec<char> = Vec::new();
        if c.is_kind("property_declaration") {
            if let Some(k) = c.child_by_field_name("name") {
                proof {
                    lemma_children(*c);
                }
                push_all(&mut line, ind);
                push_str(&mut line, "    pub ");
                push_all(
                    &mut line,
                    &strip_start_of(&chars_of(c.children[k].text.as_str()), &chars_of("@")),
                );
                push_str(&mut line, ": ");
                push_all(&mut line, &rust_type_of(&extract_swift_type(c)));
                push_str(&mut line, ",\n");
                assert(Seq::<char>::empty() + ind@ == ind@);
            }
        }
        push_all(&mut line, &r);
        r = line;
    }
    r
}

fn swift_parameters_of(list: &SyntaxNode) -> (r: Vec<Vec<char>>)
    ensures
        crate::split::texts(r@) == swift_parameters(list@, 0),
{
    proof {
        lemma_children(*list);
    }
    let mut r: Vec<Vec<char>> = Vec::new();
    let mut i: usize = list.children.len();
    assert(crate::split::texts(r@) == Seq::<Seq<char>>::empty());
    while i > 0
        invariant
            children_agree(*list),
            i <= list.children.len(),
            crate::split::texts(r@) == swift_parameters(list@, i as int),
        decreases i,
    {
        i -= 1;
        let c = &list.children[i];
        if c.is_kind("parameter") {
            if let Some(k) = c.child_by_field_name("name") {
                proof {
                    lemma_children(*c);
                }
                let mut p = chars_of(c.children[k].text.as_str());
                push_str(&mut p, ": ");
                push_all(&mut p, &rust_type_of(&extract_swift_type(c)));
                let ghost before = r@;
                r.insert(0, p);
                assert(crate::split::texts(r@) == seq![p@] + crate::split::texts(before));
            }
        }
    }
    r
}

fn extract_parameters(node: &SyntaxNode) -> (r: Vec<Vec<char>>)
    ensures
        crate::split::texts(r@) == function_parameters(node@),
{
    proof {
        lemma_children(*node);
    }
    match node.child_by_field_name("parameters") {
        Some(i) => swift_parameters_of(&node.children[i]),
        None => {
            let r: Vec<Vec<char>> = Vec::new();
            assert(crate::split::texts(r@) == Seq::<Seq<char>>::empty());
            r
        },
    }
}

fn body_line_of(c: &SyntaxNode, ind: &Vec<char>) -> (r: Vec<char>)
    ensures
        r@ == body_line(c@, ind@),
{
    proof {
        lemma_children(*c);
    }
    let text = chars_of(c.text.as_str());
    let mut r: Vec<char> = Vec::new();
    assert(Seq::<char>::empty() + ind@ == ind@);
    if c.is_kind("property_declaration") || c.is_kind("variable_declaration") {
        push_all(&mut r, ind);
        push_all(
            &mut r,
            &replace_of(
                &replace_of(&text, &chars_of("var "), &chars_of("let mut ")),
                &chars_of("await "),
                &chars_of(".await"),
            ),
        );
        push_str(&mut r, ";\\n");
    } else if c.is_kind("call_expression") {
        push_all(&mut r, ind);
        push_all(&mut r, &replace_of(&text, &chars_of("await "), &chars_of(".await ")));
        push_str(&mut r, ";\\n");
    } else if c.is_kind("return_statement") {
        push_all(&mut r, ind);
        push_all(&mut r, &text);
        push_str(&mut r, "\\n");
    } else if c.is_kind("if_statement") || c.is_kind("guard_statement") {
        push_all(&mut r, ind);
        push_all(&mut r, &replace_of(&text, &chars_of("guard"), &chars_of("if")));
        push_str(&mut r, "\\n");
    } else {
        let t = trim_of(&text);
        if t.len() > 0 && !is_str(&t, "{") && !is_str(&t, "}") {
            push_all(&mut r, ind);
            push_all(&mut r, &text);
            push_str(&mut r, "\\n");
        }
    }
    r
}

fn translate_swift_body(node: &SyntaxNode, ind: &Vec<char>) -> (r: Vec<char>)
    ensures
        r@ == rust_body(node@, ind@),
{
    proof {
        lemma_children(*node);
    }
    let mut r: Vec<char> = Vec::new();
    let mut i: usize = node.children.len();
    while i > 0
        invariant
            children_agree(*node),
            i <= node.children.len(),
            r@ == body_lines(node@, i as int, ind@),
        decreases i,
    {
        i -= 1;
        let mut line = body_line_of(&node.children[i], ind);
        push_all(&mut line, &r);
        r = line;
    }
    if trim_of(&r).len() == 0 {
        push_all(&mut r, ind);
        push_str(&mut r, "// empty body\\n");
    }
    r
}

fn find_body(node: &SyntaxNode) -> (r: Option<usize>)
    ensures
        match r {
            Some(i) => body_index(node@.children, 0) == Some(i as int) && i
                < node.children.len(),
            None => body_index(node@.children, 0) is None,
        },
{
    proof {
        lemma_children(*node);
    }
    let mut i: usize = 0;
    while i < node.children.len()
        invariant
            children_agree(*node),
            i <= node.children.len(),
            body_index(node@.children, 0) == body_index(node@.children, i as int),
        decreases node.children.len() - i,
    {
        if node.children[i].is_kind("function_body") || node.children[i].is_kind("code_block") {
            return Some(i);
        }
        i += 1;
    }
    None
}

fn translate_swift_function(node: &SyntaxNode, ind: &Vec<char>) -> (r: Vec<char>)
    ensures
        r@ == rust_method(node@, ind@),
{
    proof {
        lemma_children(*node);
    }
    let name = field_text_or_of(node, "name", "unnamed");
    let init = is_str(&name, "init");
    let text = chars_of(node.text.as_str());
    let asynchronous = contains(&text, &chars_of("async")) || contains(&text, &chars_of("await"));
    let params = extract_parameters(node);
    assert(crate::split::texts(params@).len() == params.len());
    let mut r: Vec<char> = Vec::new();
    assert(Seq::<char>::empty() + ind@ == ind@);
    push_all(&mut r, ind);
    push_str(&mut r, "pub ");
    push_str(
        &mut r,
        if asynchronous {
            "async "
        } else {
            ""
        },
    );
    push_str(&mut r, "fn ");
    if init {
        push_str(&mut r, "new");
    } else {
        push_all(&mut r, &name);
    }
    push_str(&mut r, "(");
    push_str(
        &mut r,
        if init {
            ""
        } else if params.len() > 0 {
            "&self, "
        } else {
            "&self"
        },
    );
    push_all(&mut r, &crate::split::join_of(&params, &chars_of(", ")));
    push_str(&mut r, ")");
    push_str(
        &mut r,
        if init {
            " -> Self"
        } else {
            ""
        },
    );
    push_str(&mut r, " {\n");
    assert(r@ == method_head(node@, ind@));
    let mut body: Vec<char> = Vec::new();
    match find_body(node) {
        Some(i) => {
            let mut inner: Vec<char> = Vec::new();
            push_all(&mut inner, ind);
            push_str(&mut inner, "    ");
            body = translate_swift_body(&node.children[i], &inner);
        },
        None => {
            push_all(&mut body, ind);
            if init {
                push_str(&mut body, "    Self { /* initialize fields */ }\n");
            } else if asynchronous {
                push_str(&mut body, "    Ok(()) // async implementation\n");
            } else {
                push_str(&mut body, "    () // implementation\n");
            }
        },
    }
    assert(body@ == method_body(node@, ind@));
    push_all(&mut r, &body);
    push_all(&mut r, ind);
    push_str(&mut r, "}\n\n");
    r
}

fn extract_methods(node: &SyntaxNode, ind: &Vec<char>) -> (r: Vec<char>)
    ensures
        r@ == rust_methods(node@, 0, ind@),
{
    proof {
        lemma_children(*node);
    }
    let mut r: Vec<char> = Vec::new();
    let mut i: usize = node.children.len();
    while i > 0
        invariant
            children_agree(*node),
            i <= node.children.len(),
            r@ == rust_methods(node@, i as int, ind@),
        decreases i,
    {
        i -= 1;
        let mut part: Vec<char> = Vec::new();
        if node.children[i].is_kind("function_declaration") {
            part = translate_swift_function(&node.children[i], ind);
        }
        push_all(&mut part, &r);
        r = part;
    }
    r
}

fn deeper(ind: &Vec<char>, Ghost(depth): Ghost<nat>) -> (r: Vec<char>)
    requires
        ind@ == indent(depth),
    ensures
        r@ == indent(depth + 1),
{
    let mut r: Vec<char> = Vec::new();
    push_all(&mut r, ind);
    push_str(&mut r, "    ");
    assert(Seq::<char>::empty() + ind@ == ind@);
    r
}

fn rust_class_of(node: &SyntaxNode, ind: &Vec<char>, Ghost(depth): Ghost<nat>) -> (r: Vec<char>)
    requires
        ind@ == indent(depth),
    ensures
        r@ == rust_class(node@, depth),
{
    proof {
        lemma_children(*node);
    }
    let name = field_text_or_of(node, "name", "UnnamedClass");
    let mut r: Vec<char> = Vec::new();
    assert(Seq::<char>::empty() + ind@ == ind@);
    if contains(&chars_of(node.text.as_str()), &chars_of("ObservableObject")) {
        push_all(&mut r, ind);
        push_str(&mut r, "// ObservableObject \u{2192} shared mutable state\n");
    }
    push_all(&mut r, ind);
    push_str(&mut r, "pub struct ");
    push_all(&mut r, &name);
    push_str(&mut r, " {\n");
    push_all(&mut r, &extract_properties(node, ind));
    push_all(&mut r, ind);
    push_str(&mut r, "}\n\n");
    push_all(&mut r, ind);
    push_str(&mut r, "impl ");
    push_all(&mut r, &name);
    push_str(&mut r, " {\n");
    let inner = deeper(ind, Ghost(depth));
    push_all(&mut r, &extract_methods(node, &inner));
    push_all(&mut r, ind);
    push_str(&mut r, "}\n\n");
    r
}

fn rust_record_of(node: &SyntaxNode, ind: &Vec<char>, Ghost(depth): Ghost<nat>) -> (r: Vec<char>)
    requires
        ind@ == indent(depth),
    ensures
        r@ == rust_record(node@, depth),
{
    proof {
        lemma_children(*node);
    }
    let mut r: Vec<char> = Vec::new();
    assert(Seq::<char>::empty() + ind@ == ind@);
    push_all(&mut r, ind);
    push_str(&mut r, "#[derive(Clone");
    push_str(
        &mut r,
        if contains(&chars_of(node.text.as_str()), &chars_of("Identifiable")) {
            ", Debug"
        } else {
            ""
        },
    );
    push_str(&mut r, ")]\n");
    push_all(&mut r, ind);
    push_str(&mut r, "pub struct ");
    push_all(&mut r, &field_text_or_of(node, "name", "UnnamedStruct"));
    push_str(&mut r, " {\n");
    push_all(&mut r, &extract_properties(node, ind));
    push_all(&mut r, ind);
    push_str(&mut r, "}\n\n");
    r
}

fn rust_of_children_of(node: &SyntaxNode, ind: &Vec<char>, Ghost(depth): Ghost<nat>) -> (r: Vec<
    char,
>)
    requires
        ind@ == indent(depth),
    ensures
        r@ == rust_of_children(node@, 0, depth),
    decreases node, 0nat, 0nat,
{
    proof {
        lemma_children(*node);
    }
    let mut r: Vec<char> = Vec::new();
    let mut i: usize = node.children.len();
    while i > 0
        invariant
            children_agree(*node),
            i <= node.children.len(),
            ind@ == indent(depth),
            r@ == rust_of_children(node@, i as int, depth),
        decreases i,
    {
        i -= 1;
        let mut part = walk_swift_node(&node.children[i], ind, Ghost(depth));
        push_all(&mut part, &r);
        r = part;
    }
    r
}

fn walk_swift_node(node: &SyntaxNode, ind: &Vec<char>, Ghost(depth): Ghost<nat>) -> (r: Vec<char>)
    requires
        ind@ == indent(depth),
    ensures
        r@ == rust_of(node@, depth),
    decreases node, 1nat, 0nat,
{
    proof {
        lemma_children(*node);
    }
    if node.is_kind("class_declaration") {
        rust_class_of(node, ind, Ghost(depth))
    } else if node.is_kind("struct_declaration") {
        rust_record_of(node, ind, Ghost(depth))
    } else {
        rust_of_children_of(node, ind, Ghost(depth))
    }
}

/// Translates Swift to Rust along the syntax tree `root`.
pub fn swift_to_rust(root: &SyntaxNode) -> (r: String)
    ensures
        r@ == tree_heading() + rust_of(root@, 0),
{
    proof {
        lemma_children(*root);
    }
    let mut out = chars_of(
        "use std::sync::Arc;\nuse std::sync::Mutex;\nuse uuid::Uuid;\n\n// Translated",
    );
    push_str(
        &mut out,
        " from Swift to Rust\n// SwiftUI \u{2192} Rust (UI framework TBD: egui/iced/dioxus)\n\n",
    );
    let ind: Vec<char> = Vec::new();
    push_all(&mut out, &walk_swift_node(root, &ind, Ghost(0)));
    string_of(&out)
}

} // verus!
