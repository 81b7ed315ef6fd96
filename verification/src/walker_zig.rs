//! From Zig to Rust, and from Go to Zig declaration by declaration, along the syntax tree.
use vstd::prelude::*;
use crate::text::{chars_of, string_of, push_all, push_str, is_str, slice, trim, trim_of};
use crate::scan::{contains_sub, find_char, find_sub, contains, find_char_in, find_sub_in};
use crate::split::{split, split_of, texts, join, join_of, lemma_texts_push, replace, replace_of};
use crate::syntax::{SyntaxNode, SyntaxTree, children_agree, lemma_children, Grammar, syntax_tree,
    parse};

verus! {

/// The heading of every translated container.
pub open spec fn rust_heading() -> Seq<char> {
    "// Translated"@ + " from Zig to Rust\n// comptime \u{2192} const + generics\n// error unions \u{2192} Result<T, E>\n// async/await \u{2192} tokio\n\n"@
}

/// An import: the standard library is used, the builtins are noted, every other import
/// becomes a comment.
pub open spec fn rust_import(text: Seq<char>) -> Seq<char> {
    if contains_sub(text, "@import(\"std\")"@) {
        "use std;\n"@
    } else if contains_sub(text, "@import(\"builtin\")"@) {
        "// Note: Zig builtin \u{2192} Rust cfg attributes\n"@
    } else {
        "// "@ + text + "\n"@
    }
}

/// The name of an error set: what stands before `error{`, without `pub const ` and `=`.
pub open spec fn error_set_name(text: Seq<char>, at: int) -> Seq<char> {
    trim(replace(replace(trim(text.take(at)), "pub const "@, ""@), "="@, ""@))
}

/// One variant for each error of `parts` that is not blank.
pub open spec fn error_variants(parts: Seq<Seq<char>>) -> Seq<char>
    decreases parts.len(),
{
    if parts.len() == 0 {
        seq![]
    } else {
        let e = trim(parts.last());
        error_variants(parts.drop_last()) + if e.len() > 0 {
            "    "@ + e + ",\n"@
        } else {
            seq![]
        }
    }
}

/// The enum for an error set with its two impls; nothing where the text holds no
/// `error{` with a `}` after it.
pub open spec fn rust_error_set(text: Seq<char>) -> Seq<char> {
    match (find_sub(text, "error{"@), find_sub(text, "}"@)) {
        (Some(start), Some(end)) => {
            let from = start + "error{"@.len();
            if from <= end {
                let name = error_set_name(text, start);
                "#[derive(Debug, Clone, PartialEq)]\n"@ + "pub enum "@ + name + " {\n"@
                    + error_variants(split(text.subrange(from, end), ',')) + "}\n\n"@
                    + "impl std::fmt::Display for "@ + name + " {\n"@
                    + "    fn fmt(&self, f: &mut std::fmt::Formatter) -> std::fmt::Result {\n"@
                    + "        write!(f, \"{:?}\", self)\n"@ + "    }\n"@ + "}\n\n"@
                    + "impl std::error::Error for "@ + name + " {}\n\n"@
            } else {
                seq![]
            }
        },
        _ => seq![],
    }
}

/// A variable: its visibility and mutability, and the declaration as a comment.
pub open spec fn rust_variable(text: Seq<char>) -> Seq<char> {
    (if contains_sub(text, "pub "@) {
        "pub "@
    } else {
        ""@
    }) + (if contains_sub(text, "const "@) {
        "const"@
    } else {
        "let mut"@
    }) + "; // "@ + trim(text) + "\n"@
}

/// The texts of the children of `node` of the kind `parameter`, from child `from` on.
pub open spec fn parameter_texts(node: SyntaxTree, from: int) -> Seq<Seq<char>>
    decreases node.children.len() - from,
{
    if 0 <= from < node.children.len() {
        let c = node.children[from];
        if c.kind == "parameter"@ {
            seq![c.text] + parameter_texts(node, from + 1)
        } else {
            parameter_texts(node, from + 1)
        }
    } else {
        seq![]
    }
}

/// The parameters of a parameter list, separated by `", "`.
pub open spec fn rust_params(node: SyntaxTree) -> Seq<char> {
    join(parameter_texts(node, 0), ", "@)
}

/// One statement of a block as a line that ends in a written-out `\n`.
pub open spec fn rust_block_line(c: SyntaxTree) -> Seq<char> {
    if c.kind == "variable_declaration"@ {
        "    "@ + trim(rust_variable(c.text)) + "\\n"@
    } else if c.kind == "return_statement"@ {
        "    "@ + c.text + "\\n"@
    } else if c.kind == "call_expression"@ {
        "    "@ + c.text + ";\\n"@
    } else {
        let t = trim(c.text);
        if t.len() > 0 && t != "{"@ && t != "}"@ {
            "    "@ + t + "\\n"@
        } else {
            seq![]
        }
    }
}

/// The lines of the children of a block, from child `from` on.
pub open spec fn rust_block_lines(node: SyntaxTree, from: int) -> Seq<char>
    decreases node.children.len() - from,
{
    if 0 <= from < node.children.len() {
        rust_block_line(node.children[from]) + rust_block_lines(node, from + 1)
    } else {
        seq![]
    }
}

/// A block: the lines of its children, or a comment where they are blank.
pub open spec fn rust_block(node: SyntaxTree) -> Seq<char> {
    let lines = rust_block_lines(node, 0);
    if trim(lines).len() == 0 {
        lines + "    // empty body\\n"@
    } else {
        lines
    }
}

/// What a function is made of: its name, its parameter lists and its body.
pub struct FunctionParts {
    pub name: Seq<char>,
    pub params: Seq<Seq<char>>,
    pub body: Seq<char>,
}

/// The parts of a function after its children from child `from` on are read, with
/// `parts` read before: the last identifier is the name, every parameter list counts,
/// the last block is the body.
pub open spec fn function_parts(node: SyntaxTree, from: int, parts: FunctionParts) -> FunctionParts
    decreases node.children.len() - from,
{
    if 0 <= from < node.children.len() {
        let c = node.children[from];
        let next = if c.kind == "identifier"@ {
            FunctionParts { name: c.text, ..parts }
        } else if c.kind == "parameter_list"@ {
            FunctionParts { params: parts.params.push(rust_params(c)), ..parts }
        } else if c.kind == "block"@ {
            FunctionParts { body: rust_block(c), ..parts }
        } else {
            parts
        };
        function_parts(node, from + 1, next)
    } else {
        parts
    }
}

/// The parts of a function of which nothing is read yet.
pub open spec fn no_parts() -> FunctionParts {
    FunctionParts { name: "unnamed"@, params: seq![], body: ""@ }
}

/// What stands before the name of a function: a note and an attribute for an async
/// function, its visibility, and the keywords.
pub open spec fn rust_function_head(text: Seq<char>) -> Seq<char> {
    let is_async = contains_sub(text, "async "@);
    (if is_async {
        "// Note: Zig async \u{2192} tokio::spawn\n#[tokio::main]\n"@
    } else {
        ""@
    }) + (if contains_sub(text, "pub fn"@) {
        "pub "@
    } else {
        ""@
    }) + (if is_async {
        "async "@
    } else {
        ""@
    }) + "fn "@
}

/// A function.
pub open spec fn rust_function(node: SyntaxTree) -> Seq<char> {
    let parts = function_parts(node, 0, no_parts());
    rust_function_head(node.text) + parts.name + "("@ + join(parts.params, ", "@) + ") void {\n"@
        + parts.body + "}\n\n"@
}

/// The name of a generic type: what stands between the first `fn ` and the next `(`.
pub open spec fn generic_name(text: Seq<char>) -> Option<Seq<char>> {
    match find_sub(text, "fn "@) {
        Some(start) => match find_char(text.skip(start), '(') {
            Some(paren) => if "fn "@.len() <= paren {
                Some(trim(text.subrange(start + "fn "@.len(), start + paren)))
            } else {
                None
            },
            None => None,
        },
        None => None,
    }
}

/// A function that returns a type, as a generic struct; nothing where the text names none.
pub open spec fn rust_generic(text: Seq<char>) -> Seq<char> {
    match generic_name(text) {
        Some(name) => "// Zig comptime function \u{2192} Rust generic struct\n"@
            + "#[derive(Debug, Clone)]\n"@ + "pub struct "@ + name + "<T> {\n"@
            + "    // Fields translated"@ + " from Zig comptime struct\n"@
            + "    // Note: Manual review required for accurate field translation\n"@
            + "    _phantom: std::marker::PhantomData<T>,\n"@ + "}\n\n"@ + "impl<T> "@ + name
            + "<T> {\n"@ + "    pub fn new() -> Self {\n"@
            + "        Self { _phantom: std::marker::PhantomData }\n"@ + "    }\n"@ + "}\n\n"@,
        None => seq![],
    }
}

/// A struct: a generic struct where the text takes a type at compile time, else an empty
/// struct with the declaration as a comment.
pub open spec fn rust_struct(text: Seq<char>) -> Seq<char> {
    if contains_sub(text, "comptime"@) && contains_sub(text, "type)"@) {
        rust_generic(text)
    } else {
        "#[derive(Debug, Clone)]\n"@ + "pub struct "@ + "/* "@ + trim(text) + " */"@ + " {}\n\n"@
    }
}

/// The text in lower case, as `str::to_lowercase` gives it.
pub uninterp spec fn lowercase(s: Seq<char>) -> Seq<char>;

/// `str::to_lowercase`: the text with every character in lower case.
#[verifier::external_body]
fn to_lowercase(s: &str) -> (r: String)
    ensures
        r@ == lowercase(s@),
{
    s.to_lowercase()
}

/// The quoted name of a test: what stands between the first two quotation marks.
pub open spec fn quoted_name(text: Seq<char>) -> Option<Seq<char>> {
    match find_char(text, '"') {
        Some(q1) => match find_char(text.skip(q1 + 1), '"') {
            Some(q2) => Some(text.subrange(q1 + 1, q1 + 1 + q2)),
            None => None,
        },
        None => None,
    }
}

/// The name of the test function: the quoted name with underscores for spaces, in lower
/// case; empty where the text quotes none.
pub open spec fn test_name(text: Seq<char>) -> Seq<char> {
    match quoted_name(text) {
        Some(name) => lowercase(replace(name, " "@, "_"@)),
        None => seq![],
    }
}

/// The body of the first block among the children from child `from` on.
pub open spec fn first_block(node: SyntaxTree, from: int) -> Seq<char>
    decreases node.children.len() - from,
{
    if 0 <= from < node.children.len() {
        if node.children[from].kind == "block"@ {
            rust_block(node.children[from])
        } else {
            first_block(node, from + 1)
        }
    } else {
        seq![]
    }
}

/// A test, for the name `name` of its function.
pub open spec fn rust_test_named(node: SyntaxTree, name: Seq<char>) -> Seq<char> {
    "#[cfg(test)]\n#[test]\nfn "@ + name + "() {\n    // Zig test \u{2192} Rust test\n"@
        + first_block(node, 0) + "}\n\n"@
}

/// A test.
pub open spec fn rust_test(node: SyntaxTree) -> Seq<char> {
    rust_test_named(node, test_name(node.text))
}

/// The Rust text for the children of `node` from child `from` on, each walked as a
/// container of its own.
pub open spec fn rust_of_nested(node: SyntaxTree, from: int) -> Seq<char>
    decreases node, 0nat, node.children.len() - from,
{
    if 0 <= from < node.children.len() {
        rust_of(node.children[from]) + rust_of_nested(node, from + 1)
    } else {
        seq![]
    }
}

/// The Rust text for the declaration `c`. A node of no known kind gives the text of its
/// children, each as a container.
pub open spec fn rust_item(c: SyntaxTree) -> Seq<char>
    decreases c, 3nat, 0nat,
{
    let kind = c.kind;
    if kind == "container_declaration"@ || kind == "source_file"@ {
        rust_of(c)
    } else if kind == "variable_declaration"@ {
        rust_variable(c.text)
    } else if kind == "function_declaration"@ {
        rust_function(c)
    } else if kind == "struct_declaration"@ {
        rust_struct(c.text)
    } else if kind == "import_declaration"@ {
        rust_import(c.text)
    } else if kind == "error_set_declaration"@ {
        rust_error_set(c.text)
    } else if kind == "test_declaration"@ {
        rust_test(c)
    } else if kind == "line_comment"@ || kind == "doc_comment"@ {
        c.text + "\n"@
    } else {
        rust_of_nested(c, 0)
    }
}

/// The Rust text for the declarations among the children of `node` from child `from` on.
pub open spec fn rust_of_items(node: SyntaxTree, from: int) -> Seq<char>
    decreases node, 1nat, node.children.len() - from,
{
    if 0 <= from < node.children.len() {
        rust_item(node.children[from]) + rust_of_items(node, from + 1)
    } else {
        seq![]
    }
}

/// The Rust text for the container `node`: the heading, then its declarations. A child of
/// no known kind gives the text of its own children, each as a container.
pub open spec fn rust_of(node: SyntaxTree) -> Seq<char>
    decreases node, 2nat, 0nat,
{
    rust_heading() + rust_of_items(node, 0)
}

/// A Go function as a Zig function, by rewriting its text.
pub open spec fn zig_function_text(text: Seq<char>) -> Seq<char> {
    replace(replace(replace(text, "func "@, "pub fn "@), "error "@, "!void "@), "{\\n"@, "{\\n    "@)
}

/// The Zig text for the declarations among the children of `node` from child `from` on:
/// functions rewritten, types as constants, each followed by a written-out blank line.
pub open spec fn zig_declarations(node: SyntaxTree, from: int) -> Seq<char>
    decreases node.children.len() - from,
{
    if 0 <= from < node.children.len() {
        let c = node.children[from];
        (if c.kind == "function_declaration"@ {
            zig_function_text(c.text) + "\\n\\n"@
        } else if c.kind == "type_declaration"@ || c.kind == "struct_type"@ {
            "pub const "@ + c.text + "\\n\\n"@
        } else {
            seq![]
        }) + zig_declarations(node, from + 1)
    } else {
        seq![]
    }
}

/// The Zig text for the Go tree `node`, declaration by declaration.
pub open spec fn zig_of_go_declarations(node: SyntaxTree) -> Seq<char> {
    "// Translated"@ + " from Go to Zig\\n"@ + "const std = @import(\\\"std\\\");\\n\\n"@
        + zig_declarations(node, 0)
}

fn translate_import(text: &Vec<char>) -> (r: Vec<char>)
    ensures
        r@ == rust_import(text@),
{
    if contains(text, &chars_of("@import(\"std\")")) {
        chars_of("use std;\n")
    } else if contains(text, &chars_of("@import(\"builtin\")")) {
        chars_of("// Note: Zig builtin \u{2192} Rust cfg attributes\n")
    } else {
        let mut r = chars_of("// ");
        push_all(&mut r, text);
        push_str(&mut r, "\n");
        r
    }
}

fn error_variants_of(parts: &Vec<Vec<char>>) -> (r: Vec<char>)
    ensures
        r@ == error_variants(texts(parts@)),
{
    let mut r: Vec<char> = Vec::new();
    let mut i: usize = 0;
    let ghost all = texts(parts@);
    assert(all.take(0) == Seq::<Seq<char>>::empty());
    while i < parts.len()
        invariant
            i <= parts.len(),
            all == texts(parts@),
            r@ == error_variants(all.take(i as int)),
        decreases parts.len() - i,
    {
        let e = trim_of(&parts[i]);
        proof {
            let next = all.take(i + 1);
            assert(next.drop_last() == all.take(i as int));
            assert(next.last() == parts@[i as int]@);
            assert(r@ + Seq::<char>::empty() == r@);
        }
        if e.len() > 0 {
            let mut line = chars_of("    ");
            push_all(&mut line, &e);
            push_str(&mut line, ",\n");
            push_all(&mut r, &line);
        }
        i += 1;
    }
    assert(all.take(parts.len() as int) == all);
    r
}

fn translate_error_set(text: &Vec<char>) -> (r: Vec<char>)
    ensures
        r@ == rust_error_set(text@),
{
    let open = chars_of("error{");
    match find_sub_in(text, &open) {
        Some(start) => match find_sub_in(text, &chars_of("}")) {
            Some(end) => {
                let from: usize = start + open.len();
                if from <= end {
                    let name = trim_of(
                        &replace_of(
                            &replace_of(
                                &trim_of(&slice(text, 0, start)),
                                &chars_of("pub const "),
                                &chars_of(""),
                            ),
                            &chars_of("="),
                            &chars_of(""),
                        ),
                    );
                    let variants = error_variants_of(&split_of(&slice(text, from, end), ','));
                    let mut r = chars_of("#[derive(Debug, Clone, PartialEq)]\n");
                    push_str(&mut r, "pub enum ");
                    push_all(&mut r, &name);
                    push_str(&mut r, " {\n");
                    push_all(&mut r, &variants);
                    push_str(&mut r, "}\n\n");
                    push_str(&mut r, "impl std::fmt::Display for ");
                    push_all(&mut r, &name);
                    push_str(&mut r, " {\n");
                    push_str(
                        &mut r,
                        "    fn fmt(&self, f: &mut std::fmt::Formatter) -> std::fmt::Result {\n",
                    );
                    push_str(&mut r, "        write!(f, \"{:?}\", self)\n");
                    push_str(&mut r, "    }\n");
                    push_str(&mut r, "}\n\n");
                    push_str(&mut r, "impl std::error::Error for ");
                    push_all(&mut r, &name);
                    push_str(&mut r, " {}\n\n");
                    r
                } else {
                    Vec::new()
                }
            },
            None => Vec::new(),
        },
        None => Vec::new(),
    }
}

fn translate_variable(text: &Vec<char>) -> (r: Vec<char>)
    ensures
        r@ == rust_variable(text@),
{
    let mut r = if contains(text, &chars_of("pub ")) {
        chars_of("pub ")
    } else {
        chars_of("")
    };
    if contains(text, &chars_of("const ")) {
        push_str(&mut r, "const");
    } else {
        push_str(&mut r, "let mut");
    }
    push_str(&mut r, "; // ");
    push_all(&mut r, &trim_of(text));
    push_str(&mut r, "\n");
    r
}

fn translate_params(node: &SyntaxNode) -> (r: Vec<char>)
    ensures
        r@ == rust_params(node@),
{
    proof {
        lemma_children(*node);
    }
    let mut parts: Vec<Vec<char>> = Vec::new();
    let mut i: usize = node.children.len();
    assert(texts(parts@) == Seq::<Seq<char>>::empty());
    while i > 0
        invariant
            children_agree(*node),
            i <= node.children.len(),
            texts(parts@) == parameter_texts(node@, i as int),
        decreases i,
    {
        i -= 1;
        if node.children[i].is_kind("parameter") {
            let text = chars_of(node.children[i].text.as_str());
            let ghost before = parts@;
            parts.insert(0, text);
            assert(texts(parts@) == seq![text@] + texts(before));
        }
    }
    join_of(&parts, &chars_of(", "))
}

fn block_line_of(c: &SyntaxNode) -> (r: Vec<char>)
    ensures
        r@ == rust_block_line(c@),
{
    proof {
        lemma_children(*c);
    }
    let text = chars_of(c.text.as_str());
    let mut r = chars_of("    ");
    if c.is_kind("variable_declaration") {
        push_all(&mut r, &trim_of(&translate_variable(&text)));
        push_str(&mut r, "\\n");
        r
    } else if c.is_kind("return_statement") {
        push_all(&mut r, &text);
        push_str(&mut r, "\\n");
        r
    } else if c.is_kind("call_expression") {
        push_all(&mut r, &text);
        push_str(&mut r, ";\\n");
        r
    } else {
        let t = trim_of(&text);
        if t.len() > 0 && !is_str(&t, "{") && !is_str(&t, "}") {
            push_all(&mut r, &t);
            push_str(&mut r, "\\n");
            r
        } else {
            Vec::new()
        }
    }
}

fn translate_block(node: &SyntaxNode) -> (r: Vec<char>)
    ensures
        r@ == rust_block(node@),
{
    proof {
        lemma_children(*node);
    }
    let mut r: Vec<char> = Vec::new();
    let mut i: usize = node.children.len();
    while i > 0
        invariant
            children_agree(*node),
            i <= node.children.len(),
            r@ == rust_block_lines(node@, i as int),
        decreases i,
    {
        i -= 1;
        let mut line = block_line_of(&node.children[i]);
        push_all(&mut line, &r);
        r = line;
    }
    if trim_of(&r).len() == 0 {
        push_str(&mut r, "    // empty body\\n");
    }
    r
}

fn function_head_of(text: &Vec<char>) -> (r: Vec<char>)
    ensures
        r@ == rust_function_head(text@),
{
    let is_async = contains(text, &chars_of("async "));
    let mut r = if is_async {
        chars_of("// Note: Zig async \u{2192} tokio::spawn\n#[tokio::main]\n")
    } else {
        chars_of("")
    };
    if contains(text, &chars_of("pub fn")) {
        push_str(&mut r, "pub ");
    } else {
        push_str(&mut r, "");
    }
    if is_async {
        push_str(&mut r, "async ");
    } else {
        push_str(&mut r, "");
    }
    push_str(&mut r, "fn ");
    r
}

fn translate_function(node: &SyntaxNode) -> (r: Vec<char>)
    ensures
        r@ == rust_function(node@),
{
    proof {
        lemma_children(*node);
    }
    let mut name = chars_of("unnamed");
    let mut params: Vec<Vec<char>> = Vec::new();
    let mut body = chars_of("");
    let mut i: usize = 0;
    assert(texts(params@) == Seq::<Seq<char>>::empty());
    while i < node.children.len()
        invariant
            children_agree(*node),
            i <= node.children.len(),
            function_parts(node@, 0, no_parts()) == function_parts(
                node@,
                i as int,
                FunctionParts { name: name@, params: texts(params@), body: body@ },
            ),
        decreases node.children.len() - i,
    {
        let c = &node.children[i];
        if c.is_kind("identifier") {
            name = chars_of(c.text.as_str());
        } else if c.is_kind("parameter_list") {
            let p = translate_params(c);
            proof {
                lemma_texts_push(params@, p);
            }
            params.push(p);
        } else if c.is_kind("block") {
            body = translate_block(c);
        }
        i += 1;
    }
    let mut r = function_head_of(&chars_of(node.text.as_str()));
    push_all(&mut r, &name);
    push_str(&mut r, "(");
    push_all(&mut r, &join_of(&params, &chars_of(", ")));
    push_str(&mut r, ") void {\n");
    push_all(&mut r, &body);
    push_str(&mut r, "}\n\n");
    r
}

fn translate_comptime_generic(text: &Vec<char>) -> (r: Vec<char>)
    ensures
        r@ == rust_generic(text@),
{
    let keyword = chars_of("fn ");
    let name: Option<Vec<char>> = match find_sub_in(text, &keyword) {
        Some(start) => {
            let rest = slice(text, start, text.len());
            assert(rest@ == text@.skip(start as int));
            match find_char_in(&rest, '(') {
                Some(paren) => if keyword.len() <= paren {
                    Some(trim_of(&slice(text, start + keyword.len(), start + paren)))
                } else {
                    None
                },
                None => None,
            }
        },
        None => None,
    };
    assert(match name {
        Some(n) => generic_name(text@) == Some(n@),
        None => generic_name(text@) is None,
    });
    match name {
        Some(name) => {
            let mut r = chars_of("// Zig comptime function \u{2192} Rust generic struct\n");
            push_str(&mut r, "#[derive(Debug, Clone)]\n");
            push_str(&mut r, "pub struct ");
            push_all(&mut r, &name);
            push_str(&mut r, "<T> {\n");
            push_str(&mut r, "    // Fields translated");
            push_str(&mut r, " from Zig comptime struct\n");
            push_str(
                &mut r,
                "    // Note: Manual review required for accurate field translation\n",
            );
            push_str(&mut r, "    _phantom: std::marker::PhantomData<T>,\n");
            push_str(&mut r, "}\n\n");
            push_str(&mut r, "impl<T> ");
            push_all(&mut r, &name);
            push_str(&mut r, "<T> {\n");
            push_str(&mut r, "    pub fn new() -> Self {\n");
            push_str(&mut r, "        Self { _phantom: std::marker::PhantomData }\n");
            push_str(&mut r, "    }\n");
            push_str(&mut r, "}\n\n");
            r
        },
        None => Vec::new(),
    }
}

fn translate_struct(text: &Vec<char>) -> (r: Vec<char>)
    ensures
        r@ == rust_struct(text@),
{
    if contains(text, &chars_of("comptime")) && contains(text, &chars_of("type)")) {
        translate_comptime_generic(text)
    } else {
        let mut r = chars_of("#[derive(Debug, Clone)]\n");
        push_str(&mut r, "pub struct ");
        push_str(&mut r, "/* ");
        push_all(&mut r, &trim_of(text));
        push_str(&mut r, " */");
        push_str(&mut r, " {}\n\n");
        r
    }
}

fn quoted_name_of(text: &Vec<char>) -> (r: Option<Vec<char>>)
    ensures
        match r {
            Some(n) => quoted_name(text@) == Some(n@),
            None => quoted_name(text@) is None,
        },
{
    match find_char_in(text, '"') {
        Some(q1) => {
            let rest = slice(text, q1 + 1, text.len());
            assert(rest@ == text@.skip(q1 + 1));
            match find_char_in(&rest, '"') {
                Some(q2) => Some(slice(text, q1 + 1, q1 + 1 + q2)),
                None => None,
            }
        },
        None => None,
    }
}

fn test_name_of(text: &Vec<char>) -> (r: Vec<char>)
    ensures
        r@ == test_name(text@),
{
    match quoted_name_of(text) {
        Some(name) => {
            let spaced = string_of(&replace_of(&name, &chars_of(" "), &chars_of("_")));
            chars_of(to_lowercase(spaced.as_str()).as_str())
        },
        None => Vec::new(),
    }
}

/// The test `node` under the function name `name`.
pub fn translate_test_named(node: &SyntaxNode, name: &Vec<char>) -> (r: Vec<char>)
    ensures
        r@ == rust_test_named(node@, name@),
{
    proof {
        lemma_children(*node);
    }
    let mut block: Vec<char> = Vec::new();
    let mut i: usize = node.children.len();
    while i > 0
        invariant
            children_agree(*node),
            i <= node.children.len(),
            block@ == first_block(node@, i as int),
        decreases i,
    {
        i -= 1;
        if node.children[i].is_kind("block") {
            block = translate_block(&node.children[i]);
        }
    }
    let mut r = chars_of("#[cfg(test)]\n#[test]\nfn ");
    push_all(&mut r, name);
    push_str(&mut r, "() {\n    // Zig test \u{2192} Rust test\n");
    push_all(&mut r, &block);
    push_str(&mut r, "}\n\n");
    r
}

fn translate_test(node: &SyntaxNode) -> (r: Vec<char>)
    ensures
        r@ == rust_test(node@),
{
    proof {
        lemma_children(*node);
    }
    let name = test_name_of(&chars_of(node.text.as_str()));
    translate_test_named(node, &name)
}

fn rust_of_nested_of(node: &SyntaxNode) -> (r: Vec<char>)
    ensures
        r@ == rust_of_nested(node@, 0),
    decreases node, 0nat, 0nat,
{
    proof {
        lemma_children(*node);
    }
    let mut r: Vec<char> = Vec::new();
    let mut i: usize = node.children.len();
    while i > 0
        invariant
            children_agree(*node),
            i <= node.children.len(),
            r@ == rust_of_nested(node@, i as int),
        decreases i,
    {
        i -= 1;
        let mut part = walk_zig_node(&node.children[i]);
        push_all(&mut part, &r);
        r = part;
    }
    r
}

fn rust_item_of(c: &SyntaxNode) -> (r: Vec<char>)
    ensures
        r@ == rust_item(c@),
    decreases c, 3nat, 0nat,
{
    proof {
        lemma_children(*c);
    }
    let text = chars_of(c.text.as_str());
    if c.is_kind("container_declaration") || c.is_kind("source_file") {
        walk_zig_node(c)
    } else if c.is_kind("variable_declaration") {
        translate_variable(&text)
    } else if c.is_kind("function_declaration") {
        translate_function(c)
    } else if c.is_kind("struct_declaration") {
        translate_struct(&text)
    } else if c.is_kind("import_declaration") {
        translate_import(&text)
    } else if c.is_kind("error_set_declaration") {
        translate_error_set(&text)
    } else if c.is_kind("test_declaration") {
        translate_test(c)
    } else if c.is_kind("line_comment") || c.is_kind("doc_comment") {
        let mut r = text;
        push_str(&mut r, "\n");
        r
    } else {
        rust_of_nested_of(c)
    }
}

/// The Rust text for the container `node`.
fn walk_zig_node(node: &SyntaxNode) -> (r: Vec<char>)
    ensures
        r@ == rust_of(node@),
    decreases node, 2nat, 0nat,
{
    proof {
        lemma_children(*node);
    }
    let mut items: Vec<char> = Vec::new();
    let mut i: usize = node.children.len();
    while i > 0
        invariant
            children_agree(*node),
            i <= node.children.len(),
            items@ == rust_of_items(node@, i as int),
        decreases i,
    {
        i -= 1;
        let mut part = rust_item_of(&node.children[i]);
        push_all(&mut part, &items);
        items = part;
    }
    let mut r = chars_of("// Translated");
    push_str(
        &mut r,
        " from Zig to Rust\n// comptime \u{2192} const + generics\n// error unions \u{2192} Result<T, E>\n// async/await \u{2192} tokio\n\n",
    );
    push_all(&mut r, &items);
    r
}

/// The Rust text for the Zig tree `root`.
pub fn zig_tree_to_rust(root: &SyntaxNode) -> (r: String)
    ensures
        r@ == rust_of(root@),
{
    proof {
        lemma_children(*root);
    }
    string_of(&walk_zig_node(root))
}

/// Translates Zig to Rust: parses the source, then walks the tree. `None` where the
/// parser gives no tree.
pub fn zig_to_rust(source: &str) -> (r: Option<String>)
    ensures
        match syntax_tree(Grammar::Zig, source@) {
            Some(root) => r is Some && r.unwrap()@ == rust_of(root),
            None => r is None,
        },
{
    match parse(Grammar::Zig, source) {
        Some(root) => Some(zig_tree_to_rust(&root)),
        None => None,
    }
}

/// The Zig text for the Go tree `node`, declaration by declaration.
pub fn go_to_zig(node: &SyntaxNode) -> (r: String)
    ensures
        r@ == zig_of_go_declarations(node@),
{
    proof {
        lemma_children(*node);
    }
    let mut items: Vec<char> = Vec::new();
    let mut i: usize = node.children.len();
    while i > 0
        invariant
            children_agree(*node),
            i <= node.children.len(),
            items@ == zig_declarations(node@, i as int),
        decreases i,
    {
        i -= 1;
        let c = &node.children[i];
        let text = chars_of(c.text.as_str());
        let mut part: Vec<char> = Vec::new();
        if c.is_kind("function_declaration") {
            part = replace_of(
                &replace_of(
                    &replace_of(&text, &chars_of("func "), &chars_of("pub fn ")),
                    &chars_of("error "),
                    &chars_of("!void "),
                ),
                &chars_of("{\\n"),
                &chars_of("{\\n    "),
            );
            push_str(&mut part, "\\n\\n");
        } else if c.is_kind("type_declaration") || c.is_kind("struct_type") {
            part = chars_of("pub const ");
            push_all(&mut part, &text);
            push_str(&mut part, "\\n\\n");
        }
        push_all(&mut part, &items);
        items = part;
    }
    let mut r = chars_of("// Translated");
    push_str(&mut r, " from Go to Zig\\n");
    push_str(&mut r, "const std = @import(\\\"std\\\");\\n\\n");
    push_all(&mut r, &items);
    string_of(&r)
}

} // verus!
