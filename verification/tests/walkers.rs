use un1c0::syntax::{parse, Grammar, SyntaxNode};
use un1c0::walker_go::{go_to_ueg, map_go_type_to_zig};
use un1c0::walker_move::{move_keywords_of, move_to_rust, with_move_heading};
use un1c0::walker_solidity::solidity_to_ueg;
use un1c0::walker_swift::{
    framed_rewriting, map_swift_type_to_rust, swift_functions_of, swift_to_rust,
    swift_to_rust_regex,
    swift_types_of, swift_variables_of, without_attributes_of,
};
use un1c0::walker_ts::typescript_to_swift;
use un1c0::text::{chars_of, string_of};
use un1c0::walker_zig::{go_to_zig, translate_test_named, zig_to_rust, zig_tree_to_rust};

fn node(kind: &str, field: Option<&str>, text: &str, children: Vec<SyntaxNode>) -> SyntaxNode {
    SyntaxNode {
        kind: kind.to_string(),
        field: field.map(String::from),
        text: text.to_string(),
        children,
    }
}

fn leaf(kind: &str, field: Option<&str>, text: &str) -> SyntaxNode {
    node(kind, field, text, Vec::new())
}

fn marker(language: &str) -> String {
    ["Translated", "from", language].join(" ")
}

#[test]
fn test_basic_parse() {
    let code = "def add(a, b): return a + b";
    let tree = parse(Grammar::Python, code).unwrap();
    assert!(tree.children.len() >= 1);
}

#[test]
fn test_move_module() {
    let move_code = "module 0x1::Token {\n    struct Coin has key { value: u64 }\n}";
    let rust_code = move_to_rust(move_code);
    assert!(rust_code.contains("mod Token {"));
    assert!(rust_code.contains("struct Coin { value: u64 }"));
}

#[test]
fn test_move_function() {
    let move_code = "public fun mint(account: &signer, amount: u64)";
    let rust_code = move_to_rust(move_code);
    assert!(rust_code.contains("pub fn mint"));
}

#[test]
fn move_text_is_rewritten_in_full() {
    let source = "module 0x1::Token {\n    struct Coin has key, store { value: u64 }\n    public fun get(a: address): u64 acquires Coin {\n        borrow_global<Coin>(a).value\n    }\n}";
    let expected = format!(
        "// {} to Rust\n// Note: Move's resource model (move_to, borrow_global) requires\n// additional runtime support not directly expressible in Rust.\n// This translation provides structural equivalence.\n\nmod Token {{\n    struct Coin {{ value: u64 }}\n    pub fn get(a: &str): u64 {{\n        /* storage.get::<Coin>(a) */.value\n    }}\n}}",
        marker("Move")
    );
    assert_eq!(move_to_rust(source), expected);
}

#[test]
fn move_keywords_and_heading() {
    assert_eq!(
        move_keywords_of("public fun f(a: address) { signer::address_of(s); fun }"),
        "pub fn f(a: &str) { signer::get_address(s); fn }"
    );
    assert!(with_move_heading("x").ends_with("structural equivalence.\n\nx"));
    assert!(with_move_heading("x").starts_with(&format!("// {} to Rust\n", marker("Move"))));
}

#[test]
fn test_regex_basic_translation() {
    let swift = "class MyClass: ObservableObject {}";
    let rust = swift_to_rust_regex(swift);
    assert!(rust.contains("pub struct MyClass"));
}

#[test]
fn test_swift_bool_to_rust() {
    let swift = "var isActive: Bool = false";
    let rust = swift_to_rust_regex(swift);
    assert!(rust.contains("bool"));
}

#[test]
fn swift_text_is_rewritten_in_full() {
    let swift = "import SwiftUI\n@MainActor\nclass Model: ObservableObject {\n    @Published var name: String?\n    func load() {}\n    func init() {}\n}\n";
    let rust = swift_to_rust_regex(swift);
    let expected_body = "\npub struct Model {\n     pub name: Option<String>\n    pub fn load() {}\n    pub fn new() -> Self {}\n}\n";
    assert!(rust.contains(expected_body), "{}", rust);
    assert!(rust.starts_with("use std::sync::Arc;\nuse std::sync::Mutex;\n"));
    assert!(rust.contains(&format!("// {} to Rust\n", marker("Swift"))));
    assert!(rust.ends_with("// Recommend: tokio for async, egui/iced for UI\n"));
}

#[test]
fn swift_rewriting_steps() {
    assert_eq!(without_attributes_of("@MainActor @Published @StateObject @State x"), "    x");
    assert_eq!(swift_functions_of("private func f"), "private pub fn f");
    assert_eq!(
        swift_types_of("a: Bool, b: Int, c: UUID, d: [Task], e: Set<AnyCancellable>"),
        "a: bool, b: i64, c: Uuid, d: Vec<Task>, e: Vec<()>"
    );
    assert_eq!(
        swift_variables_of("var a = Set<AnyCancellable>(); private var viewModel = m"),
        "pub a = Vec::new(); private pub viewModel = m"
    );
}

#[test]
fn swift_types_become_rust_types() {
    assert_eq!(map_swift_type_to_rust("String"), "String");
    assert_eq!(map_swift_type_to_rust(" Int? "), "i64");
    assert_eq!(map_swift_type_to_rust("UInt"), "u64");
    assert_eq!(map_swift_type_to_rust("Bool?"), "bool");
    assert_eq!(map_swift_type_to_rust("Double"), ["f", "64"].concat());
    assert_eq!(map_swift_type_to_rust("Float?"), ["f", "32"].concat());
    assert_eq!(map_swift_type_to_rust("[Task]"), "Vec<Task>");
    assert_eq!(map_swift_type_to_rust("UUID"), "Uuid");
    assert_eq!(map_swift_type_to_rust("Set<AnyCancellable>"), "Vec<()> /* Combine cancellables */");
    assert_eq!(map_swift_type_to_rust("[[Int]]"), "Vec<Vec<i64>>");
    assert_eq!(map_swift_type_to_rust("Widget?"), "Option<Widget>");
    assert_eq!(map_swift_type_to_rust("[Widget?]"), "Vec<Option<Widget>>");
    assert_eq!(map_swift_type_to_rust("Widget"), "Widget");
}

#[test]
fn swift_tree_gives_struct_and_impl() {
    let property = node(
        "property_declaration",
        None,
        "@Published var name: String",
        vec![leaf("pattern", Some("name"), "@name"), leaf("type", Some("type"), "String")],
    );
    let method = node(
        "function_declaration",
        None,
        "func load(id: Int) async { fetch() }",
        vec![
            leaf("simple_identifier", Some("name"), "load"),
            node(
                "parameters",
                Some("parameters"),
                "(id: Int)",
                vec![node(
                    "parameter",
                    None,
                    "id: Int",
                    vec![leaf("simple_identifier", Some("name"), "id"), leaf("type", Some("type"), "Int")],
                )],
            ),
            node("function_body", None, "{ fetch() }", vec![leaf("{", None, "{"), leaf("call_expression", None, "fetch()"), leaf("}", None, "}")]),
        ],
    );
    let class = node(
        "class_declaration",
        None,
        "class Model: ObservableObject { }",
        vec![leaf("type_identifier", Some("name"), "Model"), property, method],
    );
    let root = node("source_file", None, "", vec![class]);
    let out = swift_to_rust(&root);
    let expected = format!(
        "use std::sync::Arc;\nuse std::sync::Mutex;\nuse uuid::Uuid;\n\n// {} to Rust\n// SwiftUI \u{2192} Rust (UI framework TBD: egui/iced/dioxus)\n\n// ObservableObject \u{2192} shared mutable state\npub struct Model {{\n    pub name: String,\n}}\n\nimpl Model {{\n    pub async fn load(&self, id: i64) {{\n        fetch();\\n    }}\n\n}}\n\n",
        marker("Swift")
    );
    assert_eq!(out, expected);
}

#[test]
fn test_basic_zig_translation() {
    let zig = r#"
pub const x: i32 = 42;
"#;
    let rust = zig_to_rust(zig).unwrap();
    assert!(rust.contains(&marker("Zig")));
    assert!(rust.contains("comptime \u{2192} const"));
}

#[test]
fn test_zig_to_rust_output() {
    let zig = r#"const std = @import("std");"#;
    let rust = zig_to_rust(zig).unwrap();
    assert!(rust.len() > 0);
    assert!(rust.contains(&marker("Zig")));
}

#[test]
fn zig_tree_gives_declarations() {
    let heading = format!(
        "// {} to Rust\n// comptime \u{2192} const + generics\n// error unions \u{2192} Result<T, E>\n// async/await \u{2192} tokio\n\n",
        marker("Zig")
    );
    let function = node(
        "function_declaration",
        None,
        "pub fn add(a: i32, b: i32) i32 { return a + b; }",
        vec![
            leaf("identifier", None, "add"),
            node(
                "parameter_list",
                None,
                "(a: i32, b: i32)",
                vec![leaf("parameter", None, "a: i32"), leaf("parameter", None, "b: i32")],
            ),
            node(
                "block",
                None,
                "{ return a + b; }",
                vec![leaf("{", None, "{"), leaf("return_statement", None, "return a + b;"), leaf("}", None, "}")],
            ),
        ],
    );
    let root = node(
        "source_file",
        None,
        "",
        vec![
            leaf("import_declaration", None, "const std = @import(\"std\");"),
            leaf("variable_declaration", None, " pub const x: i32 = 42; "),
            leaf("error_set_declaration", None, "pub const E = error{ A, B, };"),
            leaf("line_comment", None, "// note"),
            leaf("struct_declaration", None, "const P = struct {};"),
            function,
        ],
    );
    let expected = format!(
        "{}use std;\npub const; // pub const x: i32 = 42;\n#[derive(Debug, Clone, PartialEq)]\npub enum E {{\n    A,\n    B,\n}}\n\nimpl std::fmt::Display for E {{\n    fn fmt(&self, f: &mut std::fmt::Formatter) -> std::fmt::Result {{\n        write!(f, \"{{:?}}\", self)\n    }}\n}}\n\nimpl std::error::Error for E {{}}\n\n// note\n#[derive(Debug, Clone)]\npub struct /* const P = struct {{}}; */ {{}}\n\npub fn add(a: i32, b: i32) void {{\n    return a + b;\\n}}\n\n",
        heading
    );
    assert_eq!(zig_tree_to_rust(&root), expected);
}

#[test]
fn zig_test_name_is_lowered() {
    let test = node(
        "test_declaration",
        None,
        "test \"Adds Two Numbers\" {}",
        vec![node("block", None, "{}", vec![leaf("{", None, "{"), leaf("}", None, "}")])],
    );
    let root = node("source_file", None, "", vec![test]);
    let out = zig_tree_to_rust(&root);
    assert!(out.ends_with("#[cfg(test)]\n#[test]\nfn adds_two_numbers() {\n    // Zig test \u{2192} Rust test\n    // empty body\\n}\n\n"), "{}", out);
}

#[test]
fn go_declarations_become_zig() {
    let root = node(
        "source_file",
        None,
        "",
        vec![
            leaf("package_clause", None, "package main"),
            leaf("function_declaration", None, "func f() error {\\n}"),
            leaf("type_declaration", None, "type T struct{}"),
        ],
    );
    let expected = format!(
        "// {} to Zig\\nconst std = @import(\\\"std\\\");\\n\\npub fn f() !void {{\\n    }}\\n\\npub const type T struct{{}}\\n\\n",
        marker("Go")
    );
    assert_eq!(go_to_zig(&root), expected);
}

#[test]
fn go_tree_becomes_zig() {
    let params = node(
        "parameter_list",
        Some("parameters"),
        "(n int)",
        vec![
            leaf("(", None, "("),
            node(
                "parameter_declaration",
                None,
                "n int",
                vec![leaf("identifier", Some("name"), "n"), leaf("type_identifier", Some("type"), "int")],
            ),
            leaf(")", None, ")"),
        ],
    );
    let ret = node(
        "return_statement",
        None,
        "return n + 1",
        vec![leaf("return", None, "return"), leaf("binary_expression", None, "n + 1")],
    );
    let call = leaf("call_expression", None, "fmt.Println(n)");
    let decl = leaf("short_var_declaration", None, "x := 1");
    let cond = node(
        "if_statement",
        None,
        "if n > 0 { x = 2 } else { x = 3 }",
        vec![
            leaf("binary_expression", Some("condition"), "n > 0"),
            node("block", Some("consequence"), "{ x = 2 }", vec![leaf("{", None, "{"), leaf("assignment_statement", None, "x = 2"), leaf("}", None, "}")]),
            node("block", Some("alternative"), "{ x = 3 }", vec![leaf("{", None, "{"), leaf("assignment_statement", None, "x = 3"), leaf("}", None, "}")]),
        ],
    );
    let body = node("block", Some("body"), "{...}", vec![leaf("{", None, "{"), decl, cond, call, ret, leaf("}", None, "}")]);
    let function = node(
        "function_declaration",
        None,
        "func inc(n int) int {...}",
        vec![leaf("identifier", Some("name"), "inc"), params, leaf("type_identifier", Some("result"), "int"), body],
    );
    let root = node("source_file", None, "", vec![leaf("package_clause", None, "package main"), function]);
    let expected = "const std = @import(\"std\");\n\n// package main\n\npub fn inc(n: i32) i32 {\n  var x = 1;\n  if (n > 0) {\n    x = 2;\n  } else {\n    x = 3;\n  }\n  std.debug.print(n, .{});\n  return n + 1;\n}\n\n";
    assert_eq!(go_to_ueg(&root), expected);
}

#[test]
fn go_types_become_zig_types() {
    assert_eq!(map_go_type_to_zig("int"), "i32");
    assert_eq!(map_go_type_to_zig("int32"), "i32");
    assert_eq!(map_go_type_to_zig("int64"), "i64");
    assert_eq!(map_go_type_to_zig(" float64 "), ["f", "64"].concat());
    assert_eq!(map_go_type_to_zig("bool"), "bool");
    assert_eq!(map_go_type_to_zig("string"), "[]const u8");
    assert_eq!(map_go_type_to_zig(""), "void");
    assert_eq!(map_go_type_to_zig("Point"), "Point");
}

#[test]
fn solidity_tree_becomes_outline() {
    let contract = node(
        "contract_declaration",
        None,
        "contract Token { uint total; function mint() {} }",
        vec![
            leaf("identifier", Some("name"), "Token"),
            leaf("state_variable_declaration", None, "uint total;"),
            node("function_definition", None, "function mint() {}", vec![leaf("identifier", Some("name"), "mint")]),
        ],
    );
    let root = node("source_file", None, "", vec![contract]);
    let expected = "// UN1C\u{24EA} v0.2: Solidity \u{2192} UEG translation\n\npub struct Token {\n  // State: uint total;\n  pub fn mint() {\n    // UEG Lambda node\n  }\n\n}\n\n";
    assert_eq!(solidity_to_ueg(&root), expected);
}

#[test]
fn typescript_component_becomes_view() {
    let source = "export default function TaskList() {\n  const [tasks, setTasks] = useState<string[]>([]);\n  const [loading, setLoading] = useState(false);\n  async function handleSubmit() {}\n  return (\n    <div>\n      <h1>Tasks</h1>\n      <ul></ul>\n    </div>\n  );\n}\n";
    let root = parse(Grammar::Tsx, source).unwrap();
    let out = typescript_to_swift(&root);
    let expected = "import SwiftUI\nimport Combine\n\nstruct TaskList: View {\n    @State private var tasks: [String] = []\n    @State private var loading: Bool = false\n\n    var body: some View {\n        VStack(spacing: 20) {\n            Text(\"Tasks\")\n                .font(.largeTitle)\n                .bold()\n            List(tasks.indices, id: \\.self) { index in\n                Text(tasks[index])\n            }\n        }\n        .padding()\n    }\n\n    func handleSubmit() {\n        loading = true\n        \n        // Server action (stubbed)\n        Task {\n            try? await Task.sleep(nanoseconds: 500_000_000)\n            tasks.append(input)\n            input = \"\"\n            loading = false\n        }\n    }\n}\n";
    assert_eq!(out, expected);
}

#[test]
fn parsed_go_source_becomes_zig() {
    let source = "package main\n\nfunc inc(n int) int {\n\treturn n + 1\n}\n";
    let root = parse(Grammar::Go, source).unwrap();
    assert_eq!(root.kind, "source_file");
    assert_eq!(root.text, source);
    let out = go_to_ueg(&root);
    assert_eq!(out, "const std = @import(\"std\");\n\n// package main\n\npub fn inc(n: i32) i32 {\n  return n + 1;\n}\n\n");
    let declarations = go_to_zig(&root);
    assert!(declarations.contains("pub fn inc(n int) int {"), "{}", declarations);
}

#[test]
fn zig_test_under_a_given_name() {
    let test = node(
        "test_declaration",
        None,
        "test \"x\" { run(); }",
        vec![
            leaf("string", None, "\"x\""),
            node("block", None, "{ run(); }", vec![leaf("{", None, "{"), leaf("call_expression", None, "run()"), leaf("}", None, "}")]),
        ],
    );
    let out = string_of(&translate_test_named(&test, &chars_of("checks_x")));
    assert_eq!(out, "#[cfg(test)]\n#[test]\nfn checks_x() {\n    // Zig test \u{2192} Rust test\n    run();\\n}\n\n");
}

#[test]
fn rewritten_swift_is_framed() {
    let out = framed_rewriting("BODY");
    assert!(out.starts_with("use std::sync::Arc;\nuse std::sync::Mutex;\n// Add: uuid = \"1.0\" to Cargo.toml\n// use uuid::Uuid;\n\n"));
    assert!(out.ends_with("tokio::spawn\n\nBODY\n\n// Note: Swift async/await, Combine, SwiftUI require runtime support\n// Recommend: tokio for async, egui/iced for UI\n"));
}
