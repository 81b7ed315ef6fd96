use un1c0::error::TranslateError;
use un1c0::python::python_source_to_ueg;
use un1c0::targets::go::map_type_go;
use un1c0::targets::zig::map_type_zig;
use un1c0::targets::{
    body_of, denormalize_of, lower_to_go, lower_to_zig, render_of, split_generic, split_two,
    target_type_of, Target,
};
use un1c0::vocabulary::{classify_of, indentation_in, is_last_in, statement_in, Stmt};
use un1c0::text::{chars_of, string_of};
use un1c0::ueg_python::{lower_to_python, map_type_python};
use un1c0::walker::{indented_lines_of, lower_to_rust, LambdaNode, NodeKind, Ueg};

fn go(t: &str) -> String {
    string_of(&map_type_go(&chars_of(t)))
}

fn zig(t: &str) -> String {
    string_of(&map_type_zig(&chars_of(t)))
}

fn pair(p: Option<(Vec<char>, Vec<char>)>) -> Option<(String, String)> {
    p.map(|(a, b)| (string_of(&a), string_of(&b)))
}

fn node(params: &[(&str, &str)], ret: Option<&str>, body: &[&str], orig: &[&str]) -> LambdaNode {
    LambdaNode {
        name: "f".to_string(),
        params: params.iter().map(|(a, b)| (a.to_string(), b.to_string())).collect(),
        ret: ret.map(String::from),
        body: body.iter().map(|l| l.to_string()).collect(),
        orig_body: orig.iter().map(|l| l.to_string()).collect(),
        ast_fragment: None,
    }
}

fn graph(nodes: Vec<LambdaNode>) -> Ueg {
    Ueg { nodes: nodes.into_iter().map(NodeKind::Lambda).collect() }
}

#[test]
fn go_zig_scaffold_produces_output() {
    let code = "def fib(n: int) -> int:\n    if n <= 1:\n        return n\n    a, b = 0, 1\n    for _ in range(2, n + 1):\n        a, b = b, a + b\n    return b";
    let ueg = python_source_to_ueg(code);
    let go = lower_to_go(&ueg).unwrap();
    let zig = lower_to_zig(&ueg).unwrap();
    assert!(!go.is_empty());
    assert!(!zig.is_empty());
}

#[test]
fn emit_and_write_examples() {
    let code = "def fib(n: int) -> int:\n    if n <= 1:\n        return n\n    a, b = 0, 1\n    for _ in range(2, n + 1):\n        a, b = b, a + b\n    return b";
    let ueg = python_source_to_ueg(code);
    let go = lower_to_go(&ueg).unwrap();
    let zig = lower_to_zig(&ueg).unwrap();
    assert!(go.contains("func ") || go.contains("package main"));
    assert!(zig.contains("pub fn ") || zig.contains("const std"));
}

#[test]
fn fib_transpiles_perfectly() {
    let expected = "fn fib(n: i32) -> i32 {\n    if n <= 1 {\n        return n;\n    }\n    let mut a: i32 = 0;\n    let mut b: i32 = 1;\n    for _ in 2..=n {\n        let temp = a + b;\n        a = b;\n        b = temp;\n    }\n    b\n}\n";
    let code = "def fib(n: int) -> int:\n    if n <= 1:\n        return n\n    a, b = 0, 1\n    for _ in range(2, n + 1):\n        a, b = b, a + b\n    return b";
    let generated = lower_to_rust(&python_source_to_ueg(code)).unwrap();
    let generated = generated.split_whitespace().collect::<Vec<_>>().join(" ");
    let expected = expected.split_whitespace().collect::<Vec<_>>().join(" ");
    assert_eq!(generated, expected);
}

#[test]
fn go_types() {
    assert_eq!(go("i32"), "int");
    assert_eq!(go(["f", "64"].concat().as_str()), "float64");
    assert_eq!(go("String"), "string");
    assert_eq!(go("bool"), "bool");
    assert_eq!(go("Widget"), "Widget");
    assert_eq!(go("List<i32>"), "[]int");
    assert_eq!(go("Vec[String]"), "[]string");
    assert_eq!(go("Option<i32>"), "int");
    assert_eq!(go("Map<String, List<i32>>"), "map[string][]int");
    assert_eq!(go("HashMap<i32, Map<String, bool>>"), "map[int]map[string]bool");
    assert_eq!(go("Dict<String>"), "Dict[string]");
    assert_eq!(go("Set<i32>"), "Set[int]");
    assert_eq!(go("List<i32, String>"), "List[int, string]");
    assert_eq!(go("Result<Vec<i32>, Error>"), "Result[[]int, Error]");
    assert_eq!(go(" Option::<_> "), "interface{}");
    assert_eq!(go("List<>"), "List[]");
}

#[test]
fn zig_types() {
    assert_eq!(zig("i32"), "i32");
    assert_eq!(zig("String"), "[]const u8");
    assert_eq!(zig("List<String>"), "[][]const u8");
    assert_eq!(zig("Option<bool>"), "?bool");
    assert_eq!(zig("Option<List<String>>"), "?[][]const u8");
    assert_eq!(zig("Map<String, i32>"), "std.hash_map.HashMap([]const u8, i32)");
    assert_eq!(zig("Set<i32>"), "Set(i32)");
    assert_eq!(zig("Pair<i32, Option<String>>"), "Pair(i32, ?[]const u8)");
    assert_eq!(zig("Option::<_>"), "?anytype");
    assert_eq!(string_of(&denormalize_of(&chars_of("Vec<Vec<i32>>"), Target::Zig)), "[][]i32");
}

#[test]
fn placeholder_becomes_the_dynamic_type() {
    assert_eq!(string_of(&target_type_of("_", Target::Go)), "interface{}");
    assert_eq!(string_of(&target_type_of("_", Target::Zig)), "anytype");
    assert_eq!(string_of(&target_type_of("List[int]", Target::Go)), "[]int");
    assert_eq!(string_of(&target_type_of("str", Target::Zig)), "[]const u8");
    assert_eq!(string_of(&target_type_of("_", Target::Python)), "Any");
    assert_eq!(string_of(&target_type_of("List[List[str]]", Target::Python)), "List[List[str]]");
}

#[test]
fn python_types() {
    let py = |t: &str| string_of(&map_type_python(&chars_of(t)));
    assert_eq!(py("i32"), "int");
    assert_eq!(py(["f", "64"].concat().as_str()), "float");
    assert_eq!(py(" String "), "str");
    assert_eq!(py("bool"), "bool");
    assert_eq!(py("Option::<_>"), "Optional[Any]");
    assert_eq!(py("List<i32>"), "List[int]");
    assert_eq!(py("Option<String>"), "Optional[str]");
    assert_eq!(py("Map<String, Vec<bool>>"), "Dict[str, List[bool]]");
    assert_eq!(py("Set<i32>"), "Set[int]");
    assert_eq!(py("Result<i32, Option<String>>"), "Result[int, Optional[str]]");
}

#[test]
fn generic_parts_and_two_arguments() {
    assert_eq!(pair(split_generic(&chars_of("Map <a, b>"))), Some(("Map".to_string(), "a, b".to_string())));
    assert_eq!(pair(split_generic(&chars_of("List[x]"))), Some(("List".to_string(), "x".to_string())));
    assert_eq!(pair(split_generic(&chars_of("f(x)"))), None);
    assert_eq!(pair(split_two(&chars_of("a<b, c>, d"))), Some(("a<b, c>".to_string(), "d".to_string())));
    assert_eq!(pair(split_two(&chars_of("(a, b)"))), None);
    assert_eq!(pair(split_two(&chars_of("(a, b), c"))), Some(("(a, b)".to_string(), "c".to_string())));
    assert_eq!(pair(split_two(&chars_of("a<b, c>"))), None);
}

fn c(t: &str) -> Vec<char> {
    chars_of(t)
}

#[test]
fn every_statement_has_its_kind() {
    let k = |t: &str| classify_of(&chars_of(t));
    assert_eq!(k(""), Stmt::Blank);
    assert_eq!(k("}"), Stmt::Close);
    assert_eq!(k("// TODO: y"), Stmt::Marker(c("TODO: y")));
    assert_eq!(k("//"), Stmt::Marker(c("")));
    assert_eq!(k("if a < b {"), Stmt::IfOpen(c("a < b")));
    assert_eq!(k("if {"), Stmt::IfOpen(c("")));
    assert_eq!(k("if a"), Stmt::Expr(c("if a")));
    assert_eq!(k("for _ in 2..=n {"), Stmt::ForOpen(c("2"), c("n")));
    assert_eq!(k("for _ in  a + 1 ..= f(b) {"), Stmt::ForOpen(c("a + 1"), c("f(b)")));
    assert_eq!(k("for _ in a..b {"), Stmt::Expr(c("for _ in a..b {")));
    assert_eq!(k("let mut a: i32 = 0;"), Stmt::Declare(c("a"), Some(c("i32")), c("0")));
    assert_eq!(k("let temp = a + b;"), Stmt::Declare(c("temp"), None, c("a + b")));
    assert_eq!(k("let x :  = 1"), Stmt::Declare(c("x"), None, c("1")));
    assert_eq!(k("let x;"), Stmt::Plain(c("let x")));
    assert_eq!(k("return a + b;"), Stmt::Return(c("a + b")));
    assert_eq!(k("return  n ;;"), Stmt::Return(c("n")));
    assert_eq!(k("println!(\"{}\", f(x, y));"), Stmt::Print(c("f(x, y)")));
    assert_eq!(k("println!(x)"), Stmt::Print(c("x")));
    assert_eq!(k("a = b;"), Stmt::Plain(c("a = b")));
    assert_eq!(k("a + b"), Stmt::Expr(c("a + b")));
    assert_eq!(statement_in(&c("    return n;")), Stmt::Return(c("n")));
    assert_eq!(string_of(&indentation_in(&c("  \t x"))), "  \t ");
    assert_eq!(string_of(&indentation_in(&c("x "))), "");
}

#[test]
fn the_last_statement_is_known() {
    let body = vec![c("a"), c("b"), c("  "), c("")];
    assert!(!is_last_in(&body, 0));
    assert!(is_last_in(&body, 1));
    assert!(is_last_in(&body, 3));
}

#[test]
fn every_kind_is_rendered_in_every_target() {
    let all = [
        Stmt::Blank,
        Stmt::IfOpen(c("a < b")),
        Stmt::Close,
        Stmt::Declare(c("a"), Some(c("List[str]")), c("0")),
        Stmt::Declare(c("t"), None, c("a + b")),
        Stmt::ForOpen(c("1"), c("n")),
        Stmt::Return(c("a")),
        Stmt::Print(c("a")),
        Stmt::Marker(c("TODO: y")),
        Stmt::Marker(c("TODO: \"doc\"")),
        Stmt::Plain(c("a = b")),
        Stmt::Expr(c("a + b")),
    ];
    let render = |t: Target, last: bool| -> String {
        all.iter().map(|s| string_of(&render_of(s, last, &c("  "), t))).collect()
    };
    assert_eq!(
        render(Target::Go, false),
        "\n  if a < b {\n  }\n  a := 0\n  t := a + b\n  for i := 1; i <= n; i++ {\n  return a\n  fmt.Println(a)\n  // TODO: y\n  // TODO: \"doc\"\n  a = b\n  // a + b\n"
    );
    assert_eq!(
        render(Target::Zig, true),
        "\n  if (a < b) {\n  }\n  var a: [][]const u8 = 0;\n  var t = a + b;\n  var i: i32 = 1;\n  while (i <= n) : (i += 1) {\n  return a;\n  std.debug.print(\"{}\\n\", .{a});\n  // TODO: y\n  // TODO: \"doc\"\n  a = b;\n  return a + b;\n"
    );
    assert_eq!(
        render(Target::Python, true),
        "\n  if a < b:\n  a = 0\n  t = a + b\n  for _ in range(1, n + 1):\n  return a\n  print(a)\n  # TODO: y\n  \"doc\"\n  a = b\n  return a + b\n"
    );
}

#[test]
fn a_body_is_rendered_line_by_line() {
    let body = vec!["if a {".to_string(), "    x".to_string(), "}".to_string(), "x".to_string(), "".to_string()];
    assert_eq!(string_of(&body_of(&body, Target::Go)), "    if a {\n        // x\n    }\n    return x\n\n");
    assert_eq!(string_of(&body_of(&Vec::new(), Target::Python)), "");
}

#[test]
fn rust_lowering_of_every_part() {
    let n = node(&[("a", "_"), ("b", "i32")], None, &["x", ""], &[]);
    assert_eq!(lower_to_rust(&graph(vec![n])).unwrap(), "fn f(a: impl std::fmt::Debug, b: i32) {\n    x\n    \n}\n");
    let two = graph(vec![node(&[], Some("i32"), &["1"], &[]), node(&[], None, &[], &[])]);
    assert_eq!(lower_to_rust(&two).unwrap(), "fn f() -> i32 {\n    1\n}\nfn f() {\n}\n");
    assert_eq!(string_of(&indented_lines_of(&vec!["a".to_string(), "b".to_string()])), "    a\n    b\n");
}

#[test]
fn go_lowering_of_every_statement() {
    let n = node(
        &[("a", "_"), ("m", "Map[str, int]")],
        Some("List[str]"),
        &["if a > 0 {", "    return a;", "}", "let mut x: i32 = 1;", "x = 2;", "println!(\"{}\", x);", "// TODO: y"],
        &[],
    );
    let expected = "package main\n\nimport \"fmt\"\n\nfunc f(a interface{}, m map[string]int) []string {\n    if a > 0 {\n        return a\n    }\n    x := 1\n    x = 2\n    fmt.Println(x)\n    // TODO: y\n}\n";
    assert_eq!(lower_to_go(&graph(vec![n])).unwrap(), expected);
}

#[test]
fn zig_lowering_of_every_statement() {
    let n = node(
        &[("a", "_")],
        None,
        &["let mut x: i32 = 1;", "x = 2", "println!(\"{}\", x)", "b"],
        &[],
    );
    let expected = "const std = @import(\"std\");\n\npub fn f(a: anytype) void {\n    var x: i32 = 1;\n    // x = 2\n    std.debug.print(\"{}\\n\", .{x});\n    return b;\n}\n";
    assert_eq!(lower_to_zig(&graph(vec![n])).unwrap(), expected);
}

#[test]
fn python_lowering_without_source_lines() {
    let n = node(
        &[("a", "_"), ("b", "String")],
        Some("i32"),
        &["if a > 0 {", "    return a;", "}", "let mut x: i32 = b;", "println!(\"{}\", x);", "// TODO: \"\"\"doc\"\"\"", "// TODO: y", "x"],
        &[],
    );
    let expected = "def f(a, b: str) -> int:\n    if a > 0:\n        return a\n    x = b\n    print(x)\n    \"\"\"doc\"\"\"\n    # TODO: y\n    return x\n";
    assert_eq!(lower_to_python(&graph(vec![n])).unwrap(), expected);
}

#[test]
fn python_lowering_from_source_lines() {
    let whole = node(&[], None, &["ignored"], &["    @cache", "    def f():", "", "        return 1", "\u{a0}\u{a0}\u{a0}"]);
    assert_eq!(lower_to_python(&graph(vec![whole])).unwrap(), "@cache\ndef f():\n\n    return 1\n\u{a0}\n");
    let lines = node(&[("a", "i32")], None, &["ignored"], &["  x = 1", "  return x"]);
    assert_eq!(lower_to_python(&graph(vec![lines])).unwrap(), "def f(a: int):\n    x = 1\n    return x\n");
    let blank = node(&[], None, &["1"], &["  ", ""]);
    assert_eq!(lower_to_python(&graph(vec![blank])).unwrap(), "def f():\n    return 1\n");
}

#[test]
fn every_backend_refuses_the_empty_graph() {
    let empty = Ueg::new();
    assert_eq!(lower_to_rust(&empty), Err(TranslateError::NoTranslatableUnit));
    assert_eq!(lower_to_python(&empty), Err(TranslateError::NoTranslatableUnit));
    assert_eq!(lower_to_go(&empty), Err(TranslateError::NoTranslatableUnit));
    assert_eq!(lower_to_zig(&empty), Err(TranslateError::NoTranslatableUnit));
}

#[test]
fn tuples_are_spelled_for_each_target() {
    let py = |t: &str| string_of(&map_type_python(&chars_of(t)));
    assert_eq!(go("(i32, String)"), "Tuple[int, string]");
    assert_eq!(zig("(i32, String)"), "struct { i32, []const u8 }");
    assert_eq!(py("(i32, String)"), "Tuple[int, str]");
    assert_eq!(go("Map<(i32, i32), String>"), "map[Tuple[int, int]]string");
    assert_eq!(zig("List<(i32, Option<bool>)>"), "[]struct { i32, ?bool }");
    assert_eq!(py("Option<(i32, (String, bool))>"), "Optional[Tuple[int, Tuple[str, bool]]]");
    assert_eq!(string_of(&target_type_of("int, str", Target::Python)), "Tuple[int, str]");
    assert_eq!(string_of(&target_type_of("List[int]]", Target::Go)), "List[int]]");
    assert_eq!(go("List<i32>>"), "List<i32>>");
    assert_eq!(zig("Map<String, List<i32>"), "Map<String, List<i32>");
}
