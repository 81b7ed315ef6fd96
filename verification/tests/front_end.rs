use un1c0::python::{is_declared_in, python_source_to_ueg, python_to_ueg};
use un1c0::text::chars_of;
use un1c0::statements::translate_body_to_rust_like;
use un1c0::syntax::{parse, Grammar};
use un1c0::ueg_python::lower_to_python;
use un1c0::walker::{LambdaNode, NodeKind};

const FIB: &str = "def fib(n: int) -> int:\n    if n <= 1:\n        return n\n    a, b = 0, 1\n    for _ in range(2, n + 1):\n        a, b = b, a + b\n    return b";

fn unit(src: &str) -> LambdaNode {
    let ueg = python_source_to_ueg(src);
    assert_eq!(ueg.nodes.len(), 1);
    let NodeKind::Lambda(l) = ueg.nodes[0].clone();
    l
}

fn body(lines: &[&str]) -> Vec<String> {
    translate_body_to_rust_like(&lines.iter().map(|l| l.to_string()).collect())
}

#[test]
fn ueg_to_python_roundtrip() {
    let code = FIB;
    let root = parse(Grammar::Python, code).unwrap();
    let ueg = python_to_ueg(&root, code.as_bytes());
    assert!(!ueg.nodes.is_empty());
    let py = lower_to_python(&ueg).unwrap();
    assert!(py.contains("def fib("));
}

#[test]
fn signature_is_read() {
    let l = unit(FIB);
    assert_eq!(l.name, "fib");
    assert_eq!(l.params, vec![("n".to_string(), "i32".to_string())]);
    assert_eq!(l.ret, Some("i32".to_string()));
    assert_eq!(
        l.ast_fragment,
        Some("{\"name\": \"fib\",\"params\": [{\"n\":\"n\",\"t\":\"i32\"}],\"ret\": \"i32\"}".to_string())
    );
}

#[test]
fn body_is_translated_and_source_is_kept() {
    let l = unit(FIB);
    assert_eq!(
        l.body,
        vec![
            "if n <= 1 {",
            "    return n;",
            "}",
            "let mut a: i32 = 0;",
            "let mut b: i32 = 1;",
            "for _ in 2..=n {",
            "    let temp = a + b;",
            "    a = b;",
            "    b = temp;",
            "}",
            "b",
        ]
    );
    let source: Vec<String> = FIB.lines().map(String::from).collect();
    assert_eq!(l.orig_body, source);
}

#[test]
fn parameters_without_annotation_get_the_placeholder() {
    let l = unit("def add(a, b : float , c: List[int]):\n    return a");
    assert_eq!(
        l.params,
        vec![
            ("a".to_string(), "_".to_string()),
            ("b".to_string(), ["f", "64"].concat()),
            ("c".to_string(), "List<i32>".to_string()),
        ]
    );
    assert_eq!(l.ret, None);
    assert_eq!(
        l.ast_fragment,
        Some(format!(
            "{{\"name\": \"add\",\"params\": [{{\"n\":\"a\",\"t\":\"_\"}},{{\"n\":\"b\",\"t\":\"{}\"}},{{\"n\":\"c\",\"t\":\"List<i32>\"}}]}}",
            ["f", "64"].concat()
        ))
    );
}

#[test]
fn generic_annotations_are_read_whole() {
    let l = unit("def f(m: Map[str, List[int]], n: int = 3) -> Dict[str, int]:\n    return m");
    assert_eq!(
        l.params,
        vec![
            ("m".to_string(), "Map<String, List<i32>>".to_string()),
            ("n".to_string(), "int = 3".to_string()),
        ]
    );
    assert_eq!(l.ret, Some("Dict<String, i32>".to_string()));
}

#[test]
fn source_without_unit_gives_the_empty_graph() {
    assert!(python_source_to_ueg("").nodes.is_empty());
    assert!(python_source_to_ueg("x = 1\nprint(x)\n").nodes.is_empty());
    assert!(python_source_to_ueg("definitely not\n").nodes.is_empty());
    assert!(python_source_to_ueg("def (x):\n    return x\n").nodes.is_empty());
}

#[test]
fn an_indented_declaration_is_read_too() {
    let l = unit("x = 1\n    def f():\n        pass\n");
    assert_eq!(l.name, "f");
    assert_eq!(l.orig_body, vec!["    def f():", "        pass"]);
}

#[test]
fn only_the_first_unit_is_read() {
    let l = unit("import os\n\n# about f\n@cache\n\ndef f(x):\n    return x\n\ndef g(y):\n    return y\n");
    assert_eq!(l.name, "f");
    assert_eq!(l.body, vec!["x"]);
    assert_eq!(l.orig_body, vec!["", "# about f", "@cache", "", "def f(x):", "    return x", ""]);
}

#[test]
fn bytes_that_are_no_text_are_replaced() {
    let root = parse(Grammar::Python, "def f(): pass").unwrap();
    let ueg = python_to_ueg(&root, b"def f\xff(x):\n    return x\n");
    let NodeKind::Lambda(l) = &ueg.nodes[0];
    assert_eq!(l.name, "f\u{fffd}");
}

#[test]
fn conditional_takes_its_return() {
    assert_eq!(body(&["if x > 0:", "return x", "y"]), vec!["if x > 0 {", "    return x;", "}", "// TODO: y"]);
    assert_eq!(body(&["if x > 0:", "y = 1"]), vec!["// TODO: if x > 0:", "// TODO: y = 1"]);
    assert_eq!(body(&["if  x ::"]), vec!["// TODO: if  x ::"]);
    assert_eq!(body(&["if  x ::", "return  1"]), vec!["if x {", "    return 1;", "}"]);
}

#[test]
fn parallel_assignment_becomes_declarations() {
    assert_eq!(body(&["a, b = 0, 1"]), vec!["let mut a: i32 = 0;", "let mut b: i32 = 1;"]);
    assert_eq!(body(&["a, b = 1"]), vec!["// TODO: a, b = 1"]);
    assert_eq!(body(&["a, b = c = d, e"]), vec!["// TODO: a, b = c = d, e"]);
}

#[test]
fn counted_loop_takes_its_rotation() {
    assert_eq!(
        body(&["for i in range(0, n):", "a, b = b, a + b"]),
        vec!["for _ in 0..=n - 1 {", "    let temp = a + b;", "    a = b;", "    b = temp;", "}"]
    );
    assert_eq!(
        body(&["for _ in range(2, n + 1):", "a, b = b, a + b"]),
        vec!["for _ in 2..=n {", "    let temp = a + b;", "    a = b;", "    b = temp;", "}"]
    );
    assert_eq!(
        body(&["for _ in range(1, 10):", " x ,y = y , x * y "]),
        vec!["for _ in 1..=10 - 1 {", "    let temp = x * y;", "    x = y;", "    y = temp;", "}"]
    );
    assert_eq!(
        body(&["for i in range(1, n + 1):", "pass"]),
        vec!["// TODO: for i in range(1, n + 1):", "// TODO: pass"]
    );
    assert_eq!(
        body(&["for i in range(0, n):", "a, b, c = b, c, a"]),
        vec![
            "// TODO: for i in range(0, n):",
            "let mut a: i32 = b;",
            "let mut b: i32 = c;",
            "let mut c: i32 = a;"
        ]
    );
    assert_eq!(body(&["for i in range(n):"]), vec!["// TODO: for i in range(n):"]);
    assert_eq!(body(&["for i in range(1, 2"]), vec!["// TODO: for i in range(1, 2"]);
    assert_eq!(
        body(&["for i in range(0, n):", "x = 5"]),
        vec!["// TODO: for i in range(0, n):", "// TODO: x = 5"]
    );
}

#[test]
fn last_return_is_a_bare_expression() {
    assert_eq!(body(&["return a + b"]), vec!["a + b"]);
    assert_eq!(body(&["return a", "   ", ""]), vec!["a", "// TODO:    ", "// TODO: "]);
    assert_eq!(body(&["return a", "return b"]), vec!["return a;", "b"]);
}

#[test]
fn print_and_everything_else() {
    assert_eq!(body(&["print(x)"]), vec!["println!(\"{}\", x);"]);
    assert_eq!(body(&["print(f(x))"]), vec!["println!(\"{}\", f(x));"]);
    assert_eq!(body(&["print()"]), vec!["println!(\"{}\", );"]);
    assert_eq!(body(&["x += 1"]), vec!["// TODO: x += 1"]);
    assert_eq!(body(&["pass"]), vec!["// TODO: pass"]);
    assert_eq!(body(&[]), Vec::<String>::new());
}

#[test]
fn a_source_led_by_a_comment_comes_back() {
    let src = "# f\ndef f():\n    return 1\n";
    assert_eq!(lower_to_python(&python_source_to_ueg(src)).unwrap(), src);
    let decorated = "\n# about f\n@cache\n\ndef f(x: int) -> int:\n    # the body\n    return x\n\n";
    assert_eq!(lower_to_python(&python_source_to_ueg(decorated)).unwrap(), decorated);
}

#[test]
fn carriage_returns_come_back() {
    let src = "def f(x: int) -> int:\r\n    return x\r\n";
    let l = unit(src);
    assert_eq!(l.name, "f");
    assert_eq!(l.params, vec![("x".to_string(), "i32".to_string())]);
    assert_eq!(l.ret, Some("i32".to_string()));
    assert_eq!(l.body, vec!["x"]);
    assert_eq!(l.orig_body, vec!["def f(x: int) -> int:\r", "    return x\r"]);
    assert_eq!(lower_to_python(&python_source_to_ueg(src)).unwrap(), src);
}

#[test]
fn a_missing_final_line_feed_is_added() {
    let src = "def f():\n    return 1";
    assert_eq!(lower_to_python(&python_source_to_ueg(src)).unwrap(), format!("{}\n", src));
}

#[test]
fn body_lines_alone_get_a_header() {
    let l = LambdaNode {
        name: "f".to_string(),
        params: vec![],
        ret: None,
        body: vec![],
        orig_body: vec!["x = 1".to_string(), "def g():".to_string(), "    pass".to_string()],
        ast_fragment: None,
    };
    let ueg = un1c0::walker::Ueg { nodes: vec![NodeKind::Lambda(l)] };
    assert_eq!(lower_to_python(&ueg).unwrap(), "def f():\n    x = 1\n    def g():\n        pass\n");
}

#[test]
fn the_declaring_line_is_found_by_name() {
    let lines = |ls: &[&str]| ls.iter().map(|l| chars_of(l)).collect::<Vec<_>>();
    let src = lines(&["# lead", "@cache", "  def fib(n):", "    return n"]);
    assert!(is_declared_in(&src, &chars_of("fib")));
    assert!(!is_declared_in(&src, &chars_of("fi")));
    assert!(!is_declared_in(&src, &chars_of("")));
    assert!(!is_declared_in(&lines(&["x = 1", "return x"]), &chars_of("f")));
    assert!(!is_declared_in(&lines(&[]), &chars_of("f")));
}
