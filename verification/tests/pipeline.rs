use un1c0::error::TranslateError;
use un1c0::python::python_source_to_ueg;
use un1c0::targets::{lower_to_go, lower_to_zig};
use un1c0::types::normalize_annotation;
use un1c0::ueg_python::lower_to_python;
use un1c0::walker::{lower_to_rust, LambdaNode, NodeKind, Ueg};

const FIB: &str = "def fib(n: int) -> int:\n    if n <= 1:\n        return n\n    a, b = 0, 1\n    for _ in range(2, n + 1):\n        a, b = b, a + b\n    return b";

#[test]
fn fib_lowers_to_rust() {
    let ueg = python_source_to_ueg(FIB);
    assert!(ueg.validate());
    let out = lower_to_rust(&ueg).unwrap();
    let expected = "fn fib(n: i32) -> i32 {\n    if n <= 1 {\n        return n;\n    }\n    let mut a: i32 = 0;\n    let mut b: i32 = 1;\n    for _ in 2..=n {\n        let temp = a + b;\n        a = b;\n        b = temp;\n    }\n    b\n}\n";
    assert_eq!(out, expected);
}

#[test]
fn fib_lowers_to_go() {
    let ueg = python_source_to_ueg(FIB);
    let go = lower_to_go(&ueg).unwrap();
    let expected = "package main\n\nimport \"fmt\"\n\nfunc fib(n int) int {\n    if n <= 1 {\n        return n\n    }\n    a := 0\n    b := 1\n    for i := 2; i <= n; i++ {\n        temp := a + b\n        a = b\n        b = temp\n    }\n    return b\n}\n";
    assert_eq!(go, expected);
}

#[test]
fn fib_lowers_to_zig() {
    let ueg = python_source_to_ueg(FIB);
    let zig = lower_to_zig(&ueg).unwrap();
    let expected = "const std = @import(\"std\");\n\npub fn fib(n: i32) i32 {\n    if (n <= 1) {\n        return n;\n    }\n    var a: i32 = 0;\n    var b: i32 = 1;\n    var i: i32 = 2;\n    while (i <= n) : (i += 1) {\n        var temp = a + b;\n        a = b;\n        b = temp;\n    }\n    return b;\n}\n";
    assert_eq!(zig, expected);
}

#[test]
fn fib_is_rebuilt_in_python_from_its_statements() {
    let mut ueg = python_source_to_ueg(FIB);
    let NodeKind::Lambda(l) = &mut ueg.nodes[0];
    l.orig_body.clear();
    let expected = "def fib(n: int) -> int:\n    if n <= 1:\n        return n\n    a = 0\n    b = 1\n    for _ in range(2, n + 1):\n        temp = a + b\n        a = b\n        b = temp\n    return b\n";
    assert_eq!(lower_to_python(&ueg).unwrap(), expected);
}

#[test]
fn fib_round_trips_through_python() {
    let src = format!("{}\n", FIB);
    let ueg = python_source_to_ueg(&src);
    let out = lower_to_python(&ueg).unwrap();
    assert_eq!(out, src);
}

#[test]
fn empty_graph_is_refused() {
    let ueg = Ueg::new();
    assert!(!ueg.validate());
    assert_eq!(lower_to_rust(&ueg), Err(TranslateError::NoTranslatableUnit));
    assert_eq!(lower_to_go(&ueg), Err(TranslateError::NoTranslatableUnit));
    assert_eq!(lower_to_zig(&ueg), Err(TranslateError::NoTranslatableUnit));
    assert_eq!(lower_to_python(&ueg), Err(TranslateError::NoTranslatableUnit));
}

#[test]
fn nested_annotation_is_normalized() {
    assert_eq!(normalize_annotation("Map[str, List[int]]"), "Map<String, List<i32>>");
    assert_eq!(normalize_annotation("Map<str, List<int>>"), "Map<String, List<i32>>");
    assert_eq!(normalize_annotation("Map(str, List(int))"), "Map<String, List<i32>>");
}

#[test]
fn body_without_source_lines_is_rebuilt() {
    let node = LambdaNode {
        name: "f".to_string(),
        params: vec![("a".to_string(), "_".to_string())],
        ret: None,
        body: vec!["let mut x: i32 = 1;".to_string(), "return x;".to_string()],
        orig_body: vec![],
        ast_fragment: None,
    };
    let ueg = Ueg { nodes: vec![NodeKind::Lambda(node)] };
    assert_eq!(lower_to_python(&ueg).unwrap(), "def f(a):\n    x = 1\n    return x\n");
}
