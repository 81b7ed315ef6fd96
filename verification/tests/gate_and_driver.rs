use un1c0::driver::{
    language_from_name, lower, python_to_rust, run, select_route, supported_pairs, translate,
    Language, Phase, Route,
};
use un1c0::error::TranslateError;
use un1c0::gate::{char_counts, is_blank_text, Admission, Gate, STANDARD_THRESHOLD_PPM};
use un1c0::python::python_source_to_ueg;
use un1c0::syntax::{parse, Grammar};
use un1c0::text::chars_of;

const FIB: &str = "def fib(n: int) -> int:\n    if n <= 1:\n        return n\n    a, b = 0, 1\n    for _ in range(2, n + 1):\n        a, b = b, a + b\n    return b\n";

#[test]
fn blank_input_is_always_accepted() {
    let gate = Gate::standard();
    assert_eq!(gate.screen("", 1_000_000), Admission::Accept);
    assert_eq!(gate.screen(" \n\t\u{3000}", u32::MAX), Admission::Accept);
    assert!(is_blank_text(&chars_of(" \n")));
    assert!(!is_blank_text(&chars_of(" x ")));
}

#[test]
fn ratio_above_the_threshold_is_rejected() {
    let gate = Gate::standard();
    assert_eq!(gate.threshold_ppm(), STANDARD_THRESHOLD_PPM);
    assert_eq!(gate.threshold_ppm(), 920_000);
    assert_eq!(gate.screen("abc", 920_000), Admission::Accept);
    assert_eq!(gate.screen("abc", 920_001), Admission::Reject { ratio_ppm: 920_001 });
    assert_eq!(gate.screen("aaaaaaaaab", 300_000), Admission::Accept);
    let strict = Gate::new(100);
    assert_eq!(strict.screen("abc", 101), Admission::Reject { ratio_ppm: 101 });
    assert_eq!(strict.screen("abc", 100), Admission::Accept);
}

#[test]
fn diverse_text_is_rejected_and_repetitive_text_accepted() {
    let gate = Gate::standard();
    let diverse: String = (0..64u8).map(|i| (b'0' + i) as char).collect();
    assert_eq!(gate.screen(&diverse, 1_000_000), Admission::Reject { ratio_ppm: 1_000_000 });
    assert_eq!(gate.screen("aaaaaaaaaaaaaaaaaaab", 286_397), Admission::Accept);
}

#[test]
fn characters_are_counted_by_code_point() {
    let sorted = |text: &str| {
        let mut entries: Vec<(u32, usize)> = char_counts(text).into_iter().collect();
        entries.sort();
        entries
    };
    assert_eq!(sorted(""), vec![]);
    assert_eq!(sorted("abracadabra"), vec![(97, 5), (98, 2), (99, 1), (100, 1), (114, 2)]);
    assert_eq!(sorted("\u{e9}\u{e9} "), vec![(32, 1), (0xe9, 2)]);
    assert_eq!(sorted("\u{1f600}a\u{1f600}"), vec![(97, 1), (0x1f600, 2)]);
    let diverse: String = (0..64u8).map(|i| (b'0' + i) as char).collect();
    assert_eq!(char_counts(&diverse).len(), 64);
    assert!(char_counts(&diverse).values().all(|count| *count == 1));
}

#[test]
fn languages_and_routes_by_name() {
    assert_eq!(language_from_name("python"), Some(Language::Python));
    assert_eq!(language_from_name("ts"), Some(Language::TypeScript));
    assert_eq!(language_from_name("tsx"), Some(Language::TypeScript));
    assert_eq!(language_from_name("typescript"), Some(Language::TypeScript));
    assert_eq!(language_from_name("Python"), None);
    assert_eq!(select_route("python", "rust"), Ok(Route::PythonToRust));
    assert_eq!(select_route("python", "go"), Ok(Route::PythonToGo));
    assert_eq!(select_route("go", "zig"), Ok(Route::GoToZig));
    assert_eq!(select_route("tsx", "swift"), Ok(Route::TypeScriptToSwift));
    assert_eq!(select_route("rust", "python"), Err(TranslateError::UnsupportedLanguagePair));
    assert_eq!(select_route("go", "rust"), Err(TranslateError::UnsupportedLanguagePair));
    assert_eq!(select_route("cobol", "rust"), Err(TranslateError::UnsupportedLanguagePair));
    let pairs = supported_pairs();
    assert_eq!(pairs.len(), 9);
    assert!(pairs.contains(&(Language::Move, Language::Rust)));
    assert!(!pairs.contains(&(Language::Rust, Language::Rust)));
}

#[test]
fn rejected_request_is_not_translated() {
    let gate = Gate::standard();
    let o = translate(&gate, "python", "rust", FIB, 950_000);
    assert_eq!(o.phase, Phase::Rejected);
    assert_eq!(o.result, Err(TranslateError::AdmissionRejected { ratio_ppm: 950_000 }));
}

#[test]
fn unregistered_pair_is_reported() {
    let gate = Gate::standard();
    let o = translate(&gate, "python", "swift", FIB, 700_000);
    assert_eq!(o.phase, Phase::Gated);
    assert_eq!(o.result, Err(TranslateError::UnsupportedLanguagePair));
}

#[test]
fn source_without_unit_is_reported() {
    let gate = Gate::standard();
    let o = translate(&gate, "python", "rust", "x = 1\n", 700_000);
    assert_eq!(o.phase, Phase::Gated);
    assert_eq!(o.result, Err(TranslateError::NoTranslatableUnit));
    let blank = translate(&gate, "python", "go", "", 1_000_000);
    assert_eq!(blank.phase, Phase::Gated);
    assert_eq!(blank.result, Err(TranslateError::NoTranslatableUnit));
}

#[test]
fn admitted_request_is_translated() {
    let gate = Gate::standard();
    let o = translate(&gate, "python", "rust", FIB, 700_000);
    assert_eq!(o.phase, Phase::Translated);
    let expected = "fn fib(n: i32) -> i32 {\n    if n <= 1 {\n        return n;\n    }\n    let mut a: i32 = 0;\n    let mut b: i32 = 1;\n    for _ in 2..=n {\n        let temp = a + b;\n        a = b;\n        b = temp;\n    }\n    b\n}\n";
    assert_eq!(o.result, Ok(expected.to_string()));
    let same = translate(&gate, "python", "python", FIB, 0);
    assert_eq!(same.result, Ok(FIB.to_string()));
}

#[test]
fn every_route_runs() {
    assert!(run(Route::PythonToGo, FIB).unwrap().starts_with("package main\n"));
    assert!(run(Route::PythonToZig, FIB).unwrap().starts_with("const std = @import(\"std\");\n"));
    assert!(run(Route::MoveToRust, "public fun f()").unwrap().ends_with("pub fn f()"));
    assert!(run(Route::SwiftToRust, "var on: Bool").unwrap().contains("pub on: bool"));
    assert!(run(Route::ZigToRust, "const x = 1;").unwrap().contains("Zig to Rust"));
    assert!(run(Route::GoToZig, "package main\nfunc f() {}\n").unwrap().contains("pub fn f() {}"));
    assert!(run(Route::TypeScriptToSwift, "function App() { return (<h1>Hi</h1>); }").unwrap().contains("struct App: View {"));
}

#[test]
fn lowering_by_route() {
    let ueg = python_source_to_ueg(FIB);
    assert!(lower(Route::PythonToRust, &ueg).unwrap().starts_with("fn fib("));
    assert!(lower(Route::PythonToPython, &ueg).unwrap().starts_with("def fib("));
    assert!(lower(Route::PythonToGo, &ueg).unwrap().contains("func fib("));
    assert!(lower(Route::PythonToZig, &ueg).unwrap().contains("pub fn fib("));
}

#[test]
fn screened_python_becomes_rust() {
    let root = parse(Grammar::Python, FIB).unwrap();
    let ok = python_to_rust(&root, FIB.as_bytes(), Admission::Accept).unwrap();
    assert!(ok.starts_with("fn fib(n: i32) -> i32 {\n"));
    assert_eq!(
        python_to_rust(&root, FIB.as_bytes(), Admission::Reject { ratio_ppm: 930_000 }),
        Err(TranslateError::AdmissionRejected { ratio_ppm: 930_000 })
    );
    assert_eq!(
        python_to_rust(&root, b"x = 1", Admission::Accept),
        Err(TranslateError::NoTranslatableUnit)
    );
}

#[test]
fn one_distinct_character_has_the_full_ratio() {
    assert_eq!(un1c0::gate::normalized_ratio_of("", 5), 1_000_000);
    assert_eq!(un1c0::gate::normalized_ratio_of("aaaa", 0), 1_000_000);
    assert_eq!(un1c0::gate::normalized_ratio_of("abab", 999_000), 999_000);
    assert_eq!(un1c0::gate::normalized_ratio_of("ab", 0), 0);
    let gate = Gate::standard();
    let o = translate(&gate, "python", "rust", "aaaa", 0);
    assert_eq!(o.phase, Phase::Rejected);
    assert_eq!(o.result, Err(TranslateError::AdmissionRejected { ratio_ppm: 1_000_000 }));
    let blank = translate(&gate, "python", "rust", "   ", 0);
    assert_ne!(blank.phase, Phase::Rejected);
}
