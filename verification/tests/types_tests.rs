use un1c0::text::{chars_of, string_of};
use un1c0::types::{
    canonical_name_of, is_balanced, normalize_annotation, normalize_chars, parse_type,
    split_generic_top, split_top_commas,
};

fn items(s: &str) -> Vec<String> {
    split_top_commas(&chars_of(s)).iter().map(|p| string_of(p)).collect()
}

fn parts(s: &str) -> Option<(String, String)> {
    split_generic_top(&chars_of(s)).map(|(a, b)| (string_of(&a), string_of(&b)))
}

#[test]
fn primitives_are_mapped() {
    assert_eq!(normalize_annotation("int"), "i32");
    assert_eq!(normalize_annotation("float"), "f64");
    assert_eq!(normalize_annotation("str"), "String");
    assert_eq!(normalize_annotation("bool"), "bool");
    assert_eq!(normalize_annotation("None"), "Option::<_>");
    assert_eq!(normalize_annotation("  int  "), "i32");
    assert_eq!(normalize_annotation("Widget"), "Widget");
    assert_eq!(normalize_annotation(""), "");
    assert_eq!(normalize_annotation("   "), "");
}

#[test]
fn every_bracket_style_gives_angle_brackets() {
    assert_eq!(normalize_annotation("List[int]"), "List<i32>");
    assert_eq!(normalize_annotation("List<int>"), "List<i32>");
    assert_eq!(normalize_annotation("List(int)"), "List<i32>");
    assert_eq!(normalize_annotation("Dict[str,  Optional[float]]"), "Dict<String, Optional<f64>>");
    assert_eq!(normalize_annotation(" Map [ str , int ] "), "Map<String, i32>");
}

#[test]
fn top_level_lists_are_tuples() {
    assert_eq!(normalize_annotation("int, str"), "(i32, String)");
    assert_eq!(normalize_annotation("int, List[str], float"), "(i32, List<String>, f64)");
    assert_eq!(normalize_annotation("int,"), "int,");
}

#[test]
fn unbalanced_annotation_passes_through() {
    assert_eq!(normalize_annotation("List[int"), "List[int");
    assert_eq!(normalize_annotation("List<int]"), "List<int]");
    assert_eq!(normalize_annotation("int]"), "int]");
    assert_eq!(normalize_annotation("List[int]]"), "List[int]]");
    assert_eq!(normalize_annotation("  List[int]] "), "List[int]]");
    assert_eq!(normalize_annotation("Map<List[int>]"), "Map<List[int>]");
    assert_eq!(normalize_annotation("Map[str, List[int]"), "Map[str, List[int]");
    assert_eq!(normalize_annotation(")int("), ")int(");
}

#[test]
fn brackets_balance_by_style() {
    let balanced = |t: &str| is_balanced(&chars_of(t));
    assert!(balanced(""));
    assert!(balanced("int"));
    assert!(balanced("Map[str, List<(int, int)>]"));
    assert!(!balanced("List[int"));
    assert!(!balanced("List[int]]"));
    assert!(!balanced("List[int>"));
    assert!(!balanced("]["));
    assert_eq!(string_of(&normalize_chars(&chars_of(" List[ int ] "))), "List<i32>");
    assert_eq!(string_of(&normalize_chars(&chars_of(" List[ int "))), "List[ int");
}

#[test]
fn canonical_text_is_a_fixed_point() {
    for t in [
        "i32",
        "String",
        "List<i32>",
        "Map<String, List<i32>>",
        "Option::<_>",
        "Result<Vec<u8>, Error>",
        "(i32, String)",
        "(i32)",
        "Vec<(i32, (String, bool))>",
        "(Map<String, i32>, Option::<_>)",
    ] {
        assert_eq!(normalize_annotation(t), t);
        assert_eq!(normalize_annotation(&normalize_annotation(t)), normalize_annotation(t));
    }
}

#[test]
fn a_list_without_a_name_is_a_tuple() {
    assert_eq!(normalize_annotation("(i32, String)"), "(i32, String)");
    assert_eq!(normalize_annotation("(int, str)"), "(i32, String)");
    assert_eq!(normalize_annotation("[int, str]"), "(i32, String)");
    assert_eq!(normalize_annotation("<int,str>"), "(i32, String)");
    assert_eq!(normalize_annotation("Dict[(int, int), str]"), "Dict<(i32, i32), String>");
    assert_eq!(normalize_annotation("()"), "()");
}

#[test]
fn normalizing_twice_changes_nothing_more() {
    for t in [
        "int",
        "None",
        "List[int]",
        "Map(str, List(int))",
        "Map<str, (int, float)>",
        "(int, str)",
        "(None, List[None])",
    ] {
        let once = normalize_annotation(t);
        assert_eq!(normalize_annotation(&once), once);
    }
}

#[test]
fn the_three_styles_have_one_canonical_form() {
    let angle = "Map<str, List<Pair<int, None>>>";
    let square = angle.replace('<', "[").replace('>', "]");
    let round = angle.replace('<', "(").replace('>', ")");
    let canonical = "Map<String, List<Pair<i32, Option::<_>>>>";
    assert_eq!(normalize_annotation(angle), canonical);
    assert_eq!(normalize_annotation(&square), canonical);
    assert_eq!(normalize_annotation(&round), canonical);
}

#[test]
fn items_between_top_level_commas() {
    assert_eq!(items("a, b<c, d>, e"), vec!["a", "b<c, d>", "e"]);
    assert_eq!(items("a,"), vec!["a"]);
    assert_eq!(items(","), vec![""]);
    assert_eq!(items(""), Vec::<String>::new());
    assert_eq!(items("f(x, y), z"), vec!["f(x, y)", "z"]);
    assert_eq!(items("a], b"), vec!["a]", "b"]);
}

#[test]
fn generic_parts_by_bracket_style() {
    assert_eq!(parts("List[int]"), Some(("List".to_string(), "int".to_string())));
    assert_eq!(parts("Map<a, b>"), Some(("Map".to_string(), "a, b".to_string())));
    assert_eq!(parts("f(x)"), Some(("f".to_string(), "x".to_string())));
    assert_eq!(parts("a<b>[c]"), Some(("a<b>".to_string(), "c".to_string())));
    assert_eq!(parts("plain"), None);
    assert_eq!(parts("open[only"), None);
    assert_eq!(parts("[]"), Some(("".to_string(), "".to_string())));
}

#[test]
fn names_are_spelled() {
    assert_eq!(string_of(&canonical_name_of(&chars_of("str"))), "String");
    assert_eq!(string_of(&canonical_name_of(&chars_of("Str"))), "Str");
    assert_eq!(string_of(&parse_type(&chars_of(" List[ int ] "))), "List<i32>");
}
