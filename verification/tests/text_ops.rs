use un1c0::scan::{
    contains, contains_char, find_char_in, find_sub_in, has_prefix, has_suffix, matches_at,
    rfind_char_in,
};
use un1c0::split::{
    after_char_of, before_char_of, concat_of, join_of, lines_of, repeat_of, replace_of,
    split_of, split_once_of, strip_end_of, strip_start_of,
};
use un1c0::text::{
    chars_of, is_str, is_whitespace, push_all, push_str, same, slice, string_of, trim_end_of,
    trim_of, trim_start_of,
};

const SAMPLES: [&str; 14] = [
    "",
    " ",
    "a",
    "  lead and trail \t\n",
    "\u{a0}non breaking\u{2003}",
    "a,b,,c",
    "one two  three\tfour\nfive",
    "aaa",
    "abcabcabc",
    "line one\nline two\r\nline three",
    "ends with newline\n",
    "carriage\r",
    "\n\n",
    "let mut x: i32 = 1;;",
];

fn v(s: &str) -> Vec<char> {
    chars_of(s)
}

fn s(v: &Vec<char>) -> String {
    string_of(v)
}

fn strings(parts: &Vec<Vec<char>>) -> Vec<String> {
    parts.iter().map(|p| string_of(p)).collect()
}

#[test]
fn characters_round_trip() {
    for sample in SAMPLES {
        assert_eq!(s(&v(sample)), sample);
        assert_eq!(v(sample), sample.chars().collect::<Vec<char>>());
    }
}

#[test]
fn whitespace_is_the_unicode_property() {
    let mut code: u32 = 0;
    while code <= 0x10FFFF {
        if let Some(c) = char::from_u32(code) {
            assert_eq!(is_whitespace(c), c.is_whitespace(), "U+{:04X}", code);
        }
        code += 1;
    }
}

#[test]
fn trimming_agrees_with_std() {
    for sample in SAMPLES {
        assert_eq!(s(&trim_of(&v(sample))), sample.trim());
        assert_eq!(s(&trim_start_of(&v(sample))), sample.trim_start());
        assert_eq!(s(&trim_end_of(&v(sample))), sample.trim_end());
    }
}

#[test]
fn slices_and_appends() {
    let text = v("hello world");
    assert_eq!(s(&slice(&text, 6, 11)), "world");
    assert_eq!(s(&slice(&text, 3, 3)), "");
    let mut out = v("ab");
    push_all(&mut out, &v("cd"));
    push_str(&mut out, "ef");
    assert_eq!(s(&out), "abcdef");
    assert!(same(&v("abc"), &v("abc")));
    assert!(!same(&v("abc"), &v("abd")));
    assert!(!same(&v("abc"), &v("ab")));
    assert!(is_str(&v("def "), "def "));
    assert!(!is_str(&v("def"), "def "));
}

#[test]
fn searching_agrees_with_std() {
    let needles = ["", "a", "b", "abc", "bc", "line", "\n", ";;", "aa"];
    for sample in SAMPLES.iter().filter(|s| s.is_ascii()) {
        for c in ['a', ',', ' ', '\n', ';', 'z'] {
            assert_eq!(find_char_in(&v(sample), c), sample.find(c));
            assert_eq!(rfind_char_in(&v(sample), c), sample.rfind(c));
            assert_eq!(contains_char(&v(sample), c), sample.contains(c));
        }
        for needle in needles {
            assert_eq!(find_sub_in(&v(sample), &v(needle)), sample.find(needle));
            assert_eq!(contains(&v(sample), &v(needle)), sample.contains(needle));
            assert_eq!(has_prefix(&v(sample), &v(needle)), sample.starts_with(needle));
            assert_eq!(has_suffix(&v(sample), &v(needle)), sample.ends_with(needle));
        }
    }
    assert!(matches_at(&v("abcabc"), &v("bc"), 4));
    assert!(!matches_at(&v("abcabc"), &v("bc"), 5));
    assert!(matches_at(&v("abc"), &v(""), 3));
}

#[test]
fn positions_count_characters() {
    let text = v("\u{e9}t\u{e9}=1");
    assert_eq!(find_char_in(&text, '='), Some(3));
    assert_eq!(find_sub_in(&text, &v("=1")), Some(3));
}

#[test]
fn splitting_agrees_with_std() {
    for sample in SAMPLES {
        for c in [',', ' ', '\n', '=', 'a'] {
            let expected: Vec<String> = sample.split(c).map(String::from).collect();
            assert_eq!(strings(&split_of(&v(sample), c)), expected);
            let before = sample.split(c).next().unwrap_or("");
            assert_eq!(s(&before_char_of(&v(sample), c)), before);
            let after = sample.splitn(2, c).nth(1).map(String::from);
            assert_eq!(after_char_of(&v(sample), c).map(|t| string_of(&t)), after);
        }
        let mut lines: Vec<String> = sample.split('\n').map(String::from).collect();
        if lines.last().map(|l| l.is_empty()).unwrap_or(false) {
            lines.pop();
        }
        assert_eq!(strings(&lines_of(&v(sample))), lines);
        if !sample.contains('\r') {
            let plain: Vec<String> = sample.lines().map(String::from).collect();
            assert_eq!(strings(&lines_of(&v(sample))), plain);
        }
        for p in ["..=", ",", "ab", "line "] {
            let expected = sample.split_once(p).map(|(a, b)| (a.to_string(), b.to_string()));
            let got = split_once_of(&v(sample), &v(p)).map(|(a, b)| (s(&a), s(&b)));
            assert_eq!(got, expected);
        }
    }
}

#[test]
fn stripping_agrees_with_std() {
    for sample in SAMPLES {
        for p in ["a", "abc", " ", ";", "let ", "\n", "line"] {
            assert_eq!(s(&strip_start_of(&v(sample), &v(p))), sample.trim_start_matches(p));
            assert_eq!(s(&strip_end_of(&v(sample), &v(p))), sample.trim_end_matches(p));
        }
        assert_eq!(s(&strip_start_of(&v(sample), &v(""))), sample);
        assert_eq!(s(&strip_end_of(&v(sample), &v(""))), sample);
    }
}

#[test]
fn replacing_agrees_with_std() {
    for sample in SAMPLES {
        for (from, to) in [("a", "b"), ("aa", "a"), ("abc", ""), (" ", "__"), ("\n", "\\n"), (";", ";;")] {
            assert_eq!(s(&replace_of(&v(sample), &v(from), &v(to))), sample.replace(from, to));
        }
        assert_eq!(s(&replace_of(&v(sample), &v(""), &v("x"))), sample);
    }
}

#[test]
fn joining_and_repeating() {
    let parts = vec![v("a"), v(""), v("c")];
    assert_eq!(s(&join_of(&parts, &v(", "))), "a, , c");
    assert_eq!(s(&join_of(&vec![v("only")], &v(", "))), "only");
    assert_eq!(s(&join_of(&Vec::new(), &v(", "))), "");
    assert_eq!(s(&concat_of(&parts)), "ac");
    assert_eq!(s(&repeat_of(&v("  "), 3)), "      ");
    assert_eq!(s(&repeat_of(&v("ab"), 0)), "");
}
