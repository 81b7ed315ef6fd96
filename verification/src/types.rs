//! Type annotations in canonical form.
//!
//! An annotation in any of the bracket styles `Name[..]`, `Name<..>`, `Name(..)` is rewritten
//! to `Name<..>` with its arguments rewritten in turn and separated by `", "`; a list of
//! annotations at the top level, or in brackets without a name, becomes a tuple `(.., ..)`;
//! the primitive spellings are mapped to one fixed vocabulary, and every other name passes
//! through unchanged. An annotation whose brackets do not balance is kept as it stands.
use vstd::prelude::*;
use crate::text::{chars_of, string_of, slice, push_all, is_str, trim, trim_of, trim_start,
    trim_end, leading_ws, lemma_trim_start_is_suffix, lemma_trim_end_is_prefix};
use crate::scan::{find_char, shifted, ends_with, find_char_in, has_suffix, lemma_find_char};
use crate::split::{join, join_of, texts};

verus! {

/// Whether `c` opens a bracket of one of the three styles.
pub open spec fn is_open_bracket(c: char) -> bool {
    c == '<' || c == '[' || c == '('
}

/// Whether `c` closes a bracket of one of the three styles.
pub open spec fn is_close_bracket(c: char) -> bool {
    c == '>' || c == ']' || c == ')'
}

/// The nesting depth after `c` is read at depth `depth`; a closing bracket at depth 0 is ignored.
pub open spec fn depth_after(depth: nat, c: char) -> nat {
    if is_open_bracket(c) {
        depth + 1
    } else if is_close_bracket(c) && depth > 0 {
        (depth - 1) as nat
    } else {
        depth
    }
}

/// The position of the first comma of `s` that stands outside every bracket, where the
/// text before `s` has left `depth` brackets open.
pub open spec fn find_top_comma(s: Seq<char>, depth: nat) -> Option<int>
    decreases s.len(),
{
    if s.len() == 0 {
        None
    } else if s[0] == ',' && depth == 0 {
        Some(0)
    } else {
        shifted(find_top_comma(s.skip(1), depth_after(depth, s[0])), 1)
    }
}

/// A top-level comma lies inside the text.
pub proof fn lemma_find_top_comma(s: Seq<char>, depth: nat)
    ensures
        find_top_comma(s, depth) matches Some(i) ==> 0 <= i < s.len() && s[i] == ',',
    decreases s.len(),
{
    if s.len() == 0 {
    } else if s[0] == ',' && depth == 0 {
    } else {
        lemma_find_top_comma(s.skip(1), depth_after(depth, s[0]));
    }
}

/// The items of `s` between its top-level commas, each trimmed. Nothing follows a last comma
/// that ends the text.
pub open spec fn top_level_items(s: Seq<char>) -> Seq<Seq<char>>
    decreases s.len(),
{
    if s.len() == 0 {
        seq![]
    } else {
        match find_top_comma(s, 0) {
            Some(i) => {
                proof {
                    lemma_find_top_comma(s, 0);
                }
                seq![trim(s.take(i))] + top_level_items(s.skip(i + 1))
            },
            None => seq![trim(s)],
        }
    }
}

/// The name and the argument text of a generic annotation: the text before the first `[`
/// and the text between it and a final `]`; failing that the same with `<` and `>`, then
/// with `(` and `)`.
pub open spec fn generic_parts(s: Seq<char>) -> Option<(Seq<char>, Seq<char>)> {
    if find_char(s, '[') is Some && ends_with(s, seq![']']) {
        Some(cut_at(s, find_char(s, '[')->0))
    } else if find_char(s, '<') is Some && ends_with(s, seq!['>']) {
        Some(cut_at(s, find_char(s, '<')->0))
    } else if find_char(s, '(') is Some && ends_with(s, seq![')']) {
        Some(cut_at(s, find_char(s, '(')->0))
    } else {
        None
    }
}

/// The text before position `pos`, and the text after it without the last character.
pub open spec fn cut_at(s: Seq<char>, pos: int) -> (Seq<char>, Seq<char>) {
    (s.take(pos), s.subrange(pos + 1, s.len() - 1))
}

/// The canonical spelling of a name: the primitives are mapped, every other name is kept.
pub open spec fn canonical_name(s: Seq<char>) -> Seq<char> {
    if s == "int"@ {
        "i32"@
    } else if s == "float"@ {
        "f64"@
    } else if s == "str"@ {
        "String"@
    } else if s == "None"@ {
        "Option::<_>"@
    } else {
        s
    }
}

/// What stands between two items of a canonical argument list: a comma and a space.
pub open spec fn separator() -> Seq<char> {
    seq![',', ' ']
}

/// The canonical forms of the items of `s`.
pub open spec fn canonical_items(s: Seq<char>) -> Seq<Seq<char>>
    decreases s.len(), 1nat,
{
    if s.len() == 0 {
        seq![]
    } else {
        match find_top_comma(s, 0) {
            Some(i) => {
                proof {
                    lemma_find_top_comma(s, 0);
                }
                seq![canonical_form(s.take(i))] + canonical_items(s.skip(i + 1))
            },
            None => seq![canonical_form(s)],
        }
    }
}

/// The canonical form of the annotation `s`, whose brackets balance.
///
/// White space around it is dropped. Where a top-level comma is followed by more text, the
/// annotation is a tuple of its items; else where it has generic parts, it is the trimmed
/// name with the canonical arguments in angle brackets, or without a name the tuple of
/// the canonical arguments in round brackets; else it is a name.
pub open spec fn canonical_form(s: Seq<char>) -> Seq<char>
    decreases s.len(), 0nat,
{
    let t = trim(s);
    if t.len() == 0 {
        seq![]
    } else if is_tuple(t) {
        let i = find_top_comma(t, 0)->0;
        proof {
            lemma_trim_is_shorter(s);
            lemma_find_top_comma(t, 0);
        }
        seq!['('] + join(
            seq![canonical_form(t.take(i))] + canonical_items(t.skip(i + 1)),
            separator(),
        ) + seq![')']
    } else {
        match generic_parts(t) {
            Some((base, inner)) => {
                proof {
                    lemma_trim_is_shorter(s);
                    lemma_generic_parts(t);
                }
                bracketed(trim(base), join(canonical_items(inner), separator()))
            },
            None => canonical_name(t),
        }
    }
}

/// The canonical arguments `args` under the name `name`: in angle brackets behind the
/// name, or as a tuple in round brackets where there is no name.
pub open spec fn bracketed(name: Seq<char>, args: Seq<char>) -> Seq<char> {
    if name.len() == 0 {
        seq!['('] + args + seq![')']
    } else {
        name + seq!['<'] + args + seq!['>']
    }
}

/// Whether `t` holds a top-level comma with text after it.
pub open spec fn is_tuple(t: Seq<char>) -> bool {
    find_top_comma(t, 0) matches Some(i) && i + 1 < t.len()
}

/// The bracket that closes what `c` opens.
pub open spec fn closer_of(c: char) -> char {
    if c == '<' {
        '>'
    } else if c == '[' {
        ']'
    } else {
        ')'
    }
}

/// The closing brackets that are owed after `s`, the next one last, where `owed` were owed
/// before it; `None` where a closing bracket of `s` is not the one that is owed next.
pub open spec fn owed_after(s: Seq<char>, owed: Seq<char>) -> Option<Seq<char>>
    decreases s.len(),
{
    if s.len() == 0 {
        Some(owed)
    } else if is_open_bracket(s[0]) {
        owed_after(s.skip(1), owed.push(closer_of(s[0])))
    } else if is_close_bracket(s[0]) {
        if owed.len() > 0 && owed.last() == s[0] {
            owed_after(s.skip(1), owed.drop_last())
        } else {
            None
        }
    } else {
        owed_after(s.skip(1), owed)
    }
}

/// Whether the brackets of `s` balance: each closing bracket closes the last bracket that
/// is still open and is of its style, and none stays open.
pub open spec fn balanced(s: Seq<char>) -> bool {
    owed_after(s, Seq::<char>::empty()) == Some(Seq::<char>::empty())
}

/// The canonical form of an annotation: that of its trimmed text where the brackets
/// balance, and the trimmed text as it stands where they do not.
pub open spec fn normalize(s: Seq<char>) -> Seq<char> {
    if balanced(trim(s)) {
        canonical_form(trim(s))
    } else {
        trim(s)
    }
}

/// Trimming makes no text longer.
pub proof fn lemma_trim_is_shorter(s: Seq<char>)
    ensures
        trim(s).len() <= s.len(),
{
    lemma_trim_start_is_suffix(s);
    lemma_trim_end_is_prefix(trim_start(s));
}

/// Trimmed text has no white space at either end, so trimming it again changes nothing.
pub proof fn lemma_trim_twice(s: Seq<char>)
    ensures
        trim(trim(s)) == trim(s),
        trim_start(trim(s)) == trim(s),
        trim_end(trim(s)) == trim(s),
{
    let z = trim_start(s);
    let y = trim(s);
    lemma_trim_start_is_suffix(s);
    lemma_trim_end_is_prefix(z);
    if y.len() > 0 {
        assert(y[0] == z[0]);
        assert(z == s.skip(leading_ws(s)));
        assert(z[0] == s[leading_ws(s)]);
    }
}

/// The argument text of a generic annotation is at least two characters shorter than the
/// annotation, and its name is no longer.
pub proof fn lemma_generic_parts(s: Seq<char>)
    ensures
        generic_parts(s) matches Some((base, inner)) ==> inner.len() + 2 <= s.len() && base.len()
            < s.len(),
{
    lemma_find_char(s, '[');
    lemma_find_char(s, '<');
    lemma_find_char(s, '(');
    if generic_parts(s) is Some {
        let close = if find_char(s, '[') is Some && ends_with(s, seq![']']) {
            ']'
        } else if find_char(s, '<') is Some && ends_with(s, seq!['>']) {
            '>'
        } else {
            ')'
        };
        assert(ends_with(s, seq![close]));
        assert(s.skip(s.len() - 1)[0] == close);
        assert(s[s.len() - 1] == close);
    }
}

/// `canonical_items` gives the canonical form of each of the `top_level_items`.
pub proof fn lemma_canonical_items(s: Seq<char>)
    ensures
        canonical_items(s).len() == top_level_items(s).len(),
        forall|k: int|
            0 <= k < canonical_items(s).len() ==> #[trigger] canonical_items(s)[k]
                == canonical_form(top_level_items(s)[k]),
        forall|k: int|
            0 <= k < top_level_items(s).len() ==> (#[trigger] top_level_items(s)[k]).len()
                <= s.len(),
        find_top_comma(s, 0) is Some ==> forall|k: int|
            0 <= k < top_level_items(s).len() ==> (#[trigger] top_level_items(s)[k]).len()
                < s.len(),
    decreases s.len(),
{
    if s.len() == 0 {
    } else {
        match find_top_comma(s, 0) {
            Some(i) => {
                lemma_find_top_comma(s, 0);
                let rest = s.skip(i + 1);
                lemma_canonical_items(rest);
                lemma_canonical_form_trimmed(s.take(i));
                lemma_trim_is_shorter(s.take(i));
                assert forall|k: int| 0 <= k < canonical_items(s).len() implies
                    #[trigger] canonical_items(s)[k] == canonical_form(top_level_items(s)[k]) by {
                    if k > 0 {
                        assert(canonical_items(s)[k] == canonical_items(rest)[k - 1]);
                        assert(top_level_items(s)[k] == top_level_items(rest)[k - 1]);
                    }
                }
                assert forall|k: int| 0 <= k < top_level_items(s).len() implies (
                #[trigger] top_level_items(s)[k]).len() < s.len() by {
                    if k > 0 {
                        assert(top_level_items(s)[k] == top_level_items(rest)[k - 1]);
                    }
                }
            },
            None => {
                lemma_canonical_form_trimmed(s);
                lemma_trim_is_shorter(s);
            },
        }
    }
}

/// An annotation and its trimmed text have the same canonical form.
pub proof fn lemma_canonical_form_trimmed(s: Seq<char>)
    ensures
        canonical_form(trim(s)) == canonical_form(s),
{
    lemma_trim_twice(s);
}

/// A text ends with the one character `c` exactly where its last character is `c`.
pub proof fn lemma_ends_with_char(s: Seq<char>, c: char)
    ensures
        ends_with(s, seq![c]) <==> s.len() > 0 && s.last() == c,
{
    if s.len() > 0 {
        assert(s.skip(s.len() - 1)[0] == s.last());
        if s.last() == c {
            assert(s.skip(s.len() - 1) == seq![c]);
        }
    }
}

/// The items of `s` between its top-level commas, each trimmed.
pub fn split_top_commas(v: &Vec<char>) -> (r: Vec<Vec<char>>)
    ensures
        texts(r@) == top_level_items(v@),
{
    let mut r: Vec<Vec<char>> = Vec::new();
    let mut depth: usize = 0;
    let mut start: usize = 0;
    let mut i: usize = 0;
    assert(v@.skip(0) == v@);
    assert(texts(r@) == Seq::<Seq<char>>::empty());
    while i < v.len()
        invariant
            start <= i <= v.len(),
            depth <= i - start,
            top_level_items(v@) == texts(r@) + top_level_items(v@.skip(start as int)),
            find_top_comma(v@.skip(start as int), 0) == shifted(
                find_top_comma(v@.skip(i as int), depth as nat),
                i - start,
            ),
        decreases v.len() - i,
    {
        let c = v[i];
        assert(v@.skip(i as int).skip(1) == v@.skip(i + 1));
        if c == '<' || c == '[' || c == '(' {
            depth += 1;
        } else if c == '>' || c == ']' || c == ')' {
            if depth > 0 {
                depth -= 1;
            }
        } else if c == ',' && depth == 0 {
            let raw = slice(v, start, i);
            let part = trim_of(&raw);
            proof {
                let rest = v@.skip(start as int);
                assert(find_top_comma(rest, 0) == Some(i - start));
                assert(rest.take(i - start) == raw@);
                assert(rest.skip(i - start + 1) == v@.skip(i + 1));
                assert(texts(r@.push(part)) == texts(r@).push(part@));
            }
            r.push(part);
            start = i + 1;
        }
        i += 1;
    }
    if start < v.len() {
        let raw = slice(v, start, v.len());
        let part = trim_of(&raw);
        proof {
            assert(v@.skip(start as int) == raw@);
            assert(texts(r@.push(part)) == texts(r@).push(part@));
        }
        r.push(part);
    }
    r
}

/// The name and the argument text of a generic annotation.
pub fn split_generic_top(v: &Vec<char>) -> (r: Option<(Vec<char>, Vec<char>)>)
    ensures
        match r {
            Some(p) => generic_parts(v@) == Some((p.0@, p.1@)),
            None => generic_parts(v@) is None,
        },
{
    proof {
        lemma_ends_with_char(v@, ']');
        lemma_ends_with_char(v@, '>');
        lemma_ends_with_char(v@, ')');
        lemma_find_char(v@, '[');
        lemma_find_char(v@, '<');
        lemma_find_char(v@, '(');
    }
    let mut close: Vec<char> = Vec::new();
    close.push(']');
    assert(close@ == seq![']']);
    if let Some(pos) = find_char_in(v, '[') {
        if has_suffix(v, &close) {
            return Some((slice(v, 0, pos), slice(v, pos + 1, v.len() - 1)));
        }
    }
    close.clear();
    close.push('>');
    assert(close@ == seq!['>']);
    if let Some(pos) = find_char_in(v, '<') {
        if has_suffix(v, &close) {
            return Some((slice(v, 0, pos), slice(v, pos + 1, v.len() - 1)));
        }
    }
    close.clear();
    close.push(')');
    assert(close@ == seq![')']);
    if let Some(pos) = find_char_in(v, '(') {
        if has_suffix(v, &close) {
            return Some((slice(v, 0, pos), slice(v, pos + 1, v.len() - 1)));
        }
    }
    None
}

/// The canonical forms of `items`, joined by `", "`.
fn parse_joined(items: &Vec<Vec<char>>, Ghost(bound): Ghost<nat>) -> (r: Vec<char>)
    requires
        forall|k: int| 0 <= k < items.len() ==> (#[trigger] items@[k])@.len() <= bound,
    ensures
        r@ == join(texts(items@).map_values(|x: Seq<char>| canonical_form(x)), separator()),
    decreases bound, 1nat,
{
    let mut parsed: Vec<Vec<char>> = Vec::new();
    let mut k: usize = 0;
    let ghost want = texts(items@).map_values(|x: Seq<char>| canonical_form(x));
    while k < items.len()
        invariant
            k <= items.len(),
            want == texts(items@).map_values(|x: Seq<char>| canonical_form(x)),
            texts(parsed@) == want.take(k as int),
            forall|j: int| 0 <= j < items.len() ==> (#[trigger] items@[j])@.len() <= bound,
        decreases items.len() - k,
    {
        let p = parse_type(&items[k]);
        proof {
            assert(texts(parsed@.push(p)) == texts(parsed@).push(p@));
            assert(want.take(k + 1) == want.take(k as int).push(want[k as int]));
        }
        parsed.push(p);
        k += 1;
    }
    assert(want.take(items.len() as int) == want);
    let mut sep: Vec<char> = Vec::new();
    sep.push(',');
    sep.push(' ');
    assert(sep@ == separator());
    join_of(&parsed, &sep)
}

/// The canonical form of the annotation `v`.
pub fn parse_type(v: &Vec<char>) -> (r: Vec<char>)
    ensures
        r@ == canonical_form(v@),
    decreases v@.len(), 0nat,
{
    let t = trim_of(v);
    if t.len() == 0 {
        return Vec::new();
    }
    proof {
        lemma_trim_is_shorter(v@);
    }
    let items = split_top_commas(&t);
    proof {
        lemma_canonical_items(t@);
        lemma_items_of_tuple(t@);
    }
    if items.len() > 1 {
        let ghost i = find_top_comma(t@, 0)->0;
        let mut out: Vec<char> = Vec::new();
        out.push('(');
        proof {
            assert forall|k: int| 0 <= k < items.len() implies (#[trigger] items@[k])@.len()
                < t@.len() by {
                assert(items@[k]@ == texts(items@)[k]);
            }
        }
        let inner = parse_joined(&items, Ghost((t@.len() - 1) as nat));
        proof {
            lemma_find_top_comma(t@, 0);
            let parsed = texts(items@).map_values(|x: Seq<char>| canonical_form(x));
            let want = seq![canonical_form(t@.take(i))] + canonical_items(t@.skip(i + 1));
            assert(want == canonical_items(t@));
            assert(parsed =~= want);
        }
        push_all(&mut out, &inner);
        out.push(')');
        return out;
    }
    if let Some((base, inner)) = split_generic_top(&t) {
        proof {
            lemma_generic_parts(t@);
            lemma_canonical_items(inner@);
        }
        let inner_items = split_top_commas(&inner);
        let mut out = trim_of(&base);
        let named = out.len() > 0;
        out.push(if named { '<' } else { '(' });
        proof {
            assert forall|k: int| 0 <= k < inner_items.len() implies (
            #[trigger] inner_items@[k])@.len() < t@.len() by {
                assert(inner_items@[k]@ == texts(inner_items@)[k]);
            }
        }
        let args = parse_joined(&inner_items, Ghost((t@.len() - 1) as nat));
        proof {
            let parsed = texts(inner_items@).map_values(|x: Seq<char>| canonical_form(x));
            assert(parsed =~= canonical_items(inner@));
        }
        push_all(&mut out, &args);
        out.push(if named { '>' } else { ')' });
        return out;
    }
    canonical_name_of(&t)
}

/// A text is a tuple exactly where it has more than one top-level item.
pub proof fn lemma_items_of_tuple(t: Seq<char>)
    ensures
        is_tuple(t) <==> top_level_items(t).len() > 1,
{
    if t.len() > 0 {
        match find_top_comma(t, 0) {
            Some(i) => {
                lemma_find_top_comma(t, 0);
                let rest = t.skip(i + 1);
                if rest.len() > 0 {
                    assert(top_level_items(rest).len() >= 1);
                }
            },
            None => {},
        }
    }
}

/// The canonical spelling of the name `t`.
pub fn canonical_name_of(t: &Vec<char>) -> (r: Vec<char>)
    ensures
        r@ == canonical_name(t@),
{
    if is_str(t, "int") {
        chars_of("i32")
    } else if is_str(t, "float") {
        chars_of("f64")
    } else if is_str(t, "str") {
        chars_of("String")
    } else if is_str(t, "None") {
        chars_of("Option::<_>")
    } else {
        slice(t, 0, t.len())
    }
}

/// Whether the brackets of `v` balance.
pub fn is_balanced(v: &Vec<char>) -> (b: bool)
    ensures
        b == balanced(v@),
{
    let mut owed: Vec<char> = Vec::new();
    let mut i: usize = 0;
    assert(v@.skip(0) == v@);
    while i < v.len()
        invariant
            i <= v.len(),
            owed_after(v@, Seq::<char>::empty()) == owed_after(v@.skip(i as int), owed@),
        decreases v.len() - i,
    {
        let c = v[i];
        assert(v@.skip(i as int).skip(1) == v@.skip(i + 1));
        if c == '<' {
            owed.push('>');
        } else if c == '[' {
            owed.push(']');
        } else if c == '(' {
            owed.push(')');
        } else if c == '>' || c == ']' || c == ')' {
            if owed.len() > 0 && owed[owed.len() - 1] == c {
                let ghost before = owed@;
                owed.pop();
                assert(owed@ == before.drop_last());
            } else {
                return false;
            }
        }
        i += 1;
    }
    assert(v@.skip(v.len() as int).len() == 0);
    assert(owed@.len() == 0 ==> owed@ =~= Seq::<char>::empty());
    owed.len() == 0
}

/// The canonical form of the annotation `v`, or its trimmed text where its brackets do not
/// balance.
pub fn normalize_chars(v: &Vec<char>) -> (r: Vec<char>)
    ensures
        r@ == normalize(v@),
{
    let t = trim_of(v);
    if is_balanced(&t) {
        proof {
            lemma_trim_twice(v@);
        }
        parse_type(&t)
    } else {
        t
    }
}

/// The canonical form of the annotation `s`, or its trimmed text where its brackets do not
/// balance.
pub fn normalize_annotation(s: &str) -> (r: String)
    ensures
        r@ == normalize(s@),
{
    let v = chars_of(s);
    let parsed = normalize_chars(&v);
    string_of(&parsed)
}

} // verus!
