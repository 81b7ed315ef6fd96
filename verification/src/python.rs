//! The Python front end: from source text to the graph.
//!
//! The first line that begins, after any indentation, with `def ` declares the unit. Its
//! name, parameters and return type are read from that line; the lines after it, up to
//! the next such line, are its body. Only this one unit is translated.
use vstd::prelude::*;
use vstd::utf8::{valid_utf8, decode_utf8};
use crate::text::{chars_of, string_of, push_all, push_str, slice, same, trim, trim_of,
    trim_start, trim_start_of};
use crate::scan::{starts_with, find_char, find_sub, has_prefix, find_char_in, find_sub_in};
use crate::split::{strip_start, strip_end, strip_start_of, strip_end_of, before_char,
    before_char_of, lines, lines_of, join, join_of, texts, lemma_texts_push};
use crate::types::{normalize, normalize_chars, top_level_items, split_top_commas};
use crate::statements::{translate_body, translate_lines};
use crate::syntax::SyntaxNode;
use crate::walker::{well_formed, Ueg, NodeKind, LambdaNode, LambdaView, NodeView, strings, pairs,
    optional, strings_of_each};

verus! {

/// Whether `line` declares a unit: after any indentation it begins with `def `, and a
/// name stands before its parameter list.
pub open spec fn is_def_line(line: Seq<char>) -> bool {
    starts_with(trim_start(line), "def "@) && unit_name(signature_text(line)).len() > 0
}

/// The first line at or after `from` that declares a unit.
pub open spec fn first_def_from(ls: Seq<Seq<char>>, from: int) -> Option<int>
    decreases ls.len() - from,
{
    if from < 0 || from >= ls.len() {
        None
    } else if is_def_line(ls[from]) {
        Some(from)
    } else {
        first_def_from(ls, from + 1)
    }
}

/// Whether `line` may stand between a unit's first line and its declaration: a decorator,
/// a comment, or a blank line.
pub open spec fn is_lead_line(line: Seq<char>) -> bool {
    let t = trim_start(line);
    starts_with(t, "@"@) || starts_with(t, "#"@) || t.len() == 0
}

/// Where the unit declared at line `d` begins: at the first of the lead lines that stand
/// directly above the declaration.
pub open spec fn unit_start(ls: Seq<Seq<char>>, d: int) -> int
    decreases d,
{
    if 0 < d <= ls.len() && is_lead_line(ls[d - 1]) {
        unit_start(ls, d - 1)
    } else {
        d
    }
}

/// Where the unit declared at line `d` ends: at the next declaration, or with the text.
pub open spec fn unit_end(ls: Seq<Seq<char>>, d: int) -> int {
    match first_def_from(ls, d + 1) {
        Some(e) => e,
        None => ls.len() as int,
    }
}

/// The lines that are not blank, each trimmed.
pub open spec fn trimmed_nonblank(ls: Seq<Seq<char>>) -> Seq<Seq<char>>
    decreases ls.len(),
{
    if ls.len() == 0 {
        seq![]
    } else {
        let head = trimmed_nonblank(ls.drop_last());
        let t = trim(ls.last());
        if t.len() > 0 {
            head.push(t)
        } else {
            head
        }
    }
}

/// What follows `def` on the declaring line, without the final colon.
pub open spec fn signature_text(line: Seq<char>) -> Seq<char> {
    trim(strip_start(trim(strip_end(trim(line), ":"@)), "def"@))
}

/// Whether `line` declares the unit `name`.
pub open spec fn declares(line: Seq<char>, name: Seq<char>) -> bool {
    is_def_line(line) && unit_name(signature_text(line)) == name
}

/// Whether one of the lines `ls` declares the unit `name`.
pub open spec fn declared_in(ls: Seq<Seq<char>>, name: Seq<char>) -> bool
    decreases ls.len(),
{
    ls.len() > 0 && (declares(ls[0], name) || declared_in(ls.skip(1), name))
}

/// A unit is declared among the lines where line `k` declares it.
pub proof fn lemma_declared_in(ls: Seq<Seq<char>>, name: Seq<char>, k: int)
    requires
        0 <= k < ls.len(),
        declares(ls[k], name),
    ensures
        declared_in(ls, name),
    decreases k,
{
    if k > 0 {
        assert(ls.skip(1)[k - 1] == ls[k]);
        lemma_declared_in(ls.skip(1), name, k - 1);
    }
}

/// The name of the unit: what stands before the first `(`.
pub open spec fn unit_name(sig: Seq<char>) -> Seq<char> {
    trim(before_char(sig, '('))
}

/// The text between the first `(` and the first `)`, where they stand in this order.
pub open spec fn parameter_text(sig: Seq<char>) -> Option<Seq<char>> {
    match (find_char(sig, '('), find_char(sig, ')')) {
        (Some(a), Some(b)) => if a < b {
            Some(sig.subrange(a + 1, b))
        } else {
            None
        },
        _ => None,
    }
}

/// One parameter: its name, and its annotation in canonical form or the placeholder `_`.
pub open spec fn parameter(p: Seq<char>) -> (Seq<char>, Seq<char>) {
    match find_char(p, ':') {
        Some(c) => (trim(p.take(c)), normalize(p.skip(c + 1))),
        None => (p, "_"@),
    }
}

/// The parameters written in `parts`, in order; blank parts are passed over.
pub open spec fn parameters_of(parts: Seq<Seq<char>>) -> Seq<(Seq<char>, Seq<char>)>
    decreases parts.len(),
{
    if parts.len() == 0 {
        seq![]
    } else {
        let head = parameters_of(parts.drop_last());
        let p = trim(parts.last());
        if p.len() > 0 {
            head.push(parameter(p))
        } else {
            head
        }
    }
}

/// The parameters of the unit: the items of the parameter text between its top-level
/// commas.
pub open spec fn unit_parameters(sig: Seq<char>) -> Seq<(Seq<char>, Seq<char>)> {
    match parameter_text(sig) {
        Some(list) => parameters_of(top_level_items(list)),
        None => seq![],
    }
}

/// The annotation after `->`, where the signature has a parameter list and the
/// annotation is not blank.
pub open spec fn return_annotation(sig: Seq<char>) -> Option<Seq<char>> {
    if find_char(sig, '(') is Some {
        match find_sub(sig, "->"@) {
            Some(a) => {
                let after = trim(strip_end(trim(sig.skip(a + "->"@.len())), ":"@));
                if after.len() > 0 {
                    Some(after)
                } else {
                    None
                }
            },
            None => None,
        }
    } else {
        None
    }
}

/// The canonical return type of the unit.
pub open spec fn unit_return(sig: Seq<char>) -> Option<Seq<char>> {
    match return_annotation(sig) {
        Some(a) => Some(normalize(a)),
        None => None,
    }
}

/// One parameter in the structured text.
pub open spec fn fragment_parameter(p: (Seq<char>, Seq<char>)) -> Seq<char> {
    "{\"n\":\""@ + p.0 + "\",\"t\":\""@ + p.1 + "\"}"@
}

/// The return type in the structured text; nothing where none is declared.
pub open spec fn fragment_return(ret: Option<Seq<char>>) -> Seq<char> {
    match ret {
        Some(r) => ",\"ret\": \""@ + r + "\""@,
        None => seq![],
    }
}

/// Name, parameters and return type as one line of structured text.
pub open spec fn fragment(
    name: Seq<char>,
    params: Seq<(Seq<char>, Seq<char>)>,
    ret: Option<Seq<char>>,
) -> Seq<char> {
    "{\"name\": \""@ + name + "\",\"params\": ["@ + join(
        params.map_values(|p: (Seq<char>, Seq<char>)| fragment_parameter(p)),
        ","@,
    ) + "]"@ + fragment_return(ret) + "}"@
}

/// The unit declared at line `d` of `ls`.
pub open spec fn unit_at(ls: Seq<Seq<char>>, d: int) -> LambdaView {
    let sig = signature_text(ls[d]);
    LambdaView {
        name: unit_name(sig),
        params: unit_parameters(sig),
        ret: unit_return(sig),
        body: translate_body(trimmed_nonblank(ls.subrange(d + 1, unit_end(ls, d)))),
        orig_body: ls.subrange(unit_start(ls, d), unit_end(ls, d)),
        ast_fragment: Some(fragment(unit_name(sig), unit_parameters(sig), unit_return(sig))),
    }
}

/// The graph for the Python text `src`: the first unit that it declares, or no node.
pub open spec fn python_graph(src: Seq<char>) -> Seq<NodeView> {
    let ls = lines(src);
    match first_def_from(ls, 0) {
        Some(d) => seq![NodeView::Lambda(unit_at(ls, d))],
        None => seq![],
    }
}

/// The graph of a Python text holds at most one unit, and a unit that it holds has a name.
pub proof fn lemma_python_graph(src: Seq<char>)
    ensures
        python_graph(src).len() <= 1,
        well_formed(python_graph(src)),
{
    lemma_first_def(lines(src), 0);
}

/// A declaration that is found lies at or after the line where the search began.
pub proof fn lemma_first_def(ls: Seq<Seq<char>>, from: int)
    requires
        0 <= from,
    ensures
        match first_def_from(ls, from) {
            Some(d) => from <= d < ls.len() && is_def_line(ls[d]) && forall|k: int|
                from <= k < d ==> !is_def_line(#[trigger] ls[k]),
            None => forall|k: int| from <= k < ls.len() ==> !is_def_line(#[trigger] ls[k]),
        },
    decreases ls.len() - from,
{
    if from < ls.len() && !is_def_line(ls[from]) {
        lemma_first_def(ls, from + 1);
    }
}

fn is_def(line: &Vec<char>) -> (b: bool)
    ensures
        b == is_def_line(line@),
{
    has_prefix(&trim_start_of(line), &chars_of("def ")) && trim_of(
        &before_char_of(&signature_text_of(line), '('),
    ).len() > 0
}

fn is_lead(line: &Vec<char>) -> (b: bool)
    ensures
        b == is_lead_line(line@),
{
    let t = trim_start_of(line);
    has_prefix(&t, &chars_of("@")) || has_prefix(&t, &chars_of("#")) || t.len() == 0
}

fn find_def(ls: &Vec<Vec<char>>, from: usize) -> (r: Option<usize>)
    ensures
        match r {
            Some(d) => first_def_from(texts(ls@), from as int) == Some(d as int) && from <= d
                < ls.len(),
            None => first_def_from(texts(ls@), from as int) is None,
        },
{
    if from >= ls.len() {
        assert(texts(ls@).len() == ls.len());
        return None;
    }
    let mut i: usize = from;
    assert(texts(ls@).len() == ls.len());
    while i < ls.len()
        invariant
            from <= i <= ls.len(),
            texts(ls@).len() == ls.len(),
            first_def_from(texts(ls@), from as int) == first_def_from(texts(ls@), i as int),
        decreases ls.len() - i,
    {
        assert(texts(ls@)[i as int] == ls@[i as int]@);
        if is_def(&ls[i]) {
            return Some(i);
        }
        i += 1;
    }
    None
}

fn find_unit_start(ls: &Vec<Vec<char>>, d: usize) -> (r: usize)
    requires
        d <= ls.len(),
    ensures
        r as int == unit_start(texts(ls@), d as int),
        r <= d,
{
    let mut start: usize = d;
    assert(texts(ls@).len() == ls.len());
    while start > 0 && is_lead(&ls[start - 1])
        invariant
            start <= d <= ls.len(),
            texts(ls@).len() == ls.len(),
            unit_start(texts(ls@), d as int) == unit_start(texts(ls@), start as int),
            forall|k: int| 0 <= k < ls.len() ==> #[trigger] texts(ls@)[k] == ls@[k]@,
        decreases start,
    {
        start -= 1;
    }
    start
}

fn trimmed_nonblank_of(ls: &Vec<Vec<char>>, from: usize, to: usize) -> (r: Vec<Vec<char>>)
    requires
        from <= to <= ls.len(),
    ensures
        texts(r@) == trimmed_nonblank(texts(ls@).subrange(from as int, to as int)),
{
    let mut r: Vec<Vec<char>> = Vec::new();
    let mut j: usize = from;
    let ghost all = texts(ls@);
    assert(all.len() == ls.len());
    assert(all.subrange(from as int, from as int) == Seq::<Seq<char>>::empty());
    assert(texts(r@) == Seq::<Seq<char>>::empty());
    while j < to
        invariant
            from <= j <= to <= ls.len(),
            all == texts(ls@),
            all.len() == ls.len(),
            texts(r@) == trimmed_nonblank(all.subrange(from as int, j as int)),
        decreases to - j,
    {
        let t = trim_of(&ls[j]);
        proof {
            let next = all.subrange(from as int, j + 1);
            assert(next.drop_last() == all.subrange(from as int, j as int));
            assert(next.last() == ls@[j as int]@);
            lemma_texts_push(r@, t);
        }
        if t.len() > 0 {
            r.push(t);
        }
        j += 1;
    }
    r
}

fn subrange_strings(ls: &Vec<Vec<char>>, from: usize, to: usize) -> (r: Vec<String>)
    requires
        from <= to <= ls.len(),
    ensures
        strings(r@) == texts(ls@).subrange(from as int, to as int),
{
    let mut r: Vec<String> = Vec::new();
    let mut j: usize = from;
    let ghost all = texts(ls@);
    assert(all.len() == ls.len());
    assert(strings(r@) == all.subrange(from as int, from as int));
    while j < to
        invariant
            from <= j <= to <= ls.len(),
            all == texts(ls@),
            all.len() == ls.len(),
            strings(r@) == all.subrange(from as int, j as int),
        decreases to - j,
    {
        let line = string_of(&ls[j]);
        proof {
            assert(strings(r@.push(line)) == strings(r@).push(line@));
            assert(all.subrange(from as int, j + 1) == all.subrange(from as int, j as int).push(
                ls@[j as int]@,
            ));
        }
        r.push(line);
        j += 1;
    }
    r
}

fn signature_text_of(line: &Vec<char>) -> (r: Vec<char>)
    ensures
        r@ == signature_text(line@),
{
    let head = trim_of(&strip_end_of(&trim_of(line), &chars_of(":")));
    trim_of(&strip_start_of(&head, &chars_of("def")))
}

/// Whether one of the lines `ls` declares the unit `name`.
pub fn is_declared_in(ls: &Vec<Vec<char>>, name: &Vec<char>) -> (b: bool)
    ensures
        b == declared_in(texts(ls@), name@),
{
    let mut i: usize = 0;
    let ghost all = texts(ls@);
    assert(all.skip(0) == all);
    while i < ls.len()
        invariant
            i <= ls.len(),
            all == texts(ls@),
            declared_in(all, name@) == declared_in(all.skip(i as int), name@),
        decreases ls.len() - i,
    {
        assert(all.skip(i as int)[0] == ls@[i as int]@);
        if is_def(&ls[i]) {
            let found = trim_of(&before_char_of(&signature_text_of(&ls[i]), '('));
            if same(&found, name) {
                return true;
            }
        }
        assert(all.skip(i as int).skip(1) == all.skip(i + 1));
        i += 1;
    }
    false
}

fn parameter_text_of(sig: &Vec<char>) -> (r: Option<Vec<char>>)
    ensures
        match r {
            Some(t) => parameter_text(sig@) == Some(t@),
            None => parameter_text(sig@) is None,
        },
{
    match find_char_in(sig, '(') {
        Some(a) => match find_char_in(sig, ')') {
            Some(b) => if a < b {
                Some(slice(sig, a + 1, b))
            } else {
                None
            },
            None => None,
        },
        None => None,
    }
}

fn parameter_of(p: &Vec<char>) -> (r: (String, String))
    ensures
        (r.0@, r.1@) == parameter(p@),
{
    match find_char_in(p, ':') {
        Some(c) => {
            let name = trim_of(&slice(p, 0, c));
            let annotation = slice(p, c + 1, p.len());
            let canonical = normalize_chars(&annotation);
            (string_of(&name), string_of(&canonical))
        },
        None => (string_of(p), string_of(&chars_of("_"))),
    }
}

fn unit_parameters_of(sig: &Vec<char>) -> (r: Vec<(String, String)>)
    ensures
        pairs(r@) == unit_parameters(sig@),
{
    let mut r: Vec<(String, String)> = Vec::new();
    assert(pairs(r@) == Seq::<(Seq<char>, Seq<char>)>::empty());
    match parameter_text_of(sig) {
        Some(list) => {
            let parts = split_top_commas(&list);
            let ghost all = texts(parts@);
            assert(all.take(0) == Seq::<Seq<char>>::empty());
            let mut i: usize = 0;
            while i < parts.len()
                invariant
                    i <= parts.len(),
                    all == texts(parts@),
                    pairs(r@) == parameters_of(all.take(i as int)),
                decreases parts.len() - i,
            {
                let p = trim_of(&parts[i]);
                proof {
                    let next = all.take(i + 1);
                    assert(next.drop_last() == all.take(i as int));
                    assert(next.last() == parts@[i as int]@);
                }
                if p.len() > 0 {
                    let item = parameter_of(&p);
                    proof {
                        assert(pairs(r@.push(item)) == pairs(r@).push((item.0@, item.1@)));
                    }
                    r.push(item);
                }
                i += 1;
            }
            assert(all.take(parts.len() as int) == all);
            r
        },
        None => r,
    }
}

fn unit_return_of(sig: &Vec<char>) -> (r: Option<String>)
    ensures
        optional(r) == unit_return(sig@),
{
    if find_char_in(sig, '(').is_none() {
        return None;
    }
    let arrow = chars_of("->");
    match find_sub_in(sig, &arrow) {
        Some(a) => {
            let rest = slice(sig, a + arrow.len(), sig.len());
            assert(rest@ == sig@.skip(a + "->"@.len()));
            let after = trim_of(&strip_end_of(&trim_of(&rest), &chars_of(":")));
            if after.len() > 0 {
                let canonical = normalize_chars(&after);
                Some(string_of(&canonical))
            } else {
                None
            }
        },
        None => None,
    }
}

fn fragment_of(name: &String, params: &Vec<(String, String)>, ret: &Option<String>) -> (r: String)
    ensures
        r@ == fragment(name@, pairs(params@), optional(*ret)),
{
    let ghost want = pairs(params@).map_values(|p: (Seq<char>, Seq<char>)| fragment_parameter(p));
    let mut parts: Vec<Vec<char>> = Vec::new();
    let mut i: usize = 0;
    while i < params.len()
        invariant
            i <= params.len(),
            want == pairs(params@).map_values(|p: (Seq<char>, Seq<char>)| fragment_parameter(p)),
            texts(parts@) == want.take(i as int),
        decreases params.len() - i,
    {
        let mut part = chars_of("{\"n\":\"");
        push_str(&mut part, params[i].0.as_str());
        push_str(&mut part, "\",\"t\":\"");
        push_str(&mut part, params[i].1.as_str());
        push_str(&mut part, "\"}");
        proof {
            lemma_texts_push(parts@, part);
            assert(want.take(i + 1) == want.take(i as int).push(want[i as int]));
        }
        parts.push(part);
        i += 1;
    }
    assert(want.take(params.len() as int) == want);
    let mut r = chars_of("{\"name\": \"");
    push_str(&mut r, name.as_str());
    push_str(&mut r, "\",\"params\": [");
    push_all(&mut r, &join_of(&parts, &chars_of(",")));
    push_str(&mut r, "]");
    match ret {
        Some(t) => {
            push_str(&mut r, ",\"ret\": \"");
            push_str(&mut r, t.as_str());
            push_str(&mut r, "\"");
            assert(r@ == "{\"name\": \""@ + name@ + "\",\"params\": ["@ + join(want, ","@) + "]"@
                + (",\"ret\": \""@ + t@ + "\""@));
        },
        None => {
            assert(r@ + Seq::<char>::empty() == r@);
        },
    }
    push_str(&mut r, "}");
    string_of(&r)
}

fn unit_at_line(ls: &Vec<Vec<char>>, d: usize) -> (l: LambdaNode)
    requires
        d < ls.len(),
    ensures
        l@ == unit_at(texts(ls@), d as int),
{
    assert(texts(ls@)[d as int] == ls@[d as int]@);
    assert(texts(ls@).len() == ls.len());
    let sig = signature_text_of(&ls[d]);
    let name = string_of(&trim_of(&before_char_of(&sig, '(')));
    let params = unit_parameters_of(&sig);
    let ret = unit_return_of(&sig);
    let end: usize = match find_def(ls, d + 1) {
        Some(e) => e,
        None => ls.len(),
    };
    let start = find_unit_start(ls, d);
    let body_lines = trimmed_nonblank_of(ls, d + 1, end);
    let body = strings_of_each(&translate_lines(&body_lines));
    let orig_body = subrange_strings(ls, start, end);
    let ast_fragment = Some(fragment_of(&name, &params, &ret));
    LambdaNode { name, params, ret, body, orig_body, ast_fragment }
}

/// Builds the graph for the Python text `src`.
///
/// The graph holds one node where the text declares a unit, and none where it does not.
pub fn python_source_to_ueg(src: &str) -> (g: Ueg)
    ensures
        g@ == python_graph(src@),
        g@.len() <= 1,
        well_formed(g@),
{
    let ls = lines_of(&chars_of(src));
    proof {
        lemma_python_graph(src@);
    }
    let mut g = Ueg::new();
    match find_def(&ls, 0) {
        Some(d) => {
            let l = unit_at_line(&ls, d);
            g.nodes.push(NodeKind::Lambda(l));
            assert(g@ =~= seq![NodeView::Lambda(l@)]);
        },
        None => {},
    }
    g
}

/// The text that `String::from_utf8_lossy` makes of `bytes`.
pub uninterp spec fn lossy_text(bytes: Seq<u8>) -> Seq<char>;

/// `String::from_utf8_lossy`: the text that the bytes encode, with the replacement
/// character in place of each sequence that is not UTF-8. For bytes that are UTF-8
/// throughout, that is the text they encode.
#[verifier::external_body]
fn decode_lossy(source: &[u8]) -> (s: String)
    ensures
        s@ == lossy_text(source@),
        valid_utf8(source@) ==> s@ == decode_utf8(source@),
{
    String::from_utf8_lossy(source).into_owned()
}

/// Builds the graph for Python source given as bytes, beside its syntax tree, of which
/// nothing is read.
pub fn python_to_ueg(_root: &SyntaxNode, source: &[u8]) -> (g: Ueg)
    ensures
        g@ == python_graph(lossy_text(source@)),
        valid_utf8(source@) ==> g@ == python_graph(decode_utf8(source@)),
        g@.len() <= 1,
        well_formed(g@),
{
    let src = decode_lossy(source);
    python_source_to_ueg(src.as_str())
}

} // verus!
