//! Lowering the graph back to Python.
//!
//! A unit that still holds its source lines is emitted from them, so that Python going in
//! comes out as it was. Only a unit without source lines is rebuilt from its statements.
use vstd::prelude::*;
use crate::error::TranslateError;
use crate::text::{chars_of, string_of, push_all, push_str, is_str, slice, trim, trim_of,
    trim_start, trim_start_of};
use crate::split::{join, join_of, concat, concat_of, texts, lemma_texts_push};
use crate::targets::{Target, target_type, target_type_of, target_type_in, denormalize,
    denormalize_of, body_text, body_of};
use crate::walker::{Ueg, NodeKind, LambdaNode, LambdaView, NodeView, strings, pairs, chars_of_each};
use crate::python::{declared_in, is_declared_in};

verus! {

/// One parameter in Python: the name alone where it has no annotation.
pub open spec fn python_param(p: (Seq<char>, Seq<char>)) -> Seq<char> {
    if p.1 == "_"@ {
        p.0
    } else {
        p.0 + ": "@ + target_type(p.1, Target::Python)
    }
}

/// The return annotation in Python; nothing where no return type is declared.
pub open spec fn python_return(ret: Option<Seq<char>>) -> Seq<char> {
    match ret {
        Some(r) => " -> "@ + target_type(r, Target::Python),
        None => seq![],
    }
}

/// The declaring line of the unit, with its line feed.
pub open spec fn python_header(l: LambdaView) -> Seq<char> {
    "def "@ + l.name + "("@ + join(
        l.params.map_values(|p: (Seq<char>, Seq<char>)| python_param(p)),
        ", "@,
    ) + ")"@ + python_return(l.ret) + ":\n"@
}

/// How many bytes `c` takes in UTF-8.
pub open spec fn utf8_width(c: char) -> int {
    let n = c as u32;
    if n < 0x80 {
        1
    } else if n < 0x800 {
        2
    } else if n < 0x10000 {
        3
    } else {
        4
    }
}

/// How many bytes `s` takes in UTF-8.
pub open spec fn utf8_len(s: Seq<char>) -> int
    decreases s.len(),
{
    if s.len() == 0 {
        0
    } else {
        utf8_len(s.drop_last()) + utf8_width(s.last())
    }
}

/// `s` without its first `m` bytes; a character that the cut would split is left out whole.
pub open spec fn skip_bytes(s: Seq<char>, m: int) -> Seq<char>
    decreases s.len(),
{
    if m <= 0 || s.len() == 0 {
        s
    } else {
        skip_bytes(s.skip(1), m - utf8_width(s[0]))
    }
}

/// How many spaces stand at the beginning of `line`.
pub open spec fn leading_spaces(line: Seq<char>) -> int
    decreases line.len(),
{
    if line.len() > 0 && line[0] == ' ' {
        1 + leading_spaces(line.skip(1))
    } else {
        0
    }
}

/// The least number of leading spaces among the lines that are not blank.
pub open spec fn least_indent(ls: Seq<Seq<char>>) -> Option<int>
    decreases ls.len(),
{
    if ls.len() == 0 {
        None
    } else {
        let rest = least_indent(ls.drop_last());
        let l = ls.last();
        if trim(l).len() == 0 {
            rest
        } else {
            match rest {
                Some(m) => if m <= leading_spaces(l) {
                    Some(m)
                } else {
                    Some(leading_spaces(l))
                },
                None => Some(leading_spaces(l)),
            }
        }
    }
}

/// The indentation that all lines share: the least among the lines that are not blank, and
/// 0 where all are blank.
pub open spec fn min_indent(ls: Seq<Seq<char>>) -> int {
    match least_indent(ls) {
        Some(m) => m,
        None => 0,
    }
}

/// `line` without the shared indentation of `m` bytes; a line no longer than that loses
/// its leading white space.
pub open spec fn dedent(line: Seq<char>, m: int) -> Seq<char> {
    if utf8_len(line) > m {
        skip_bytes(line, m)
    } else {
        trim_start(line)
    }
}

/// The first line that is not blank.
pub open spec fn first_nonblank(ls: Seq<Seq<char>>) -> Option<Seq<char>>
    decreases ls.len(),
{
    if ls.len() == 0 {
        None
    } else if trim(ls[0]).len() > 0 {
        Some(ls[0])
    } else {
        first_nonblank(ls.skip(1))
    }
}

/// A source line as it is emitted: without the shared indentation, with a line feed.
pub open spec fn source_line(line: Seq<char>, m: int) -> Seq<char> {
    dedent(line, m) + "\n"@
}

/// A source line as it is emitted below a header: one level deep.
pub open spec fn nested_source_line(line: Seq<char>, m: int) -> Seq<char> {
    "    "@ + dedent(line, m) + "\n"@
}

/// The Python text for one unit.
///
/// A unit that holds source lines is emitted from them, without their shared indentation:
/// as they are where the line that declares the unit is among them, else one level deep
/// below a header of its own. A unit without source lines, or with blank ones only, is a
/// header and the statements of its body.
pub open spec fn python_function(l: LambdaView) -> Seq<char> {
    if declared_in(l.orig_body, l.name) {
        concat(l.orig_body.map_values(|line: Seq<char>| source_line(line, min_indent(l.orig_body))))
    } else if first_nonblank(l.orig_body) is Some {
        python_header(l) + concat(
            l.orig_body.map_values(
                |line: Seq<char>| nested_source_line(line, min_indent(l.orig_body)),
            ),
        )
    } else {
        python_header(l) + body_text(l.body, Target::Python)
    }
}

/// The Python text for the node `n`.
pub open spec fn python_node(n: NodeView) -> Seq<char> {
    match n {
        NodeView::Lambda(l) => python_function(l),
    }
}

/// The Python text for the graph: its nodes in order.
pub open spec fn python_text(g: Seq<NodeView>) -> Seq<char> {
    concat(g.map_values(|n: NodeView| python_node(n)))
}

/// The Python spelling of the canonical type `ann`.
pub fn map_type_python(ann: &Vec<char>) -> (r: Vec<char>)
    ensures
        r@ == denormalize(ann@, Target::Python),
{
    denormalize_of(ann, Target::Python)
}

fn python_header_of(l: &LambdaNode) -> (r: Vec<char>)
    ensures
        r@ == python_header(l@),
{
    let ghost want = pairs(l.params@).map_values(|p: (Seq<char>, Seq<char>)| python_param(p));
    let mut parts: Vec<Vec<char>> = Vec::new();
    let mut i: usize = 0;
    while i < l.params.len()
        invariant
            i <= l.params.len(),
            want == pairs(l.params@).map_values(|p: (Seq<char>, Seq<char>)| python_param(p)),
            texts(parts@) == want.take(i as int),
        decreases l.params.len() - i,
    {
        let mut part = chars_of(l.params[i].0.as_str());
        let ty = chars_of(l.params[i].1.as_str());
        if !is_str(&ty, "_") {
            push_str(&mut part, ": ");
            push_all(&mut part, &target_type_in(&ty, Target::Python));
        }
        proof {
            lemma_texts_push(parts@, part);
            assert(want.take(i + 1) == want.take(i as int).push(want[i as int]));
        }
        parts.push(part);
        i += 1;
    }
    assert(want.take(l.params.len() as int) == want);
    let mut r = chars_of("def ");
    push_str(&mut r, l.name.as_str());
    push_str(&mut r, "(");
    push_all(&mut r, &join_of(&parts, &chars_of(", ")));
    push_str(&mut r, ")");
    match &l.ret {
        Some(ret) => {
            push_str(&mut r, " -> ");
            push_all(&mut r, &target_type_of(ret.as_str(), Target::Python));
        },
        None => {
            assert(r@ + Seq::<char>::empty() == r@);
        },
    }
    push_str(&mut r, ":\n");
    r
}

fn utf8_width_of(c: char) -> (w: usize)
    ensures
        w as int == utf8_width(c),
        1 <= w <= 4,
{
    let n: u32 = c as u32;
    if n < 0x80 {
        1
    } else if n < 0x800 {
        2
    } else if n < 0x10000 {
        3
    } else {
        4
    }
}

/// Every character takes at least one byte.
pub proof fn lemma_utf8_len(s: Seq<char>)
    ensures
        utf8_len(s) >= s.len(),
    decreases s.len(),
{
    if s.len() > 0 {
        lemma_utf8_len(s.drop_last());
    }
}

/// Whether `line` takes more than `m` bytes.
fn is_longer_than(line: &Vec<char>, m: usize) -> (b: bool)
    ensures
        b == (utf8_len(line@) > m),
{
    let mut left: usize = m;
    let mut i: usize = 0;
    assert(line@.take(0) == Seq::<char>::empty());
    while i < line.len()
        invariant
            i <= line.len(),
            utf8_len(line@.take(i as int)) + left == m,
        decreases line.len() - i,
    {
        let w = utf8_width_of(line[i]);
        proof {
            let next = line@.take(i + 1);
            assert(next.drop_last() == line@.take(i as int));
            assert(next.last() == line@[i as int]);
        }
        if w > left {
            proof {
                lemma_utf8_tail(line@, i + 1);
            }
            return true;
        }
        left -= w;
        i += 1;
    }
    assert(line@.take(line.len() as int) == line@);
    false
}

/// A text takes at least as many bytes as any of its prefixes.
pub proof fn lemma_utf8_tail(s: Seq<char>, n: int)
    requires
        0 <= n <= s.len(),
    ensures
        utf8_len(s.take(n)) <= utf8_len(s),
    decreases s.len() - n,
{
    if n < s.len() {
        lemma_utf8_tail(s, n + 1);
        let next = s.take(n + 1);
        assert(next.drop_last() == s.take(n));
    } else {
        assert(s.take(n) == s);
    }
}

fn skip_bytes_of(line: &Vec<char>, m: usize) -> (r: Vec<char>)
    ensures
        r@ == skip_bytes(line@, m as int),
{
    let mut left: usize = m;
    let mut i: usize = 0;
    assert(line@.skip(0) == line@);
    while left > 0 && i < line.len()
        invariant
            i <= line.len(),
            skip_bytes(line@, m as int) == skip_bytes(line@.skip(i as int), left as int),
        decreases line.len() - i,
    {
        let w = utf8_width_of(line[i]);
        proof {
            assert(line@.skip(i as int).skip(1) == line@.skip(i + 1));
            assert(line@.skip(i as int)[0] == line@[i as int]);
            if w > left {
                let rest = line@.skip(i + 1);
                assert(skip_bytes(rest, left - w) == rest);
                assert(skip_bytes(rest, 0) == rest);
            }
        }
        left = if w > left {
            0
        } else {
            left - w
        };
        i += 1;
    }
    slice(line, i, line.len())
}

fn dedent_of(line: &Vec<char>, m: usize) -> (r: Vec<char>)
    ensures
        r@ == dedent(line@, m as int),
{
    if is_longer_than(line, m) {
        skip_bytes_of(line, m)
    } else {
        trim_start_of(line)
    }
}

fn leading_spaces_of(line: &Vec<char>) -> (n: usize)
    ensures
        n as int == leading_spaces(line@),
{
    let mut i: usize = 0;
    assert(line@.skip(0) == line@);
    while i < line.len() && line[i] == ' '
        invariant
            i <= line.len(),
            leading_spaces(line@) == i + leading_spaces(line@.skip(i as int)),
        decreases line.len() - i,
    {
        assert(line@.skip(i as int).skip(1) == line@.skip(i + 1));
        i += 1;
    }
    i
}

fn least_indent_of(ls: &Vec<Vec<char>>) -> (r: Option<usize>)
    ensures
        match r {
            Some(m) => least_indent(texts(ls@)) == Some(m as int),
            None => least_indent(texts(ls@)) is None,
        },
{
    let mut least: Option<usize> = None;
    let mut i: usize = 0;
    let ghost all = texts(ls@);
    assert(all.take(0) == Seq::<Seq<char>>::empty());
    while i < ls.len()
        invariant
            i <= ls.len(),
            all == texts(ls@),
            match least {
                Some(m) => least_indent(all.take(i as int)) == Some(m as int),
                None => least_indent(all.take(i as int)) is None,
            },
        decreases ls.len() - i,
    {
        proof {
            let next = all.take(i + 1);
            assert(next.drop_last() == all.take(i as int));
            assert(next.last() == ls@[i as int]@);
        }
        if trim_of(&ls[i]).len() > 0 {
            let n = leading_spaces_of(&ls[i]);
            least = match least {
                Some(m) => if m <= n {
                    Some(m)
                } else {
                    Some(n)
                },
                None => Some(n),
            };
        }
        i += 1;
    }
    assert(all.take(ls.len() as int) == all);
    least
}

fn first_nonblank_of(ls: &Vec<Vec<char>>) -> (r: Option<usize>)
    ensures
        match r {
            Some(k) => k < ls.len() && first_nonblank(texts(ls@)) == Some(ls@[k as int]@),
            None => first_nonblank(texts(ls@)) is None,
        },
{
    let mut i: usize = 0;
    let ghost all = texts(ls@);
    assert(all.skip(0) == all);
    while i < ls.len()
        invariant
            i <= ls.len(),
            all == texts(ls@),
            first_nonblank(all) == first_nonblank(all.skip(i as int)),
        decreases ls.len() - i,
    {
        assert(all.skip(i as int)[0] == ls@[i as int]@);
        if trim_of(&ls[i]).len() > 0 {
            return Some(i);
        }
        assert(all.skip(i as int).skip(1) == all.skip(i + 1));
        i += 1;
    }
    None
}

fn python_function_of(l: &LambdaNode) -> (r: Vec<char>)
    ensures
        r@ == python_function(l@),
{
    let orig = chars_of_each(&l.orig_body);
    let first = first_nonblank_of(&orig);
    let whole = is_declared_in(&orig, &chars_of(l.name.as_str()));
    if whole || first.is_some() {
        let m: usize = match least_indent_of(&orig) {
            Some(m) => m,
            None => 0,
        };
        let ghost all = strings(l.orig_body@);
        let ghost want = if whole {
            all.map_values(|line: Seq<char>| source_line(line, m as int))
        } else {
            all.map_values(|line: Seq<char>| nested_source_line(line, m as int))
        };
        let mut parts: Vec<Vec<char>> = Vec::new();
        let mut i: usize = 0;
        assert(all.len() == orig.len());
        while i < orig.len()
            invariant
                i <= orig.len(),
                all == texts(orig@),
                all.len() == orig.len(),
                want == if whole {
                    all.map_values(|line: Seq<char>| source_line(line, m as int))
                } else {
                    all.map_values(|line: Seq<char>| nested_source_line(line, m as int))
                },
                texts(parts@) == want.take(i as int),
            decreases orig.len() - i,
        {
            let mut part: Vec<char> = if whole {
                Vec::new()
            } else {
                chars_of("    ")
            };
            proof {
                assert(all[i as int] == orig@[i as int]@);
                if whole {
                    assert(Seq::<char>::empty() + dedent(orig@[i as int]@, m as int) == dedent(
                        orig@[i as int]@,
                        m as int,
                    ));
                }
            }
            push_all(&mut part, &dedent_of(&orig[i], m));
            push_str(&mut part, "\n");
            proof {
                lemma_texts_push(parts@, part);
                assert(want.take(i + 1) == want.take(i as int).push(want[i as int]));
            }
            parts.push(part);
            i += 1;
        }
        assert(want.take(orig.len() as int) == want);
        if whole {
            concat_of(&parts)
        } else {
            let mut r = python_header_of(l);
            push_all(&mut r, &concat_of(&parts));
            r
        }
    } else {
        let mut r = python_header_of(l);
        push_all(&mut r, &body_of(&l.body, Target::Python));
        r
    }
}

/// Lowers the graph to Python: one function for each node, in order.
///
/// A graph without nodes has nothing to translate, and is refused.
pub fn lower_to_python(ueg: &Ueg) -> (r: Result<String, TranslateError>)
    ensures
        match r {
            Ok(out) => ueg.is_valid() && out@ == python_text(ueg@),
            Err(e) => !ueg.is_valid() && e == TranslateError::NoTranslatableUnit,
        },
{
    if ueg.nodes.len() == 0 {
        return Err(TranslateError::NoTranslatableUnit);
    }
    let ghost want = ueg@.map_values(|n: NodeView| python_node(n));
    let mut parts: Vec<Vec<char>> = Vec::new();
    let mut i: usize = 0;
    while i < ueg.nodes.len()
        invariant
            i <= ueg.nodes.len(),
            want == ueg@.map_values(|n: NodeView| python_node(n)),
            texts(parts@) == want.take(i as int),
        decreases ueg.nodes.len() - i,
    {
        let part = match &ueg.nodes[i] {
            NodeKind::Lambda(l) => python_function_of(l),
        };
        proof {
            lemma_texts_push(parts@, part);
            assert(want.take(i + 1) == want.take(i as int).push(want[i as int]));
        }
        parts.push(part);
        i += 1;
    }
    assert(want.take(ueg.nodes.len() as int) == want);
    Ok(string_of(&concat_of(&parts)))
}

} // verus!
