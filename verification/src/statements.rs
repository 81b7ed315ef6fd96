//! From the lines of a Python body to statements of the core syntax.
//!
//! Five shapes are recognized: a conditional with the return that follows it; a parallel
//! assignment; a counted loop over `range(a, b)` with the rotation of two names that
//! follows it; a return, last or not; a print call. Every other line is kept behind a
//! marker.
use vstd::prelude::*;
use crate::text::{chars_of, push_all, push_str, slice, trim, trim_of};
use crate::scan::{starts_with, ends_with, contains_sub, find_sub, find_char, has_prefix,
    has_suffix, contains, contains_char, find_sub_in, find_char_in, lemma_find_sub,
    lemma_find_char};
use crate::split::{split, split_of, strip_start, strip_end, strip_start_of, strip_end_of, texts,
    lemma_texts_push};
use crate::vocabulary::{inside, is_last, is_last_in};
use crate::walker::{strings, chars_of_each, strings_of_each};

verus! {

/// The line `s` kept as a comment, for a line that no shape matches.
pub open spec fn marker(s: Seq<char>) -> Seq<char> {
    "// TODO: "@ + s
}

/// Whether the line opens a conditional.
pub open spec fn is_conditional(s: Seq<char>) -> bool {
    starts_with(s, "if "@) && ends_with(s, ":"@)
}

/// The condition of a conditional line: what stands between `if` and the final colons.
pub open spec fn condition_of(s: Seq<char>) -> Seq<char> {
    trim(strip_end(strip_start(s, "if"@), ":"@))
}

/// Whether the line returns a value.
pub open spec fn is_return(s: Seq<char>) -> bool {
    starts_with(s, "return "@)
}

/// The expression of a return line.
pub open spec fn returned(s: Seq<char>) -> Seq<char> {
    trim(strip_start(s, "return "@))
}

/// Whether the line assigns several values at once.
pub open spec fn is_parallel_assignment(s: Seq<char>) -> bool {
    s.contains('=') && s.contains(',') && !s.contains(':')
}

/// One declaration for each name of a parallel assignment, in order; `None` where the
/// line has not one `=`, or not as many values as names.
pub open spec fn declarations(s: Seq<char>) -> Option<Seq<Seq<char>>> {
    let sides = split(s, '=');
    if sides.len() == 2 {
        let names = split(sides[0], ',');
        let values = split(sides[1], ',');
        if names.len() == values.len() {
            Some(Seq::new(names.len(), |j: int| declaration(trim(names[j]), trim(values[j]))))
        } else {
            None
        }
    } else {
        None
    }
}

/// The declaration of `name` with the value `value`; the type is the numeric default.
pub open spec fn declaration(name: Seq<char>, value: Seq<char>) -> Seq<char> {
    "let mut "@ + name + ": i32 = "@ + value + ";"@
}

/// Whether the line opens a loop over a range.
pub open spec fn is_counted_loop(s: Seq<char>) -> bool {
    starts_with(s, "for "@) && contains_sub(s, "range("@)
}

/// The text between the first `range(` and the next `)`.
pub open spec fn range_args(s: Seq<char>) -> Option<Seq<char>> {
    match find_sub(s, "range("@) {
        Some(start) => {
            let from = start + "range("@.len();
            match find_char(s.skip(from), ')') {
                Some(n) => Some(s.subrange(from, from + n)),
                None => None,
            }
        },
        None => None,
    }
}

/// The last value of a range that ends before `b`: for a bound written as `x + 1` that
/// is `x`, for every other bound it is `b - 1`.
pub open spec fn inclusive_bound(b: Seq<char>) -> Seq<char> {
    if ends_with(b, "+ 1"@) {
        trim(strip_end(b, "+ 1"@))
    } else {
        b + " - 1"@
    }
}

/// The two bounds of the loop, the upper one inclusive; `None` where `range` has not
/// two arguments.
pub open spec fn range_bounds(s: Seq<char>) -> Option<(Seq<char>, Seq<char>)> {
    match range_args(s) {
        Some(args) => {
            let parts = split(args, ',');
            if parts.len() == 2 {
                Some((trim(parts[0]), inclusive_bound(trim(parts[1]))))
            } else {
                None
            }
        },
        None => None,
    }
}

/// The two names and the two values of the rotation `next`, each trimmed; `None` where
/// the line has not one `=` with two names before it and two values behind it.
pub open spec fn rotation(next: Seq<char>) -> Option<
    ((Seq<char>, Seq<char>), (Seq<char>, Seq<char>)),
> {
    let sides = split(next, '=');
    if sides.len() == 2 {
        let names = split(sides[0], ',');
        let values = split(sides[1], ',');
        if names.len() == 2 && values.len() == 2 {
            Some(((trim(names[0]), trim(names[1])), (trim(values[0]), trim(values[1]))))
        } else {
            None
        }
    } else {
        None
    }
}

/// The rotation in single steps: the second value is kept aside, the first name gets the
/// first value, and the second name gets what was kept.
pub open spec fn rotation_steps(names: (Seq<char>, Seq<char>), values: (Seq<char>, Seq<char>)) -> Seq<
    Seq<char>,
> {
    seq![
        "    let temp = "@ + values.1 + ";"@,
        "    "@ + names.0 + " = "@ + values.0 + ";"@,
        "    "@ + names.1 + " = temp;"@,
    ]
}

/// Whether the line is a call of `print`.
pub open spec fn is_print(s: Seq<char>) -> bool {
    starts_with(s, "print("@) && ends_with(s, ")"@)
}

/// The argument text of a print line: what stands between its parentheses.
pub open spec fn printed(s: Seq<char>) -> Seq<char> {
    inside(s, "print("@.len() as int)
}

/// The opening of a conditional in the core syntax.
pub open spec fn conditional_open(s: Seq<char>) -> Seq<char> {
    "if "@ + condition_of(s) + " {"@
}

/// The return inside a conditional.
pub open spec fn early_return(next: Seq<char>) -> Seq<char> {
    "    return "@ + returned(next) + ";"@
}

/// The opening of a counted loop over the inclusive range `bounds`.
pub open spec fn loop_open(bounds: (Seq<char>, Seq<char>)) -> Seq<char> {
    "for _ in "@ + bounds.0 + "..="@ + bounds.1 + " {"@
}

/// A return that is not the last statement.
pub open spec fn inner_return(s: Seq<char>) -> Seq<char> {
    "return "@ + returned(s) + ";"@
}

/// The print statement of the core syntax.
pub open spec fn print_statement(s: Seq<char>) -> Seq<char> {
    "println!(\"{}\", "@ + printed(s) + ");"@
}

/// The statements for line `i` of `body`, and how many lines they stand for: two where
/// the line takes the next one with it, else one. A conditional takes the return that
/// follows it, a counted loop the rotation that follows it; without it either is kept
/// behind a marker.
pub open spec fn statement_at(body: Seq<Seq<char>>, i: int) -> (Seq<Seq<char>>, int) {
    let s = body[i];
    let has_next = i + 1 < body.len();
    if is_conditional(s) {
        if has_next && is_return(body[i + 1]) {
            (seq![conditional_open(s), early_return(body[i + 1]), "}"@], 2)
        } else {
            (seq![marker(s)], 1)
        }
    } else if is_parallel_assignment(s) {
        match declarations(s) {
            Some(d) => (d, 1),
            None => (seq![marker(s)], 1),
        }
    } else if is_counted_loop(s) {
        match range_bounds(s) {
            Some(bounds) => {
                if has_next && rotation(body[i + 1]) is Some {
                    let r = rotation(body[i + 1])->0;
                    (seq![loop_open(bounds)] + rotation_steps(r.0, r.1) + seq!["}"@], 2)
                } else {
                    (seq![marker(s)], 1)
                }
            },
            None => (seq![marker(s)], 1),
        }
    } else if is_return(s) {
        if is_last(body, i) {
            (seq![returned(s)], 1)
        } else {
            (seq![inner_return(s)], 1)
        }
    } else if is_print(s) {
        (seq![print_statement(s)], 1)
    } else {
        (seq![marker(s)], 1)
    }
}

/// The statements for the lines of `body` from line `i` on.
pub open spec fn translate_from(body: Seq<Seq<char>>, i: int) -> Seq<Seq<char>>
    decreases body.len() - i,
{
    if 0 <= i < body.len() {
        let step = statement_at(body, i);
        proof {
            lemma_statement_answers(body, i);
        }
        step.0 + translate_from(body, i + step.1)
    } else {
        seq![]
    }
}

/// The statements of the core syntax for the lines of `body`, in order. No line is dropped.
pub open spec fn translate_body(body: Seq<Seq<char>>) -> Seq<Seq<char>> {
    translate_from(body, 0)
}

/// Splitting gives at least one part.
pub proof fn lemma_split_is_not_empty(s: Seq<char>, c: char)
    ensures
        split(s, c).len() >= 1,
    decreases s.len(),
{
    lemma_find_char(s, c);
    if let Some(i) = find_char(s, c) {
        lemma_split_is_not_empty(s.skip(i + 1), c);
    }
}

/// Every line is answered: the statements for a line, or for a line and the one that it
/// takes with it, are at least as many as the lines they stand for.
pub proof fn lemma_statement_answers(body: Seq<Seq<char>>, i: int)
    requires
        0 <= i < body.len(),
    ensures
        1 <= statement_at(body, i).1 <= 2,
        i + statement_at(body, i).1 <= body.len(),
        statement_at(body, i).0.len() >= statement_at(body, i).1,
{
    let s = body[i];
    if !is_conditional(s) && is_parallel_assignment(s) {
        if let Some(d) = declarations(s) {
            lemma_split_is_not_empty(split(s, '=')[0], ',');
        }
    }
}

/// No line is dropped: the body in the core syntax has at least as many statements as the
/// source has lines.
pub proof fn lemma_no_line_is_dropped(body: Seq<Seq<char>>)
    ensures
        translate_body(body).len() >= body.len(),
{
    lemma_translated_from(body, 0);
}

/// From line `i` on there are at least as many statements as lines.
proof fn lemma_translated_from(body: Seq<Seq<char>>, i: int)
    requires
        0 <= i <= body.len(),
    ensures
        translate_from(body, i).len() >= body.len() - i,
    decreases body.len() - i,
{
    if i < body.len() {
        lemma_statement_answers(body, i);
        lemma_translated_from(body, i + statement_at(body, i).1);
    }
}

/// `head`, then `middle`, then `tail`.
fn framed(head: &str, middle: &Vec<char>, tail: &str) -> (r: Vec<char>)
    ensures
        r@ == head@ + middle@ + tail@,
{
    let mut r = chars_of(head);
    push_all(&mut r, middle);
    push_str(&mut r, tail);
    r
}

fn marker_of(s: &Vec<char>) -> (r: Vec<char>)
    ensures
        r@ == marker(s@),
{
    let mut r = chars_of("// TODO: ");
    push_all(&mut r, s);
    r
}

fn condition_of_line(s: &Vec<char>) -> (r: Vec<char>)
    ensures
        r@ == condition_of(s@),
{
    trim_of(&strip_end_of(&strip_start_of(s, &chars_of("if")), &chars_of(":")))
}

fn returned_of(s: &Vec<char>) -> (r: Vec<char>)
    ensures
        r@ == returned(s@),
{
    trim_of(&strip_start_of(s, &chars_of("return ")))
}

fn is_conditional_line(s: &Vec<char>) -> (b: bool)
    ensures
        b == is_conditional(s@),
{
    has_prefix(s, &chars_of("if ")) && has_suffix(s, &chars_of(":"))
}

fn is_return_line(s: &Vec<char>) -> (b: bool)
    ensures
        b == is_return(s@),
{
    has_prefix(s, &chars_of("return "))
}

fn is_parallel_assignment_line(s: &Vec<char>) -> (b: bool)
    ensures
        b == is_parallel_assignment(s@),
{
    contains_char(s, '=') && contains_char(s, ',') && !contains_char(s, ':')
}

fn is_counted_loop_line(s: &Vec<char>) -> (b: bool)
    ensures
        b == is_counted_loop(s@),
{
    has_prefix(s, &chars_of("for ")) && contains(s, &chars_of("range("))
}

fn is_print_line(s: &Vec<char>) -> (b: bool)
    ensures
        b == is_print(s@),
{
    has_prefix(s, &chars_of("print(")) && has_suffix(s, &chars_of(")"))
}

fn declarations_of(s: &Vec<char>) -> (r: Option<Vec<Vec<char>>>)
    ensures
        match r {
            Some(d) => declarations(s@) == Some(texts(d@)),
            None => declarations(s@) is None,
        },
{
    let sides = split_of(s, '=');
    if sides.len() != 2 {
        assert(texts(sides@).len() == sides.len());
        return None;
    }
    assert(texts(sides@)[0] == sides@[0]@);
    assert(texts(sides@)[1] == sides@[1]@);
    let names = split_of(&sides[0], ',');
    let values = split_of(&sides[1], ',');
    assert(texts(names@).len() == names.len());
    assert(texts(values@).len() == values.len());
    if names.len() != values.len() {
        return None;
    }
    let ghost want = declarations(s@)->0;
    let mut out: Vec<Vec<char>> = Vec::new();
    let mut j: usize = 0;
    while j < names.len()
        invariant
            j <= names.len() == values.len(),
            want.len() == names.len(),
            forall|k: int|
                0 <= k < names.len() ==> #[trigger] want[k] == declaration(
                    trim(names@[k]@),
                    trim(values@[k]@),
                ),
            texts(out@) == want.take(j as int),
        decreases names.len() - j,
    {
        let mut line = chars_of("let mut ");
        push_all(&mut line, &trim_of(&names[j]));
        push_str(&mut line, ": i32 = ");
        push_all(&mut line, &trim_of(&values[j]));
        push_str(&mut line, ";");
        proof {
            lemma_texts_push(out@, line);
            assert(want.take(j + 1) == want.take(j as int).push(want[j as int]));
        }
        out.push(line);
        j += 1;
    }
    assert(want.take(names.len() as int) == want);
    Some(out)
}

fn range_args_of(s: &Vec<char>) -> (r: Option<Vec<char>>)
    ensures
        match r {
            Some(a) => range_args(s@) == Some(a@),
            None => range_args(s@) is None,
        },
{
    let pattern = chars_of("range(");
    match find_sub_in(s, &pattern) {
        Some(start) => {
            let from: usize = start + pattern.len();
            let rest = slice(s, from, s.len());
            assert(rest@ == s@.skip(from as int));
            match find_char_in(&rest, ')') {
                Some(n) => Some(slice(s, from, from + n)),
                None => None,
            }
        },
        None => None,
    }
}

fn inclusive_bound_of(b: Vec<char>) -> (r: Vec<char>)
    ensures
        r@ == inclusive_bound(b@),
{
    let one = chars_of("+ 1");
    if has_suffix(&b, &one) {
        trim_of(&strip_end_of(&b, &one))
    } else {
        let mut r = b;
        push_str(&mut r, " - 1");
        r
    }
}

fn range_bounds_of(s: &Vec<char>) -> (r: Option<(Vec<char>, Vec<char>)>)
    ensures
        match r {
            Some(b) => range_bounds(s@) == Some((b.0@, b.1@)),
            None => range_bounds(s@) is None,
        },
{
    match range_args_of(s) {
        Some(args) => {
            let parts = split_of(&args, ',');
            assert(texts(parts@).len() == parts.len());
            if parts.len() == 2 {
                assert(texts(parts@)[0] == parts@[0]@);
                assert(texts(parts@)[1] == parts@[1]@);
                Some((trim_of(&parts[0]), inclusive_bound_of(trim_of(&parts[1]))))
            } else {
                None
            }
        },
        None => None,
    }
}

/// The two names and the two values of the rotation `next`, in this order.
fn rotation_of(next: &Vec<char>) -> (r: Option<(Vec<char>, Vec<char>, Vec<char>, Vec<char>)>)
    ensures
        match r {
            Some(q) => rotation(next@) == Some(((q.0@, q.1@), (q.2@, q.3@))),
            None => rotation(next@) is None,
        },
{
    let sides = split_of(next, '=');
    assert(texts(sides@).len() == sides.len());
    if sides.len() != 2 {
        return None;
    }
    assert(texts(sides@)[0] == sides@[0]@);
    assert(texts(sides@)[1] == sides@[1]@);
    let names = split_of(&sides[0], ',');
    let values = split_of(&sides[1], ',');
    assert(texts(names@).len() == names.len());
    assert(texts(values@).len() == values.len());
    if names.len() != 2 || values.len() != 2 {
        return None;
    }
    assert(texts(names@)[0] == names@[0]@);
    assert(texts(names@)[1] == names@[1]@);
    assert(texts(values@)[0] == values@[0]@);
    assert(texts(values@)[1] == values@[1]@);
    Some((trim_of(&names[0]), trim_of(&names[1]), trim_of(&values[0]), trim_of(&values[1])))
}

/// Appends the statements for line `i` of `body` to `out`; the result is how many lines
/// they stand for.
fn push_statement(body: &Vec<Vec<char>>, i: usize, out: &mut Vec<Vec<char>>) -> (n: usize)
    requires
        i < body.len(),
    ensures
        texts(final(out)@) == texts(old(out)@) + statement_at(texts(body@), i as int).0,
        n as int == statement_at(texts(body@), i as int).1,
        1 <= n <= 2,
        i + n <= body.len(),
{
    let ghost lines = texts(body@);
    let ghost before = texts(out@);
    let s = &body[i];
    assert(lines[i as int] == s@);
    let has_next = i + 1 < body.len();
    proof {
        if has_next {
            assert(lines[i + 1] == body@[i + 1]@);
        }
        lemma_find_sub(s@, "range("@);
    }
    if is_conditional_line(s) {
        if has_next && is_return_line(&body[i + 1]) {
            let open = framed("if ", &condition_of_line(s), " {");
            let early = framed("    return ", &returned_of(&body[i + 1]), ";");
            let close = chars_of("}");
            proof {
                lemma_texts_push(out@, open);
                lemma_texts_push(out@.push(open), early);
                lemma_texts_push(out@.push(open).push(early), close);
                assert(before.push(open@).push(early@).push(close@) == before + seq![
                    open@,
                    early@,
                    close@,
                ]);
            }
            out.push(open);
            out.push(early);
            out.push(close);
            2
        } else {
            let line = marker_of(s);
            proof {
                lemma_texts_push(out@, line);
                assert(before.push(line@) == before + seq![line@]);
            }
            out.push(line);
            1
        }
    } else if is_parallel_assignment_line(s) {
        match declarations_of(s) {
            Some(d) => {
                let mut j: usize = 0;
                assert(texts(d@).take(0) == Seq::<Seq<char>>::empty());
                assert(before + Seq::<Seq<char>>::empty() == before);
                while j < d.len()
                    invariant
                        j <= d.len(),
                        texts(out@) == before + texts(d@).take(j as int),
                    decreases d.len() - j,
                {
                    let line = slice(&d[j], 0, d[j].len());
                    proof {
                        lemma_texts_push(out@, line);
                        assert(line@ == d@[j as int]@);
                        assert(texts(d@).take(j + 1) == texts(d@).take(j as int).push(
                            d@[j as int]@,
                        ));
                        assert((before + texts(d@).take(j as int)).push(line@) == before + texts(
                            d@,
                        ).take(j as int).push(line@));
                    }
                    out.push(line);
                    j += 1;
                }
                assert(texts(d@).take(d.len() as int) == texts(d@));
                1
            },
            None => {
                let line = marker_of(s);
                proof {
                    lemma_texts_push(out@, line);
                    assert(before.push(line@) == before + seq![line@]);
                }
                out.push(line);
                1
            },
        }
    } else if is_counted_loop_line(s) {
        let turn = if has_next {
            rotation_of(&body[i + 1])
        } else {
            None
        };
        match (range_bounds_of(s), turn) {
            (Some(bounds), Some(q)) => {
                let mut open = framed("for _ in ", &bounds.0, "..=");
                push_all(&mut open, &bounds.1);
                push_str(&mut open, " {");
                assert(open@ == loop_open((bounds.0@, bounds.1@)));
                let temp = framed("    let temp = ", &q.3, ";");
                let mut first = framed("    ", &q.0, " = ");
                push_all(&mut first, &q.2);
                push_str(&mut first, ";");
                let second = framed("    ", &q.1, " = temp;");
                let close = chars_of("}");
                proof {
                    let steps = rotation_steps((q.0@, q.1@), (q.2@, q.3@));
                    assert(steps[0] == temp@);
                    assert(steps[1] == first@);
                    assert(steps[2] == second@);
                    lemma_texts_push(out@, open);
                    lemma_texts_push(out@.push(open), temp);
                    lemma_texts_push(out@.push(open).push(temp), first);
                    lemma_texts_push(out@.push(open).push(temp).push(first), second);
                    lemma_texts_push(out@.push(open).push(temp).push(first).push(second), close);
                    assert(before.push(open@).push(temp@).push(first@).push(second@).push(close@)
                        == before + (seq![open@] + steps + seq![close@]));
                }
                out.push(open);
                out.push(temp);
                out.push(first);
                out.push(second);
                out.push(close);
                2
            },
            _ => {
                let line = marker_of(s);
                proof {
                    lemma_texts_push(out@, line);
                    assert(before.push(line@) == before + seq![line@]);
                }
                out.push(line);
                1
            },
        }
    } else if is_return_line(s) {
        let line = if is_last_in(body, i) {
            returned_of(s)
        } else {
            framed("return ", &returned_of(s), ";")
        };
        proof {
            lemma_texts_push(out@, line);
            assert(before.push(line@) == before + seq![line@]);
        }
        out.push(line);
        1
    } else if is_print_line(s) {
        let keyword = chars_of("print(");
        let inner = if keyword.len() < s.len() {
            slice(s, keyword.len(), s.len() - 1)
        } else {
            Vec::new()
        };
        let line = framed("println!(\"{}\", ", &inner, ");");
        proof {
            lemma_texts_push(out@, line);
            assert(before.push(line@) == before + seq![line@]);
        }
        out.push(line);
        1
    } else {
        let line = marker_of(s);
        proof {
            lemma_texts_push(out@, line);
            assert(before.push(line@) == before + seq![line@]);
        }
        out.push(line);
        1
    }
}

/// The statements of the core syntax for the lines of `body`.
pub fn translate_lines(body: &Vec<Vec<char>>) -> (out: Vec<Vec<char>>)
    ensures
        texts(out@) == translate_body(texts(body@)),
{
    let mut out: Vec<Vec<char>> = Vec::new();
    let mut i: usize = 0;
    let ghost lines = texts(body@);
    assert(texts(out@) == Seq::<Seq<char>>::empty());
    assert(lines.len() == body.len());
    while i < body.len()
        invariant
            i <= body.len(),
            lines == texts(body@),
            lines.len() == body.len(),
            translate_body(lines) == texts(out@) + translate_from(lines, i as int),
        decreases body.len() - i,
    {
        let ghost before = texts(out@);
        let ghost rest = translate_from(lines, i as int);
        let n = push_statement(body, i, &mut out);
        proof {
            let step = statement_at(lines, i as int);
            assert(rest == step.0 + translate_from(lines, i + n));
            assert(before + (step.0 + translate_from(lines, i + n)) == (before + step.0)
                + translate_from(lines, i + n));
        }
        i += n;
    }
    assert(translate_from(lines, i as int) == Seq::<Seq<char>>::empty());
    out
}

/// The statements of the core syntax for the lines of a Python body: one or more for each
/// line, in order.
pub fn translate_body_to_rust_like(body: &Vec<String>) -> (out: Vec<String>)
    ensures
        strings(out@) == translate_body(strings(body@)),
{
    strings_of_each(&translate_lines(&chars_of_each(body)))
}

} // verus!
