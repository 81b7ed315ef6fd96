//! What the backends share: the target spelling of canonical types, and the rendering of
//! the statements of the core syntax.
pub mod go;
pub mod zig;

pub use self::go::lower_to_go;
pub use self::zig::lower_to_zig;

use vstd::prelude::*;
use crate::text::{chars_of, push_all, push_str, is_str, slice, trim, trim_of};
use crate::scan::{starts_with, ends_with, find_char, shifted, has_prefix, has_suffix,
    find_char_in, lemma_find_char};
use crate::split::{texts, join, join_of, concat, concat_of, lemma_texts_push, strip_start,
    strip_start_of};
use crate::types::{normalize, normalize_chars, separator, find_top_comma, balanced, is_balanced,
    lemma_find_top_comma,
    lemma_trim_is_shorter, lemma_ends_with_char};
use crate::vocabulary::{Statement, Stmt, statement_of, statement_in, indentation_of,
    indentation_in, is_last, is_last_in};
use crate::walker::{strings, chars_of_each};

verus! {

/// A target language that spells its types and statements from the canonical ones.
#[derive(Debug, Clone, Copy, PartialEq, Eq)]
pub enum Target {
    Go,
    Zig,
    Python,
}

/// The name, trimmed, and the argument text of a generic type written with angle brackets,
/// or failing that with square brackets.
pub open spec fn generic_of(s: Seq<char>) -> Option<(Seq<char>, Seq<char>)> {
    if find_char(s, '<') is Some && ends_with(s, seq!['>']) {
        let p = find_char(s, '<')->0;
        Some((trim(s.take(p)), s.subrange(p + 1, s.len() - 1)))
    } else if find_char(s, '[') is Some && ends_with(s, seq![']']) {
        let p = find_char(s, '[')->0;
        Some((trim(s.take(p)), s.subrange(p + 1, s.len() - 1)))
    } else {
        None
    }
}

/// The text between the round brackets of a tuple: of a text that begins with `(` and ends
/// with `)`.
pub open spec fn tuple_of(s: Seq<char>) -> Option<Seq<char>> {
    if s.len() >= 2 && s[0] == '(' && s.last() == ')' {
        Some(s.subrange(1, s.len() - 1))
    } else {
        None
    }
}

/// The first argument of an argument list and the rest of the list: the text before and
/// after the first comma outside every bracket, trimmed.
pub open spec fn two_of(s: Seq<char>) -> Option<(Seq<char>, Seq<char>)> {
    match find_top_comma(s, 0) {
        Some(i) => Some((trim(s.take(i)), trim(s.skip(i + 1)))),
        None => None,
    }
}

/// Whether `base` names a list.
pub open spec fn is_list_name(base: Seq<char>) -> bool {
    base == "Vec"@ || base == "List"@
}

/// Whether `base` names an optional value.
pub open spec fn is_option_name(base: Seq<char>) -> bool {
    base == "Option"@
}

/// Whether `base` names a map.
pub open spec fn is_map_name(base: Seq<char>) -> bool {
    base == "HashMap"@ || base == "Map"@ || base == "Dict"@
}

/// The target's name for a canonical primitive; every other name is kept.
pub open spec fn target_primitive(a: Seq<char>, t: Target) -> Seq<char> {
    match t {
        Target::Go => if a == "i32"@ {
            "int"@
        } else if a == "f64"@ {
            "float64"@
        } else if a == "String"@ {
            "string"@
        } else {
            a
        },
        Target::Zig => if a == "String"@ {
            "[]const u8"@
        } else {
            a
        },
        Target::Python => if a == "i32"@ {
            "int"@
        } else if a == "f64"@ {
            "float"@
        } else if a == "String"@ {
            "str"@
        } else {
            a
        },
    }
}

/// The target's type for a value of any type.
pub open spec fn target_dynamic(t: Target) -> Seq<char> {
    match t {
        Target::Go => "interface{}"@,
        Target::Zig => "anytype"@,
        Target::Python => "Any"@,
    }
}

/// The target's type for the canonical type of an absent value: an optional value of any
/// type.
pub open spec fn target_absent(t: Target) -> Seq<char> {
    target_option(target_dynamic(t), t)
}

/// The target's type for the generic type `base` applied to the arguments `args`.
pub open spec fn target_apply(base: Seq<char>, args: Seq<char>, t: Target) -> Seq<char> {
    match t {
        Target::Zig => base + "("@ + args + ")"@,
        _ => base + "["@ + args + "]"@,
    }
}

/// The target's type for a list of `elem`.
pub open spec fn target_list(elem: Seq<char>, t: Target) -> Seq<char> {
    match t {
        Target::Python => "List["@ + elem + "]"@,
        _ => "[]"@ + elem,
    }
}

/// The target's type for an optional `elem`: Python and Zig have a type for it, Go has
/// none and takes the type of the value.
pub open spec fn target_option(elem: Seq<char>, t: Target) -> Seq<char> {
    match t {
        Target::Python => "Optional["@ + elem + "]"@,
        Target::Zig => "?"@ + elem,
        Target::Go => elem,
    }
}

/// The target's type for a tuple of the items `items`: Zig has a tuple type, Python the
/// generic type `Tuple`; Go has no tuple type and gets the items as the arguments of a
/// generic type of that name.
pub open spec fn target_tuple(items: Seq<char>, t: Target) -> Seq<char> {
    match t {
        Target::Zig => "struct { "@ + items + " }"@,
        _ => "Tuple["@ + items + "]"@,
    }
}

/// The target's type for a map from `k` to `v`.
pub open spec fn target_map(k: Seq<char>, v: Seq<char>, t: Target) -> Seq<char> {
    match t {
        Target::Go => "map["@ + k + "]"@ + v,
        Target::Zig => "std.hash_map.HashMap("@ + k + ", "@ + v + ")"@,
        Target::Python => "Dict["@ + k + ", "@ + v + "]"@,
    }
}

/// The target's spelling of each argument of the argument list `s`.
pub open spec fn denormalize_items(s: Seq<char>, t: Target) -> Seq<Seq<char>>
    decreases s.len(), 1nat,
{
    if s.len() == 0 {
        seq![]
    } else {
        match two_of(s) {
            Some((first, rest)) => {
                proof {
                    lemma_two_of(s);
                }
                seq![denormalize(first, t)] + denormalize_items(rest, t)
            },
            None => seq![denormalize(s, t)],
        }
    }
}

/// The target's spelling of the canonical type `ann`.
///
/// Text whose brackets do not balance is kept as it stands, as a name that nothing is
/// known of. The type of an absent value becomes the target's optional value of any type,
/// a tuple the target's tuple of its items. A list of one argument becomes the target's list or
/// slice, an optional type the target's optional type or its content, a map of two
/// arguments the target's map; every other generic type is applied to its arguments in
/// the target's way. A primitive gets the target's name, every other name is kept.
pub open spec fn denormalize(ann: Seq<char>, t: Target) -> Seq<char>
    decreases ann.len(), 0nat,
{
    let a = trim(ann);
    if !balanced(a) {
        a
    } else if a == "Option::<_>"@ {
        target_absent(t)
    } else if tuple_of(a) is Some {
        proof {
            lemma_trim_is_shorter(ann);
        }
        target_tuple(join(denormalize_items(tuple_of(a)->0, t), separator()), t)
    } else {
        match generic_of(a) {
            Some((base, inner)) => {
                proof {
                    lemma_trim_is_shorter(ann);
                    lemma_generic_of(a);
                }
                let args = denormalize_items(inner, t);
                if is_list_name(base) && args.len() == 1 {
                    target_list(args[0], t)
                } else if is_option_name(base) && args.len() == 1 {
                    target_option(args[0], t)
                } else if is_map_name(base) && args.len() == 2 {
                    target_map(args[0], args[1], t)
                } else {
                    target_apply(base, join(args, separator()), t)
                }
            },
            None => target_primitive(a, t),
        }
    }
}

/// The argument text of a generic type is shorter than the type.
pub proof fn lemma_generic_of(s: Seq<char>)
    ensures
        generic_of(s) matches Some((base, inner)) ==> inner.len() + 2 <= s.len(),
{
    lemma_find_char(s, '<');
    lemma_find_char(s, '[');
    lemma_ends_with_char(s, '>');
    lemma_ends_with_char(s, ']');
}

/// Each of the two arguments is shorter than the text that holds both.
pub proof fn lemma_two_of(s: Seq<char>)
    ensures
        two_of(s) matches Some((k, v)) ==> k.len() < s.len() && v.len() < s.len(),
{
    lemma_find_top_comma(s, 0);
    if let Some(i) = find_top_comma(s, 0) {
        lemma_trim_is_shorter(s.take(i));
        lemma_trim_is_shorter(s.skip(i + 1));
    }
}

/// The name and the argument text of a generic type.
pub fn split_generic(v: &Vec<char>) -> (r: Option<(Vec<char>, Vec<char>)>)
    ensures
        match r {
            Some(p) => generic_of(v@) == Some((p.0@, p.1@)),
            None => generic_of(v@) is None,
        },
{
    proof {
        lemma_find_char(v@, '<');
        lemma_find_char(v@, '[');
        lemma_ends_with_char(v@, '>');
        lemma_ends_with_char(v@, ']');
    }
    let mut close: Vec<char> = Vec::new();
    close.push('>');
    assert(close@ == seq!['>']);
    if let Some(pos) = find_char_in(v, '<') {
        if has_suffix(v, &close) {
            return Some((trim_of(&slice(v, 0, pos)), slice(v, pos + 1, v.len() - 1)));
        }
    }
    close.clear();
    close.push(']');
    assert(close@ == seq![']']);
    if let Some(pos) = find_char_in(v, '[') {
        if has_suffix(v, &close) {
            return Some((trim_of(&slice(v, 0, pos)), slice(v, pos + 1, v.len() - 1)));
        }
    }
    None
}

/// The first argument of an argument list and the rest of the list.
pub fn split_two(v: &Vec<char>) -> (r: Option<(Vec<char>, Vec<char>)>)
    ensures
        match r {
            Some(p) => two_of(v@) == Some((p.0@, p.1@)),
            None => two_of(v@) is None,
        },
{
    let mut depth: usize = 0;
    let mut i: usize = 0;
    assert(v@.skip(0) == v@);
    while i < v.len()
        invariant
            i <= v.len(),
            depth <= i,
            find_top_comma(v@, 0) == shifted(
                find_top_comma(v@.skip(i as int), depth as nat),
                i as int,
            ),
        decreases v.len() - i,
    {
        let c = v[i];
        assert(v@.skip(i as int).skip(1) == v@.skip(i + 1));
        if c == '<' || c == '[' || c == '(' {
            depth += 1;
        } else if c == '>' || c == ']' || c == ')' {
            if depth > 0 {
                depth -= 1;
            }
        } else if c == ',' && depth == 0 {
            return Some((trim_of(&slice(v, 0, i)), trim_of(&slice(v, i + 1, v.len()))));
        }
        i += 1;
    }
    None
}

fn target_primitive_of(a: Vec<char>, t: Target) -> (r: Vec<char>)
    ensures
        r@ == target_primitive(a@, t),
{
    match t {
        Target::Go => if is_str(&a, "i32") {
            chars_of("int")
        } else if is_str(&a, "f64") {
            chars_of("float64")
        } else if is_str(&a, "String") {
            chars_of("string")
        } else {
            a
        },
        Target::Zig => if is_str(&a, "String") {
            chars_of("[]const u8")
        } else {
            a
        },
        Target::Python => if is_str(&a, "i32") {
            chars_of("int")
        } else if is_str(&a, "f64") {
            chars_of("float")
        } else if is_str(&a, "String") {
            chars_of("str")
        } else {
            a
        },
    }
}

fn target_dynamic_of(t: Target) -> (r: Vec<char>)
    ensures
        r@ == target_dynamic(t),
{
    match t {
        Target::Go => chars_of("interface{}"),
        Target::Zig => chars_of("anytype"),
        Target::Python => chars_of("Any"),
    }
}

fn target_list_of(elem: &Vec<char>, t: Target) -> (r: Vec<char>)
    ensures
        r@ == target_list(elem@, t),
{
    match t {
        Target::Python => {
            let mut r = chars_of("List[");
            push_all(&mut r, elem);
            push_str(&mut r, "]");
            r
        },
        _ => {
            let mut r = chars_of("[]");
            push_all(&mut r, elem);
            r
        },
    }
}

fn target_option_of(elem: Vec<char>, t: Target) -> (r: Vec<char>)
    ensures
        r@ == target_option(elem@, t),
{
    match t {
        Target::Python => {
            let mut r = chars_of("Optional[");
            push_all(&mut r, &elem);
            push_str(&mut r, "]");
            r
        },
        Target::Zig => {
            let mut r = chars_of("?");
            push_all(&mut r, &elem);
            r
        },
        Target::Go => elem,
    }
}

fn target_tuple_of(items: &Vec<char>, t: Target) -> (r: Vec<char>)
    ensures
        r@ == target_tuple(items@, t),
{
    match t {
        Target::Zig => {
            let mut r = chars_of("struct { ");
            push_all(&mut r, items);
            push_str(&mut r, " }");
            r
        },
        _ => {
            let mut r = chars_of("Tuple[");
            push_all(&mut r, items);
            push_str(&mut r, "]");
            r
        },
    }
}

fn target_map_of(key: &Vec<char>, value: &Vec<char>, t: Target) -> (r: Vec<char>)
    ensures
        r@ == target_map(key@, value@, t),
{
    match t {
        Target::Go => {
            let mut r = chars_of("map[");
            push_all(&mut r, key);
            push_str(&mut r, "]");
            push_all(&mut r, value);
            r
        },
        Target::Zig => {
            let mut r = chars_of("std.hash_map.HashMap(");
            push_all(&mut r, key);
            push_str(&mut r, ", ");
            push_all(&mut r, value);
            push_str(&mut r, ")");
            r
        },
        Target::Python => {
            let mut r = chars_of("Dict[");
            push_all(&mut r, key);
            push_str(&mut r, ", ");
            push_all(&mut r, value);
            push_str(&mut r, "]");
            r
        },
    }
}

fn target_apply_of(base: Vec<char>, args: &Vec<char>, t: Target) -> (r: Vec<char>)
    ensures
        r@ == target_apply(base@, args@, t),
{
    let mut r = base;
    match t {
        Target::Zig => {
            push_str(&mut r, "(");
            push_all(&mut r, args);
            push_str(&mut r, ")");
        },
        _ => {
            push_str(&mut r, "[");
            push_all(&mut r, args);
            push_str(&mut r, "]");
        },
    }
    r
}

fn denormalize_items_of(s: &Vec<char>, t: Target) -> (r: Vec<Vec<char>>)
    ensures
        texts(r@) == denormalize_items(s@, t),
    decreases s@.len(), 1nat,
{
    let mut r: Vec<Vec<char>> = Vec::new();
    assert(texts(r@) == Seq::<Seq<char>>::empty());
    if s.len() == 0 {
        return r;
    }
    proof {
        lemma_two_of(s@);
    }
    match split_two(s) {
        Some((first, rest)) => {
            let head = denormalize_of(&first, t);
            let mut tail = denormalize_items_of(&rest, t);
            let ghost before = tail@;
            tail.insert(0, head);
            assert(texts(tail@) == seq![head@] + texts(before));
            tail
        },
        None => {
            let only = denormalize_of(s, t);
            proof {
                lemma_texts_push(r@, only);
            }
            r.push(only);
            r
        },
    }
}

/// The target's spelling of the canonical type `ann`.
pub fn denormalize_of(ann: &Vec<char>, t: Target) -> (r: Vec<char>)
    ensures
        r@ == denormalize(ann@, t),
    decreases ann@.len(), 0nat,
{
    let a = trim_of(ann);
    proof {
        lemma_trim_is_shorter(ann@);
        lemma_generic_of(a@);
    }
    if !is_balanced(&a) {
        return a;
    }
    if is_str(&a, "Option::<_>") {
        return target_option_of(target_dynamic_of(t), t);
    }
    if a.len() >= 2 && a[0] == '(' && a[a.len() - 1] == ')' {
        let inner = slice(&a, 1, a.len() - 1);
        let items = denormalize_items_of(&inner, t);
        let mut sep: Vec<char> = Vec::new();
        sep.push(',');
        sep.push(' ');
        assert(sep@ == separator());
        return target_tuple_of(&join_of(&items, &sep), t);
    }
    if let Some((base, inner)) = split_generic(&a) {
        let args = denormalize_items_of(&inner, t);
        assert(texts(args@).len() == args.len());
        if (is_str(&base, "Vec") || is_str(&base, "List")) && args.len() == 1 {
            assert(texts(args@)[0] == args@[0]@);
            return target_list_of(&args[0], t);
        }
        if is_str(&base, "Option") && args.len() == 1 {
            assert(texts(args@)[0] == args@[0]@);
            return target_option_of(slice(&args[0], 0, args[0].len()), t);
        }
        if (is_str(&base, "HashMap") || is_str(&base, "Map") || is_str(&base, "Dict"))
            && args.len() == 2 {
            assert(texts(args@)[0] == args@[0]@);
            assert(texts(args@)[1] == args@[1]@);
            return target_map_of(&args[0], &args[1], t);
        }
        let mut sep: Vec<char> = Vec::new();
        sep.push(',');
        sep.push(' ');
        assert(sep@ == separator());
        return target_apply_of(base, &join_of(&args, &sep), t);
    }
    target_primitive_of(a, t)
}

/// The target's spelling of a parameter or return type of the graph: the placeholder of a
/// missing annotation becomes the target's dynamic type, every other type is normalized
/// and then spelled for the target.
pub open spec fn target_type(ty: Seq<char>, t: Target) -> Seq<char> {
    if ty == "_"@ {
        target_dynamic(t)
    } else {
        denormalize(normalize(ty), t)
    }
}

/// The target's spelling of the parameter or return type `ty`.
pub fn target_type_of(ty: &str, t: Target) -> (r: Vec<char>)
    ensures
        r@ == target_type(ty@, t),
{
    target_type_in(&chars_of(ty), t)
}

/// The target's spelling of the type `ty`.
pub fn target_type_in(ty: &Vec<char>, t: Target) -> (r: Vec<char>)
    ensures
        r@ == target_type(ty@, t),
{
    if is_str(ty, "_") {
        target_dynamic_of(t)
    } else {
        denormalize_of(&normalize_chars(ty), t)
    }
}

/// What ends a statement in the target.
pub open spec fn terminator(t: Target) -> Seq<char> {
    match t {
        Target::Zig => ";"@,
        _ => ""@,
    }
}

/// What opens a comment in the target.
pub open spec fn comment_mark(t: Target) -> Seq<char> {
    match t {
        Target::Python => "# "@,
        _ => "// "@,
    }
}

/// The opening of a conditional.
pub open spec fn rendered_if(cond: Seq<char>, t: Target) -> Seq<char> {
    match t {
        Target::Go => "if "@ + cond + " {"@,
        Target::Zig => "if ("@ + cond + ") {"@,
        Target::Python => "if "@ + cond + ":"@,
    }
}

/// A declaration: Go infers the type, Zig takes the declared type where there is one.
pub open spec fn rendered_declaration(
    name: Seq<char>,
    ty: Option<Seq<char>>,
    value: Seq<char>,
    t: Target,
) -> Seq<char> {
    match t {
        Target::Go => name + " := "@ + value,
        Target::Zig => "var "@ + name + (match ty {
            Some(x) => ": "@ + target_type(x, t),
            None => ""@,
        }) + " = "@ + value + ";"@,
        Target::Python => name + " = "@ + value,
    }
}

/// The opening of a counted loop over the inclusive range from `a` to `b`. In Zig the
/// counter is a line of its own, at the same indentation.
pub open spec fn rendered_loop(a: Seq<char>, b: Seq<char>, ind: Seq<char>, t: Target) -> Seq<
    char,
> {
    match t {
        Target::Go => "for i := "@ + a + "; i <= "@ + b + "; i++ {"@,
        Target::Zig => "var i: i32 = "@ + a + ";\n"@ + ind + "while (i <= "@ + b
            + ") : (i += 1) {"@,
        Target::Python => "for _ in range("@ + a + ", "@ + b + " + 1):"@,
    }
}

/// A print of one argument.
pub open spec fn rendered_print(arg: Seq<char>, t: Target) -> Seq<char> {
    match t {
        Target::Go => "fmt.Println("@ + arg + ")"@,
        Target::Zig => "std.debug.print(\"{}\\n\", .{"@ + arg + "});"@,
        Target::Python => "print("@ + arg + ")"@,
    }
}

/// Whether `text` begins like a string literal.
pub open spec fn is_quoted(text: Seq<char>) -> bool {
    starts_with(text, "\"\"\""@) || starts_with(text, "'''"@) || starts_with(text, "\""@)
}

/// The string literal that a marker keeps for Python: what follows `TODO:`, where that
/// begins like a string literal.
pub open spec fn kept_literal(text: Seq<char>, t: Target) -> Option<Seq<char>> {
    let inner = trim(strip_start(text, "TODO:"@));
    if t == Target::Python && starts_with(text, "TODO:"@) && is_quoted(inner) {
        Some(inner)
    } else {
        None
    }
}

/// A marker: a comment of the target, or for Python the string literal that it keeps.
pub open spec fn rendered_marker(text: Seq<char>, t: Target) -> Seq<char> {
    match kept_literal(text, t) {
        Some(literal) => literal,
        None => comment_mark(t) + text,
    }
}

/// The statement `s` in the target, at the indentation `ind`, with its line feed.
///
/// Every kind of statement is rendered. A closing brace closes the block in Go and Zig and
/// leaves no line in Python. An expression that is the last statement is returned; any
/// other expression is kept as a comment.
pub open spec fn rendered(s: Statement, last: bool, ind: Seq<char>, t: Target) -> Seq<char> {
    match s {
        Statement::Blank => "\n"@,
        Statement::IfOpen(cond) => ind + rendered_if(cond, t) + "\n"@,
        Statement::Close => if t == Target::Python {
            ""@
        } else {
            ind + "}\n"@
        },
        Statement::Declare(name, ty, value) => ind + rendered_declaration(name, ty, value, t)
            + "\n"@,
        Statement::ForOpen(a, b) => ind + rendered_loop(a, b, ind, t) + "\n"@,
        Statement::Return(e) => ind + "return "@ + e + terminator(t) + "\n"@,
        Statement::Print(arg) => ind + rendered_print(arg, t) + "\n"@,
        Statement::Marker(text) => ind + rendered_marker(text, t) + "\n"@,
        Statement::Plain(text) => ind + text + terminator(t) + "\n"@,
        Statement::Expr(text) => if last {
            ind + "return "@ + text + terminator(t) + "\n"@
        } else {
            ind + comment_mark(t) + text + "\n"@
        },
    }
}

/// No statement is discarded: every statement gives a line of its own, but for the
/// closing brace, which gives none in Python.
pub proof fn lemma_every_statement_is_rendered(
    s: Statement,
    last: bool,
    ind: Seq<char>,
    t: Target,
)
    ensures
        (t == Target::Python && s is Close) || rendered(s, last, ind, t).len() > 0,
{
    reveal_strlit("\n");
    reveal_strlit("}\n");
}

/// Line `k` of the body in the target: its statement, one level deep and as deep again
/// as the line is indented.
pub open spec fn body_line(body: Seq<Seq<char>>, k: int, t: Target) -> Seq<char> {
    rendered(statement_of(body[k]), is_last(body, k), "    "@ + indentation_of(body[k]), t)
}

/// The body in the target: its lines in order.
pub open spec fn body_text(body: Seq<Seq<char>>, t: Target) -> Seq<char> {
    concat(Seq::new(body.len(), |k: int| body_line(body, k, t)))
}

fn rendered_marker_of(text: &Vec<char>, t: Target) -> (r: Vec<char>)
    ensures
        r@ == rendered_marker(text@, t),
{
    let keyword = chars_of("TODO:");
    let inner = trim_of(&strip_start_of(text, &keyword));
    let python = match t {
        Target::Python => true,
        _ => false,
    };
    if python && has_prefix(text, &keyword) && (has_prefix(&inner, &chars_of("\"\"\""))
        || has_prefix(&inner, &chars_of("'''")) || has_prefix(&inner, &chars_of("\""))) {
        inner
    } else {
        let mut r = match t {
            Target::Python => chars_of("# "),
            _ => chars_of("// "),
        };
        push_all(&mut r, text);
        r
    }
}

fn push_terminator(r: &mut Vec<char>, t: Target)
    ensures
        final(r)@ == old(r)@ + terminator(t),
{
    match t {
        Target::Zig => push_str(r, ";"),
        _ => push_str(r, ""),
    }
}

fn push_comment_mark(r: &mut Vec<char>, t: Target)
    ensures
        final(r)@ == old(r)@ + comment_mark(t),
{
    match t {
        Target::Python => push_str(r, "# "),
        _ => push_str(r, "// "),
    }
}

/// The statement `s` in the target, at the indentation `ind`.
pub fn render_of(s: &Stmt, last: bool, ind: &Vec<char>, t: Target) -> (r: Vec<char>)
    ensures
        r@ == rendered(s@, last, ind@, t),
{
    let mut r: Vec<char> = Vec::new();
    assert(Seq::<char>::empty() + ind@ == ind@);
    match s {
        Stmt::Blank => {
            push_str(&mut r, "\n");
            assert(Seq::<char>::empty() + "\n"@ == "\n"@);
        },
        Stmt::IfOpen(cond) => {
            push_all(&mut r, ind);
            let mut part: Vec<char>;
            match t {
                Target::Go => {
                    part = chars_of("if ");
                    push_all(&mut part, cond);
                    push_str(&mut part, " {");
                },
                Target::Zig => {
                    part = chars_of("if (");
                    push_all(&mut part, cond);
                    push_str(&mut part, ") {");
                },
                Target::Python => {
                    part = chars_of("if ");
                    push_all(&mut part, cond);
                    push_str(&mut part, ":");
                },
            }
            push_all(&mut r, &part);
            push_str(&mut r, "\n");
        },
        Stmt::Close => {
            match t {
                Target::Python => {
                    push_str(&mut r, "");
                    assert(Seq::<char>::empty() + ""@ == ""@);
                },
                _ => {
                    push_all(&mut r, ind);
                    push_str(&mut r, "}\n");
                },
            }
        },
        Stmt::Declare(name, ty, value) => {
            push_all(&mut r, ind);
            let mut part: Vec<char>;
            match t {
                Target::Go => {
                    part = slice(name, 0, name.len());
                    assert(part@ == name@);
                    push_str(&mut part, " := ");
                    push_all(&mut part, value);
                },
                Target::Zig => {
                    part = chars_of("var ");
                    push_all(&mut part, name);
                    match ty {
                        Some(x) => {
                            let mut annotation = chars_of(": ");
                            push_all(&mut annotation, &target_type_in(x, t));
                            push_all(&mut part, &annotation);
                        },
                        None => {
                            push_str(&mut part, "");
                        },
                    }
                    push_str(&mut part, " = ");
                    push_all(&mut part, value);
                    push_str(&mut part, ";");
                },
                Target::Python => {
                    part = slice(name, 0, name.len());
                    assert(part@ == name@);
                    push_str(&mut part, " = ");
                    push_all(&mut part, value);
                },
            }
            push_all(&mut r, &part);
            push_str(&mut r, "\n");
        },
        Stmt::ForOpen(a, b) => {
            push_all(&mut r, ind);
            let mut part: Vec<char>;
            match t {
                Target::Go => {
                    part = chars_of("for i := ");
                    push_all(&mut part, a);
                    push_str(&mut part, "; i <= ");
                    push_all(&mut part, b);
                    push_str(&mut part, "; i++ {");
                },
                Target::Zig => {
                    part = chars_of("var i: i32 = ");
                    push_all(&mut part, a);
                    push_str(&mut part, ";\n");
                    push_all(&mut part, ind);
                    push_str(&mut part, "while (i <= ");
                    push_all(&mut part, b);
                    push_str(&mut part, ") : (i += 1) {");
                },
                Target::Python => {
                    part = chars_of("for _ in range(");
                    push_all(&mut part, a);
                    push_str(&mut part, ", ");
                    push_all(&mut part, b);
                    push_str(&mut part, " + 1):");
                },
            }
            push_all(&mut r, &part);
            push_str(&mut r, "\n");
        },
        Stmt::Return(e) => {
            push_all(&mut r, ind);
            push_str(&mut r, "return ");
            push_all(&mut r, e);
            push_terminator(&mut r, t);
            push_str(&mut r, "\n");
        },
        Stmt::Print(arg) => {
            push_all(&mut r, ind);
            let mut part: Vec<char>;
            match t {
                Target::Go => {
                    part = chars_of("fmt.Println(");
                    push_all(&mut part, arg);
                    push_str(&mut part, ")");
                },
                Target::Zig => {
                    part = chars_of("std.debug.print(\"{}\\n\", .{");
                    push_all(&mut part, arg);
                    push_str(&mut part, "});");
                },
                Target::Python => {
                    part = chars_of("print(");
                    push_all(&mut part, arg);
                    push_str(&mut part, ")");
                },
            }
            push_all(&mut r, &part);
            push_str(&mut r, "\n");
        },
        Stmt::Marker(text) => {
            push_all(&mut r, ind);
            push_all(&mut r, &rendered_marker_of(text, t));
            push_str(&mut r, "\n");
        },
        Stmt::Plain(text) => {
            push_all(&mut r, ind);
            push_all(&mut r, text);
            push_terminator(&mut r, t);
            push_str(&mut r, "\n");
        },
        Stmt::Expr(text) => {
            push_all(&mut r, ind);
            if last {
                push_str(&mut r, "return ");
                push_all(&mut r, text);
                push_terminator(&mut r, t);
            } else {
                push_comment_mark(&mut r, t);
                push_all(&mut r, text);
            }
            push_str(&mut r, "\n");
        },
    }
    r
}

/// The body in the target.
pub fn body_of(body: &Vec<String>, t: Target) -> (r: Vec<char>)
    ensures
        r@ == body_text(strings(body@), t),
{
    let lines = chars_of_each(body);
    let ghost all = strings(body@);
    let ghost want = Seq::new(all.len(), |k: int| body_line(all, k, t));
    let mut parts: Vec<Vec<char>> = Vec::new();
    let mut i: usize = 0;
    assert(all.len() == lines.len());
    while i < lines.len()
        invariant
            i <= lines.len(),
            all == texts(lines@),
            all.len() == lines.len(),
            want == Seq::new(all.len(), |k: int| body_line(all, k, t)),
            texts(parts@) == want.take(i as int),
        decreases lines.len() - i,
    {
        let mut ind = chars_of("    ");
        push_all(&mut ind, &indentation_in(&lines[i]));
        let part = render_of(&statement_in(&lines[i]), is_last_in(&lines, i), &ind, t);
        proof {
            assert(all[i as int] == lines@[i as int]@);
            lemma_texts_push(parts@, part);
            assert(want.take(i + 1) == want.take(i as int).push(want[i as int]));
        }
        parts.push(part);
        i += 1;
    }
    assert(want.take(lines.len() as int) == want);
    concat_of(&parts)
}

} // verus!

