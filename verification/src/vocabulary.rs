//! The statements of the core syntax, as the backends read them.
//!
//! Each line of a translated body is one statement, with the indentation that places it in
//! its block. A backend renders every kind of statement; there is no kind that it could
//! pass over.
use vstd::prelude::*;
use crate::text::{chars_of, is_str, slice, trim, trim_of, trim_start_of, leading_ws,
    lemma_trim_start_is_suffix};
use crate::scan::{starts_with, ends_with, find_char, has_prefix, has_suffix, find_char_in,
    lemma_find_char};
use crate::split::{strip_end, strip_end_of, before_char, before_char_of, after_char,
    after_char_of, split_once, split_once_of};

verus! {

/// A statement of the core syntax.
pub enum Statement {
    /// A line without text.
    Blank,
    /// `if <cond> {`
    IfOpen(Seq<char>),
    /// `}`
    Close,
    /// `let <name>: <type> = <value>;`, with or without `mut` and the type.
    Declare(Seq<char>, Option<Seq<char>>, Seq<char>),
    /// `for _ in <from>..=<to> {`
    ForOpen(Seq<char>, Seq<char>),
    /// `return <expr>;`
    Return(Seq<char>),
    /// `println!("{}", <arg>);`
    Print(Seq<char>),
    /// `// <text>`
    Marker(Seq<char>),
    /// Any other statement that ends in a semicolon, without the semicolon.
    Plain(Seq<char>),
    /// Any other line: an expression.
    Expr(Seq<char>),
}

/// A statement of the core syntax, as a value of the program.
#[derive(Debug, Clone, PartialEq, Eq)]
pub enum Stmt {
    Blank,
    IfOpen(Vec<char>),
    Close,
    Declare(Vec<char>, Option<Vec<char>>, Vec<char>),
    ForOpen(Vec<char>, Vec<char>),
    Return(Vec<char>),
    Print(Vec<char>),
    Marker(Vec<char>),
    Plain(Vec<char>),
    Expr(Vec<char>),
}

impl View for Stmt {
    type V = Statement;

    open spec fn view(&self) -> Statement {
        match self {
            Stmt::Blank => Statement::Blank,
            Stmt::IfOpen(c) => Statement::IfOpen(c@),
            Stmt::Close => Statement::Close,
            Stmt::Declare(n, t, v) => Statement::Declare(
                n@,
                match t {
                    Some(t) => Some(t@),
                    None => None,
                },
                v@,
            ),
            Stmt::ForOpen(a, b) => Statement::ForOpen(a@, b@),
            Stmt::Return(e) => Statement::Return(e@),
            Stmt::Print(a) => Statement::Print(a@),
            Stmt::Marker(t) => Statement::Marker(t@),
            Stmt::Plain(t) => Statement::Plain(t@),
            Stmt::Expr(t) => Statement::Expr(t@),
        }
    }
}

/// The text of a statement without the semicolons that end it.
pub open spec fn unterminated(t: Seq<char>) -> Seq<char> {
    trim(strip_end(t, ";"@))
}

/// What stands in `t` between a prefix of `from` characters and the last character;
/// empty where `t` is too short.
pub open spec fn inside(t: Seq<char>, from: int) -> Seq<char> {
    if from + 1 <= t.len() {
        t.subrange(from, t.len() - 1)
    } else {
        seq![]
    }
}

/// How many characters of a declaration stand before the name.
pub open spec fn keyword_len(t: Seq<char>) -> int {
    if starts_with(t, "let mut "@) {
        "let mut "@.len() as int
    } else {
        "let "@.len() as int
    }
}

/// The declared type: what stands after the first colon of `head`, where that is not blank.
pub open spec fn declared_type(head: Seq<char>) -> Option<Seq<char>> {
    match after_char(head, ':') {
        Some(ty) => if trim(ty).len() > 0 {
            Some(trim(ty))
        } else {
            None
        },
        None => None,
    }
}

/// The declaration in `t`, which begins with `let` and holds its first `=` at `e`.
pub open spec fn declaration_at(t: Seq<char>, e: int) -> Statement {
    let head = t.subrange(keyword_len(t), e);
    Statement::Declare(
        trim(before_char(head, ':')),
        declared_type(head),
        unterminated(t.skip(e + 1)),
    )
}

/// The two bounds of a loop that opens in `t`, where it names them.
pub open spec fn loop_bounds(t: Seq<char>) -> Option<(Seq<char>, Seq<char>)> {
    if starts_with(t, "for _ in "@) && ends_with(t, "{"@) {
        match split_once(inside(t, "for _ in "@.len() as int), "..="@) {
            Some((a, b)) => Some((trim(a), trim(b))),
            None => None,
        }
    } else {
        None
    }
}

/// The argument of a print statement: what follows the first comma between the
/// parentheses, or all that stands between them where there is no comma.
pub open spec fn print_argument(t: Seq<char>) -> Option<Seq<char>> {
    let call = unterminated(t);
    if starts_with(call, "println!("@) && ends_with(call, ")"@) {
        let inner = inside(call, "println!("@.len() as int);
        match after_char(inner, ',') {
            Some(arg) => Some(trim(arg)),
            None => Some(trim(inner)),
        }
    } else {
        None
    }
}

/// Whether `t` begins like a declaration and holds an equals sign.
pub open spec fn is_declaration(t: Seq<char>) -> bool {
    (starts_with(t, "let mut "@) || starts_with(t, "let "@)) && find_char(t, '=') is Some
}

/// The statement that the trimmed line `t` is.
pub open spec fn classify(t: Seq<char>) -> Statement {
    if t.len() == 0 {
        Statement::Blank
    } else if t == "}"@ {
        Statement::Close
    } else if starts_with(t, "//"@) {
        Statement::Marker(trim(t.skip("//"@.len() as int)))
    } else if starts_with(t, "if "@) && ends_with(t, "{"@) {
        Statement::IfOpen(trim(inside(t, "if "@.len() as int)))
    } else if loop_bounds(t) is Some {
        Statement::ForOpen(loop_bounds(t).unwrap().0, loop_bounds(t).unwrap().1)
    } else if is_declaration(t) {
        declaration_at(t, find_char(t, '=').unwrap())
    } else if starts_with(t, "return "@) {
        Statement::Return(unterminated(t.skip("return "@.len() as int)))
    } else if print_argument(t) is Some {
        Statement::Print(print_argument(t).unwrap())
    } else if ends_with(t, ";"@) {
        Statement::Plain(unterminated(t))
    } else {
        Statement::Expr(t)
    }
}

/// The leading white space of `line`.
pub open spec fn indentation_of(line: Seq<char>) -> Seq<char> {
    line.take(leading_ws(line))
}

/// The statement that `line` holds.
pub open spec fn statement_of(line: Seq<char>) -> Statement {
    classify(trim(line))
}

/// Whether no line that is not blank follows line `i`.
pub open spec fn is_last(body: Seq<Seq<char>>, i: int) -> bool {
    forall|j: int| i < j < body.len() ==> trim(#[trigger] body[j]).len() == 0
}

/// Neither keyword of a declaration holds an equals sign.
proof fn lemma_keywords()
    ensures
        !"let mut "@.contains('='),
        !"let "@.contains('='),
{
    reveal_strlit("let mut ");
    reveal_strlit("let ");
    let a = "let mut "@;
    let b = "let "@;
    if a.contains('=') {
        let i = choose|i: int| 0 <= i < a.len() && a[i] == '=';
        assert(a[i] == '=');
    }
    if b.contains('=') {
        let i = choose|i: int| 0 <= i < b.len() && b[i] == '=';
        assert(b[i] == '=');
    }
}

/// Text that begins with `p` holds `c` no earlier than after `p`, where `p` holds no `c`.
proof fn lemma_find_after_prefix(s: Seq<char>, p: Seq<char>, c: char)
    requires
        starts_with(s, p),
        !p.contains(c),
    ensures
        find_char(s, c) matches Some(i) ==> p.len() <= i,
{
    lemma_find_char(s, c);
    if let Some(i) = find_char(s, c) {
        if i < p.len() {
            assert(s.take(p.len() as int)[i] == s[i]);
            assert(p[i] == c);
            assert(p.contains(c));
        }
    }
}

fn unterminated_of(t: &Vec<char>) -> (r: Vec<char>)
    ensures
        r@ == unterminated(t@),
{
    trim_of(&strip_end_of(t, &chars_of(";")))
}

fn inside_of(t: &Vec<char>, from: usize) -> (r: Vec<char>)
    ensures
        r@ == inside(t@, from as int),
{
    if from < t.len() {
        slice(t, from, t.len() - 1)
    } else {
        Vec::new()
    }
}

fn loop_bounds_of(t: &Vec<char>) -> (r: Option<(Vec<char>, Vec<char>)>)
    ensures
        match r {
            Some(p) => loop_bounds(t@) == Some((p.0@, p.1@)),
            None => loop_bounds(t@) is None,
        },
{
    let keyword = chars_of("for _ in ");
    if has_prefix(t, &keyword) && has_suffix(t, &chars_of("{")) {
        match split_once_of(&inside_of(t, keyword.len()), &chars_of("..=")) {
            Some((a, b)) => Some((trim_of(&a), trim_of(&b))),
            None => None,
        }
    } else {
        None
    }
}

fn print_argument_of(t: &Vec<char>) -> (r: Option<Vec<char>>)
    ensures
        match r {
            Some(a) => print_argument(t@) == Some(a@),
            None => print_argument(t@) is None,
        },
{
    let call = unterminated_of(t);
    let keyword = chars_of("println!(");
    if has_prefix(&call, &keyword) && has_suffix(&call, &chars_of(")")) {
        let inner = inside_of(&call, keyword.len());
        match after_char_of(&inner, ',') {
            Some(arg) => Some(trim_of(&arg)),
            None => Some(trim_of(&inner)),
        }
    } else {
        None
    }
}

fn declaration_of(t: &Vec<char>, e: usize) -> (r: Stmt)
    requires
        e < t.len(),
        starts_with(t@, "let mut "@) || starts_with(t@, "let "@),
        find_char(t@, '=') == Some(e as int),
    ensures
        r@ == declaration_at(t@, e as int),
{
    let long = chars_of("let mut ");
    let short = chars_of("let ");
    let from: usize = if has_prefix(t, &long) {
        long.len()
    } else {
        short.len()
    };
    proof {
        lemma_keywords();
        if starts_with(t@, "let mut "@) {
            lemma_find_after_prefix(t@, "let mut "@, '=');
        } else {
            lemma_find_after_prefix(t@, "let "@, '=');
        }
    }
    let head = slice(t, from, e);
    let name = trim_of(&before_char_of(&head, ':'));
    let ty = match after_char_of(&head, ':') {
        Some(ty) => {
            let ty = trim_of(&ty);
            if ty.len() > 0 {
                Some(ty)
            } else {
                None
            }
        },
        None => None,
    };
    let value = unterminated_of(&slice(t, e + 1, t.len()));
    Stmt::Declare(name, ty, value)
}

/// The statement that the trimmed line `t` is.
pub fn classify_of(t: &Vec<char>) -> (r: Stmt)
    ensures
        r@ == classify(t@),
{
    if t.len() == 0 {
        return Stmt::Blank;
    }
    if is_str(t, "}") {
        return Stmt::Close;
    }
    let comment = chars_of("//");
    if has_prefix(t, &comment) {
        return Stmt::Marker(trim_of(&slice(t, comment.len(), t.len())));
    }
    let keyword = chars_of("if ");
    if has_prefix(t, &keyword) && has_suffix(t, &chars_of("{")) {
        return Stmt::IfOpen(trim_of(&inside_of(t, keyword.len())));
    }
    if let Some((a, b)) = loop_bounds_of(t) {
        return Stmt::ForOpen(a, b);
    }
    if has_prefix(t, &chars_of("let mut ")) || has_prefix(t, &chars_of("let ")) {
        if let Some(e) = find_char_in(t, '=') {
            return declaration_of(t, e);
        }
    }
    let keyword = chars_of("return ");
    if has_prefix(t, &keyword) {
        return Stmt::Return(unterminated_of(&slice(t, keyword.len(), t.len())));
    }
    if let Some(arg) = print_argument_of(t) {
        return Stmt::Print(arg);
    }
    if has_suffix(t, &chars_of(";")) {
        return Stmt::Plain(unterminated_of(t));
    }
    assert(t@.subrange(0, t.len() as int) == t@);
    Stmt::Expr(slice(t, 0, t.len()))
}

/// The leading white space of `line`.
pub fn indentation_in(line: &Vec<char>) -> (r: Vec<char>)
    ensures
        r@ == indentation_of(line@),
{
    let rest = trim_start_of(line);
    proof {
        lemma_trim_start_is_suffix(line@);
    }
    slice(line, 0, line.len() - rest.len())
}

/// The statement that `line` holds.
pub fn statement_in(line: &Vec<char>) -> (r: Stmt)
    ensures
        r@ == statement_of(line@),
{
    classify_of(&trim_of(line))
}

/// Whether no line that is not blank follows line `i`.
pub fn is_last_in(body: &Vec<Vec<char>>, i: usize) -> (b: bool)
    requires
        i < body.len(),
    ensures
        b == is_last(crate::split::texts(body@), i as int),
{
    let mut j: usize = i + 1;
    while j < body.len()
        invariant
            i < j <= body.len(),
            forall|k: int|
                i < k < j ==> trim(#[trigger] crate::split::texts(body@)[k]).len() == 0,
        decreases body.len() - j,
    {
        assert(crate::split::texts(body@)[j as int] == body@[j as int]@);
        if trim_of(&body[j]).len() > 0 {
            return false;
        }
        j += 1;
    }
    true
}

} // verus!
