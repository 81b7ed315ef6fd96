//! The canonical type grammar, and the laws of normalization: an annotation written in any
//! of the three bracket styles has one canonical form, and canonical text is a fixed point.
//!
//! A type is a name, a name with a list of arguments in brackets, or a tuple: a list of
//! arguments in round brackets without a name. Arguments are separated by a comma and a
//! space. Canonical text writes the brackets of a name as angle brackets and holds none of
//! the source spellings of the primitives.
use vstd::prelude::*;
use crate::text::{is_ws, trim, trim_start, trim_end};
use crate::scan::{find_char, shifted, lemma_find_char};
use crate::split::join;
use crate::types::{is_open_bracket, is_close_bracket, depth_after, find_top_comma,
    canonical_items, canonical_form, canonical_name, normalize, generic_parts, cut_at, is_tuple,
    separator, closer_of, owed_after, balanced, lemma_canonical_form_trimmed,
    lemma_ends_with_char};

verus! {

/// A type of the grammar.
pub enum CanonicalType {
    /// A name standing alone.
    Name(Seq<char>),
    /// A name applied to one or more arguments.
    Generic(Seq<char>, Box<CanonicalArgs>),
    /// A tuple of one or more types.
    Tuple(Box<CanonicalArgs>),
}

/// A list of one or more types.
pub enum CanonicalArgs {
    One(Box<CanonicalType>),
    More(Box<CanonicalType>, Box<CanonicalArgs>),
}

/// The style of the brackets behind a name.
pub enum Brackets {
    Angle,
    Square,
    Round,
}

/// The bracket that opens an argument list in the style `b`.
pub open spec fn opener(b: Brackets) -> char {
    match b {
        Brackets::Angle => '<',
        Brackets::Square => '[',
        Brackets::Round => '(',
    }
}

/// The bracket that closes an argument list in the style `b`.
pub open spec fn closer(b: Brackets) -> char {
    match b {
        Brackets::Angle => '>',
        Brackets::Square => ']',
        Brackets::Round => ')',
    }
}

/// A character that may stand in a name: no bracket, no comma, no white space.
pub open spec fn is_name_char(c: char) -> bool {
    !is_open_bracket(c) && !is_close_bracket(c) && c != ',' && !is_ws(c)
}

/// A name: one or more name characters.
pub open spec fn is_plain_name(n: Seq<char>) -> bool {
    n.len() > 0 && forall|i: int| 0 <= i < n.len() ==> is_name_char(#[trigger] n[i])
}

/// The spellings that normalization replaces by their canonical name.
pub open spec fn is_source_primitive(n: Seq<char>) -> bool {
    n == "int"@ || n == "float"@ || n == "str"@ || n == "None"@
}

impl CanonicalType {
    /// Every name of the type is a plain name.
    pub open spec fn plain(self) -> bool
        decreases self,
    {
        match self {
            CanonicalType::Name(n) => is_plain_name(n),
            CanonicalType::Generic(base, args) => is_plain_name(base) && args.plain(),
            CanonicalType::Tuple(args) => args.plain(),
        }
    }

    /// The type is canonical: names are plain, and a name standing alone is none of the
    /// source primitives.
    pub open spec fn well_formed(self) -> bool
        decreases self,
    {
        match self {
            CanonicalType::Name(n) => is_plain_name(n) && !is_source_primitive(n),
            CanonicalType::Generic(base, args) => is_plain_name(base) && args.well_formed(),
            CanonicalType::Tuple(args) => args.well_formed(),
        }
    }

    /// The canonical text of the type: angle brackets behind a name.
    pub open spec fn render(self) -> Seq<char>
        decreases self,
    {
        match self {
            CanonicalType::Name(n) => n,
            CanonicalType::Generic(base, args) => base + seq!['<'] + args.render() + seq!['>'],
            CanonicalType::Tuple(args) => seq!['('] + args.render() + seq![')'],
        }
    }

    /// The text of the type with brackets of the style `b` behind each name.
    pub open spec fn spelled(self, b: Brackets) -> Seq<char>
        decreases self,
    {
        match self {
            CanonicalType::Name(n) => n,
            CanonicalType::Generic(base, args) => base + seq![opener(b)] + args.spelled(b)
                + seq![closer(b)],
            CanonicalType::Tuple(args) => seq!['('] + args.spelled(b) + seq![')'],
        }
    }

    /// No tuple stands in the type.
    pub open spec fn tuple_free(self) -> bool
        decreases self,
    {
        match self {
            CanonicalType::Name(n) => true,
            CanonicalType::Generic(base, args) => args.tuple_free(),
            CanonicalType::Tuple(args) => false,
        }
    }

    /// The canonical type that the type stands for: each name standing alone gets its
    /// canonical spelling.
    pub open spec fn canon(self) -> CanonicalType
        decreases self,
    {
        match self {
            CanonicalType::Name(n) => if n == "None"@ {
                CanonicalType::Generic(
                    "Option::"@,
                    Box::new(CanonicalArgs::One(Box::new(CanonicalType::Name("_"@)))),
                )
            } else {
                CanonicalType::Name(canonical_name(n))
            },
            CanonicalType::Generic(base, args) => CanonicalType::Generic(
                base,
                Box::new(args.canon()),
            ),
            CanonicalType::Tuple(args) => CanonicalType::Tuple(Box::new(args.canon())),
        }
    }
}

impl CanonicalArgs {
    /// Every name of the list is a plain name.
    pub open spec fn plain(self) -> bool
        decreases self,
    {
        match self {
            CanonicalArgs::One(t) => t.plain(),
            CanonicalArgs::More(t, rest) => t.plain() && rest.plain(),
        }
    }

    /// Every type of the list is canonical.
    pub open spec fn well_formed(self) -> bool
        decreases self,
    {
        match self {
            CanonicalArgs::One(t) => t.well_formed(),
            CanonicalArgs::More(t, rest) => t.well_formed() && rest.well_formed(),
        }
    }

    /// The canonical text of the list: the texts of its types with `", "` between them.
    pub open spec fn render(self) -> Seq<char>
        decreases self,
    {
        match self {
            CanonicalArgs::One(t) => t.render(),
            CanonicalArgs::More(t, rest) => t.render() + separator() + rest.render(),
        }
    }

    /// The text of the list in the style `b`.
    pub open spec fn spelled(self, b: Brackets) -> Seq<char>
        decreases self,
    {
        match self {
            CanonicalArgs::One(t) => t.spelled(b),
            CanonicalArgs::More(t, rest) => t.spelled(b) + separator() + rest.spelled(b),
        }
    }

    /// The canonical texts of the types of the list, one by one.
    pub open spec fn render_each(self) -> Seq<Seq<char>>
        decreases self,
    {
        match self {
            CanonicalArgs::One(t) => seq![t.render()],
            CanonicalArgs::More(t, rest) => seq![t.render()] + rest.render_each(),
        }
    }

    /// No tuple stands in the list.
    pub open spec fn tuple_free(self) -> bool
        decreases self,
    {
        match self {
            CanonicalArgs::One(t) => t.tuple_free(),
            CanonicalArgs::More(t, rest) => t.tuple_free() && rest.tuple_free(),
        }
    }

    /// The canonical types that the types of the list stand for.
    pub open spec fn canon(self) -> CanonicalArgs
        decreases self,
    {
        match self {
            CanonicalArgs::One(t) => CanonicalArgs::One(Box::new(t.canon())),
            CanonicalArgs::More(t, rest) => CanonicalArgs::More(
                Box::new(t.canon()),
                Box::new(rest.canon()),
            ),
        }
    }
}

/// Every opening bracket of `s` is round or of the style `b`.
pub open spec fn opens_only(s: Seq<char>, b: Brackets) -> bool {
    forall|i: int|
        0 <= i < s.len() ==> {
            let c = #[trigger] s[i];
            is_open_bracket(c) ==> c == '(' || c == opener(b)
        }
}

/// No square or round bracket stands in `s`.
pub open spec fn angle_only(s: Seq<char>) -> bool {
    forall|i: int|
        0 <= i < s.len() ==> {
            let c = #[trigger] s[i];
            c != '[' && c != ']' && c != '(' && c != ')'
        }
}

/// A canonical type is a plain one, and stands for itself; its canonical text is its text
/// in angle brackets.
pub proof fn lemma_canonical_type(ty: CanonicalType)
    requires
        ty.well_formed(),
    ensures
        ty.plain(),
        ty.canon() == ty,
        ty.spelled(Brackets::Angle) == ty.render(),
    decreases ty,
{
    match ty {
        CanonicalType::Name(n) => {},
        CanonicalType::Generic(base, args) => {
            lemma_canonical_args(*args);
        },
        CanonicalType::Tuple(args) => {
            lemma_canonical_args(*args);
        },
    }
}

/// A canonical list is a plain one, and stands for itself; its canonical text is its text
/// in angle brackets.
pub proof fn lemma_canonical_args(args: CanonicalArgs)
    requires
        args.well_formed(),
    ensures
        args.plain(),
        args.canon() == args,
        args.spelled(Brackets::Angle) == args.render(),
    decreases args,
{
    match args {
        CanonicalArgs::One(t) => {
            lemma_canonical_type(*t);
        },
        CanonicalArgs::More(t, rest) => {
            lemma_canonical_type(*t);
            lemma_canonical_args(*rest);
        },
    }
}

/// What a plain type stands for is canonical.
pub proof fn lemma_canon_type(ty: CanonicalType)
    requires
        ty.plain(),
    ensures
        ty.canon().well_formed(),
    decreases ty,
{
    match ty {
        CanonicalType::Name(n) => {
            reveal_strlit("int");
            reveal_strlit("float");
            reveal_strlit("str");
            reveal_strlit("None");
            reveal_strlit("i32");
            reveal_strlit("f64");
            reveal_strlit("String");
            reveal_strlit("Option::");
            reveal_strlit("_");
            assert("i32"@.len() == 3 && "f64"@.len() == 3 && "String"@.len() == 6);
            assert("int"@.len() == 3 && "float"@.len() == 5 && "str"@.len() == 3);
            assert("None"@.len() == 4 && "_"@.len() == 1 && "Option::"@.len() == 8);
            assert("i32"@[1] == '3' && "int"@[1] == 'n' && "str"@[1] == 't');
            assert("f64"@[1] == '6');
            if n == "None"@ {
                assert(is_plain_name("Option::"@));
                assert(is_plain_name("_"@));
                assert(!is_source_primitive("_"@));
                let hole = CanonicalType::Name("_"@);
                let one = CanonicalArgs::One(Box::new(hole));
                assert(hole.well_formed());
                assert(one.well_formed());
                assert(ty.canon() == CanonicalType::Generic("Option::"@, Box::new(one)));
            } else if n == "int"@ {
                assert(is_plain_name("i32"@));
                assert(!is_source_primitive("i32"@));
            } else if n == "float"@ {
                assert(is_plain_name("f64"@));
                assert(!is_source_primitive("f64"@));
            } else if n == "str"@ {
                assert(is_plain_name("String"@));
                assert(!is_source_primitive("String"@));
            } else {
                assert(canonical_name(n) == n);
                assert(!is_source_primitive(n));
            }
            if n != "None"@ {
                assert(ty.canon() == CanonicalType::Name(canonical_name(n)));
            }
        },
        CanonicalType::Generic(base, args) => {
            lemma_canon_args(*args);
        },
        CanonicalType::Tuple(args) => {
            lemma_canon_args(*args);
        },
    }
}

/// What a plain list stands for is canonical.
pub proof fn lemma_canon_args(args: CanonicalArgs)
    requires
        args.plain(),
    ensures
        args.canon().well_formed(),
    decreases args,
{
    match args {
        CanonicalArgs::One(t) => {
            lemma_canon_type(*t);
        },
        CanonicalArgs::More(t, rest) => {
            lemma_canon_type(*t);
            lemma_canon_args(*rest);
        },
    }
}

/// The text of a plain type is not empty, has no white space at either end, and opens only
/// round brackets and brackets of its style.
pub proof fn lemma_shape_spelled(ty: CanonicalType, b: Brackets)
    requires
        ty.plain(),
    ensures
        ty.spelled(b).len() > 0,
        !is_ws(ty.spelled(b)[0]),
        !is_ws(ty.spelled(b).last()),
        opens_only(ty.spelled(b), b),
    decreases ty,
{
    let r = ty.spelled(b);
    match ty {
        CanonicalType::Name(n) => {},
        CanonicalType::Generic(base, args) => {
            lemma_shape_spelled_args(*args, b);
            let a = args.spelled(b);
            assert(r.len() == base.len() + 1 + a.len() + 1);
            assert(r[0] == base[0]);
            assert(r.last() == closer(b));
            assert forall|i: int| 0 <= i < r.len() implies {
                let c = #[trigger] r[i];
                is_open_bracket(c) ==> c == '(' || c == opener(b)
            } by {
                if i < base.len() {
                    assert(r[i] == base[i]);
                } else if i == base.len() {
                    assert(r[i] == opener(b));
                } else if i < base.len() + 1 + a.len() {
                    assert(r[i] == a[i - base.len() - 1]);
                } else {
                    assert(r[i] == closer(b));
                }
            }
        },
        CanonicalType::Tuple(args) => {
            lemma_shape_spelled_args(*args, b);
            let a = args.spelled(b);
            assert(r.len() == 1 + a.len() + 1);
            assert(r[0] == '(');
            assert(r.last() == ')');
            assert forall|i: int| 0 <= i < r.len() implies {
                let c = #[trigger] r[i];
                is_open_bracket(c) ==> c == '(' || c == opener(b)
            } by {
                if i == 0 {
                } else if i < 1 + a.len() {
                    assert(r[i] == a[i - 1]);
                } else {
                    assert(r[i] == ')');
                }
            }
        },
    }
}

/// The text of a plain list is not empty, has no white space at either end, and opens only
/// round brackets and brackets of its style.
pub proof fn lemma_shape_spelled_args(args: CanonicalArgs, b: Brackets)
    requires
        args.plain(),
    ensures
        args.spelled(b).len() > 0,
        !is_ws(args.spelled(b)[0]),
        !is_ws(args.spelled(b).last()),
        opens_only(args.spelled(b), b),
    decreases args,
{
    match args {
        CanonicalArgs::One(t) => {
            lemma_shape_spelled(*t, b);
        },
        CanonicalArgs::More(t, rest) => {
            lemma_shape_spelled(*t, b);
            lemma_shape_spelled_args(*rest, b);
            let r = args.spelled(b);
            let a = t.spelled(b);
            let c = rest.spelled(b);
            assert(r.len() == a.len() + 2 + c.len());
            assert(r[0] == a[0]);
            assert(r.last() == c.last());
            assert forall|i: int| 0 <= i < r.len() implies {
                let x = #[trigger] r[i];
                is_open_bracket(x) ==> x == '(' || x == opener(b)
            } by {
                if i < a.len() {
                    assert(r[i] == a[i]);
                } else if i == a.len() {
                    assert(r[i] == ',');
                } else if i == a.len() + 1 {
                    assert(r[i] == ' ');
                } else {
                    assert(r[i] == c[i - a.len() - 2]);
                }
            }
        },
    }
}

/// Canonical text is not empty, has no white space at either end and holds no square
/// bracket that opens.
pub proof fn lemma_shape_type(ty: CanonicalType)
    requires
        ty.well_formed(),
    ensures
        ty.render().len() > 0,
        !is_ws(ty.render()[0]),
        !is_ws(ty.render().last()),
        opens_only(ty.render(), Brackets::Angle),
{
    lemma_canonical_type(ty);
    lemma_shape_spelled(ty, Brackets::Angle);
}

/// The canonical text of a list is not empty, has no white space at either end and holds
/// no square bracket that opens.
pub proof fn lemma_shape_args(args: CanonicalArgs)
    requires
        args.well_formed(),
    ensures
        args.render().len() > 0,
        !is_ws(args.render()[0]),
        !is_ws(args.render().last()),
        opens_only(args.render(), Brackets::Angle),
{
    lemma_canonical_args(args);
    lemma_shape_spelled_args(args, Brackets::Angle);
}

/// Whether `c` is neither a bracket nor a comma.
pub open spec fn is_neutral(c: char) -> bool {
    !is_open_bracket(c) && !is_close_bracket(c) && c != ','
}

/// Reading text without brackets and commas changes nothing in the search for a top-level
/// comma.
proof fn lemma_scan_neutral(x: Seq<char>, y: Seq<char>, d: nat)
    requires
        forall|i: int| 0 <= i < x.len() ==> is_neutral(#[trigger] x[i]),
    ensures
        find_top_comma(x + y, d) == shifted(find_top_comma(y, d), x.len() as int),
    decreases x.len(),
{
    if x.len() == 0 {
        assert(x + y == y);
    } else {
        let t = x.skip(1);
        assert((x + y).skip(1) == t + y);
        assert((x + y)[0] == x[0]);
        assert forall|i: int| 0 <= i < t.len() implies is_neutral(#[trigger] t[i]) by {
            assert(t[i] == x[i + 1]);
        }
        lemma_scan_neutral(t, y, d);
    }
}

/// What the search does with one character that is no top-level comma.
proof fn lemma_scan_one(c: char, y: Seq<char>, d: nat)
    requires
        c != ',' || d > 0,
    ensures
        find_top_comma(seq![c] + y, d) == shifted(find_top_comma(y, depth_after(d, c)), 1),
{
    assert((seq![c] + y).skip(1) == y);
    assert((seq![c] + y)[0] == c);
}

/// Reading a plain type leaves the depth as it was and meets no top-level comma.
pub proof fn lemma_scan_spelled(ty: CanonicalType, b: Brackets, y: Seq<char>, d: nat)
    requires
        ty.plain(),
    ensures
        find_top_comma(ty.spelled(b) + y, d) == shifted(
            find_top_comma(y, d),
            ty.spelled(b).len() as int,
        ),
    decreases ty,
{
    match ty {
        CanonicalType::Name(n) => {
            lemma_scan_neutral(n, y, d);
        },
        CanonicalType::Generic(base, args) => {
            let a = args.spelled(b);
            let y3 = seq![closer(b)] + y;
            let y2 = a + y3;
            let y1 = seq![opener(b)] + y2;
            assert(ty.spelled(b) + y == base + y1);
            lemma_scan_neutral(base, y1, d);
            lemma_scan_one(opener(b), y2, d);
            lemma_scan_spelled_args(*args, b, y3, d + 1);
            lemma_scan_one(closer(b), y, (d + 1) as nat);
        },
        CanonicalType::Tuple(args) => {
            let a = args.spelled(b);
            let y3 = seq![')'] + y;
            let y2 = a + y3;
            assert(ty.spelled(b) + y == seq!['('] + y2);
            lemma_scan_one('(', y2, d);
            lemma_scan_spelled_args(*args, b, y3, d + 1);
            lemma_scan_one(')', y, (d + 1) as nat);
        },
    }
}

/// Inside brackets, reading a plain list leaves the depth as it was and meets no top-level
/// comma.
proof fn lemma_scan_spelled_args(args: CanonicalArgs, b: Brackets, y: Seq<char>, d: nat)
    requires
        args.plain(),
        d >= 1,
    ensures
        find_top_comma(args.spelled(b) + y, d) == shifted(
            find_top_comma(y, d),
            args.spelled(b).len() as int,
        ),
    decreases args,
{
    match args {
        CanonicalArgs::One(t) => {
            lemma_scan_spelled(*t, b, y, d);
        },
        CanonicalArgs::More(t, rest) => {
            let c = rest.spelled(b);
            let y3 = c + y;
            let y2 = seq![' '] + y3;
            let y1 = seq![','] + y2;
            assert(args.spelled(b) + y == t.spelled(b) + y1);
            lemma_scan_spelled(*t, b, y1, d);
            lemma_scan_one(',', y2, d);
            lemma_scan_one(' ', y3, d);
            lemma_scan_spelled_args(*rest, b, y, d);
        },
    }
}

/// Reading a canonical type leaves the depth as it was and meets no top-level comma.
pub proof fn lemma_scan_type(ty: CanonicalType, y: Seq<char>, d: nat)
    requires
        ty.well_formed(),
    ensures
        find_top_comma(ty.render() + y, d) == shifted(
            find_top_comma(y, d),
            ty.render().len() as int,
        ),
{
    lemma_canonical_type(ty);
    lemma_scan_spelled(ty, Brackets::Angle, y, d);
}

/// Reading text without brackets changes nothing in what is owed.
proof fn lemma_owed_neutral(x: Seq<char>, y: Seq<char>, owed: Seq<char>)
    requires
        forall|i: int|
            0 <= i < x.len() ==> !is_open_bracket(#[trigger] x[i]) && !is_close_bracket(x[i]),
    ensures
        owed_after(x + y, owed) == owed_after(y, owed),
    decreases x.len(),
{
    if x.len() == 0 {
        assert(x + y == y);
    } else {
        let t = x.skip(1);
        assert((x + y).skip(1) == t + y);
        assert((x + y)[0] == x[0]);
        assert forall|i: int| 0 <= i < t.len() implies !is_open_bracket(#[trigger] t[i])
            && !is_close_bracket(t[i]) by {
            assert(t[i] == x[i + 1]);
        }
        lemma_owed_neutral(t, y, owed);
    }
}

/// An opening bracket adds its closing bracket to what is owed.
proof fn lemma_owed_open(c: char, y: Seq<char>, owed: Seq<char>)
    requires
        is_open_bracket(c),
    ensures
        owed_after(seq![c] + y, owed) == owed_after(y, owed.push(closer_of(c))),
{
    assert((seq![c] + y).skip(1) == y);
    assert((seq![c] + y)[0] == c);
}

/// The closing bracket that is owed next takes itself from what is owed.
proof fn lemma_owed_close(c: char, y: Seq<char>, owed: Seq<char>)
    requires
        is_close_bracket(c),
    ensures
        owed_after(seq![c] + y, owed.push(c)) == owed_after(y, owed),
{
    assert((seq![c] + y).skip(1) == y);
    assert((seq![c] + y)[0] == c);
    assert(owed.push(c).last() == c);
    assert(owed.push(c).drop_last() == owed);
}

/// After a plain type as many brackets are owed as before it.
pub proof fn lemma_owed_spelled(ty: CanonicalType, b: Brackets, y: Seq<char>, owed: Seq<char>)
    requires
        ty.plain(),
    ensures
        owed_after(ty.spelled(b) + y, owed) == owed_after(y, owed),
    decreases ty,
{
    match ty {
        CanonicalType::Name(n) => {
            lemma_owed_neutral(n, y, owed);
        },
        CanonicalType::Generic(base, args) => {
            let a = args.spelled(b);
            let y3 = seq![closer(b)] + y;
            let y2 = a + y3;
            let y1 = seq![opener(b)] + y2;
            assert(ty.spelled(b) + y == base + y1);
            assert(closer_of(opener(b)) == closer(b));
            lemma_owed_neutral(base, y1, owed);
            lemma_owed_open(opener(b), y2, owed);
            lemma_owed_spelled_args(*args, b, y3, owed.push(closer(b)));
            lemma_owed_close(closer(b), y, owed);
        },
        CanonicalType::Tuple(args) => {
            let a = args.spelled(b);
            let y3 = seq![')'] + y;
            let y2 = a + y3;
            assert(ty.spelled(b) + y == seq!['('] + y2);
            lemma_owed_open('(', y2, owed);
            lemma_owed_spelled_args(*args, b, y3, owed.push(')'));
            lemma_owed_close(')', y, owed);
        },
    }
}

/// After a plain list as many brackets are owed as before it.
proof fn lemma_owed_spelled_args(args: CanonicalArgs, b: Brackets, y: Seq<char>, owed: Seq<char>)
    requires
        args.plain(),
    ensures
        owed_after(args.spelled(b) + y, owed) == owed_after(y, owed),
    decreases args,
{
    match args {
        CanonicalArgs::One(t) => {
            lemma_owed_spelled(*t, b, y, owed);
        },
        CanonicalArgs::More(t, rest) => {
            let c = rest.spelled(b);
            let y1 = separator() + (c + y);
            assert(args.spelled(b) + y == t.spelled(b) + y1);
            lemma_owed_spelled(*t, b, y1, owed);
            lemma_owed_neutral(separator(), c + y, owed);
            lemma_owed_spelled_args(*rest, b, y, owed);
        },
    }
}

/// The brackets of the text of a plain type balance.
pub proof fn lemma_spelled_is_balanced(ty: CanonicalType, b: Brackets)
    requires
        ty.plain(),
    ensures
        balanced(ty.spelled(b)),
{
    lemma_owed_spelled(ty, b, Seq::<char>::empty(), Seq::<char>::empty());
    assert(ty.spelled(b) + Seq::<char>::empty() == ty.spelled(b));
}

/// Joining a list that begins with `a` puts `a` and the separator before the rest.
proof fn lemma_join_front(a: Seq<char>, rest: Seq<Seq<char>>, sep: Seq<char>)
    requires
        rest.len() > 0,
    ensures
        join(seq![a] + rest, sep) == a + sep + join(rest, sep),
    decreases rest.len(),
{
    let all = seq![a] + rest;
    assert(all.last() == rest.last());
    if rest.len() == 1 {
        assert(all.drop_last() == seq![a]);
        assert(join(seq![a], sep) == a);
        assert(join(rest, sep) == rest[0]);
    } else {
        assert(all.drop_last() == seq![a] + rest.drop_last());
        lemma_join_front(a, rest.drop_last(), sep);
        assert(join(all, sep) == (a + sep + join(rest.drop_last(), sep)) + sep + rest.last());
        assert(join(rest, sep) == join(rest.drop_last(), sep) + sep + rest.last());
        assert((a + sep + join(rest.drop_last(), sep)) + sep + rest.last() == a + sep + (join(
            rest.drop_last(),
            sep,
        ) + sep + rest.last()));
    }
}

/// The text of an argument list is its items joined by the separator.
proof fn lemma_join_render(args: CanonicalArgs)
    ensures
        join(args.render_each(), separator()) == args.render(),
        args.render_each().len() > 0,
    decreases args,
{
    match args {
        CanonicalArgs::One(t) => {},
        CanonicalArgs::More(t, rest) => {
            lemma_join_render(*rest);
            lemma_join_front(t.render(), rest.render_each(), separator());
        },
    }
}

/// Canonical text, after at most one space, trims to itself.
pub proof fn lemma_trim_canonical(lead: Seq<char>, r: Seq<char>)
    requires
        lead == Seq::<char>::empty() || lead == seq![' '],
        r.len() > 0,
        !is_ws(r[0]),
        !is_ws(r.last()),
    ensures
        trim(lead + r) == r,
{
    let s = lead + r;
    if lead.len() == 0 {
        assert(s == r);
    } else {
        assert(s[0] == ' ');
        assert(s.skip(1) == r);
        assert(trim_start(s) == trim_start(r));
    }
    assert(trim_start(r) == r);
    assert(trim_end(r) == r);
}

/// The generic parts of the text of a generic type are its name and the text of its
/// arguments.
proof fn lemma_parts_of_generic(base: Seq<char>, args: CanonicalArgs, b: Brackets)
    requires
        is_plain_name(base),
        args.plain(),
    ensures
        generic_parts(CanonicalType::Generic(base, Box::new(args)).spelled(b)) == Some(
            (base, args.spelled(b)),
        ),
{
    let ty = CanonicalType::Generic(base, Box::new(args));
    let r = ty.spelled(b);
    let a = args.spelled(b);
    lemma_shape_spelled(ty, b);
    lemma_find_char(r, '[');
    lemma_find_char(r, '(');
    lemma_find_char(r, '<');
    lemma_ends_with_char(r, '>');
    lemma_ends_with_char(r, ']');
    lemma_ends_with_char(r, ')');
    assert(r.len() == base.len() + 1 + a.len() + 1);
    assert(r.last() == closer(b));
    assert(r[base.len() as int] == opener(b));
    assert forall|j: int| 0 <= j < base.len() implies !is_open_bracket(#[trigger] r[j]) by {
        assert(r[j] == base[j]);
    }
    assert(find_char(r, opener(b)) == Some(base.len() as int));
    if b != Brackets::Square {
        if r.contains('[') {
            let i = choose|i: int| 0 <= i < r.len() && r[i] == '[';
            assert(is_open_bracket(r[i]));
        }
        assert(find_char(r, '[') is None);
    }
    if b == Brackets::Round {
        if r.contains('<') {
            let i = choose|i: int| 0 <= i < r.len() && r[i] == '<';
            assert(is_open_bracket(r[i]));
        }
        assert(find_char(r, '<') is None);
    }
    let parts = cut_at(r, base.len() as int);
    assert(generic_parts(r) == Some(parts));
    assert(parts.0 == base);
    assert(parts.1 == a);
}

/// The generic parts of the text of a tuple are no name and the text of its items.
proof fn lemma_parts_of_tuple(args: CanonicalArgs, b: Brackets)
    requires
        args.plain(),
    ensures
        generic_parts(CanonicalType::Tuple(Box::new(args)).spelled(b)) == Some(
            (Seq::<char>::empty(), args.spelled(b)),
        ),
{
    let ty = CanonicalType::Tuple(Box::new(args));
    let r = ty.spelled(b);
    let a = args.spelled(b);
    lemma_find_char(r, '(');
    lemma_ends_with_char(r, '>');
    lemma_ends_with_char(r, ']');
    lemma_ends_with_char(r, ')');
    assert(r.len() == 1 + a.len() + 1);
    assert(r.last() == ')');
    assert(r[0] == '(');
    assert(find_char(r, '(') == Some(0int));
    let parts = cut_at(r, 0);
    assert(generic_parts(r) == Some(parts));
    assert(parts.0 == Seq::<char>::empty());
    assert(parts.1 == a);
}

/// The canonical form of the text of a plain type, in any style, is the canonical text of
/// the type that it stands for.
proof fn lemma_canonical_form(ty: CanonicalType, b: Brackets)
    requires
        ty.plain(),
    ensures
        canonical_form(ty.spelled(b)) == ty.canon().render(),
    decreases ty,
{
    let r = ty.spelled(b);
    lemma_shape_spelled(ty, b);
    lemma_trim_canonical(Seq::<char>::empty(), r);
    assert(Seq::<char>::empty() + r == r);
    assert(trim(r) == r);
    lemma_scan_spelled(ty, b, Seq::<char>::empty(), 0);
    assert(r + Seq::<char>::empty() == r);
    assert(find_top_comma(r, 0) is None);
    assert(!is_tuple(r));
    match ty {
        CanonicalType::Name(n) => {
            lemma_find_char(r, '[');
            lemma_find_char(r, '(');
            lemma_find_char(r, '<');
            assert(generic_parts(r) is None);
            if n == "None"@ {
                reveal_strlit("Option::<_>");
                reveal_strlit("Option::");
                reveal_strlit("_");
                reveal_strlit("None");
                reveal_strlit("int");
                reveal_strlit("float");
                reveal_strlit("str");
                assert("None"@.len() == 4 && "int"@.len() == 3 && "float"@.len() == 5
                    && "str"@.len() == 3);
                assert(canonical_name(n) == "Option::<_>"@);
                assert("Option::<_>"@ =~= "Option::"@ + seq!['<'] + "_"@ + seq!['>']);
                let hole = CanonicalType::Name("_"@);
                let one = CanonicalArgs::One(Box::new(hole));
                assert(hole.render() == "_"@);
                assert(one.render() == "_"@);
                assert(ty.canon() == CanonicalType::Generic("Option::"@, Box::new(one)));
            } else {
                assert(ty.canon() == CanonicalType::Name(canonical_name(n)));
            }
        },
        CanonicalType::Generic(base, args) => {
            lemma_parts_of_generic(base, *args, b);
            lemma_trim_canonical(Seq::<char>::empty(), base);
            assert(Seq::<char>::empty() + base == base);
            lemma_canonical_items_of_args(*args, b, Seq::<char>::empty());
            assert(Seq::<char>::empty() + args.spelled(b) == args.spelled(b));
            lemma_join_render(args.canon());
        },
        CanonicalType::Tuple(args) => {
            lemma_parts_of_tuple(*args, b);
            assert(trim(Seq::<char>::empty()) == Seq::<char>::empty());
            lemma_canonical_items_of_args(*args, b, Seq::<char>::empty());
            assert(Seq::<char>::empty() + args.spelled(b) == args.spelled(b));
            lemma_join_render(args.canon());
        },
    }
}

/// The canonical forms of the items of the text of a plain list, after at most one space,
/// are the canonical texts of the types that its types stand for.
#[verifier::rlimit(60)]
proof fn lemma_canonical_items_of_args(args: CanonicalArgs, b: Brackets, lead: Seq<char>)
    requires
        args.plain(),
        lead == Seq::<char>::empty() || lead == seq![' '],
    ensures
        canonical_items(lead + args.spelled(b)) == args.canon().render_each(),
    decreases args,
{
    let s = lead + args.spelled(b);
    lemma_shape_spelled_args(args, b);
    match args {
        CanonicalArgs::One(t) => {
            let r = t.spelled(b);
            lemma_shape_spelled(*t, b);
            lemma_scan_neutral(lead, r, 0);
            lemma_scan_spelled(*t, b, Seq::<char>::empty(), 0);
            assert(r + Seq::<char>::empty() == r);
            assert(find_top_comma(s, 0) is None);
            lemma_canonical_form_trimmed(s);
            lemma_trim_canonical(lead, r);
            lemma_canonical_form(*t, b);
        },
        CanonicalArgs::More(t, rest) => {
            let r = t.spelled(b);
            let c = rest.spelled(b);
            lemma_shape_spelled(*t, b);
            let y2 = seq![' '] + c;
            let y1 = seq![','] + y2;
            assert(s == lead + (r + y1));
            lemma_scan_neutral(lead, r + y1, 0);
            lemma_scan_spelled(*t, b, y1, 0);
            assert(y1[0] == ',');
            assert(find_top_comma(y1, 0) == Some(0int));
            let i: int = (lead.len() + r.len()) as int;
            assert(find_top_comma(s, 0) == Some(i));
            assert(s.take(i) == lead + r);
            assert(s.skip(i + 1) == seq![' '] + c);
            lemma_canonical_form_trimmed(lead + r);
            lemma_trim_canonical(lead, r);
            lemma_canonical_form(*t, b);
            lemma_canonical_items_of_args(*rest, b, seq![' ']);
        },
    }
}

/// An annotation has one canonical form, in whichever of the three bracket styles it is
/// written: normalizing the text of a plain type gives the canonical text of the type that
/// it stands for, and that type is canonical.
pub proof fn lemma_normalize_spelled(ty: CanonicalType, b: Brackets)
    requires
        ty.plain(),
    ensures
        normalize(ty.spelled(b)) == ty.canon().render(),
        ty.canon().well_formed(),
{
    lemma_shape_spelled(ty, b);
    lemma_trim_canonical(Seq::<char>::empty(), ty.spelled(b));
    assert(Seq::<char>::empty() + ty.spelled(b) == ty.spelled(b));
    lemma_spelled_is_balanced(ty, b);
    lemma_canonical_form(ty, b);
    lemma_canon_type(ty);
}

/// The canonical text of what a plain type without tuples stands for holds angle brackets
/// only.
proof fn lemma_angle_only_type(ty: CanonicalType)
    requires
        ty.plain(),
        ty.tuple_free(),
    ensures
        angle_only(ty.canon().render()),
    decreases ty,
{
    let r = ty.canon().render();
    match ty {
        CanonicalType::Name(n) => {
            reveal_strlit("Option::<_>");
            reveal_strlit("Option::");
            reveal_strlit("_");
            reveal_strlit("i32");
            reveal_strlit("f64");
            reveal_strlit("String");
            if n == "None"@ {
                let hole = CanonicalType::Name("_"@);
                let one = CanonicalArgs::One(Box::new(hole));
                assert(hole.render() == "_"@);
                assert(one.render() == "_"@);
                assert(ty.canon() == CanonicalType::Generic("Option::"@, Box::new(one)));
                assert(r =~= "Option::<_>"@);
                assert(angle_only("Option::<_>"@));
            } else {
                assert(ty.canon() == CanonicalType::Name(canonical_name(n)));
                assert(angle_only("i32"@));
                assert(angle_only("f64"@));
                assert(angle_only("String"@));
                assert(angle_only(n));
            }
        },
        CanonicalType::Generic(base, args) => {
            lemma_angle_only_args(*args);
            let a = args.canon().render();
            assert(r == base + seq!['<'] + a + seq!['>']);
            assert forall|i: int| 0 <= i < r.len() implies {
                let c = #[trigger] r[i];
                c != '[' && c != ']' && c != '(' && c != ')'
            } by {
                if i < base.len() {
                    assert(r[i] == base[i]);
                } else if i == base.len() {
                    assert(r[i] == '<');
                } else if i < base.len() + 1 + a.len() {
                    assert(r[i] == a[i - base.len() - 1]);
                } else {
                    assert(r[i] == '>');
                }
            }
        },
        CanonicalType::Tuple(args) => {},
    }
}

/// The canonical text of what a plain list without tuples stands for holds angle brackets
/// only.
proof fn lemma_angle_only_args(args: CanonicalArgs)
    requires
        args.plain(),
        args.tuple_free(),
    ensures
        angle_only(args.canon().render()),
    decreases args,
{
    match args {
        CanonicalArgs::One(t) => {
            lemma_angle_only_type(*t);
        },
        CanonicalArgs::More(t, rest) => {
            lemma_angle_only_type(*t);
            lemma_angle_only_args(*rest);
            let r = args.canon().render();
            let a = t.canon().render();
            let c = rest.canon().render();
            assert(r == a + separator() + c);
            assert forall|i: int| 0 <= i < r.len() implies {
                let x = #[trigger] r[i];
                x != '[' && x != ']' && x != '(' && x != ')'
            } by {
                if i < a.len() {
                    assert(r[i] == a[i]);
                } else if i == a.len() {
                    assert(r[i] == ',');
                } else if i == a.len() + 1 {
                    assert(r[i] == ' ');
                } else {
                    assert(r[i] == c[i - a.len() - 2]);
                }
            }
        },
    }
}

/// The three bracket styles of one annotation have one canonical form, and where the
/// annotation holds no tuple that form holds angle brackets only.
pub proof fn lemma_one_canonical_form(ty: CanonicalType)
    requires
        ty.plain(),
    ensures
        normalize(ty.spelled(Brackets::Square)) == normalize(ty.spelled(Brackets::Angle)),
        normalize(ty.spelled(Brackets::Round)) == normalize(ty.spelled(Brackets::Angle)),
        ty.tuple_free() ==> angle_only(normalize(ty.spelled(Brackets::Angle))),
{
    lemma_normalize_spelled(ty, Brackets::Angle);
    lemma_normalize_spelled(ty, Brackets::Square);
    lemma_normalize_spelled(ty, Brackets::Round);
    if ty.tuple_free() {
        lemma_angle_only_type(ty);
    }
}

/// Normalizing an annotation that is already canonical gives it back unchanged: for every
/// canonical type, a name, a name with arguments or a tuple, the canonical form of its
/// text is its text.
pub proof fn lemma_normalize_is_identity_on_canonical(ty: CanonicalType)
    requires
        ty.well_formed(),
    ensures
        normalize(ty.render()) == ty.render(),
{
    lemma_canonical_type(ty);
    lemma_normalize_spelled(ty, Brackets::Angle);
}

/// Normalizing twice gives what normalizing once gives, for the text of every plain type
/// in every bracket style.
pub proof fn lemma_normalize_idempotent(ty: CanonicalType, b: Brackets)
    requires
        ty.plain(),
    ensures
        normalize(normalize(ty.spelled(b))) == normalize(ty.spelled(b)),
{
    lemma_normalize_spelled(ty, b);
    lemma_normalize_is_identity_on_canonical(ty.canon());
}

} // verus!
